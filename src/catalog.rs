use vstd::prelude::*;
use crate::error::RegistryError;
use crate::model::has_tag;
use crate::paging::{holds, is_page, opt_view, page_after};
use crate::registry::Registry;
use crate::validate::{is_valid_repository_name, validate_repository_name};

verus! {

/// Page size used where a client gives none.
pub const DEFAULT_PAGE_SIZE: usize = 1000;

/// The page size a request asks for.
pub open spec fn page_size(n: Option<usize>) -> nat {
    match n {
        Some(v) => v as nat,
        None => DEFAULT_PAGE_SIZE as nat,
    }
}

impl Registry {
    /// The names of the tags of repository `name`.
    fn tag_names(&self, name: &String) -> (r: Vec<String>)
        ensures
            forall|x: Seq<char>| #[trigger] holds(r@, x) <==> has_tag(self.index.tags@, name@, x),
    {
        let ts = &self.index.tags;
        let mut out: Vec<String> = Vec::new();
        let mut k: usize = 0;
        while k < ts.len()
            invariant
                k <= ts@.len(),
                ts == &self.index.tags,
                forall|x: Seq<char>| #[trigger]
                    holds(out@, x) <==> exists|j: int|
                        0 <= j < k && ts@[j].repository@ == name@ && ts@[j].name@ == x,
            decreases ts@.len() - k,
        {
            if ts[k].repository == *name {
                let ghost o = out@;
                out.push(ts[k].name.clone());
                proof {
                    assert forall|x: Seq<char>| #[trigger]
                        holds(out@, x) <==> exists|j: int|
                            0 <= j < k + 1 && ts@[j].repository@ == name@ && ts@[j].name@ == x by {
                        if holds(out@, x) {
                            let i = choose|i: int| 0 <= i < out@.len() && out@[i]@ == x;
                            if i < o.len() {
                                assert(out@[i] == o[i]);
                                assert(holds(o, x));
                            } else {
                                assert(ts@[k as int].name@ == x);
                            }
                        }
                        if exists|j: int|
                            0 <= j < k + 1 && ts@[j].repository@ == name@ && ts@[j].name@ == x {
                            let j = choose|j: int|
                                0 <= j < k + 1 && ts@[j].repository@ == name@ && ts@[j].name@ == x;
                            if j < k {
                                assert(holds(o, x));
                                let i = choose|i: int| 0 <= i < o.len() && o[i]@ == x;
                                assert(out@[i] == o[i]);
                            } else {
                                assert(out@[o.len() as int]@ == x);
                            }
                        }
                    }
                }
            } else {
                proof {
                    assert forall|x: Seq<char>| #[trigger]
                        holds(out@, x) <==> exists|j: int|
                            0 <= j < k + 1 && ts@[j].repository@ == name@ && ts@[j].name@ == x by {
                        if exists|j: int|
                            0 <= j < k + 1 && ts@[j].repository@ == name@ && ts@[j].name@ == x {
                            let j = choose|j: int|
                                0 <= j < k + 1 && ts@[j].repository@ == name@ && ts@[j].name@ == x;
                            assert(j < k);
                        }
                    }
                }
            }
            k = k + 1;
        }
        out
    }

    /// A page of the tags of repository `name`: at most `n` names (1000
    /// when none is given) that sort after `last`, in ascending order.
    pub fn list_tags(&self, name: &str, n: Option<usize>, last: Option<&str>) -> (r: Result<
        Vec<String>,
        RegistryError,
    >)
        requires
            self.wf(),
        ensures
            !is_valid_repository_name(name@) ==> r == Err::<Vec<String>, RegistryError>(
                RegistryError::NameInvalid,
            ),
            is_valid_repository_name(name@) && !self.has_repository(name@) ==> r == Err::<
                Vec<String>,
                RegistryError,
            >(RegistryError::NameUnknown),
            is_valid_repository_name(name@) && self.has_repository(name@) ==> r is Ok && is_page(
                r->Ok_0@,
                |x: Seq<char>| has_tag(self.index.tags@, name@, x),
                page_size(n),
                match last {
                    Some(l) => Some(l@),
                    None => None,
                },
            ),
    {
        validate_repository_name(name)?;
        let names = String::from_str(name);
        if !self.repository_exists(&names) {
            return Err(RegistryError::NameUnknown);
        }
        let all = self.tag_names(&names);
        let size = match n {
            Some(v) => v,
            None => DEFAULT_PAGE_SIZE,
        };
        let last_s = match last {
            Some(l) => Some(String::from_str(l)),
            None => None,
        };
        let page = page_after(&all, size, &last_s);
        proof {
            let lb = match last {
                Some(l) => Some(l@),
                None => None,
            };
            assert(opt_view(last_s) == lb);
            let member = |x: Seq<char>| has_tag(self.index.tags@, name@, x);
            assert forall|x: Seq<char>|
                #[trigger] member(x) && crate::paging::above(x, lb) && !holds(page@, x) implies page@.len()
                    == size && (page@.len() > 0 ==> crate::paging::seq_lt(page@[page@.len() - 1]@, x)) by {
                assert(holds(all@, x));
            }
            assert forall|i: int| 0 <= i < page@.len() implies member(#[trigger] page@[i]@) by {
                assert(holds(all@, page@[i]@));
            }
        }
        Ok(page)
    }

    /// A page of the repository names: at most `n` (1000 when none is
    /// given) that sort after `last`, in ascending order.
    pub fn get_catalog(&self, n: Option<usize>, last: Option<&str>) -> (r: Vec<String>)
        requires
            self.wf(),
        ensures
            is_page(
                r@,
                |x: Seq<char>| self.has_repository(x),
                page_size(n),
                match last {
                    Some(l) => Some(l@),
                    None => None,
                },
            ),
    {
        let size = match n {
            Some(v) => v,
            None => DEFAULT_PAGE_SIZE,
        };
        let last_s = match last {
            Some(l) => Some(String::from_str(l)),
            None => None,
        };
        let page = page_after(&self.index.repositories, size, &last_s);
        proof {
            let lb = match last {
                Some(l) => Some(l@),
                None => None,
            };
            assert(opt_view(last_s) == lb);
            let member = |x: Seq<char>| self.has_repository(x);
            assert forall|x: Seq<char>|
                #[trigger] member(x) && crate::paging::above(x, lb) && !holds(page@, x) implies page@.len()
                    == size && (page@.len() > 0 ==> crate::paging::seq_lt(page@[page@.len() - 1]@, x)) by {
                assert(holds(self.index.repositories@, x));
            }
            assert forall|i: int| 0 <= i < page@.len() implies member(#[trigger] page@[i]@) by {
                assert(holds(self.index.repositories@, page@[i]@));
            }
        }
        page
    }
}

} // verus!
