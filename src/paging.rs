use vstd::prelude::*;

verus! {

/// Lexicographic order on character sequences (code point by code point,
/// a proper prefix first). On UTF-8 text this is the order of `str`.
pub open spec fn seq_lt(a: Seq<char>, b: Seq<char>) -> bool
    decreases a.len(),
{
    if a.len() == 0 {
        b.len() > 0
    } else if b.len() == 0 {
        false
    } else if a[0] != b[0] {
        a[0] < b[0]
    } else {
        seq_lt(a.drop_first(), b.drop_first())
    }
}

pub proof fn lemma_lt_irreflexive(a: Seq<char>)
    ensures
        !seq_lt(a, a),
    decreases a.len(),
{
    if a.len() > 0 {
        lemma_lt_irreflexive(a.drop_first());
    }
}

pub proof fn lemma_lt_transitive(a: Seq<char>, b: Seq<char>, c: Seq<char>)
    requires
        seq_lt(a, b),
        seq_lt(b, c),
    ensures
        seq_lt(a, c),
    decreases a.len(),
{
    if a.len() > 0 && b.len() > 0 && c.len() > 0 {
        if a[0] == b[0] && b[0] == c[0] {
            lemma_lt_transitive(a.drop_first(), b.drop_first(), c.drop_first());
        }
    }
}

pub proof fn lemma_lt_total(a: Seq<char>, b: Seq<char>)
    requires
        a != b,
    ensures
        seq_lt(a, b) || seq_lt(b, a),
    decreases a.len(),
{
    if a.len() > 0 && b.len() > 0 {
        if a[0] == b[0] {
            if a.drop_first() == b.drop_first() {
                assert(a =~= seq![a[0]] + a.drop_first());
                assert(b =~= seq![b[0]] + b.drop_first());
            }
            lemma_lt_total(a.drop_first(), b.drop_first());
        }
    } else if a.len() == 0 && b.len() == 0 {
        assert(a =~= b);
    }
}

/// Whether `a` sorts before `b`.
pub fn string_lt(a: &String, b: &String) -> (r: bool)
    ensures
        r == seq_lt(a@, b@),
{
    let sa = a.as_str();
    let sb = b.as_str();
    let na = sa.unicode_len();
    let nb = sb.unicode_len();
    let mut i: usize = 0;
    assert(a@.subrange(0, na as int) =~= a@);
    assert(b@.subrange(0, nb as int) =~= b@);
    while i < na && i < nb
        invariant
            na == a@.len(),
            nb == b@.len(),
            sa@ == a@,
            sb@ == b@,
            i <= na,
            i <= nb,
            seq_lt(a@, b@) == seq_lt(a@.subrange(i as int, na as int), b@.subrange(i as int, nb as int)),
        decreases na - i,
    {
        let ca = sa.get_char(i);
        let cb = sb.get_char(i);
        let ghost x = a@.subrange(i as int, na as int);
        let ghost y = b@.subrange(i as int, nb as int);
        assert(x[0] == ca && y[0] == cb);
        if ca != cb {
            return ca < cb;
        }
        assert(x.drop_first() =~= a@.subrange(i + 1, na as int));
        assert(y.drop_first() =~= b@.subrange(i + 1, nb as int));
        i = i + 1;
    }
    i < nb && i == na
}

/// Above the cursor: any value when there is none, else strictly after it.
pub open spec fn above(x: Seq<char>, cursor: Option<Seq<char>>) -> bool {
    cursor is None || seq_lt(cursor->0, x)
}

/// The view of an optional owned string.
pub open spec fn opt_view(b: Option<String>) -> Option<Seq<char>> {
    match b {
        Some(s) => Some(s@),
        None => None,
    }
}

/// `x` is one of the strings of `s`.
pub open spec fn holds(s: Seq<String>, x: Seq<char>) -> bool {
    exists|i: int| 0 <= i < s.len() && s[i]@ == x
}

/// What a page of `n` names after `last` is: strictly ascending names that
/// `member` holds of and that sort after `last`, at most `n` of them, and no
/// such name is left out unless the page is full and the name sorts after
/// the page's last entry.
pub open spec fn is_page(
    page: Seq<String>,
    member: spec_fn(Seq<char>) -> bool,
    n: nat,
    last: Option<Seq<char>>,
) -> bool {
    &&& page.len() <= n
    &&& forall|i: int| 0 <= i < page.len() ==> member(#[trigger] page[i]@) && above(page[i]@, last)
    &&& forall|i: int, j: int| 0 <= i < j < page.len() ==> seq_lt(#[trigger] page[i]@, #[trigger] page[j]@)
    &&& forall|x: Seq<char>|
        #[trigger] member(x) && above(x, last) && !holds(page, x) ==> page.len() == n && (page.len()
            > 0 ==> seq_lt(page[page.len() - 1]@, x))
}

proof fn page_complete(page: Seq<String>, all: Seq<String>, n: nat, last: Option<Seq<char>>)
    requires
        page.len() <= n,
        forall|i: int| 0 <= i < page.len() ==> holds(all, #[trigger] page[i]@) && above(page[i]@, last),
        forall|i: int, j: int| 0 <= i < j < page.len() ==> seq_lt(#[trigger] page[i]@, #[trigger] page[j]@),
        forall|k: int|
            0 <= k < all.len() && above(#[trigger] all[k]@, last) && !holds(page, all[k]@) ==> page.len()
                == n && (page.len() > 0 ==> seq_lt(page[page.len() - 1]@, all[k]@)),
    ensures
        is_page(page, |x: Seq<char>| holds(all, x), n, last),
        forall|x: Seq<char>|
            #[trigger] holds(all, x) && above(x, last) && !holds(page, x) ==> page.len() == n && (
            page.len() > 0 ==> seq_lt(page[page.len() - 1]@, x)),
{
    assert forall|x: Seq<char>|
        #[trigger] holds(all, x) && above(x, last) && !holds(page, x) implies page.len() == n && (page.len()
            > 0 ==> seq_lt(page[page.len() - 1]@, x)) by {
        let k = choose|k: int| 0 <= k < all.len() && all[k]@ == x;
    }
}

/// The least name of `all` above the cursor.
fn least_above(all: &Vec<String>, cursor: &Option<String>) -> (r: Option<usize>)
    ensures
        match r {
            Some(i) => i < all@.len() && above(all@[i as int]@, opt_view(*cursor))
                && forall|j: int|
                0 <= j < all@.len() && above(all@[j]@, opt_view(*cursor)) ==> !seq_lt(
                    #[trigger] all@[j]@,
                    all@[i as int]@,
                ),
            None => forall|j: int|
                0 <= j < all@.len() ==> !above(#[trigger] all@[j]@, opt_view(*cursor)),
        },
{
    let ghost cur = opt_view(*cursor);
    let mut best: Option<usize> = None;
    let mut k: usize = 0;
    while k < all.len()
        invariant
            k <= all@.len(),
            cur == opt_view(*cursor),
            match best {
                Some(i) => i < k && above(all@[i as int]@, cur) && forall|j: int|
                    0 <= j < k && above(all@[j]@, cur) ==> !seq_lt(#[trigger] all@[j]@, all@[i as int]@),
                None => forall|j: int| 0 <= j < k ==> !above(#[trigger] all@[j]@, cur),
            },
        decreases all@.len() - k,
    {
        let ok = match cursor {
            Some(c) => string_lt(c, &all[k]),
            None => true,
        };
        if ok {
            match best {
                Some(i) => {
                    if string_lt(&all[k], &all[i]) {
                        proof {
                            assert forall|j: int|
                                0 <= j < k + 1 && above(all@[j]@, cur) implies !seq_lt(
                                #[trigger] all@[j]@,
                                all@[k as int]@,
                            ) by {
                                if j < k && seq_lt(all@[j]@, all@[k as int]@) {
                                    lemma_lt_transitive(all@[j]@, all@[k as int]@, all@[i as int]@);
                                }
                                if j == k {
                                    lemma_lt_irreflexive(all@[k as int]@);
                                }
                            }
                        }
                        best = Some(k);
                    } else {
                        proof {
                            assert forall|j: int|
                                0 <= j < k + 1 && above(all@[j]@, cur) implies !seq_lt(
                                #[trigger] all@[j]@,
                                all@[i as int]@,
                            ) by {}
                        }
                    }
                },
                None => {
                    proof {
                        assert forall|j: int|
                            0 <= j < k + 1 && above(all@[j]@, cur) implies !seq_lt(
                            #[trigger] all@[j]@,
                            all@[k as int]@,
                        ) by {
                            if j == k {
                                lemma_lt_irreflexive(all@[k as int]@);
                            }
                        }
                    }
                    best = Some(k);
                },
            }
        }
        k = k + 1;
    }
    best
}

/// The page of at most `n` names of `all` that sort after `last`, in
/// ascending order.
pub fn page_after(all: &Vec<String>, n: usize, last: &Option<String>) -> (r: Vec<String>)
    ensures
        is_page(r@, |x: Seq<char>| holds(all@, x), n as nat, opt_view(*last)),
        forall|i: int| 0 <= i < r@.len() ==> holds(all@, #[trigger] r@[i]@),
        forall|x: Seq<char>|
            #[trigger] holds(all@, x) && above(x, opt_view(*last)) && !holds(r@, x) ==> r@.len() == n
                && (r@.len() > 0 ==> seq_lt(r@[r@.len() - 1]@, x)),
{
    let ghost lb = opt_view(*last);
    let mut out: Vec<String> = Vec::new();
    let mut cursor: Option<String> = match last {
        Some(s) => Some(s.clone()),
        None => None,
    };
    while out.len() < n
        invariant
            out@.len() <= n,
            lb == opt_view(*last),
            forall|i: int| 0 <= i < out@.len() ==> holds(all@, #[trigger] out@[i]@) && above(out@[i]@, lb),
            forall|i: int, j: int|
                0 <= i < j < out@.len() ==> seq_lt(#[trigger] out@[i]@, #[trigger] out@[j]@),
            out@.len() == 0 ==> opt_view(cursor) == lb,
            out@.len() > 0 ==> opt_view(cursor) == Some(out@[out@.len() - 1]@),
            forall|k: int|
                0 <= k < all@.len() && above(#[trigger] all@[k]@, lb) && !above(
                    all@[k]@,
                    opt_view(cursor),
                ) ==> holds(out@, all@[k]@),
        decreases n - out@.len(),
    {
        match least_above(all, &cursor) {
            Some(i) => {
                let ghost o = out@;
                let ghost m = all@[i as int]@;
                let ghost cur = opt_view(cursor);
                out.push(all[i].clone());
                cursor = Some(all[i].clone());
                proof {
                    assert(out@[o.len() as int]@ == m);
                    assert forall|p: int| 0 <= p < o.len() implies seq_lt(#[trigger] o[p]@, m) by {
                        let l = o.len() - 1;
                        if p < l {
                            assert(seq_lt(o[p]@, o[l]@));
                            lemma_lt_transitive(o[p]@, o[l]@, m);
                        }
                    }
                    assert forall|x: int, y: int|
                        0 <= x < y < out@.len() implies seq_lt(#[trigger] out@[x]@, #[trigger] out@[y]@) by {
                        if y < o.len() {
                            assert(out@[x] == o[x] && out@[y] == o[y]);
                        } else {
                            assert(out@[x] == o[x]);
                        }
                    }
                    assert forall|x: int| 0 <= x < out@.len() implies holds(all@, #[trigger] out@[x]@)
                        && above(out@[x]@, lb) by {
                        if x < o.len() {
                            assert(out@[x] == o[x]);
                        } else {
                            assert(out@[x]@ == all@[i as int]@);
                            if o.len() > 0 {
                                let l = o.len() - 1;
                                if lb is Some {
                                    assert(seq_lt(lb->0, o[l]@));
                                    lemma_lt_transitive(lb->0, o[l]@, m);
                                }
                            }
                        }
                    }
                    assert forall|k: int|
                        0 <= k < all@.len() && above(#[trigger] all@[k]@, lb) && !above(
                            all@[k]@,
                            opt_view(cursor),
                        ) implies holds(out@, all@[k]@) by {
                        if !above(all@[k]@, cur) {
                            let q = choose|q: int| 0 <= q < o.len() && o[q]@ == all@[k]@;
                            assert(out@[q] == o[q]);
                        } else {
                            assert(!seq_lt(all@[k]@, m));
                            if all@[k]@ != m {
                                lemma_lt_total(all@[k]@, m);
                            }
                            assert(out@[o.len() as int]@ == all@[k]@);
                        }
                    }
                }
            },
            None => {
                proof {
                    assert forall|k: int|
                        0 <= k < all@.len() && above(#[trigger] all@[k]@, lb) && !holds(out@, all@[k]@)
                        implies out@.len() == n as nat && (out@.len() > 0 ==> seq_lt(
                        out@[out@.len() - 1]@,
                        all@[k]@,
                    )) by {
                        assert(!above(all@[k]@, opt_view(cursor)));
                    }
                }
                return out;
            },
        }
    }
    proof {
        assert forall|k: int|
            0 <= k < all@.len() && above(#[trigger] all@[k]@, lb) && !holds(out@, all@[k]@) implies out@.len()
            == n as nat && (out@.len() > 0 ==> seq_lt(out@[out@.len() - 1]@, all@[k]@)) by {
        }
        page_complete(out@, all@, n as nat, lb);
    }
    out
}

} // verus!
