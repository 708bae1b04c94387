use vstd::prelude::*;
use vstd::slice::{slice_subrange, slice_to_vec};
use crate::error::RegistryError;
use crate::number::{decimal_of, parse_u64_in, parse_u64_of, u64_to_decimal};

verus! {

/// The index of the first `c` in `s` at or after `i`, or -1.
pub open spec fn find_char_from(s: Seq<char>, c: char, i: int) -> int
    decreases s.len() - i,
{
    if i < 0 || i >= s.len() {
        -1
    } else if s[i] == c {
        i
    } else {
        find_char_from(s, c, i + 1)
    }
}

/// `bytes=`, the unit prefix of a `Range` header.
pub open spec fn bytes_unit_prefix() -> Seq<char> {
    seq!['b', 'y', 't', 'e', 's', '=']
}

/// Starts with `bytes=`.
pub open spec fn has_bytes_prefix(h: Seq<char>) -> bool {
    h.len() >= 6 && h.subrange(0, 6) == bytes_unit_prefix()
}

/// The inclusive byte range `(start, end)` that a `Range: bytes=start-end`
/// header selects in a body of `len` bytes. An empty `end` means the last
/// byte, an `end` past the body is cut to the last byte, and a range that
/// is reversed or starts at or past the end selects nothing.
pub open spec fn selected_range(len: nat, h: Seq<char>) -> Option<(nat, nat)> {
    let k = find_char_from(h, '-', 6);
    if !has_bytes_prefix(h) || k < 0 || len == 0 {
        None
    } else {
        let ps = parse_u64_of(h.subrange(6, k));
        let es = h.subrange(k + 1, h.len() as int);
        let pe = parse_u64_of(es);
        if ps is None || (es.len() != 0 && pe is None) {
            None
        } else {
            let start = ps->0 as nat;
            let end: nat = if es.len() == 0 {
                (len - 1) as nat
            } else if pe->0 as nat > len - 1 {
                (len - 1) as nat
            } else {
                pe->0 as nat
            };
            if start <= end && start < len {
                Some((start, end))
            } else {
                None
            }
        }
    }
}

/// A part of a blob picked out by a range read.
pub struct RangeData {
    pub start: usize,
    pub end: usize,
    pub data: Vec<u8>,
}

/// The index of the first `c` in `s` at or after `from`.
pub fn find_char(s: &str, c: char, from: usize) -> (r: Option<usize>)
    ensures
        match r {
            Some(k) => k as int == find_char_from(s@, c, from as int) && from <= k < s@.len()
                && s@[k as int] == c,
            None => find_char_from(s@, c, from as int) == -1,
        },
{
    let n = s.unicode_len();
    let mut i = from;
    if i >= n {
        return None;
    }
    while i < n
        invariant
            n == s@.len(),
            from <= i,
            i <= n,
            find_char_from(s@, c, from as int) == find_char_from(s@, c, i as int),
        decreases n - i,
    {
        if s.get_char(i) == c {
            return Some(i);
        }
        i = i + 1;
    }
    None
}

/// Whether `s` starts with `bytes=`.
fn starts_with_bytes_unit(s: &str) -> (r: bool)
    ensures
        r == has_bytes_prefix(s@),
{
    let n = s.unicode_len();
    if n < 6 {
        return false;
    }
    let prefix = "bytes=";
    proof {
        reveal_strlit("bytes=");
        assert(prefix@ =~= bytes_unit_prefix());
    }
    let mut i: usize = 0;
    while i < 6
        invariant
            n == s@.len(),
            n >= 6,
            0 <= i <= 6,
            prefix@ == bytes_unit_prefix(),
            forall|j: int| 0 <= j < i ==> s@[j] == bytes_unit_prefix()[j],
        decreases 6 - i,
    {
        if s.get_char(i) != prefix.get_char(i) {
            return false;
        }
        i = i + 1;
    }
    assert(s@.subrange(0, 6) =~= bytes_unit_prefix());
    true
}

/// Picks out the bytes that a `Range: bytes=start-end` header asks for.
pub fn handle_range_request(data: &[u8], range_header: &str) -> (r: Option<RangeData>)
    ensures
        match selected_range(data@.len(), range_header@) {
            None => r is None,
            Some((s, e)) => r is Some && r->0.start == s && r->0.end == e
                && r->0.data@ == data@.subrange(s as int, (e + 1) as int),
        },
{
    if !starts_with_bytes_unit(range_header) {
        return None;
    }
    let n = range_header.unicode_len();
    let dash = match find_char(range_header, '-', 6) {
        Some(k) => k,
        None => return None,
    };
    let len = data.len();
    if len == 0 {
        return None;
    }
    let start = match parse_u64_in(range_header, 6, dash) {
        Some(v) => v,
        None => return None,
    };
    let last = (len - 1) as u64;
    let end: u64 = if dash + 1 == n {
        last
    } else {
        match parse_u64_in(range_header, dash + 1, n) {
            Some(v) => if v > last {
                last
            } else {
                v
            },
            None => return None,
        }
    };
    if start <= end && start < len as u64 {
        let s = start as usize;
        let e = end as usize;
        let part = slice_to_vec(slice_subrange(data, s, e + 1));
        Some(RangeData { start: s, end: e, data: part })
    } else {
        None
    }
}

/// `start-end` as a `Content-Range` value: with or without the `bytes=`
/// unit, exactly one `-`, and an empty end meaning "to the end".
pub open spec fn content_range_of(t: Seq<char>) -> Option<(u64, u64)> {
    let body = if has_bytes_prefix(t) { t.subrange(6, t.len() as int) } else { t };
    let k = find_char_from(body, '-', 0);
    if k < 0 || find_char_from(body, '-', k + 1) >= 0 {
        None
    } else {
        let ps = parse_u64_of(body.subrange(0, k));
        let es = body.subrange(k + 1, body.len() as int);
        let pe = parse_u64_of(es);
        if ps is None || (es.len() != 0 && pe is None) {
            None
        } else {
            let end = if es.len() == 0 { u64::MAX } else { pe->0 };
            if ps->0 > end {
                None
            } else {
                Some((ps->0, end))
            }
        }
    }
}

proof fn lemma_find_shift(h: Seq<char>, c: char, off: int, i: int)
    requires
        0 <= off <= h.len(),
        0 <= i,
    ensures
        find_char_from(h.subrange(off, h.len() as int), c, i) == (if find_char_from(
            h,
            c,
            off + i,
        ) < 0 {
            -1
        } else {
            find_char_from(h, c, off + i) - off
        }),
    decreases h.len() - off - i,
{
    if off + i < h.len() {
        lemma_find_shift(h, c, off, i + 1);
    }
}

/// Reads a `Content-Range` value into its inclusive `(start, end)`;
/// `RangeInvalid` when it is malformed or reversed.
pub fn parse_content_range(range: &str) -> (r: Result<(u64, u64), RegistryError>)
    ensures
        match content_range_of(range@) {
            Some(p) => r == Ok::<(u64, u64), RegistryError>(p),
            None => r == Err::<(u64, u64), RegistryError>(RegistryError::RangeInvalid),
        },
{
    let n = range.unicode_len();
    let off: usize = if starts_with_bytes_unit(range) { 6 } else { 0 };
    let ghost body = if has_bytes_prefix(range@) { range@.subrange(6, n as int) } else { range@ };
    proof {
        if off == 0 {
            assert(body =~= range@.subrange(0, n as int));
        }
        lemma_find_shift(range@, '-', off as int, 0);
    }
    let dash = match find_char(range, '-', off) {
        Some(k) => k,
        None => return Err(RegistryError::RangeInvalid),
    };
    proof {
        lemma_find_shift(range@, '-', off as int, (dash - off + 1) as int);
        assert(body.subrange(0, dash - off) =~= range@.subrange(off as int, dash as int));
        assert(body.subrange(dash - off + 1, body.len() as int) =~= range@.subrange(
            dash + 1,
            n as int,
        ));
    }
    if find_char(range, '-', dash + 1).is_some() {
        return Err(RegistryError::RangeInvalid);
    }
    let start = match parse_u64_in(range, off, dash) {
        Some(v) => v,
        None => return Err(RegistryError::RangeInvalid),
    };
    let end: u64 = if dash + 1 == n {
        u64::MAX
    } else {
        match parse_u64_in(range, dash + 1, n) {
            Some(v) => v,
            None => return Err(RegistryError::RangeInvalid),
        }
    };
    if start > end {
        return Err(RegistryError::RangeInvalid);
    }
    Ok((start, end))
}

/// `bytes start-end/total`, with `*` for an unknown total.
pub open spec fn content_range_text(start: u64, end: u64, total: Option<u64>) -> Seq<char> {
    seq!['b', 'y', 't', 'e', 's', ' '] + decimal_of(start as nat) + seq!['-'] + decimal_of(
        end as nat,
    ) + seq!['/'] + match total {
        Some(t) => decimal_of(t as nat),
        None => seq!['*'],
    }
}

/// Formats a `Content-Range` header value.
pub fn format_content_range(start: u64, end: u64, total: Option<u64>) -> (r: String)
    ensures
        r@ == content_range_text(start, end, total),
{
    proof {
        reveal_strlit("bytes ");
        reveal_strlit("-");
        reveal_strlit("/");
        reveal_strlit("*");
    }
    let s = String::from_str("bytes ");
    let a = u64_to_decimal(start);
    let s = s.concat(a.as_str());
    let s = s.concat("-");
    let b = u64_to_decimal(end);
    let s = s.concat(b.as_str());
    let s = s.concat("/");
    let r = match total {
        Some(t) => {
            let c = u64_to_decimal(t);
            s.concat(c.as_str())
        },
        None => s.concat("*"),
    };
    assert(r@ =~= content_range_text(start, end, total));
    r
}

} // verus!
