use vstd::prelude::*;
use vstd::string::StrSliceExecFns;

verus! {

/// One stored wish.
#[derive(Debug)]
pub struct Wish {
    pub value: String,
}

/// How many times `c` occurs in `s`.
pub open spec fn count_char(s: Seq<char>, c: char) -> int
    decreases s.len(),
{
    if s.len() == 0 {
        0
    } else {
        count_char(s.drop_last(), c) + (if s.last() == c {
            1int
        } else {
            0int
        })
    }
}

/// Splits a request path of the shape `route?key` at its question mark and
/// returns the key; a path with no question mark, or with more than one, is
/// not a well-formed request.
pub fn store_key_of_path(path: &str) -> (r: Option<String>)
    ensures
        match r {
            Some(key) => count_char(path@, '?') == 1 && (exists|p: int|
                0 <= p < path@.len() && path@[p] == '?' && key@ == path@.skip(p + 1)),
            None => count_char(path@, '?') != 1,
        },
{
    let n = path.unicode_len();
    let mut i: usize = 0;
    let mut seen: usize = 0;
    let mut pos: usize = 0;
    while i < n
        invariant
            n == path@.len(),
            i <= n,
            seen == count_char(path@.take(i as int), '?'),
            seen <= i,
            seen > 0 ==> (pos < i && path@[pos as int] == '?'),
        decreases n - i,
    {
        proof {
            assert(path@.take(i + 1int).drop_last() =~= path@.take(i as int));
            assert(path@.take(i + 1int).last() == path@[i as int]);
        }
        if path.get_char(i) == '?' {
            if seen == 0 {
                pos = i;
            }
            seen = seen + 1;
        }
        i = i + 1;
    }
    proof {
        assert(path@.take(n as int) =~= path@);
    }
    if seen == 1 {
        let tail = path.substring_char(pos + 1, n);
        let key = tail.to_owned();
        proof {
            assert(key@ =~= path@.skip(pos as int + 1));
        }
        Some(key)
    } else {
        None
    }
}

} // verus!
