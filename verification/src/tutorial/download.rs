//! Where a download is stored.

use vstd::prelude::*;
use vstd::string::StrSliceExecFns;

verus! {

/// Where the last `/` of `s` stands, if there is one.
pub open spec fn last_slash(s: Seq<char>) -> Option<int>
    decreases s.len(),
{
    if s.len() == 0 {
        None
    } else if s.last() == '/' {
        Some(s.len() - 1)
    } else {
        last_slash(s.drop_last())
    }
}

/// What of `s` stands behind its last `/`: all of it, if it has none.
pub open spec fn after_last_slash(s: Seq<char>) -> Seq<char> {
    match last_slash(s) {
        Some(k) => s.skip(k + 1),
        None => s,
    }
}

/// The name under which the download of `url` is stored: what stands behind
/// its last `/`.
pub fn file_name(url: &str) -> (r: &str)
    ensures
        r@ == after_last_slash(url@),
{
    let n: usize = url.unicode_len();
    let mut start: usize = 0;
    let mut i: usize = 0;
    while i < n
        invariant
            i <= n,
            n == url@.len(),
            start <= i,
            match last_slash(url@.take(i as int)) {
                Some(k) => start == k + 1,
                None => start == 0,
            },
        decreases n - i,
    {
        proof {
            assert(url@.take(i + 1).drop_last() =~= url@.take(i as int));
            assert(url@.take(i + 1).last() == url@[i as int]);
        }
        if url.get_char(i) == '/' {
            start = i + 1;
        }
        i = i + 1;
    }
    assert(url@.take(n as int) =~= url@);
    assert(url@.subrange(start as int, n as int) =~= url@.skip(start as int));
    url.substring_char(start, n)
}

} // verus!
