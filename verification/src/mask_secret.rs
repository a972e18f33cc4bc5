//! Masking of secrets for log output: enough of the value to recognize it,
//! never enough to use it.

use vstd::prelude::*;
use crate::text::{repeat_char, repeated};

verus! {

/// The masked form of a secret of `s`'s characters: a value shorter than 3
/// characters is hidden entirely; up to 6 characters, the first one is kept;
/// beyond that, the first two and the last two are kept. Everything else
/// becomes `'*'`.
pub open spec fn mask_spec(s: Seq<char>) -> Seq<char> {
    let n = s.len() as int;
    if n < 3 {
        repeated('*', 2)
    } else if n <= 6 {
        seq![s[0]] + repeated('*', n - 1)
    } else {
        s.take(2) + repeated('*', n - 4) + s.skip(n - 2)
    }
}

/// Mask a secret for logging.
pub fn mask(s: &str) -> (r: String)
    ensures
        r@ == mask_spec(s@),
{
    let n = s.unicode_len();
    if n < 3 {
        repeat_char('*', 2)
    } else if n <= 6 {
        let mut r = String::from_str(s.substring_char(0, 1));
        let stars = repeat_char('*', n - 1);
        r.append(stars.as_str());
        proof {
            assert(s@.subrange(0, 1) =~= seq![s@[0]]);
        }
        r
    } else {
        let mut r = String::from_str(s.substring_char(0, 2));
        let stars = repeat_char('*', n - 4);
        r.append(stars.as_str());
        r.append(s.substring_char(n - 2, n));
        proof {
            assert(s@.subrange(0, 2) =~= s@.take(2));
            assert(s@.subrange(n - 2, n as int) =~= s@.skip(n - 2));
        }
        r
    }
}

} // verus!
