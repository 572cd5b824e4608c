//! Common helpers shared by the build front ends.

use vstd::prelude::*;

verus! {

/// A public URL bracketed by exactly one `/` on each side: what
/// [`parse_public_url`] returns.
pub open spec fn public_url(s: Seq<char>) -> Seq<char> {
    let pre: Seq<char> = if s.len() > 0 && s[0] == '/' {
        Seq::empty()
    } else {
        seq!['/']
    };
    let post: Seq<char> = if s.len() > 0 && s.last() == '/' {
        Seq::empty()
    } else {
        seq!['/']
    };
    pre + s + post
}

/// Ensures the given value for a public URL is formatted correctly:
/// it begins and ends with a slash.
pub fn parse_public_url(val: &str) -> (r: String)
    ensures
        r@ == public_url(val@),
{
    let n = val.unicode_len();
    let starts = n > 0 && val.get_char(0) == '/';
    let ends = n > 0 && val.get_char(n - 1) == '/';
    let mut r = String::new();
    if !starts {
        r.append("/");
    }
    r.append(val);
    if !ends {
        r.append("/");
    }
    proof {
        reveal_strlit("/");
        assert("/"@ =~= seq!['/']);
        assert(r@ =~= public_url(val@));
    }
    r
}

} // verus!
