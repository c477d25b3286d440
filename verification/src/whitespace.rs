//! White space, which means nothing in an expression and is taken out of the
//! text before it is scanned.

use vstd::prelude::*;

verus! {

/// Whether `c` is white space: one of the characters that Unicode marks as
/// `White_Space`.
pub open spec fn is_whitespace(c: char) -> bool {
    ||| '\u{0009}' <= c <= '\u{000d}'
    ||| c == '\u{0020}'
    ||| c == '\u{0085}'
    ||| c == '\u{00a0}'
    ||| c == '\u{1680}'
    ||| '\u{2000}' <= c <= '\u{200a}'
    ||| c == '\u{2028}'
    ||| c == '\u{2029}'
    ||| c == '\u{202f}'
    ||| c == '\u{205f}'
    ||| c == '\u{3000}'
}

/// The characters of `s` that are not white space, in their order.
pub open spec fn without_whitespace(s: Seq<char>) -> Seq<char> {
    s.filter(|c: char| !is_whitespace(c))
}

/// Whether `c` is white space.
pub fn whitespace(c: char) -> (r: bool)
    ensures
        r == is_whitespace(c),
{
    ('\u{0009}' <= c && c <= '\u{000d}') || c == '\u{0020}' || c == '\u{0085}' || c == '\u{00a0}'
        || c == '\u{1680}' || ('\u{2000}' <= c && c <= '\u{200a}') || c == '\u{2028}' || c
        == '\u{2029}' || c == '\u{202f}' || c == '\u{205f}' || c == '\u{3000}'
}

/// `text` without its white space.
pub fn strip_whitespace(text: &str) -> (stripped: String)
    ensures
        stripped@ == without_whitespace(text@),
{
    let mut stripped = String::new();
    let ghost mut seen: Seq<char> = Seq::empty();
    proof {
        reveal(Seq::filter);
    }
    for c in it: text.chars()
        invariant
            seen == it.seq().take(it.index() as int),
            stripped@ == without_whitespace(seen),
    {
        proof {
            reveal(Seq::filter);
            assert(seen.push(c).drop_last() =~= seen);
            seen = seen.push(c);
        }
        if !whitespace(c) {
            stripped.push(c);
        }
    }
    proof {
        assert(seen =~= text@);
    }
    stripped
}

} // verus!
