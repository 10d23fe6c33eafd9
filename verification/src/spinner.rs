//! The text of the spinner that shows while an image is rebuilt.

use vstd::prelude::*;

use crate::text::concat;
use crate::text::substring;

verus! {

/// The characters that the spinner cycles through.
pub open spec fn cycle_chars() -> Seq<char> {
    seq!['⣷', '⣯', '⣟', '⡿', '⢿', '⣻', '⣽', '⣾']
}

/// The text that starts the spinner: the message, then room for the
/// spinning character.
pub fn spinner_start(msg: &str) -> (s: String)
    ensures
        s@ == msg@ + "  "@,
{
    concat(msg, "  ")
}

/// The text of spinner frame `i`: a backspace over the previous character,
/// then the `i`th character of the cycle; with the index of the next frame.
pub fn spinner_frame(i: usize) -> (r: (String, usize))
    requires
        i < cycle_chars().len(),
    ensures
        r.0@ == seq!['\u{8}', cycle_chars()[i as int]],
        r.1 == (i + 1) % (cycle_chars().len() as int),
{
    let chars = "⣷⣯⣟⡿⢿⣻⣽⣾";
    let backspace = "\u{8}";
    proof {
        reveal_strlit("⣷⣯⣟⡿⢿⣻⣽⣾");
        reveal_strlit("\u{8}");
        assert(chars@ =~= cycle_chars());
    }
    let c = substring(chars, i, i + 1);
    let frame = concat(backspace, c.as_str());
    proof {
        assert(frame@ =~= seq!['\u{8}', cycle_chars()[i as int]]);
    }
    (frame, (i + 1) % 8)
}

/// The text that ends the spinner: the cursor back to the start of the
/// line, and the line cleared.
pub fn spinner_end() -> (s: String)
    ensures
        s@ == "\u{1b}[1G\u{1b}[2K"@,
{
    String::from_str("\u{1b}[1G\u{1b}[2K")
}

} // verus!
