//! Colour capability: how much colour the terminal can render.
//!
//! Reading the environment is the program's step; the rule that turns the
//! values it found into a capability lives here, where it can be held to
//! the `NO_COLOR` convention and to `TERM=dumb`.

use vstd::prelude::*;
use crate::text::{chars_of, contains_chars, occurs, same_text};

verus! {

/// How much colour the current terminal can render.
#[derive(Debug, Clone, Copy, PartialEq, Eq)]
pub enum ColorSupport {
    /// 24-bit truecolor (`COLORTERM=truecolor|24bit`).
    Truecolor,
    /// 256-colour palette (`TERM` mentions `256color`).
    Ansi256,
    /// 16-colour palette (baseline `xterm`, `vt100`, …).
    Ansi16,
    /// Colour suppressed (`NO_COLOR` set, or `TERM=dumb`).
    Monochrome,
}

/// The capability the environment values imply: `NO_COLOR` set to anything
/// non-empty, or a `TERM` that is `dumb` or empty, means no colour;
/// otherwise `COLORTERM` of `truecolor` or `24bit` means truecolor, a `TERM`
/// mentioning `256color` means 256 colours, and anything else 16.
pub open spec fn support_for(no_color: Option<Seq<char>>, term: Seq<char>, colorterm: Seq<char>) -> ColorSupport {
    if no_color is Some && no_color->0.len() > 0 {
        ColorSupport::Monochrome
    } else if term == "dumb"@ || term.len() == 0 {
        ColorSupport::Monochrome
    } else if colorterm == "truecolor"@ || colorterm == "24bit"@ {
        ColorSupport::Truecolor
    } else if occurs(term, "256color"@) {
        ColorSupport::Ansi256
    } else {
        ColorSupport::Ansi16
    }
}

impl ColorSupport {
    /// The capability implied by a given set of environment values.
    pub fn from_env_vars(no_color: Option<&str>, term: &str, colorterm: &str) -> (r: Self)
        ensures
            r == support_for(
                match no_color {
                    Some(v) => Some(v@),
                    None => None,
                },
                term@,
                colorterm@,
            ),
    {
        match no_color {
            Some(v) => {
                if chars_of(v).len() > 0 {
                    return ColorSupport::Monochrome;
                }
            },
            None => {},
        }
        let t = chars_of(term);
        if same_text(term, "dumb") || t.len() == 0 {
            return ColorSupport::Monochrome;
        }
        if same_text(colorterm, "truecolor") || same_text(colorterm, "24bit") {
            return ColorSupport::Truecolor;
        }
        let pat = chars_of("256color");
        if contains_chars(t.as_slice(), pat.as_slice()) {
            return ColorSupport::Ansi256;
        }
        ColorSupport::Ansi16
    }
}

} // verus!
