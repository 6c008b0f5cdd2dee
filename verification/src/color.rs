//! Colors as the engine carries them.
//!
//! A color lives in a perceptual three-component encoding; the engine never
//! computes on the components, it only lays them out in buffers and reads
//! them back, so they are carried as opaque scalar bit patterns. Parsing a
//! textual color yields its 8-bit RGB channels; the conversion into the
//! perceptual encoding is floating-point work the runner does.

use vstd::prelude::*;
use crate::layer::Scalar;

verus! {

/// A color in the engine's perceptual encoding, each component a scalar bit
/// pattern.
#[derive(Debug, PartialEq, Eq, Structural, Clone, Copy)]
pub struct Color {
    pub l: Scalar,
    pub a: Scalar,
    pub b: Scalar,
}

impl Color {
    /// The color at the head of a read-back output buffer: its first three
    /// scalars, in component order.
    pub fn from_output(outputs: &Vec<Scalar>) -> (r: Color)
        requires
            outputs@.len() >= 3,
        ensures
            r.l == outputs@[0],
            r.a == outputs@[1],
            r.b == outputs@[2],
    {
        Color { l: outputs[0], a: outputs[1], b: outputs[2] }
    }
}

/// What parsing a textual color yields: its 8-bit red, green and blue
/// channels, or nothing for text that names no color. The parse is a function
/// of the text alone.
pub uninterp spec fn color_from_text(s: Seq<char>) -> Option<(u8, u8, u8)>;

/// Color text the parser is safe on: text without an opening parenthesis.
/// Hex and named color syntax never holds one; only css-function syntax
/// (`rgb(..)` and the like) does, and that path of the parser is excluded
/// below.
pub open spec fn spec_plain_color_text(s: Seq<char>) -> bool {
    forall|i: int| 0 <= i < s.len() ==> s[i] != '('
}

/// Whether color text stays clear of the parser's css-function path.
pub fn is_plain_color_text(s: &str) -> (r: bool)
    ensures
        r == spec_plain_color_text(s@),
{
    let n = s.unicode_len();
    let mut i: usize = 0;
    while i < n
        invariant
            0 <= i <= n,
            n == s@.len(),
            forall|j: int| 0 <= j < i ==> s@[j] != '(',
        decreases n - i,
    {
        if s.get_char(i) == '(' {
            return false;
        }
        i = i + 1;
    }
    true
}

/// Relies on color_processing's `Color::from_str`: on text free of `(` it
/// parses hex and named color syntax into 8-bit channels, returns `Err`
/// exactly on text it cannot parse, and depends on the text alone. The
/// `requires` keeps the call off the parser's css-function path, which is
/// reached only through a `(` in the (trimmed, lowercased) text — no
/// character lowercases to a parenthesis — and which can panic: its `cmyk`
/// and `rgb` branches index regex capture groups (`&cap[4]`, `&cap[8]`,
/// `&cap[12]`) that need not participate in a match. Every other path of
/// `new_string` (empty, abbreviation, hex, known-name) returns.
#[verifier::external_body]
pub(crate) fn parse_color_rgb(s: &str) -> (r: Option<(u8, u8, u8)>)
    requires
        spec_plain_color_text(s@),
    ensures
        r == color_from_text(s@),
{
    match <color_processing::Color as core::str::FromStr>::from_str(s) {
        Ok(c) => Some((c.red, c.green, c.blue)),
        Err(_) => None,
    }
}

} // verus!
