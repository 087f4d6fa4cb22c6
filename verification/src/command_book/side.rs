//! The side of an order.
use vstd::prelude::*;

use super::error::ParseError;
use crate::text::{chars_eq, chars_of, string_of, trim, trim_chars};

verus! {

/// Whether an order buys or sells.
#[derive(Debug, Copy, Clone, Eq, PartialEq, Structural)]
pub enum Side {
    Buy,
    Sell,
}

/// The Unicode upper-case form of `s`, as `str::to_uppercase` gives it.
pub uninterp spec fn unicode_uppercase(s: Seq<char>) -> Seq<char>;

/// Upper-cases `s` by the Unicode case mapping (`str::to_uppercase`).
/// Its result is named, not described: the mapping is the Unicode table.
#[verifier::external_body]
fn to_uppercase(s: &str) -> (r: String)
    ensures
        r@ == unicode_uppercase(s@),
{
    s.to_uppercase()
}

/// The side that an upper-case keyword names: `BUY` or `SELL`.
pub open spec fn side_of_keyword(word: Seq<char>) -> Result<Side, ParseError> {
    if word == seq!['B', 'U', 'Y'] {
        Ok(Side::Buy)
    } else if word == seq!['S', 'E', 'L', 'L'] {
        Ok(Side::Sell)
    } else {
        Err(ParseError::SideText)
    }
}

/// The side that the text `text` names: its trimmed, upper-cased form must
/// be `BUY` or `SELL`.
pub open spec fn side_of_text(text: Seq<char>) -> Result<Side, ParseError> {
    side_of_keyword(unicode_uppercase(trim(text)))
}

impl Side {
    pub fn is_buy(&self) -> (b: bool)
        ensures
            b == (*self == Side::Buy),
    {
        match self {
            Side::Buy => true,
            Side::Sell => false,
        }
    }

    pub fn is_sell(&self) -> (b: bool)
        ensures
            b == (*self == Side::Sell),
    {
        match self {
            Side::Buy => false,
            Side::Sell => true,
        }
    }

    /// The side named by an already upper-cased keyword.
    pub fn from_keyword(word: &str) -> (r: Result<Side, ParseError>)
        ensures
            r == side_of_keyword(word@),
    {
        let w = chars_of(word);
        if chars_eq(w.as_slice(), &['B', 'U', 'Y']) {
            assert(w@ =~= seq!['B', 'U', 'Y']);
            Ok(Side::Buy)
        } else if chars_eq(w.as_slice(), &['S', 'E', 'L', 'L']) {
            assert(w@ =~= seq!['S', 'E', 'L', 'L']);
            Ok(Side::Sell)
        } else {
            assert(w@ != seq!['B', 'U', 'Y']);
            assert(w@ != seq!['S', 'E', 'L', 'L']);
            Err(ParseError::SideText)
        }
    }

    /// The side named by `text`, ignoring surrounding whitespace and case.
    pub fn parse(text: &str) -> (r: Result<Side, ParseError>)
        ensures
            r == side_of_text(text@),
    {
        let chars = chars_of(text);
        let trimmed = trim_chars(chars.as_slice());
        let t = string_of(trimmed.as_slice());
        let upper = to_uppercase(t.as_str());
        Side::from_keyword(upper.as_str())
    }
}

} // verus!
