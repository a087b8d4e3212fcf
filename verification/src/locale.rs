//! The locale capability: pluggable vocabulary consulted while formatting.

use vstd::prelude::*;

verus! {

/// The era of a year: `BC` for years at or before zero under astronomical
/// numbering, `AD` for positive years.
#[derive(Clone, Copy, PartialEq, Eq, Structural, Debug)]
pub enum Era {
    BC,
    AD,
}

/// The display width of an era name, selected by the `G` token's length.
#[derive(Clone, Copy, PartialEq, Eq, Structural, Debug)]
pub enum EraWidth {
    Narrow,
    Abbreviated,
    Wide,
}

/// Vocabulary a locale supplies to the formatter: era names and ordinal
/// renderings of numbers. A locale is a read-only strategy object; the
/// spec functions give the exact text each call returns.
pub trait Locale {
    /// The era display text, as a mathematical value.
    spec fn era_spec(&self, era: Era, era_width: EraWidth) -> Seq<char>;

    /// The ordinal rendering of a number, as a mathematical value.
    spec fn ordinal_spec(&self, num: u32) -> Seq<char>;

    /// The display text for an era at a given width.
    fn era(&self, era: Era, era_width: EraWidth) -> (r: String)
        ensures
            r@ == self.era_spec(era, era_width),
    ;

    /// The ordinal rendering of a non-negative number (1st, 2nd, ...).
    fn ordinal_number(&self, num: u32) -> (r: String)
        ensures
            r@ == self.ordinal_spec(num),
    ;
}

} // verus!
