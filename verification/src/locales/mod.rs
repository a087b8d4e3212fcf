//! Locale selection: the built-in locales, or a caller-supplied one.

use crate::locale::{Era, EraWidth, Locale};
use vstd::prelude::*;

pub mod en;

verus! {

/// Selects the locale a format call uses: the built-in English locale, or a
/// custom implementation of [`Locale`] supplied by the caller. The selector
/// itself implements [`Locale`] by dispatching to the selected vocabulary.
pub enum Locales<L: Locale> {
    En,
    Custom(L),
}

impl<L: Locale> Locale for Locales<L> {
    open spec fn era_spec(&self, era: Era, era_width: EraWidth) -> Seq<char> {
        match self {
            Locales::En => en::En.era_spec(era, era_width),
            Locales::Custom(l) => l.era_spec(era, era_width),
        }
    }

    open spec fn ordinal_spec(&self, num: u32) -> Seq<char> {
        match self {
            Locales::En => en::En.ordinal_spec(num),
            Locales::Custom(l) => l.ordinal_spec(num),
        }
    }

    fn era(&self, era: Era, era_width: EraWidth) -> (r: String) {
        match self {
            Locales::En => en::En.era(era, era_width),
            Locales::Custom(l) => l.era(era, era_width),
        }
    }

    fn ordinal_number(&self, num: u32) -> (r: String) {
        match self {
            Locales::En => en::En.ordinal_number(num),
            Locales::Custom(l) => l.ordinal_number(num),
        }
    }
}

impl<L: Locale> Locales<L> {
    /// Resolves the selector to the locale whose vocabulary format calls use;
    /// the selector carries that vocabulary itself, so resolution returns it.
    pub fn to_locale(self) -> (r: Self)
        ensures
            r == self,
    {
        self
    }
}

} // verus!
