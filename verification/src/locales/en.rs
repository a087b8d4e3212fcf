//! The built-in English locale.

use crate::locale::{Era, EraWidth, Locale};
use crate::utils::{digits_string, spec_digits};
use vstd::prelude::*;

verus! {

/// The English reference locale.
pub struct En;

/// The English ordinal suffix for a number: `st`, `nd`, `rd` or `th`,
/// with the teens always taking `th`.
pub open spec fn spec_en_ordinal_suffix(num: nat) -> Seq<char> {
    let rem100 = num % 100;
    if rem100 > 20 || rem100 < 10 {
        if rem100 % 10 == 1 {
            "st"@
        } else if rem100 % 10 == 2 {
            "nd"@
        } else if rem100 % 10 == 3 {
            "rd"@
        } else {
            "th"@
        }
    } else {
        "th"@
    }
}

impl Locale for En {
    open spec fn era_spec(&self, era: Era, era_width: EraWidth) -> Seq<char> {
        match era_width {
            EraWidth::Narrow => match era {
                Era::BC => "B"@,
                Era::AD => "A"@,
            },
            EraWidth::Abbreviated => match era {
                Era::BC => "BC"@,
                Era::AD => "AD"@,
            },
            EraWidth::Wide => match era {
                Era::BC => "Before Christ"@,
                Era::AD => "Anno Domini"@,
            },
        }
    }

    open spec fn ordinal_spec(&self, num: u32) -> Seq<char> {
        spec_digits(num as nat) + spec_en_ordinal_suffix(num as nat)
    }

    fn era(&self, era: Era, era_width: EraWidth) -> (r: String) {
        match era_width {
            EraWidth::Narrow => match era {
                Era::BC => String::from_str("B"),
                Era::AD => String::from_str("A"),
            },
            EraWidth::Abbreviated => match era {
                Era::BC => String::from_str("BC"),
                Era::AD => String::from_str("AD"),
            },
            EraWidth::Wide => match era {
                Era::BC => String::from_str("Before Christ"),
                Era::AD => String::from_str("Anno Domini"),
            },
        }
    }

    fn ordinal_number(&self, num: u32) -> (r: String) {
        let rem100 = num % 100;
        let ending: &str = if rem100 > 20 || rem100 < 10 {
            match rem100 % 10 {
                1 => "st",
                2 => "nd",
                3 => "rd",
                _ => "th",
            }
        } else {
            "th"
        };
        let mut r = digits_string(num);
        r.append(ending);
        r
    }
}

} // verus!
