//! Options that customise how CSV fields are displayed.

use vstd::prelude::*;

use crate::layout::{CsvField, FieldView, field_text};

verus! {

/// How reals are to be formatted.
#[derive(Copy, Clone, Debug, PartialEq, Eq, Structural)]
pub struct FloatFormat {
    /// A fixed number of decimal places to display numbers with; if absent,
    /// free-form formatting is used.
    pub dec_places: Option<usize>,
    /// Use decimals instead of scientific notation.
    pub no_scientific: bool,
    /// Omit the redundant plus sign for non-negatives.
    pub no_superfluous_plus: bool,
    /// Use a small 'e' for exponents instead of a capital 'E'.
    pub small_e: bool,
}

impl Default for FloatFormat {
    /// Six decimal places, scientific notation with a capital 'E' and a plus
    /// sign on non-negatives.
    fn default() -> (r: FloatFormat)
        ensures
            r == (FloatFormat {
                dec_places: Some(6),
                no_scientific: false,
                no_superfluous_plus: false,
                small_e: false,
            }),
    {
        FloatFormat { dec_places: Some(6), no_scientific: false, no_superfluous_plus: false, small_e: false }
    }
}

/// What to display for blank fields.
#[derive(Copy, Clone, Debug, PartialEq, Eq, Structural)]
pub enum BlankDisplay {
    /// Prints out a zero.
    Zero,
    /// Prints out a space.
    Space,
    /// Prints a dash.
    Dash,
    /// Prints five dashes.
    Dashes,
    /// Prints nothing (empty field).
    Empty,
}

impl Default for BlankDisplay {
    /// Blanks display as zeroes.
    fn default() -> (r: BlankDisplay)
        ensures
            r == BlankDisplay::Zero,
    {
        BlankDisplay::Zero
    }
}

/// The text written for a blank field.
pub open spec fn blank_text(b: BlankDisplay) -> Seq<char> {
    match b {
        BlankDisplay::Zero => "0"@,
        BlankDisplay::Space => " "@,
        BlankDisplay::Dash => "-"@,
        BlankDisplay::Dashes => "-----"@,
        BlankDisplay::Empty => ""@,
    }
}

impl BlankDisplay {
    /// Returns the string that should be written.
    pub fn fmt_str(&self) -> (r: &'static str)
        ensures
            r@ == blank_text(*self),
    {
        match self {
            BlankDisplay::Zero => "0",
            BlankDisplay::Space => " ",
            BlankDisplay::Dash => "-",
            BlankDisplay::Dashes => "-----",
            BlankDisplay::Empty => "",
        }
    }
}

/// Display options for CSV fields.
#[derive(Copy, Clone, Debug, PartialEq, Eq, Structural)]
pub struct CsvFormatting {
    /// Options for printing out real numbers.
    pub reals: FloatFormat,
    /// What to print for blank fields.
    pub blanks: BlankDisplay,
}

impl Default for CsvFormatting {
    /// The default options for reals and for blanks.
    fn default() -> (r: CsvFormatting)
        ensures
            r.reals == (FloatFormat {
                dec_places: Some(6),
                no_scientific: false,
                no_superfluous_plus: false,
                small_e: false,
            }),
            r.blanks == BlankDisplay::Zero,
    {
        CsvFormatting { reals: FloatFormat::default(), blanks: BlankDisplay::default() }
    }
}

/// The text of a field under a formatting: the blank text for blanks, the
/// field's own text otherwise (reals excepted).
pub open spec fn formatted_text(fmt: CsvFormatting, f: FieldView) -> Seq<char> {
    match f {
        FieldView::Blank => blank_text(fmt.blanks),
        _ => field_text(f),
    }
}

impl CsvFormatting {
    /// Turns a CSV field into a string using this formatter; none for a real,
    /// which is written by the floating-point options in `reals`.
    pub fn to_string(&self, field: CsvField) -> (r: Option<String>)
        ensures
            r is None <==> field@ is Real,
            r matches Some(t) ==> t@ == formatted_text(*self, field@),
    {
        match field {
            CsvField::Blank => Some(self.blanks.fmt_str().to_owned()),
            CsvField::String(s) => Some(s),
            _ => field.display_text(),
        }
    }
}

} // verus!
