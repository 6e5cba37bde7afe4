//! Character classes: Unicode general categories and the Arabic character set.
use vstd::prelude::*;
use unicode_general_category::GeneralCategory;

verus! {

/// `unicode_general_category::GeneralCategory`, a field-less enum; declared
/// with its variants visible so that verified code can match on them.
#[verifier::external_type_specification]
pub struct ExGeneralCategory(GeneralCategory);

/// The Unicode general category of a character.
pub uninterp spec fn category_of(c: char) -> GeneralCategory;

/// Relies on `unicode_general_category::get_general_category`: the category
/// depends on the character alone.
pub assume_specification[ unicode_general_category::get_general_category ](chr: char) -> (r: GeneralCategory)
    ensures
        r == category_of(chr),
;

/// Punctuation and symbol categories.
pub open spec fn punct_symbol_category(g: GeneralCategory) -> bool {
    match g {
        GeneralCategory::DashPunctuation | GeneralCategory::OpenPunctuation
        | GeneralCategory::ClosePunctuation | GeneralCategory::FinalPunctuation
        | GeneralCategory::OtherPunctuation | GeneralCategory::InitialPunctuation
        | GeneralCategory::ConnectorPunctuation | GeneralCategory::MathSymbol
        | GeneralCategory::OtherSymbol | GeneralCategory::CurrencySymbol
        | GeneralCategory::ModifierSymbol => true,
        _ => false,
    }
}

pub open spec fn is_punct_symbol(c: char) -> bool {
    punct_symbol_category(category_of(c))
}


/// Letter, mark and number categories.
pub open spec fn letter_mark_number_category(g: GeneralCategory) -> bool {
    match g {
        GeneralCategory::OtherLetter | GeneralCategory::ModifierLetter
        | GeneralCategory::LowercaseLetter | GeneralCategory::TitlecaseLetter
        | GeneralCategory::UppercaseLetter | GeneralCategory::SpacingMark
        | GeneralCategory::EnclosingMark | GeneralCategory::NonspacingMark
        | GeneralCategory::OtherNumber | GeneralCategory::LetterNumber
        | GeneralCategory::DecimalNumber => true,
        _ => false,
    }
}

pub open spec fn is_letter_mark_number(c: char) -> bool {
    letter_mark_number_category(category_of(c))
}

/// No character is both punctuation/symbol and letter/mark/number.
pub proof fn lemma_classes_disjoint(c: char)
    ensures
        !(is_punct_symbol(c) && is_letter_mark_number(c)),
{
}

/// Whether `c` is a punctuation or symbol character.
pub fn punct_symbol_char(c: char) -> (r: bool)
    ensures
        r == is_punct_symbol(c),
{
    let g = unicode_general_category::get_general_category(c);
    match g {
        GeneralCategory::DashPunctuation | GeneralCategory::OpenPunctuation
        | GeneralCategory::ClosePunctuation | GeneralCategory::FinalPunctuation
        | GeneralCategory::OtherPunctuation | GeneralCategory::InitialPunctuation
        | GeneralCategory::ConnectorPunctuation | GeneralCategory::MathSymbol
        | GeneralCategory::OtherSymbol | GeneralCategory::CurrencySymbol
        | GeneralCategory::ModifierSymbol => true,
        _ => false,
    }
}

/// Whether `c` is a letter, mark or number character.
pub fn letter_mark_number_char(c: char) -> (r: bool)
    ensures
        r == is_letter_mark_number(c),
{
    let g = unicode_general_category::get_general_category(c);
    match g {
        GeneralCategory::OtherLetter | GeneralCategory::ModifierLetter
        | GeneralCategory::LowercaseLetter | GeneralCategory::TitlecaseLetter
        | GeneralCategory::UppercaseLetter | GeneralCategory::SpacingMark
        | GeneralCategory::EnclosingMark | GeneralCategory::NonspacingMark
        | GeneralCategory::OtherNumber | GeneralCategory::LetterNumber
        | GeneralCategory::DecimalNumber => true,
        _ => false,
    }
}

/// The Arabic character set: base letters (with the Persian and Urdu letters
/// peh, tcheh, veh and gaf), tatweel, and the diacritic marks.
pub open spec fn is_ar_char(c: char) -> bool {
    let u = c as u32;
    (0x0621 <= u && u <= 0x063A) || (0x0640 <= u && u <= 0x0648) || (0x064A <= u && u
        <= 0x0652) || u == 0x0670 || u == 0x067E || u == 0x0686 || u == 0x06A4 || u == 0x06AF
}

/// Whether `c` belongs to the Arabic character set.
pub fn ar_char(c: char) -> (r: bool)
    ensures
        r == is_ar_char(c),
{
    let u = c as u32;
    (0x0621 <= u && u <= 0x063A) || (0x0640 <= u && u <= 0x0648) || (0x064A <= u && u
        <= 0x0652) || u == 0x0670 || u == 0x067E || u == 0x0686 || u == 0x06A4 || u == 0x06AF
}

/// Whether a character has the Unicode `White_Space` property.
pub uninterp spec fn white_space(c: char) -> bool;

/// Relies on `char::is_whitespace`: Unicode `White_Space`, which holds of the
/// ASCII space.
#[verifier::external_body]
pub(crate) fn is_white(c: char) -> (r: bool)
    ensures
        r == white_space(c),
        c == ' ' ==> r,
{
    c.is_whitespace()
}

/// Whether a character has a Unicode numeric general category (`Nd`, `Nl`, `No`).
pub uninterp spec fn numeric(c: char) -> bool;

/// Relies on `char::is_numeric`: the result depends on the character alone.
#[verifier::external_body]
pub(crate) fn is_numeric(c: char) -> (r: bool)
    ensures
        r == numeric(c),
{
    c.is_numeric()
}

} // verus!
