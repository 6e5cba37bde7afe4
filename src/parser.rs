//! Text normalization: diacritic, digit and special-character removal, alif
//! unification, and white-space cleanup.
use vstd::prelude::*;
use crate::seqops::{bare_alif, in_class, lemma_keep_id, lemma_keep_tame, lemma_squash_id, lemma_squash_tame, lemma_trim_facts, lemma_trim_id, lemma_unify_id, lemma_unify_tame, no_adjacent, tame, keep, remove_class, squash, squash_class, trim, trim_chars, unify_alif, unify_alif_chars, Class};
use crate::text::{chars_of, string_of};

verus! {

/// Steps applied before the white-space cleanup, in their fixed order.
pub open spec fn strip_steps(
    s: Seq<char>,
    diacs: bool,
    small_diacs: bool,
    shaddah: bool,
    digit: bool,
    alif: bool,
    special_chars: bool,
) -> Seq<char> {
    let s1 = if diacs { keep(s, Class::Diac) } else { s };
    let s2 = if shaddah { keep(s1, Class::Shaddah) } else { s1 };
    let s3 = if small_diacs { keep(s2, Class::SmallDiac) } else { s2 };
    let s4 = if digit { squash(squash(s3, Class::LatinDigit), Class::ArabicDigit) } else { s3 };
    let s5 = if alif { unify_alif(s4) } else { s4 };
    if special_chars { keep(s5, Class::Special) } else { s5 }
}

/// The cleanup applied whatever the flags: white-space runs become one space,
/// underscores and tatweel go, and the ends are trimmed.
pub open spec fn cleanup(s: Seq<char>) -> Seq<char> {
    trim(keep(squash(s, Class::White), Class::Filler))
}

/// What `ar_strip` returns.
pub open spec fn strip_spec(
    s: Seq<char>,
    diacs: bool,
    small_diacs: bool,
    shaddah: bool,
    digit: bool,
    alif: bool,
    special_chars: bool,
) -> Seq<char> {
    cleanup(strip_steps(s, diacs, small_diacs, shaddah, digit, alif, special_chars))
}

/// Removes optional elements from Arabic text, as the flags select:
/// diacritics and sukun, shaddah, small Quranic signs, digit runs (each run
/// becomes a space), alif variants (unified to bare alif) and special
/// characters; then collapses white space, drops underscores and tatweel,
/// and trims.
pub fn ar_strip(
    text: &str,
    diacs: bool,
    small_diacs: bool,
    shaddah: bool,
    digit: bool,
    alif: bool,
    special_chars: bool,
) -> (r: String)
    ensures
        r@ == strip_spec(text@, diacs, small_diacs, shaddah, digit, alif, special_chars),
{
    let mut v = chars_of(text);
    if diacs {
        v = remove_class(&v, Class::Diac);
    }
    if shaddah {
        v = remove_class(&v, Class::Shaddah);
    }
    if small_diacs {
        v = remove_class(&v, Class::SmallDiac);
    }
    if digit {
        v = squash_class(&v, Class::LatinDigit);
        v = squash_class(&v, Class::ArabicDigit);
    }
    if alif {
        v = unify_alif_chars(&v);
    }
    if special_chars {
        v = remove_class(&v, Class::Special);
    }
    v = squash_class(&v, Class::White);
    v = remove_class(&v, Class::Filler);
    v = trim_chars(&v);
    string_of(&v)
}

/// The punctuation removed by `remove_punctuation`: the ASCII punctuation
/// ranges, and the Arabic comma, semicolon, triple dot, question mark,
/// tatweel, madda above, vowel sign dot below, thousands separator and
/// percent sign.
pub open spec fn is_punctuation(c: char) -> bool {
    let u = c as u32;
    (0x21 <= u && u <= 0x2F) || (0x3A <= u && u <= 0x40) || (0x5B <= u && u <= 0x60) || (0x7B
        <= u && u <= 0x7E) || u == 0x060C || u == 0x061B || u == 0x061E || u == 0x061F || u
        == 0x0640 || u == 0x0653 || u == 0x065C || u == 0x066C || u == 0x066A
}

pub open spec fn is_latin_letter(c: char) -> bool {
    let u = c as u32;
    (0x61 <= u && u <= 0x7A) || (0x41 <= u && u <= 0x5A)
}

/// `s` without the characters for which `p` holds.
pub open spec fn without(s: Seq<char>, p: spec_fn(char) -> bool) -> Seq<char>
    decreases s.len(),
{
    if s.len() == 0 {
        s
    } else if p(s.last()) {
        without(s.drop_last(), p)
    } else {
        without(s.drop_last(), p).push(s.last())
    }
}

/// Removes Arabic and ASCII punctuation marks.
pub fn remove_punctuation(text: &str) -> (r: String)
    ensures
        r@ == without(text@, |c: char| is_punctuation(c)),
{
    let v = chars_of(text);
    let mut out: Vec<char> = Vec::new();
    let mut i: usize = 0;
    while i < v.len()
        invariant
            i <= v.len(),
            out@ == without(v@.take(i as int), |c: char| is_punctuation(c)),
        decreases v.len() - i,
    {
        assert(v@.take(i + 1).drop_last() == v@.take(i as int));
        let u = v[i] as u32;
        let p = (0x21 <= u && u <= 0x2F) || (0x3A <= u && u <= 0x40) || (0x5B <= u && u <= 0x60)
            || (0x7B <= u && u <= 0x7E) || u == 0x060C || u == 0x061B || u == 0x061E || u
            == 0x061F || u == 0x0640 || u == 0x0653 || u == 0x065C || u == 0x066C || u == 0x066A;
        if !p {
            out.push(v[i]);
        }
        i += 1;
    }
    assert(v@.take(v.len() as int) == v@);
    string_of(&out)
}

/// Removes all ASCII Latin letters.
pub fn remove_latin(text: &str) -> (r: String)
    ensures
        r@ == without(text@, |c: char| is_latin_letter(c)),
{
    let v = chars_of(text);
    let mut out: Vec<char> = Vec::new();
    let mut i: usize = 0;
    while i < v.len()
        invariant
            i <= v.len(),
            out@ == without(v@.take(i as int), |c: char| is_latin_letter(c)),
        decreases v.len() - i,
    {
        assert(v@.take(i + 1).drop_last() == v@.take(i as int));
        let u = v[i] as u32;
        if !((0x61 <= u && u <= 0x7A) || (0x41 <= u && u <= 0x5A)) {
            out.push(v[i]);
        }
        i += 1;
    }
    assert(v@.take(v.len() as int) == v@);
    string_of(&out)
}


proof fn lemma_tame_no_adjacent(s: Seq<char>, k: Class)
    requires
        tame(s, k),
        !in_class(k, ' '),
    ensures
        no_adjacent(s, k),
{
    assert forall|i: int| 1 <= i < s.len() implies !(in_class(k, s[i - 1]) && in_class(k, #[trigger] s[i])) by {
        if in_class(k, s[i]) {
            assert(s[i] == ' ');
        }
    }
}

/// The steps keep a class tame that does not hold the bare alif.
proof fn lemma_steps_keep_tame(
    s: Seq<char>,
    diacs: bool,
    small_diacs: bool,
    shaddah: bool,
    digit: bool,
    alif: bool,
    special_chars: bool,
    k: Class,
)
    requires
        tame(s, k),
        !in_class(k, bare_alif()),
    ensures
        tame(strip_steps(s, diacs, small_diacs, shaddah, digit, alif, special_chars), k),
{
    let s1 = if diacs { keep(s, Class::Diac) } else { s };
    lemma_keep_tame(s, Class::Diac, k);
    let s2 = if shaddah { keep(s1, Class::Shaddah) } else { s1 };
    lemma_keep_tame(s1, Class::Shaddah, k);
    let s3 = if small_diacs { keep(s2, Class::SmallDiac) } else { s2 };
    lemma_keep_tame(s2, Class::SmallDiac, k);
    lemma_squash_tame(s3, Class::LatinDigit, k);
    lemma_squash_tame(squash(s3, Class::LatinDigit), Class::ArabicDigit, k);
    let s4 = if digit { squash(squash(s3, Class::LatinDigit), Class::ArabicDigit) } else { s3 };
    lemma_unify_tame(s4, k);
    let s5 = if alif { unify_alif(s4) } else { s4 };
    lemma_keep_tame(s5, Class::Special, k);
}

/// After the steps, each class whose flag is on is tame.
proof fn lemma_steps_establish(
    x: Seq<char>,
    diacs: bool,
    small_diacs: bool,
    shaddah: bool,
    digit: bool,
    alif: bool,
    special_chars: bool,
)
    ensures
        ({
            let p = strip_steps(x, diacs, small_diacs, shaddah, digit, alif, special_chars);
            &&& diacs ==> tame(p, Class::Diac)
            &&& shaddah ==> tame(p, Class::Shaddah)
            &&& small_diacs ==> tame(p, Class::SmallDiac)
            &&& digit ==> tame(p, Class::LatinDigit) && tame(p, Class::ArabicDigit)
            &&& alif ==> tame(p, Class::AlifVariant)
            &&& special_chars ==> tame(p, Class::Special)
        }),
{
    let s1 = if diacs { keep(x, Class::Diac) } else { x };
    let s2 = if shaddah { keep(s1, Class::Shaddah) } else { s1 };
    let s3 = if small_diacs { keep(s2, Class::SmallDiac) } else { s2 };
    let l = squash(s3, Class::LatinDigit);
    let s4 = if digit { squash(l, Class::ArabicDigit) } else { s3 };
    let s5 = if alif { unify_alif(s4) } else { s4 };
    if diacs {
        lemma_keep_tame(x, Class::Diac, Class::Diac);
        lemma_steps_keep_tame(s1, false, small_diacs, shaddah, digit, alif, special_chars, Class::Diac);
    }
    if shaddah {
        lemma_keep_tame(s1, Class::Shaddah, Class::Shaddah);
        lemma_steps_keep_tame(s2, false, small_diacs, false, digit, alif, special_chars, Class::Shaddah);
    }
    if small_diacs {
        lemma_keep_tame(s2, Class::SmallDiac, Class::SmallDiac);
        lemma_steps_keep_tame(s3, false, false, false, digit, alif, special_chars, Class::SmallDiac);
    }
    if digit {
        lemma_squash_tame(s3, Class::LatinDigit, Class::LatinDigit);
        lemma_squash_tame(l, Class::ArabicDigit, Class::LatinDigit);
        lemma_steps_keep_tame(s4, false, false, false, false, alif, special_chars, Class::LatinDigit);
        lemma_steps_keep_tame(s4, false, false, false, false, alif, special_chars, Class::ArabicDigit);
    }
    if alif {
        lemma_unify_tame(s4, Class::AlifVariant);
        lemma_keep_tame(s5, Class::Special, Class::AlifVariant);
    }
    if special_chars {
        lemma_keep_tame(s5, Class::Special, Class::Special);
    }
}

/// The cleanup keeps a tame class tame, makes white space and filler tame,
/// and leaves no white space at either end.
proof fn lemma_cleanup_facts(s: Seq<char>, k: Class)
    ensures
        tame(s, k) ==> tame(cleanup(s), k),
        tame(cleanup(s), Class::White),
        tame(cleanup(s), Class::Filler),
        cleanup(s).len() > 0 ==> !in_class(Class::White, cleanup(s)[0]) && !in_class(
            Class::White,
            cleanup(s).last(),
        ),
{
    let c = squash(s, Class::White);
    let e = keep(c, Class::Filler);
    lemma_squash_tame(s, Class::White, k);
    lemma_keep_tame(c, Class::Filler, k);
    lemma_keep_tame(c, Class::Filler, Class::White);
    lemma_squash_tame(s, Class::White, Class::White);
    lemma_keep_tame(c, Class::Filler, Class::Filler);
    if tame(s, k) {
        lemma_trim_facts(e, k);
    }
    lemma_trim_facts(e, Class::White);
    lemma_trim_facts(e, Class::Filler);
}

/// Stripping twice with the same flags gives what stripping once gives, on
/// every input whose stripped form holds no two neighbouring white-space
/// characters. (Such a pair arises when an underscore or a tatweel stood
/// alone between two spaces: the cleanup drops it after collapsing.)
pub proof fn lemma_strip_idempotent(
    x: Seq<char>,
    diacs: bool,
    small_diacs: bool,
    shaddah: bool,
    digit: bool,
    alif: bool,
    special_chars: bool,
)
    requires
        no_adjacent(strip_spec(x, diacs, small_diacs, shaddah, digit, alif, special_chars), Class::White),
    ensures
        strip_spec(strip_spec(x, diacs, small_diacs, shaddah, digit, alif, special_chars), diacs, small_diacs, shaddah, digit, alif, special_chars)
            == strip_spec(x, diacs, small_diacs, shaddah, digit, alif, special_chars),
{
    let p = strip_steps(x, diacs, small_diacs, shaddah, digit, alif, special_chars);
    let y = cleanup(p);
    lemma_steps_establish(x, diacs, small_diacs, shaddah, digit, alif, special_chars);
    lemma_cleanup_facts(p, Class::Diac);
    lemma_cleanup_facts(p, Class::Shaddah);
    lemma_cleanup_facts(p, Class::SmallDiac);
    lemma_cleanup_facts(p, Class::LatinDigit);
    lemma_cleanup_facts(p, Class::ArabicDigit);
    lemma_cleanup_facts(p, Class::AlifVariant);
    lemma_cleanup_facts(p, Class::Special);
    // The steps leave `y` unchanged.
    if diacs {
        lemma_keep_id(y, Class::Diac);
    }
    if shaddah {
        lemma_keep_id(y, Class::Shaddah);
    }
    if small_diacs {
        lemma_keep_id(y, Class::SmallDiac);
    }
    if digit {
        lemma_tame_no_adjacent(y, Class::LatinDigit);
        lemma_squash_id(y, Class::LatinDigit);
        lemma_tame_no_adjacent(y, Class::ArabicDigit);
        lemma_squash_id(y, Class::ArabicDigit);
    }
    if alif {
        lemma_unify_id(y);
    }
    if special_chars {
        lemma_keep_id(y, Class::Special);
    }
    assert(strip_steps(y, diacs, small_diacs, shaddah, digit, alif, special_chars) == y);
    // The cleanup leaves `y` unchanged.
    lemma_squash_id(y, Class::White);
    lemma_keep_id(y, Class::Filler);
    lemma_trim_id(y);
}

} // verus!
