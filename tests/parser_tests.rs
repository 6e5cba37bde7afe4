use arabic_morph::parser::{ar_strip, remove_latin, remove_punctuation};

#[test]
fn test_ar_strip_remove_diacritics() {
    let input = "أَلَمْ يُؤْمِنُوا";
    let expected = "ألم يؤمنوا";
    let result = ar_strip(input, true, false, false, false, false, false);
    assert_eq!(result, expected);
}

#[test]
fn test_ar_strip_remove_shaddah() {
    let input = "يحبّها";
    let expected = "يحبها";
    let result = ar_strip(input, false, false, true, false, false, false);
    assert_eq!(result, expected);
}

#[test]
fn test_ar_strip_remove_digits() {
    let input = "2023الجو جميلُ123";
    let expected = "الجو جميلُ";
    let result = ar_strip(input, false, false, false, true, false, false);
    assert_eq!(result, expected);
}

#[test]
fn test_ar_strip_unify_alif() {
    let input = "أَلِفْ آ إ";
    let expected = "اَلِفْ ا ا";
    let result = ar_strip(input, false, false, false, false, true, false);
    assert_eq!(result, expected);
}

#[test]
fn test_ar_strip_remove_special_chars() {
    let input = "!الجو؟ جميلُ#";
    let expected = "الجو جميلُ";
    let result = ar_strip(input, false, false, false, false, false, true);
    assert_eq!(result, expected);
}

#[test]
fn test_remove_punctuation() {
    let input = "te!@#،$%%؟st";
    let expected = "test";
    let result = remove_punctuation(input);
    assert_eq!(result, expected);
}

#[test]
fn test_remove_punctuation_arabic() {
    let input = "يَا أَيُّهَا الَّذِينَ آمَنُوا لِيَسْتَأْذِنْكُمُ ....";
    let expected = "يَا أَيُّهَا الَّذِينَ آمَنُوا لِيَسْتَأْذِنْكُمُ ";
    let result = remove_punctuation(input);
    assert_eq!(result, expected);
}

#[test]
fn test_remove_latin() {
    let input = "miojkdujhvaj1546545spkdpoqfoiehwv";
    let expected = "1546545";
    let result = remove_latin(input);
    assert_eq!(result, expected);
}

#[test]
fn test_remove_latin_with_arabic() {
    let input = "أصل المسمى Enterprise Resource Planning";
    let expected = "أصل المسمى   ";
    let result = remove_latin(input);
    assert_eq!(result, expected);
}

#[test]
fn test_ar_strip_combined() {
    let input = "أَلَمْ يُؤْمِنُوا 2023!؟";
    let expected = "الم يؤمنوا";
    let result = ar_strip(input, true, false, true, true, true, true);
    assert_eq!(result, expected);
}

#[test]
fn strip_is_idempotent_on_samples() {
    let samples = ["أَلَمْ يُؤْمِنُوا 2023!؟", "  a\tb  ", "٣٤ إلى ۖ آخر", "x_y ـ z"];
    for s in samples {
        for mask in 0u32..64 {
            let f = |k: u32| mask & (1 << k) != 0;
            let once = ar_strip(s, f(0), f(1), f(2), f(3), f(4), f(5));
            let twice = ar_strip(&once, f(0), f(1), f(2), f(3), f(4), f(5));
            if !once.contains("  ") {
                assert_eq!(once, twice);
            }
        }
    }
}

#[test]
fn strip_removes_small_diacritics() {
    assert_eq!(ar_strip("قَالَ ۖ", false, true, false, false, false, false), "قَالَ");
}

#[test]
fn strip_arabic_digits_become_space() {
    assert_eq!(ar_strip("ب٣٤ت", false, false, false, true, false, false), "ب ت");
}

#[test]
fn strip_cleanup_always_runs() {
    assert_eq!(ar_strip("  كـتـاب_ \t x ", false, false, false, false, false, false), "كتاب x");
}

#[test]
fn strip_underscore_between_spaces_leaves_double_space() {
    let once = ar_strip("a _ b", false, false, false, false, false, false);
    assert_eq!(once, "a  b");
    assert_eq!(ar_strip(&once, false, false, false, false, false, false), "a b");
}
