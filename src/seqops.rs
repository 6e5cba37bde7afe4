//! Character-sequence rewrites: removal, squashing of runs, substitution, trimming.
use vstd::prelude::*;
use crate::charsets::{white_space, is_white};

verus! {

/// The fixed character classes that the rewrites act on.
#[derive(Clone, Copy, PartialEq, Eq, Structural)]
pub enum Class {
    /// Short-vowel and tanween marks and the sukun.
    Diac,
    /// The shaddah (gemination mark).
    Shaddah,
    /// Small high and low Quranic annotation signs.
    SmallDiac,
    /// ASCII digits.
    LatinDigit,
    /// Arabic-Indic digits.
    ArabicDigit,
    /// Alif with hamza above or below, with madda, and alif wasla.
    AlifVariant,
    /// The special characters `?` `؟` `!` `@` `#` `$` `%` `-`.
    Special,
    /// Underscore and tatweel.
    Filler,
    /// Unicode white space.
    White,
}

pub open spec fn in_class(k: Class, c: char) -> bool {
    let u = c as u32;
    match k {
        Class::Diac => (0x064B <= u && u <= 0x0650) || u == 0x0652,
        Class::Shaddah => u == 0x0651,
        Class::SmallDiac => 0x06D6 <= u && u <= 0x06ED,
        Class::LatinDigit => 0x30 <= u && u <= 0x39,
        Class::ArabicDigit => 0x0660 <= u && u <= 0x0669,
        Class::AlifVariant => u == 0x0671 || u == 0x0623 || u == 0x0625 || u == 0x0622,
        Class::Special => u == 0x3F || u == 0x061F || u == 0x21 || u == 0x40 || u == 0x23 || u
            == 0x24 || u == 0x25 || u == 0x2D,
        Class::Filler => u == 0x5F || u == 0x0640,
        Class::White => white_space(c),
    }
}

/// Whether `c` belongs to class `k`.
pub fn class_has(k: Class, c: char) -> (r: bool)
    ensures
        r == in_class(k, c),
{
    let u = c as u32;
    match k {
        Class::Diac => (0x064B <= u && u <= 0x0650) || u == 0x0652,
        Class::Shaddah => u == 0x0651,
        Class::SmallDiac => 0x06D6 <= u && u <= 0x06ED,
        Class::LatinDigit => 0x30 <= u && u <= 0x39,
        Class::ArabicDigit => 0x0660 <= u && u <= 0x0669,
        Class::AlifVariant => u == 0x0671 || u == 0x0623 || u == 0x0625 || u == 0x0622,
        Class::Special => u == 0x3F || u == 0x061F || u == 0x21 || u == 0x40 || u == 0x23 || u
            == 0x24 || u == 0x25 || u == 0x2D,
        Class::Filler => u == 0x5F || u == 0x0640,
        Class::White => is_white(c),
    }
}

/// No character of `s` is in class `k`.
pub open spec fn lacks(s: Seq<char>, k: Class) -> bool {
    forall|i: int| 0 <= i < s.len() ==> !in_class(k, #[trigger] s[i])
}

/// `s` with every character of class `k` removed.
pub open spec fn keep(s: Seq<char>, k: Class) -> Seq<char>
    decreases s.len(),
{
    if s.len() == 0 {
        s
    } else if in_class(k, s.last()) {
        keep(s.drop_last(), k)
    } else {
        keep(s.drop_last(), k).push(s.last())
    }
}

/// `s` with every maximal run of class-`k` characters replaced by one space.
pub open spec fn squash(s: Seq<char>, k: Class) -> Seq<char>
    decreases s.len(),
{
    if s.len() == 0 {
        s
    } else if in_class(k, s.last()) {
        let p = s.drop_last();
        if p.len() > 0 && in_class(k, p.last()) {
            squash(p, k)
        } else {
            squash(p, k).push(' ')
        }
    } else {
        squash(s.drop_last(), k).push(s.last())
    }
}

/// The bare alif.
pub open spec fn bare_alif() -> char {
    '\u{0627}'
}

/// `s` with each alif variant replaced by the bare alif.
pub open spec fn unify_alif(s: Seq<char>) -> Seq<char> {
    s.map_values(|c: char| if in_class(Class::AlifVariant, c) { bare_alif() } else { c })
}

pub open spec fn trim_start(s: Seq<char>) -> Seq<char>
    decreases s.len(),
{
    if s.len() > 0 && white_space(s[0]) {
        trim_start(s.drop_first())
    } else {
        s
    }
}

pub open spec fn trim_end(s: Seq<char>) -> Seq<char>
    decreases s.len(),
{
    if s.len() > 0 && white_space(s.last()) {
        trim_end(s.drop_last())
    } else {
        s
    }
}

/// `s` without leading and trailing white space.
pub open spec fn trim(s: Seq<char>) -> Seq<char> {
    trim_end(trim_start(s))
}

/// `v` with every character of class `k` removed.
pub fn remove_class(v: &Vec<char>, k: Class) -> (r: Vec<char>)
    ensures
        r@ == keep(v@, k),
{
    let mut out: Vec<char> = Vec::new();
    let mut i: usize = 0;
    while i < v.len()
        invariant
            i <= v.len(),
            out@ == keep(v@.take(i as int), k),
        decreases v.len() - i,
    {
        assert(v@.take(i + 1).drop_last() == v@.take(i as int));
        if !class_has(k, v[i]) {
            out.push(v[i]);
        }
        i += 1;
    }
    assert(v@.take(v.len() as int) == v@);
    out
}

/// `v` with every maximal run of class-`k` characters replaced by one space.
pub fn squash_class(v: &Vec<char>, k: Class) -> (r: Vec<char>)
    ensures
        r@ == squash(v@, k),
{
    let mut out: Vec<char> = Vec::new();
    let mut i: usize = 0;
    while i < v.len()
        invariant
            i <= v.len(),
            out@ == squash(v@.take(i as int), k),
        decreases v.len() - i,
    {
        assert(v@.take(i + 1).drop_last() == v@.take(i as int));
        if class_has(k, v[i]) {
            if i == 0 || !class_has(k, v[i - 1]) {
                out.push(' ');
            }
        } else {
            out.push(v[i]);
        }
        i += 1;
    }
    assert(v@.take(v.len() as int) == v@);
    out
}

/// `v` with each alif variant replaced by the bare alif.
pub fn unify_alif_chars(v: &Vec<char>) -> (r: Vec<char>)
    ensures
        r@ == unify_alif(v@),
{
    let mut out: Vec<char> = Vec::new();
    let mut i: usize = 0;
    while i < v.len()
        invariant
            i <= v.len(),
            out@ == unify_alif(v@.take(i as int)),
        decreases v.len() - i,
    {
        if class_has(Class::AlifVariant, v[i]) {
            out.push('\u{0627}');
        } else {
            out.push(v[i]);
        }
        i += 1;
        assert(out@ =~= unify_alif(v@.take(i as int)));
    }
    assert(v@.take(v.len() as int) == v@);
    out
}

proof fn lemma_trim_start_skip(s: Seq<char>, a: int)
    requires
        0 <= a <= s.len(),
        forall|j: int| 0 <= j < a ==> white_space(#[trigger] s[j]),
    ensures
        trim_start(s) == trim_start(s.subrange(a, s.len() as int)),
    decreases a,
{
    if a > 0 {
        assert(s.drop_first().subrange(a - 1, s.drop_first().len() as int) == s.subrange(a, s.len() as int));
        lemma_trim_start_skip(s.drop_first(), a - 1);
    } else {
        assert(s.subrange(0, s.len() as int) == s);
    }
}

proof fn lemma_trim_end_skip(s: Seq<char>, b: int)
    requires
        0 <= b <= s.len(),
        forall|j: int| b <= j < s.len() ==> white_space(#[trigger] s[j]),
    ensures
        trim_end(s) == trim_end(s.subrange(0, b)),
    decreases s.len() - b,
{
    if b < s.len() {
        assert(s.drop_last().subrange(0, b) == s.subrange(0, b));
        lemma_trim_end_skip(s.drop_last(), b);
    } else {
        assert(s.subrange(0, b) == s);
    }
}

/// `v` without leading and trailing white space.
pub fn trim_chars(v: &Vec<char>) -> (r: Vec<char>)
    ensures
        r@ == trim(v@),
{
    let n = v.len();
    let mut a: usize = 0;
    while a < n && is_white(v[a])
        invariant
            a <= n,
            n == v.len(),
            forall|j: int| 0 <= j < a ==> white_space(#[trigger] v@[j]),
        decreases n - a,
    {
        a += 1;
    }
    proof {
        lemma_trim_start_skip(v@, a as int);
    }
    let ghost t = v@.subrange(a as int, n as int);
    let mut b: usize = n;
    while b > a && is_white(v[b - 1])
        invariant
            a <= b <= n,
            n == v.len(),
            forall|j: int| b <= j < n ==> white_space(#[trigger] v@[j]),
        decreases b,
    {
        b -= 1;
    }
    proof {
        assert forall|j: int| (b - a) <= j < t.len() implies white_space(#[trigger] t[j]) by {
            assert(t[j] == v@[j + a]);
        }
        lemma_trim_end_skip(t, b - a);
        assert(t.subrange(0, b - a) == v@.subrange(a as int, b as int));
    }
    let mut out: Vec<char> = Vec::new();
    let mut i: usize = a;
    while i < b
        invariant
            a <= i <= b,
            b <= n,
            n == v.len(),
            out@ == v@.subrange(a as int, i as int),
        decreases b - i,
    {
        out.push(v[i]);
        i += 1;
        assert(out@ =~= v@.subrange(a as int, i as int));
    }
    out
}


/// Every character of `s` in class `k` is a plain space.
pub open spec fn tame(s: Seq<char>, k: Class) -> bool {
    forall|i: int| 0 <= i < s.len() && in_class(k, #[trigger] s[i]) ==> s[i] == ' '
}

/// No two neighbouring characters of `s` are both in class `k`.
pub open spec fn no_adjacent(s: Seq<char>, k: Class) -> bool {
    forall|i: int| 1 <= i < s.len() ==> !(in_class(k, s[i - 1]) && in_class(k, #[trigger] s[i]))
}

proof fn lemma_tame_push(t: Seq<char>, c: char, k: Class)
    requires
        tame(t, k),
        in_class(k, c) ==> c == ' ',
    ensures
        tame(t.push(c), k),
{
    assert forall|i: int| 0 <= i < t.push(c).len() && in_class(k, #[trigger] t.push(c)[i]) implies t.push(c)[i] == ' ' by {
        if i < t.len() {
            assert(t.push(c)[i] == t[i]);
        }
    }
}

proof fn lemma_tame_drop_last(s: Seq<char>, k: Class)
    requires
        s.len() > 0,
        tame(s, k),
    ensures
        tame(s.drop_last(), k),
        in_class(k, s.last()) ==> s.last() == ' ',
{
    assert forall|i: int| 0 <= i < s.drop_last().len() && in_class(k, #[trigger] s.drop_last()[i]) implies s.drop_last()[i] == ' ' by {
        assert(s.drop_last()[i] == s[i]);
    }
}

pub proof fn lemma_keep_tame(s: Seq<char>, k: Class, k2: Class)
    ensures
        tame(s, k2) ==> tame(keep(s, k), k2),
        tame(keep(s, k), k),
    decreases s.len(),
{
    if s.len() > 0 {
        lemma_keep_tame(s.drop_last(), k, k2);
        if tame(s, k2) {
            lemma_tame_drop_last(s, k2);
        }
        if !in_class(k, s.last()) {
            if tame(s, k2) {
                lemma_tame_push(keep(s.drop_last(), k), s.last(), k2);
            }
            lemma_tame_push(keep(s.drop_last(), k), s.last(), k);
        }
    }
}

pub proof fn lemma_keep_id(s: Seq<char>, k: Class)
    requires
        tame(s, k),
        !in_class(k, ' '),
    ensures
        keep(s, k) == s,
    decreases s.len(),
{
    if s.len() > 0 {
        lemma_tame_drop_last(s, k);
        lemma_keep_id(s.drop_last(), k);
        assert(s.drop_last().push(s.last()) == s);
    }
}

pub proof fn lemma_squash_tame(s: Seq<char>, k: Class, k2: Class)
    ensures
        tame(s, k2) ==> tame(squash(s, k), k2),
        tame(squash(s, k), k),
    decreases s.len(),
{
    if s.len() > 0 {
        lemma_squash_tame(s.drop_last(), k, k2);
        let q = squash(s.drop_last(), k);
        lemma_tame_push(q, ' ', k);
        if tame(s, k2) {
            lemma_tame_drop_last(s, k2);
            lemma_tame_push(q, ' ', k2);
        }
        if !in_class(k, s.last()) {
            if tame(s, k2) {
                lemma_tame_push(q, s.last(), k2);
            }
            lemma_tame_push(q, s.last(), k);
        }
    }
}

pub proof fn lemma_squash_id(s: Seq<char>, k: Class)
    requires
        tame(s, k),
        no_adjacent(s, k),
    ensures
        squash(s, k) == s,
    decreases s.len(),
{
    if s.len() > 0 {
        let p = s.drop_last();
        lemma_tame_drop_last(s, k);
        assert forall|i: int| 1 <= i < p.len() implies !(in_class(k, p[i - 1]) && in_class(k, #[trigger] p[i])) by {
            assert(p[i] == s[i] && p[i - 1] == s[i - 1]);
        }
        lemma_squash_id(p, k);
        if in_class(k, s.last()) && p.len() > 0 {
            assert(s[s.len() - 1] == s.last());
            assert(!in_class(k, p.last()));
        }
        assert(p.push(s.last()) == s);
    }
}

pub proof fn lemma_unify_tame(s: Seq<char>, k2: Class)
    ensures
        tame(s, k2) && !in_class(k2, bare_alif()) ==> tame(unify_alif(s), k2),
        tame(unify_alif(s), Class::AlifVariant),
{
    let u = unify_alif(s);
    assert forall|i: int| 0 <= i < u.len() implies #[trigger] u[i] == (if in_class(Class::AlifVariant, s[i]) { bare_alif() } else { s[i] }) by {
    }
}

pub proof fn lemma_unify_id(s: Seq<char>)
    requires
        tame(s, Class::AlifVariant),
    ensures
        unify_alif(s) == s,
{
    assert(unify_alif(s) =~= s);
}

proof fn lemma_trim_start_suffix(s: Seq<char>)
    ensures
        trim_start(s).len() <= s.len(),
        trim_start(s) == s.skip(s.len() - trim_start(s).len()),
        trim_start(s).len() > 0 ==> !white_space(trim_start(s)[0]),
    decreases s.len(),
{
    if s.len() > 0 && white_space(s[0]) {
        lemma_trim_start_suffix(s.drop_first());
        assert(s.drop_first().skip(s.drop_first().len() - trim_start(s).len()) == s.skip(s.len() - trim_start(s).len()));
    } else {
        assert(s.skip(0) == s);
    }
}

proof fn lemma_trim_end_prefix(s: Seq<char>)
    ensures
        trim_end(s).len() <= s.len(),
        trim_end(s) == s.take(trim_end(s).len() as int),
        trim_end(s).len() > 0 ==> !white_space(trim_end(s).last()),
    decreases s.len(),
{
    if s.len() > 0 && white_space(s.last()) {
        lemma_trim_end_prefix(s.drop_last());
        assert(s.drop_last().take(trim_end(s).len() as int) == s.take(trim_end(s).len() as int));
    } else {
        assert(s.take(s.len() as int) == s);
    }
}

/// What trimming keeps: a tame class stays tame, and neither end is white.
pub proof fn lemma_trim_facts(s: Seq<char>, k: Class)
    requires
        tame(s, k),
    ensures
        tame(trim(s), k),
        trim(s).len() > 0 ==> !white_space(trim(s)[0]) && !white_space(trim(s).last()),
{
    let a = trim_start(s);
    lemma_trim_start_suffix(s);
    lemma_trim_end_prefix(a);
    let t = trim(s);
    let off = s.len() - a.len();
    assert forall|i: int| 0 <= i < t.len() && in_class(k, #[trigger] t[i]) implies t[i] == ' ' by {
        assert(t[i] == a[i]);
        assert(a[i] == s[i + off]);
    }
    if t.len() > 0 {
        assert(t[0] == a[0]);
    }
}

pub proof fn lemma_trim_id(s: Seq<char>)
    requires
        s.len() > 0 ==> !white_space(s[0]) && !white_space(s.last()),
    ensures
        trim(s) == s,
{
}

} // verus!
