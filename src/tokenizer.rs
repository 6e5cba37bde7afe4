//! Word tokenization: single punctuation/symbol characters and maximal runs
//! of letter, mark and number characters.
use vstd::prelude::*;
use crate::charsets::{lemma_classes_disjoint, is_letter_mark_number, is_punct_symbol, letter_mark_number_char, punct_symbol_char};
use crate::text::{chars_of, string_of};

verus! {

/// Length of the run of letter/mark/number characters that starts `s`.
pub open spec fn run_len(s: Seq<char>) -> nat
    decreases s.len(),
{
    if s.len() > 0 && is_letter_mark_number(s[0]) {
        1 + run_len(s.drop_first())
    } else {
        0
    }
}

/// The tokens of `s`, left to right: each punctuation/symbol character alone,
/// each maximal letter/mark/number run whole; other characters are skipped.
pub open spec fn tokens(s: Seq<char>) -> Seq<Seq<char>>
    decreases s.len(),
{
    if s.len() == 0 {
        Seq::empty()
    } else if is_punct_symbol(s[0]) {
        seq![seq![s[0]]] + tokens(s.drop_first())
    } else if is_letter_mark_number(s[0]) {
        let k = run_len(s);
        if 0 < k <= s.len() {
            seq![s.take(k as int)] + tokens(s.skip(k as int))
        } else {
            Seq::empty()
        }
    } else {
        tokens(s.drop_first())
    }
}

proof fn lemma_run_len_bound(s: Seq<char>)
    ensures
        run_len(s) <= s.len(),
        s.len() > 0 && is_letter_mark_number(s[0]) ==> run_len(s) > 0,
    decreases s.len(),
{
    if s.len() > 0 && is_letter_mark_number(s[0]) {
        lemma_run_len_bound(s.drop_first());
    }
}

/// Splits a sentence into tokens: one per punctuation or symbol character,
/// one per maximal run of letters, marks and numbers.
pub fn simple_word_tokenize(sentence: &str) -> (r: Vec<String>)
    ensures
        r@.map_values(|t: String| t@) == tokens(sentence@),
{
    let v = chars_of(sentence);
    let n = v.len();
    let mut out: Vec<String> = Vec::new();
    let mut i: usize = 0;
    assert(v@.subrange(0, n as int) == v@);
    assert(out@.map_values(|t: String| t@) + tokens(v@) =~= tokens(v@));
    while i < n
        invariant
            i <= n,
            n == v.len(),
            tokens(v@) == out@.map_values(|t: String| t@) + tokens(v@.subrange(i as int, n as int)),
        decreases n - i,
    {
        let ghost rest = v@.subrange(i as int, n as int);
        let c = v[i];
        if punct_symbol_char(c) {
            let mut one: Vec<char> = Vec::new();
            one.push(c);
            let t = string_of(&one);
            proof {
                assert(rest.drop_first() == v@.subrange(i + 1, n as int));
                assert(one@ == seq![rest[0]]);
            }
            out.push(t);
            i += 1;
        } else if letter_mark_number_char(c) {
            let mut j: usize = i;
            let mut run: Vec<char> = Vec::new();
            while j < n && letter_mark_number_char(v[j])
                invariant
                    i <= j <= n,
                    n == v.len(),
                    run@ == v@.subrange(i as int, j as int),
                    run_len(rest) == (j - i) + run_len(v@.subrange(j as int, n as int)),
                decreases n - j,
            {
                proof {
                    assert(v@.subrange(j as int, n as int).drop_first() == v@.subrange(j + 1, n as int));
                }
                run.push(v[j]);
                j += 1;
                assert(run@ =~= v@.subrange(i as int, j as int));
            }
            proof {
                lemma_run_len_bound(rest);
                assert(run_len(rest) == j - i);
                assert(rest.take(j - i) == run@);
                assert(rest.skip(j - i) == v@.subrange(j as int, n as int));
            }
            let t = string_of(&run);
            out.push(t);
            i = j;
        } else {
            proof {
                assert(rest.drop_first() == v@.subrange(i + 1, n as int));
            }
            i += 1;
        }
    }
    assert(v@.subrange(n as int, n as int) =~= Seq::<char>::empty());
    assert(tokens(Seq::<char>::empty()) =~= Seq::<Seq<char>>::empty());
    assert(out@.map_values(|t: String| t@) + Seq::<Seq<char>>::empty() =~= out@.map_values(|t: String| t@));
    out
}


/// The characters of `s` that belong to a token, in order.
pub open spec fn token_chars(s: Seq<char>) -> Seq<char>
    decreases s.len(),
{
    if s.len() == 0 {
        s
    } else if is_punct_symbol(s[0]) || is_letter_mark_number(s[0]) {
        seq![s[0]] + token_chars(s.drop_first())
    } else {
        token_chars(s.drop_first())
    }
}

/// A token is one punctuation/symbol character or a non-empty run of
/// letter/mark/number characters.
pub open spec fn well_shaped(t: Seq<char>) -> bool {
    (t.len() == 1 && is_punct_symbol(t[0])) || (t.len() > 0 && forall|j: int|
        0 <= j < t.len() ==> is_letter_mark_number(#[trigger] t[j]))
}

proof fn lemma_run_all(s: Seq<char>)
    ensures
        forall|j: int| 0 <= j < run_len(s) ==> is_letter_mark_number(#[trigger] s[j]),
    decreases s.len(),
{
    if s.len() > 0 && is_letter_mark_number(s[0]) {
        lemma_run_all(s.drop_first());
        lemma_run_len_bound(s);
        assert forall|j: int| 0 <= j < run_len(s) implies is_letter_mark_number(#[trigger] s[j]) by {
            if j > 0 {
                assert(s[j] == s.drop_first()[j - 1]);
            }
        }
    }
}

proof fn lemma_token_chars_run(s: Seq<char>, k: int)
    requires
        0 <= k <= s.len(),
        forall|j: int| 0 <= j < k ==> is_letter_mark_number(#[trigger] s[j]),
    ensures
        token_chars(s) == s.take(k) + token_chars(s.skip(k)),
    decreases k,
{
    if k > 0 {
        let d = s.drop_first();
        assert forall|j: int| 0 <= j < k - 1 implies is_letter_mark_number(#[trigger] d[j]) by {
            assert(d[j] == s[j + 1]);
        }
        lemma_token_chars_run(d, k - 1);
        assert(d.skip(k - 1) == s.skip(k));
        assert(s.take(k) == seq![s[0]] + d.take(k - 1));
    } else {
        assert(s.skip(0) == s);
    }
}

/// Tokenization keeps exactly the token characters: the tokens, joined in
/// order, are the input without the characters that belong to no token; and
/// every token is a single punctuation/symbol character or a non-empty run of
/// letters, marks and numbers.
pub proof fn lemma_tokens_partition(s: Seq<char>)
    ensures
        tokens(s).flatten() == token_chars(s),
        forall|i: int| 0 <= i < tokens(s).len() ==> well_shaped(#[trigger] tokens(s)[i]),
    decreases s.len(),
{
    if s.len() == 0 {
    } else if is_punct_symbol(s[0]) {
        lemma_tokens_partition(s.drop_first());
        let t = tokens(s.drop_first());
        assert((seq![seq![s[0]]] + t).drop_first() == t);
        assert forall|i: int| 0 <= i < tokens(s).len() implies well_shaped(#[trigger] tokens(s)[i]) by {
            if i > 0 {
                assert(tokens(s)[i] == t[i - 1]);
            }
        }
    } else if is_letter_mark_number(s[0]) {
        lemma_run_len_bound(s);
        lemma_run_all(s);
        let k = run_len(s) as int;
        lemma_tokens_partition(s.skip(k));
        lemma_token_chars_run(s, k);
        let t = tokens(s.skip(k));
        assert((seq![s.take(k)] + t).drop_first() == t);
        assert forall|i: int| 0 <= i < tokens(s).len() implies well_shaped(#[trigger] tokens(s)[i]) by {
            if i > 0 {
                assert(tokens(s)[i] == t[i - 1]);
            }
        }
    } else {
        lemma_tokens_partition(s.drop_first());
    }
}


/// A non-empty run of letter/mark/number characters.
pub open spec fn is_run(t: Seq<char>) -> bool {
    t.len() > 0 && forall|j: int| 0 <= j < t.len() ==> is_letter_mark_number(#[trigger] t[j])
}

proof fn lemma_run_len_stops(s: Seq<char>)
    ensures
        run_len(s) < s.len() ==> !is_letter_mark_number(s[run_len(s) as int]),
    decreases s.len(),
{
    if s.len() > 0 && is_letter_mark_number(s[0]) {
        lemma_run_len_stops(s.drop_first());
        lemma_run_len_bound(s.drop_first());
        if run_len(s) < s.len() {
            assert(s[run_len(s) as int] == s.drop_first()[run_len(s.drop_first()) as int]);
        }
    }
}

/// Runs are maximal: where no character is skipped, no two neighbouring
/// tokens are both letter/mark/number runs, since they would have merged.
pub proof fn lemma_runs_do_not_touch(s: Seq<char>)
    requires
        forall|i: int| 0 <= i < s.len() ==> is_punct_symbol(#[trigger] s[i]) || is_letter_mark_number(s[i]),
    ensures
        forall|i: int| 0 <= i < tokens(s).len() - 1 ==> !(is_run(#[trigger] tokens(s)[i]) && is_run(tokens(s)[i + 1])),
    decreases s.len(),
{
    if s.len() > 0 {
        let rest = if is_punct_symbol(s[0]) {
            s.drop_first()
        } else {
            s.skip(run_len(s) as int)
        };
        lemma_run_len_bound(s);
        assert forall|i: int| 0 <= i < rest.len() implies is_punct_symbol(#[trigger] rest[i]) || is_letter_mark_number(rest[i]) by {
            if is_punct_symbol(s[0]) {
                assert(rest[i] == s[i + 1]);
            } else {
                assert(rest[i] == s[i + run_len(s)]);
            }
        }
        lemma_runs_do_not_touch(rest);
        let t = tokens(rest);
        let head = tokens(s)[0];
        assert(tokens(s).drop_first() == t);
        if !is_punct_symbol(s[0]) && t.len() > 0 {
            lemma_run_len_stops(s);
            assert(rest[0] == s[run_len(s) as int]);
            assert(is_punct_symbol(rest[0]));
            lemma_classes_disjoint(rest[0]);
            assert(t[0] == seq![rest[0]]);
            assert(t[0][0] == rest[0]);
            assert(!is_letter_mark_number(t[0][0]));
            assert(!is_run(t[0]));
        }
        if is_punct_symbol(s[0]) {
            lemma_classes_disjoint(s[0]);
            assert(head == seq![s[0]]);
            assert(head[0] == s[0]);
            assert(!is_letter_mark_number(head[0]));
            assert(!is_run(head));
        }
        assert forall|i: int| 0 <= i < tokens(s).len() - 1 implies !(is_run(#[trigger] tokens(s)[i]) && is_run(tokens(s)[i + 1])) by {
            if i > 0 {
                assert(tokens(s)[i] == t[i - 1]);
                assert(tokens(s)[i + 1] == t[i]);
            } else {
                assert(tokens(s)[1] == t[0]);
            }
        }
    }
}

} // verus!
