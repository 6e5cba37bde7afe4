//! Per-token classification, the lexicon lookup cascade, and projection of
//! the results onto an output shape.
use vstd::prelude::*;
use crate::charsets::{ar_char, is_ar_char, is_numeric, numeric};
use crate::parser::{ar_strip, is_punctuation, remove_punctuation, strip_spec, without};
use crate::text::{chars_of, str_eq, string_of};
use crate::tokenizer::{simple_word_tokenize, tokens};

verus! {

/// One analysis of a token. A record with every optional field unset and a
/// zero frequency means that no analysis was found.
#[derive(Debug)]
pub struct MorphologicalAnalysis {
    pub token: String,
    pub lemma: Option<String>,
    pub lemma_id: Option<i32>,
    pub pos: Option<String>,
    pub root: Option<String>,
    pub frequency: i32,
}

/// The mathematical value of a `MorphologicalAnalysis`.
pub struct RecordView {
    pub token: Seq<char>,
    pub lemma: Option<Seq<char>>,
    pub lemma_id: Option<i32>,
    pub pos: Option<Seq<char>>,
    pub root: Option<Seq<char>>,
    pub frequency: i32,
}

pub open spec fn opt_view(o: Option<String>) -> Option<Seq<char>> {
    match o {
        Some(s) => Some(s@),
        None => None,
    }
}

impl View for MorphologicalAnalysis {
    type V = RecordView;

    open spec fn view(&self) -> RecordView {
        RecordView {
            token: self.token@,
            lemma: opt_view(self.lemma),
            lemma_id: self.lemma_id,
            pos: opt_view(self.pos),
            root: opt_view(self.root),
            frequency: self.frequency,
        }
    }
}

fn clone_opt(o: &Option<String>) -> (r: Option<String>)
    ensures
        opt_view(r) == opt_view(*o),
{
    match o {
        Some(s) => Some(s.clone()),
        None => None,
    }
}

fn opt_eq(a: &Option<String>, b: &Option<String>) -> (r: bool)
    ensures
        r == (opt_view(*a) == opt_view(*b)),
{
    match a {
        Some(x) => match b {
            Some(y) => *x == *y,
            None => false,
        },
        None => b.is_none(),
    }
}

impl Default for MorphologicalAnalysis {
    fn default() -> (r: Self)
        ensures
            r@ == empty_record(Seq::empty()),
    {
        MorphologicalAnalysis {
            token: String::new(),
            lemma: None,
            lemma_id: None,
            pos: None,
            root: None,
            frequency: 0,
        }
    }
}

impl PartialEq for MorphologicalAnalysis {
    fn eq(&self, other: &Self) -> (r: bool) {
        self.token == other.token && opt_eq(&self.lemma, &other.lemma) && self.lemma_id
            == other.lemma_id && opt_eq(&self.pos, &other.pos) && opt_eq(&self.root, &other.root)
            && self.frequency == other.frequency
    }
}

impl vstd::std_specs::cmp::PartialEqSpecImpl for MorphologicalAnalysis {
    open spec fn obeys_eq_spec() -> bool {
        true
    }

    open spec fn eq_spec(&self, other: &MorphologicalAnalysis) -> bool {
        self@ == other@
    }
}

/// One candidate analysis that the lexicon holds for a form.
#[derive(Debug)]
pub struct Candidate {
    pub frequency: i32,
    pub lemma: String,
    pub lemma_id: i32,
    pub root: String,
    pub pos: String,
}

pub struct CandidateView {
    pub frequency: i32,
    pub lemma: Seq<char>,
    pub lemma_id: i32,
    pub root: Seq<char>,
    pub pos: Seq<char>,
}

impl View for Candidate {
    type V = CandidateView;

    open spec fn view(&self) -> CandidateView {
        CandidateView {
            frequency: self.frequency,
            lemma: self.lemma@,
            lemma_id: self.lemma_id,
            root: self.root@,
            pos: self.pos@,
        }
    }
}

/// A normalized form and its candidates, in the lexicon's order.
#[derive(Debug)]
pub struct LexiconEntry {
    pub form: String,
    pub candidates: Vec<Candidate>,
}

pub struct EntryView {
    pub form: Seq<char>,
    pub candidates: Seq<CandidateView>,
}

impl View for LexiconEntry {
    type V = EntryView;

    open spec fn view(&self) -> EntryView {
        EntryView { form: self.form@, candidates: self.candidates@.map_values(|c: Candidate| c@) }
    }
}

/// A lexicon: exact-form lookup of candidate analyses. Where two entries
/// share a form, the first one answers.
#[derive(Debug)]
pub struct Lexicon {
    pub entries: Vec<LexiconEntry>,
}

impl View for Lexicon {
    type V = Seq<EntryView>;

    open spec fn view(&self) -> Seq<EntryView> {
        self.entries@.map_values(|e: LexiconEntry| e@)
    }
}

/// The candidates of the first entry whose form is `key`; none if there is none.
pub open spec fn lookup(entries: Seq<EntryView>, key: Seq<char>) -> Seq<CandidateView>
    decreases entries.len(),
{
    if entries.len() == 0 {
        Seq::empty()
    } else if entries[0].form == key {
        entries[0].candidates
    } else {
        lookup(entries.drop_first(), key)
    }
}

/// Whether a granularity flag asks for the first candidate only.
pub open spec fn first_only(flag: Seq<char>) -> bool {
    flag == "first"@ || flag == "1"@
}

/// The record that carries one candidate for `token`.
pub open spec fn candidate_record(token: Seq<char>, c: CandidateView) -> RecordView {
    RecordView {
        token,
        lemma: Some(c.lemma),
        lemma_id: Some(c.lemma_id),
        pos: Some(c.pos),
        root: Some(c.root),
        frequency: c.frequency,
    }
}

/// The records for `token` from the lexicon's candidates under `key`.
pub open spec fn solutions(entries: Seq<EntryView>, token: Seq<char>, key: Seq<char>, first: bool) -> Seq<RecordView> {
    let cands = lookup(entries, key);
    let chosen = if first && cands.len() > 0 { cands.take(1) } else { cands };
    chosen.map_values(|c: CandidateView| candidate_record(token, c))
}

pub open spec fn empty_record(token: Seq<char>) -> RecordView {
    RecordView { token, lemma: None, lemma_id: None, pos: None, root: None, frequency: 0 }
}

pub open spec fn tagged_record(token: Seq<char>, tag: Seq<char>) -> RecordView {
    RecordView { token, lemma: None, lemma_id: None, pos: Some(tag), root: None, frequency: 0 }
}


/// `s` with each alif wasla replaced by the bare alif.
pub open spec fn unify_wasla(s: Seq<char>) -> Seq<char> {
    swap_char(s, '\u{0671}', '\u{0627}')
}

/// `s` with each `from` replaced by `to`.
pub open spec fn swap_char(s: Seq<char>, from: char, to: char) -> Seq<char> {
    s.map_values(|c: char| if c == from { to } else { c })
}

/// The form a token is classified and looked up by.
pub open spec fn working_form(t: Seq<char>) -> Seq<char> {
    unify_wasla(strip_spec(t, false, true, false, false, false, false))
}

pub open spec fn all_numeric(w: Seq<char>) -> bool {
    forall|i: int| 0 <= i < w.len() ==> numeric(#[trigger] w[i])
}

/// A non-empty word made of Arabic letters and diacritics only.
pub open spec fn is_ar(w: Seq<char>) -> bool {
    w.len() > 0 && forall|i: int| 0 <= i < w.len() ==> is_ar_char(#[trigger] w[i])
}

/// `s` without its leading bare alifs.
pub open spec fn strip_leading_alif(s: Seq<char>) -> Seq<char>
    decreases s.len(),
{
    if s.len() > 0 && s[0] == '\u{0627}' {
        strip_leading_alif(s.drop_first())
    } else {
        s
    }
}

/// `s` with each ha replaced by ta marbuta.
pub open spec fn ha_to_ta(s: Seq<char>) -> Seq<char> {
    swap_char(s, '\u{0647}', '\u{0629}')
}

/// The lookup keys of the cascade, in the order they are tried.
pub open spec fn cascade_keys(w: Seq<char>) -> Seq<Seq<char>> {
    let a = strip_leading_alif(w);
    let rest = seq![
        ha_to_ta(w),
        strip_spec(w, false, false, false, false, true, false),
        strip_spec(w, true, false, true, true, false, false),
        strip_spec(w, true, true, true, false, true, false),
    ];
    if a.len() > 5 {
        seq![w, a] + rest
    } else {
        seq![w] + rest
    }
}

/// The records of the first key that the lexicon knows; none if it knows none.
pub open spec fn first_hit(entries: Seq<EntryView>, token: Seq<char>, keys: Seq<Seq<char>>, first: bool) -> Seq<RecordView>
    decreases keys.len(),
{
    if keys.len() == 0 {
        Seq::empty()
    } else if solutions(entries, token, keys[0], first).len() > 0 {
        solutions(entries, token, keys[0], first)
    } else {
        first_hit(entries, token, keys.drop_first(), first)
    }
}

/// How a working form is classified.
pub enum TokenKind {
    Number,
    Punctuation,
    Foreign,
    Arabic,
}

pub open spec fn token_kind(w: Seq<char>) -> TokenKind {
    if all_numeric(w) {
        TokenKind::Number
    } else if without(w, |c: char| is_punctuation(c)).len() == 0 {
        TokenKind::Punctuation
    } else if !is_ar(w) {
        TokenKind::Foreign
    } else {
        TokenKind::Arabic
    }
}

/// The records that one token yields, before projection.
pub open spec fn token_records(entries: Seq<EntryView>, t: Seq<char>, first: bool) -> Seq<RecordView> {
    let w = working_form(t);
    match token_kind(w) {
        TokenKind::Number => seq![tagged_record(w, "number"@)],
        TokenKind::Punctuation => seq![tagged_record(w, "punctuation"@)],
        TokenKind::Foreign => seq![tagged_record(w, "foreign"@)],
        TokenKind::Arabic => {
            let hit = first_hit(entries, w, cascade_keys(w), first);
            if hit.len() > 0 {
                hit
            } else {
                seq![empty_record(w)]
            }
        },
    }
}

/// The records of a sequence of tokens, token after token.
pub open spec fn all_records(entries: Seq<EntryView>, toks: Seq<Seq<char>>, first: bool) -> Seq<RecordView>
    decreases toks.len(),
{
    if toks.len() == 0 {
        Seq::empty()
    } else {
        all_records(entries, toks.drop_last(), first) + token_records(entries, toks.last(), first)
    }
}

/// A record reduced to the fields that an output shape keeps.
pub open spec fn project(r: RecordView, task: Seq<char>) -> RecordView {
    if task == "lemmatization"@ {
        RecordView { token: r.token, lemma: r.lemma, lemma_id: r.lemma_id, pos: None, root: None, frequency: r.frequency }
    } else if task == "pos"@ {
        RecordView { token: r.token, lemma: None, lemma_id: None, pos: r.pos, root: None, frequency: r.frequency }
    } else if task == "root"@ {
        RecordView { token: r.token, lemma: None, lemma_id: None, pos: None, root: r.root, frequency: r.frequency }
    } else {
        r
    }
}

/// What `analyze` returns for a lexicon, a text, an output shape and a granularity.
pub open spec fn analysis(entries: Seq<EntryView>, text: Seq<char>, task: Seq<char>, flag: Seq<char>) -> Seq<RecordView> {
    all_records(entries, tokens(text), first_only(flag)).map_values(|r: RecordView| project(r, task))
}

pub open spec fn views(v: Seq<MorphologicalAnalysis>) -> Seq<RecordView> {
    v.map_values(|m: MorphologicalAnalysis| m@)
}


/// Whether a granularity flag asks for the first candidate only.
fn is_first(flag: &str) -> (r: bool)
    ensures
        r == first_only(flag@),
{
    str_eq(flag, "first") || str_eq(flag, "1")
}

/// The index of the first entry whose form is `key`, if any.
fn entry_index(lexicon: &Lexicon, key: &String) -> (r: Option<usize>)
    ensures
        match r {
            Some(i) => i < lexicon@.len() && lookup(lexicon@, key@) == lexicon@[i as int].candidates,
            None => lookup(lexicon@, key@) == Seq::<CandidateView>::empty(),
        },
{
    let n = lexicon.entries.len();
    let mut i: usize = 0;
    assert(lexicon@.subrange(0, n as int) == lexicon@);
    while i < n
        invariant
            i <= n,
            n == lexicon.entries.len(),
            lookup(lexicon@, key@) == lookup(lexicon@.subrange(i as int, n as int), key@),
        decreases n - i,
    {
        assert(lexicon@.subrange(i as int, n as int).drop_first() == lexicon@.subrange(i + 1, n as int));
        assert(lexicon@.subrange(i as int, n as int)[0] == lexicon.entries@[i as int]@);
        if lexicon.entries[i].form == *key {
            return Some(i);
        }
        i += 1;
    }
    None
}

/// The records for `token` from the lexicon's candidates under `key`: the
/// first candidate only where `flag` is `"first"` (or `"1"`), else all of them.
pub fn find_solution(lexicon: &Lexicon, token: &str, key: &str, flag: &str) -> (r: Vec<MorphologicalAnalysis>)
    ensures
        views(r@) == solutions(lexicon@, token@, key@, first_only(flag@)),
{
    let first = is_first(flag);
    let key_string = key.to_owned();
    let mut out: Vec<MorphologicalAnalysis> = Vec::new();
    match entry_index(lexicon, &key_string) {
        None => {
            assert(views(out@) =~= solutions(lexicon@, token@, key@, first));
            out
        },
        Some(e) => {
            let cands = &lexicon.entries[e].candidates;
            let ghost cv = lexicon@[e as int].candidates;
            assert(cv == cands@.map_values(|c: Candidate| c@));
            let lim: usize = if first && cands.len() > 0 { 1 } else { cands.len() };
            let ghost chosen = if first && cv.len() > 0 { cv.take(1) } else { cv };
            assert(chosen.len() == lim);
            let mut k: usize = 0;
            while k < lim
                invariant
                    k <= lim,
                    lim <= cands.len(),
                    chosen.len() == lim,
                    cv == cands@.map_values(|c: Candidate| c@),
                    forall|j: int| 0 <= j < lim ==> chosen[j] == cv[j],
                    views(out@) == chosen.take(k as int).map_values(|c: CandidateView| candidate_record(token@, c)),
                decreases lim - k,
            {
                let c = &cands[k];
                let rec = MorphologicalAnalysis {
                    token: token.to_owned(),
                    lemma: Some(c.lemma.clone()),
                    lemma_id: Some(c.lemma_id),
                    pos: Some(c.pos.clone()),
                    root: Some(c.root.clone()),
                    frequency: c.frequency,
                };
                assert(cv[k as int] == c@);
                assert(rec@ == candidate_record(token@, chosen[k as int]));
                let ghost before = out@;
                out.push(rec);
                assert(views(out@) =~= views(before).push(rec@));
                k += 1;
                assert(views(out@) =~= chosen.take(k as int).map_values(|c: CandidateView| candidate_record(token@, c)));
            }
            assert(chosen.take(lim as int) == chosen);
            out
        },
    }
}


/// `v` with each `from` replaced by `to`.
fn swap_chars(v: &Vec<char>, from: char, to: char) -> (r: Vec<char>)
    ensures
        r@ == swap_char(v@, from, to),
{
    let mut out: Vec<char> = Vec::new();
    let mut i: usize = 0;
    while i < v.len()
        invariant
            i <= v.len(),
            out@ == swap_char(v@.take(i as int), from, to),
        decreases v.len() - i,
    {
        if v[i] == from {
            out.push(to);
        } else {
            out.push(v[i]);
        }
        i += 1;
        assert(out@ =~= swap_char(v@.take(i as int), from, to));
    }
    assert(v@.take(v.len() as int) == v@);
    out
}

proof fn lemma_strip_leading_alif_skip(s: Seq<char>, a: int)
    requires
        0 <= a <= s.len(),
        forall|j: int| 0 <= j < a ==> #[trigger] s[j] == '\u{0627}',
    ensures
        strip_leading_alif(s) == strip_leading_alif(s.subrange(a, s.len() as int)),
    decreases a,
{
    if a > 0 {
        assert(s.drop_first().subrange(a - 1, s.drop_first().len() as int) == s.subrange(a, s.len() as int));
        lemma_strip_leading_alif_skip(s.drop_first(), a - 1);
    } else {
        assert(s.subrange(0, s.len() as int) == s);
    }
}

/// `v` without its leading bare alifs.
fn strip_leading_alif_chars(v: &Vec<char>) -> (r: Vec<char>)
    ensures
        r@ == strip_leading_alif(v@),
{
    let n = v.len();
    let mut a: usize = 0;
    while a < n && v[a] == '\u{0627}'
        invariant
            a <= n,
            n == v.len(),
            forall|j: int| 0 <= j < a ==> #[trigger] v@[j] == '\u{0627}',
        decreases n - a,
    {
        a += 1;
    }
    proof {
        lemma_strip_leading_alif_skip(v@, a as int);
    }
    let mut out: Vec<char> = Vec::new();
    let mut i: usize = a;
    while i < n
        invariant
            a <= i <= n,
            n == v.len(),
            out@ == v@.subrange(a as int, i as int),
        decreases n - i,
    {
        out.push(v[i]);
        i += 1;
        assert(out@ =~= v@.subrange(a as int, i as int));
    }
    out
}

/// Whether `word` is a non-empty run of Arabic letters and diacritics.
pub fn _is_ar(word: &str) -> (r: bool)
    ensures
        r == is_ar(word@),
{
    let v = chars_of(word);
    if v.len() == 0 {
        return false;
    }
    let mut i: usize = 0;
    while i < v.len()
        invariant
            i <= v.len(),
            v@ == word@,
            forall|j: int| 0 <= j < i ==> is_ar_char(#[trigger] v@[j]),
        decreases v.len() - i,
    {
        if !ar_char(v[i]) {
            assert(!is_ar_char(word@[i as int]));
            return false;
        }
        i += 1;
    }
    true
}

/// Whether every character of `v` is numeric.
fn all_numeric_chars(v: &Vec<char>) -> (r: bool)
    ensures
        r == all_numeric(v@),
{
    let mut i: usize = 0;
    while i < v.len()
        invariant
            i <= v.len(),
            forall|j: int| 0 <= j < i ==> numeric(#[trigger] v@[j]),
        decreases v.len() - i,
    {
        if !is_numeric(v[i]) {
            return false;
        }
        i += 1;
    }
    true
}

/// A record with only a part-of-speech tag set.
fn tagged(token: String, tag: &str) -> (r: MorphologicalAnalysis)
    ensures
        r@ == tagged_record(token@, tag@),
{
    MorphologicalAnalysis {
        token,
        lemma: None,
        lemma_id: None,
        pos: Some(tag.to_owned()),
        root: None,
        frequency: 0,
    }
}

/// Runs the lookup cascade for an Arabic working form `w`.
fn cascade(lexicon: &Lexicon, w: &String, flag: &str) -> (r: Vec<MorphologicalAnalysis>)
    ensures
        views(r@) == first_hit(lexicon@, w@, cascade_keys(w@), first_only(flag@)),
{
    let wv = chars_of(w.as_str());
    let a = strip_leading_alif_chars(&wv);
    let mut keys: Vec<String> = Vec::new();
    keys.push(w.clone());
    if a.len() > 5 {
        keys.push(string_of(&a));
    }
    keys.push(string_of(&swap_chars(&wv, '\u{0647}', '\u{0629}')));
    keys.push(ar_strip(w.as_str(), false, false, false, false, true, false));
    keys.push(ar_strip(w.as_str(), true, false, true, true, false, false));
    keys.push(ar_strip(w.as_str(), true, true, true, false, true, false));
    let ghost ks = cascade_keys(w@);
    assert(keys@.map_values(|k: String| k@) =~= ks);
    let n = keys.len();
    let mut i: usize = 0;
    assert(ks.subrange(0, n as int) == ks);
    while i < n
        invariant
            i <= n,
            n == keys.len(),
            keys@.map_values(|k: String| k@) == ks,
            ks == cascade_keys(w@),
            first_hit(lexicon@, w@, ks, first_only(flag@)) == first_hit(lexicon@, w@, ks.subrange(i as int, n as int), first_only(flag@)),
        decreases n - i,
    {
        assert(ks.subrange(i as int, n as int).drop_first() == ks.subrange(i + 1, n as int));
        assert(ks.subrange(i as int, n as int)[0] == keys@[i as int]@);
        let r = find_solution(lexicon, w.as_str(), keys[i].as_str(), flag);
        if r.len() > 0 {
            assert(views(r@).len() > 0);
            let ghost sub = ks.subrange(i as int, n as int);
            assert(views(r@) == solutions(lexicon@, w@, sub[0], first_only(flag@)));
            assert(first_hit(lexicon@, w@, sub, first_only(flag@)) == views(r@));
            return r;
        }
        i += 1;
    }
    assert(ks.subrange(n as int, n as int) =~= Seq::<Seq<char>>::empty());
    Vec::new()
}


/// The records that one token yields: a number, punctuation or foreign tag,
/// the cascade's hit, or an empty record when the cascade finds nothing.
pub fn analyze_token(lexicon: &Lexicon, token: &str, flag: &str) -> (r: Vec<MorphologicalAnalysis>)
    ensures
        views(r@) == token_records(lexicon@, token@, first_only(flag@)),
{
    let stripped = ar_strip(token, false, true, false, false, false, false);
    let sv = chars_of(stripped.as_str());
    let wv = swap_chars(&sv, '\u{0671}', '\u{0627}');
    let w = string_of(&wv);
    let mut out: Vec<MorphologicalAnalysis> = Vec::new();
    if all_numeric_chars(&wv) {
        out.push(tagged(w, "number"));
        assert(views(out@) =~= token_records(lexicon@, token@, first_only(flag@)));
    } else if remove_punctuation(w.as_str()).as_str().is_empty() {
        out.push(tagged(w, "punctuation"));
        assert(views(out@) =~= token_records(lexicon@, token@, first_only(flag@)));
    } else if !_is_ar(w.as_str()) {
        out.push(tagged(w, "foreign"));
        assert(views(out@) =~= token_records(lexicon@, token@, first_only(flag@)));
    } else {
        out = cascade(lexicon, &w, flag);
        if out.len() == 0 {
            out.push(MorphologicalAnalysis {
                token: w,
                lemma: None,
                lemma_id: None,
                pos: None,
                root: None,
                frequency: 0,
            });
            assert(views(out@) =~= token_records(lexicon@, token@, first_only(flag@)));
        }
    }
    out
}

proof fn lemma_shapes_distinct()
    ensures
        "lemmatization"@ != "pos"@,
        "lemmatization"@ != "root"@,
        "pos"@ != "root"@,
{
    reveal_strlit("lemmatization");
    reveal_strlit("pos");
    reveal_strlit("root");
    assert("lemmatization"@[0] != "pos"@[0]);
    assert("lemmatization"@[0] != "root"@[0]);
    assert("pos"@[0] != "root"@[0]);
}

/// Reduces each record to the fields that the output shape keeps:
/// `"lemmatization"` keeps the lemma and its identifier, `"pos"` the tag,
/// `"root"` the root; the token and frequency always stay. Any other shape
/// keeps everything.
pub fn filter_results(data: Vec<MorphologicalAnalysis>, task: &str) -> (r: Vec<MorphologicalAnalysis>)
    ensures
        views(r@) == views(data@).map_values(|m: RecordView| project(m, task@)),
{
    let lemmatization = str_eq(task, "lemmatization");
    let pos = str_eq(task, "pos");
    let root = str_eq(task, "root");
    let mut out: Vec<MorphologicalAnalysis> = Vec::new();
    let mut i: usize = 0;
    while i < data.len()
        invariant
            i <= data.len(),
            lemmatization == (task@ == "lemmatization"@),
            pos == (task@ == "pos"@),
            root == (task@ == "root"@),
            views(out@) == views(data@.take(i as int)).map_values(|m: RecordView| project(m, task@)),
        decreases data.len() - i,
    {
        let item = &data[i];
        let keep_lemma = !(pos || root);
        let keep_pos = !(lemmatization || root);
        let keep_root = !(lemmatization || pos);
        let rec = MorphologicalAnalysis {
            token: item.token.clone(),
            lemma: if keep_lemma { clone_opt(&item.lemma) } else { None },
            lemma_id: if keep_lemma { item.lemma_id } else { None },
            pos: if keep_pos { clone_opt(&item.pos) } else { None },
            root: if keep_root { clone_opt(&item.root) } else { None },
            frequency: item.frequency,
        };
        proof {
            lemma_shapes_distinct();
        }
        assert(rec@ == project(item@, task@));
        let ghost before = out@;
        out.push(rec);
        assert(views(out@) =~= views(before).push(rec@));
        i += 1;
        assert(views(data@.take(i as int)) =~= views(data@.take(i - 1)).push(item@));
        assert(views(out@) =~= views(data@.take(i as int)).map_values(|m: RecordView| project(m, task@)));
    }
    assert(data@.take(data.len() as int) == data@);
    out
}

/// Tokenizes `text`, analyzes each token against `lexicon` and projects the
/// records onto the output shape `task`; `flag` selects the first candidate
/// (`"first"`) or all of them.
pub fn analyze_with(lexicon: &Lexicon, text: &str, task: &str, flag: &str) -> (r: Vec<MorphologicalAnalysis>)
    ensures
        views(r@) == analysis(lexicon@, text@, task@, flag@),
{
    let toks = simple_word_tokenize(text);
    let ghost tv = toks@.map_values(|t: String| t@);
    let mut out: Vec<MorphologicalAnalysis> = Vec::new();
    let mut i: usize = 0;
    while i < toks.len()
        invariant
            i <= toks.len(),
            tv == toks@.map_values(|t: String| t@),
            views(out@) == all_records(lexicon@, tv.take(i as int), first_only(flag@)),
        decreases toks.len() - i,
    {
        let recs = analyze_token(lexicon, toks[i].as_str(), flag);
        let ghost before = out@;
        let mut recs = recs;
        let ghost rv = views(recs@);
        out.append(&mut recs);
        assert(views(out@) =~= views(before) + rv);
        assert(tv.take(i + 1).drop_last() =~= tv.take(i as int));
        i += 1;
    }
    assert(tv.take(toks.len() as int) == tv);
    filter_results(out, task)
}


/// The entries of the built-in lexicon.
pub open spec fn builtin_entries() -> Seq<EntryView> {
    seq![
        EntryView {
            form: "ذهب"@,
            candidates: seq![
                CandidateView {
                    frequency: 82202,
                    lemma: "ذَهَبَ"@,
                    lemma_id: 202001617,
                    root: "ذ ه ب"@,
                    pos: "فعل ماضي"@,
                },
            ],
        },
    ]
}

impl Lexicon {
    /// The built-in lexicon: one entry, the verb "ذهب".
    pub fn builtin() -> (r: Lexicon)
        ensures
            r@ == builtin_entries(),
    {
        let mut candidates: Vec<Candidate> = Vec::new();
        candidates.push(
            Candidate {
                frequency: 82202,
                lemma: "ذَهَبَ".to_owned(),
                lemma_id: 202001617,
                root: "ذ ه ب".to_owned(),
                pos: "فعل ماضي".to_owned(),
            },
        );
        let mut entries: Vec<LexiconEntry> = Vec::new();
        entries.push(LexiconEntry { form: "ذهب".to_owned(), candidates });
        let r = Lexicon { entries };
        assert(r@[0].candidates =~= builtin_entries()[0].candidates);
        assert(r@ =~= builtin_entries());
        r
    }
}

/// Analyzes `text` against the built-in lexicon: see `analyze_with`.
pub fn analyze(text: &str, task: &str, flag: &str) -> (r: Vec<MorphologicalAnalysis>)
    ensures
        views(r@) == analysis(builtin_entries(), text@, task@, flag@),
{
    let lexicon = Lexicon::builtin();
    analyze_with(&lexicon, text, task, flag)
}


/// Projection keeps the token and the frequency always, and keeps exactly the
/// fields of its shape: lemma and identifier for `"lemmatization"`, the tag
/// for `"pos"`, the root for `"root"`, all fields for any other shape; the
/// rest is unset.
pub proof fn lemma_projection(r: RecordView, task: Seq<char>)
    ensures
        project(r, task).token == r.token,
        project(r, task).frequency == r.frequency,
        task == "lemmatization"@ ==> project(r, task) == (RecordView {
            token: r.token,
            lemma: r.lemma,
            lemma_id: r.lemma_id,
            pos: None,
            root: None,
            frequency: r.frequency,
        }),
        task == "pos"@ ==> project(r, task) == (RecordView {
            token: r.token,
            lemma: None,
            lemma_id: None,
            pos: r.pos,
            root: None,
            frequency: r.frequency,
        }),
        task == "root"@ ==> project(r, task) == (RecordView {
            token: r.token,
            lemma: None,
            lemma_id: None,
            pos: None,
            root: r.root,
            frequency: r.frequency,
        }),
        task != "lemmatization"@ && task != "pos"@ && task != "root"@ ==> project(r, task) == r,
{
    lemma_shapes_distinct();
}

/// Analysis is deterministic: two runs on the same lexicon, text, shape and
/// granularity give the same records.
pub proof fn lemma_analyze_deterministic(
    entries: Seq<EntryView>,
    text: Seq<char>,
    task: Seq<char>,
    flag: Seq<char>,
    r1: Seq<RecordView>,
    r2: Seq<RecordView>,
)
    requires
        r1 == analysis(entries, text, task, flag),
        r2 == analysis(entries, text, task, flag),
    ensures
        r1 == r2,
{
}

/// Every token reaches exactly one terminal: number, punctuation, foreign, or
/// the cascade; and its records are the ones that terminal gives.
pub proof fn lemma_classification_total(entries: Seq<EntryView>, t: Seq<char>, first: bool)
    ensures
        ({
            let w = working_form(t);
            let number = all_numeric(w);
            let punctuation = !all_numeric(w) && without(w, |c: char| is_punctuation(c)).len() == 0;
            let foreign = !all_numeric(w) && without(w, |c: char| is_punctuation(c)).len() > 0
                && !is_ar(w);
            let arabic = !all_numeric(w) && without(w, |c: char| is_punctuation(c)).len() > 0
                && is_ar(w);
            let recs = token_records(entries, t, first);
            let hit = first_hit(entries, w, cascade_keys(w), first);
            &&& (number as int) + (punctuation as int) + (foreign as int) + (arabic as int) == 1
            &&& number ==> recs == seq![tagged_record(w, "number"@)]
            &&& punctuation ==> recs == seq![tagged_record(w, "punctuation"@)]
            &&& foreign ==> recs == seq![tagged_record(w, "foreign"@)]
            &&& arabic ==> recs == if hit.len() > 0 { hit } else { seq![empty_record(w)] }
        }),
{
}

} // verus!
