//! Merging of streamed speech-to-text results into final and partial words.
//!
//! Times and confidences reach this module as order keys: integers that
//! compare exactly as the floating-point values they stand for (the caller
//! encodes them).  Only their order matters to the merging rules.
use vstd::prelude::*;
use vstd::string::*;

use crate::text::{is_trimmed, join_seq, trim, trim_seq};

verus! {

broadcast use vstd::string::group_string_axioms;

/// Order key of the confidence threshold 0.6: an interim result replaces
/// partial words only when its confidence is above it.
pub const CONFIDENCE_THRESHOLD: i64 = 4603579539098121011;

/// A recognized word.
pub struct Word {
    /// The text of the word.
    pub word: String,
    /// Order key of the start time.
    pub start: i64,
    /// Order key of the end time.
    pub end: i64,
    /// Handle by which the caller finds the rest of the word's data again.
    pub tag: u64,
}

pub struct WordView {
    pub text: Seq<char>,
    pub start: i64,
    pub end: i64,
    pub tag: u64,
}

impl View for Word {
    type V = WordView;

    open spec fn view(&self) -> WordView {
        WordView { text: self.word@, start: self.start, end: self.end, tag: self.tag }
    }
}

impl Word {
    /// A copy of the word.
    pub fn duplicate(&self) -> (r: Word)
        ensures
            r@ == self@,
    {
        Word { word: self.word.clone(), start: self.start, end: self.end, tag: self.tag }
    }
}

/// One alternative reading of a stretch of speech.
pub struct Alternative {
    pub words: Vec<Word>,
    /// Order key of the confidence of the alternative.
    pub confidence: i64,
}

pub struct AlternativeView {
    pub words: Seq<WordView>,
    pub confidence: i64,
}

impl View for Alternative {
    type V = AlternativeView;

    open spec fn view(&self) -> AlternativeView {
        AlternativeView { words: words_view(self.words@), confidence: self.confidence }
    }
}

/// A message of the streaming speech-to-text service.
pub enum StreamResponse {
    /// A transcript of the latest stretch of audio, interim or final.
    TranscriptResponse { is_final: bool, alternatives: Vec<Alternative> },
    /// Any other message (metadata, speech started, utterance end, errors).
    Other,
}

pub enum ResponseView {
    Transcript { is_final: bool, alternatives: Seq<AlternativeView> },
    Other,
}

impl View for StreamResponse {
    type V = ResponseView;

    open spec fn view(&self) -> ResponseView {
        match self {
            StreamResponse::TranscriptResponse { is_final, alternatives } => ResponseView::Transcript {
                is_final: *is_final,
                alternatives: alternatives@.map_values(|a: Alternative| a@),
            },
            StreamResponse::Other => ResponseView::Other,
        }
    }
}

pub open spec fn words_view(v: Seq<Word>) -> Seq<WordView> {
    v.map_values(|w: Word| w@)
}

pub open spec fn texts(ws: Seq<WordView>) -> Seq<Seq<char>> {
    ws.map_values(|w: WordView| w.text)
}

/// The words with their text trimmed, dropping those left empty.
pub open spec fn clean_words(ws: Seq<WordView>) -> Seq<WordView>
    decreases ws.len(),
{
    if ws.len() == 0 {
        Seq::empty()
    } else {
        let rest = clean_words(ws.drop_last());
        let w = ws.last();
        let t = trim_seq(w.text);
        if t.len() == 0 {
            rest
        } else {
            rest.push(WordView { text: t, ..w })
        }
    }
}

/// The words that start after `t`, in order.
pub open spec fn starting_after(ws: Seq<WordView>, t: i64) -> Seq<WordView>
    decreases ws.len(),
{
    if ws.len() == 0 {
        Seq::empty()
    } else {
        let rest = starting_after(ws.drop_last(), t);
        if ws.last().start > t {
            rest.push(ws.last())
        } else {
            rest
        }
    }
}

/// The words that end no later than `t`, in order.
pub open spec fn ending_by(ws: Seq<WordView>, t: i64) -> Seq<WordView>
    decreases ws.len(),
{
    if ws.len() == 0 {
        Seq::empty()
    } else {
        let rest = ending_by(ws.drop_last(), t);
        if ws.last().end <= t {
            rest.push(ws.last())
        } else {
            rest
        }
    }
}


/// `w` with its text trimmed.
pub open spec fn trimmed_word(w: WordView) -> WordView {
    WordView { text: trim_seq(w.text), ..w }
}

/// `w` is one of the words `ws`.
pub open spec fn among(w: WordView, ws: Seq<WordView>) -> bool {
    exists|j: int| 0 <= j < ws.len() && #[trigger] ws[j] == w
}

/// `w` is one of the words `ws` with only its text trimmed.
pub open spec fn trimmed_among(w: WordView, ws: Seq<WordView>) -> bool {
    exists|j: int| 0 <= j < ws.len() && w == trimmed_word(#[trigger] ws[j])
}

/// Every word has non-empty text without surrounding whitespace.
pub open spec fn all_clean(ws: Seq<WordView>) -> bool {
    forall|i: int| 0 <= i < ws.len() ==> {
        &&& #[trigger] ws[i].text.len() > 0
        &&& is_trimmed(ws[i].text)
    }
}

/// A response the merging accepts: a transcript has an alternative, and a
/// final transcript has at least one word that is not blank.
pub open spec fn appendable(r: ResponseView) -> bool {
    match r {
        ResponseView::Transcript { is_final, alternatives } => {
            &&& alternatives.len() > 0
            &&& is_final ==> clean_words(alternatives[0].words).len() > 0
        },
        ResponseView::Other => true,
    }
}

/// The partial words after a response, and the final words it settles.
pub open spec fn merge(partial: Seq<WordView>, r: ResponseView) -> (Seq<WordView>, Seq<WordView>) {
    match r {
        ResponseView::Transcript { is_final, alternatives } => {
            let data = alternatives[0];
            let words = clean_words(data.words);
            if is_final {
                (starting_after(partial, words.last().end), words)
            } else if data.confidence > CONFIDENCE_THRESHOLD {
                let kept = if words.len() > 0 {
                    ending_by(partial, words[0].start)
                } else {
                    Seq::empty()
                };
                (kept + words, Seq::empty())
            } else {
                (partial, Seq::empty())
            }
        },
        ResponseView::Other => (partial, Seq::empty()),
    }
}

/// The words that changed with a response.
pub struct Diff {
    pub partial_words: Vec<Word>,
    pub final_words: Vec<Word>,
}

pub struct DiffView {
    pub partial_words: Seq<WordView>,
    pub final_words: Seq<WordView>,
}

impl View for Diff {
    type V = DiffView;

    open spec fn view(&self) -> DiffView {
        DiffView {
            partial_words: words_view(self.partial_words@),
            final_words: words_view(self.final_words@),
        }
    }
}

fn join_words(words: &Vec<Word>) -> (r: String)
    ensures
        r@ == join_seq(texts(words_view(words@)), seq![' ']),
{
    let mut out = String::new();
    let ghost ts = texts(words_view(words@));
    for i in 0..words.len()
        invariant
            ts == texts(words_view(words@)),
            ts.len() == words@.len(),
            out@ == join_seq(ts.take(i as int), seq![' ']),
    {
        assert(ts.take(i + 1).drop_last() =~= ts.take(i as int));
        assert(ts[i as int] == words@[i as int].word@);
        let ghost before = out@;
        proof { reveal_strlit(" "); }
        if i > 0 {
            out.append(" ");
        }
        out.append(words[i].word.as_str());
        proof {
            let tk = ts.take(i + 1);
            if i == 0 {
                assert(tk.len() == 1);
                assert(out@ =~= tk[0]);
            } else {
                assert(tk.last() == ts[i as int]);
                assert(out@ =~= before + seq![' '] + ts[i as int]);
            }
        }
    }
    assert(ts.take(words@.len() as int) =~= ts);
    out
}

impl Default for Diff {
    fn default() -> (r: Diff)
        ensures
            r@.partial_words.len() == 0,
            r@.final_words.len() == 0,
    {
        Diff { partial_words: Vec::new(), final_words: Vec::new() }
    }
}

impl Diff {
    /// The partial words, separated by single spaces.
    pub fn partial_content(&self) -> (r: String)
        ensures
            r@ == join_seq(texts(self@.partial_words), seq![' ']),
    {
        join_words(&self.partial_words)
    }

    /// The final words, separated by single spaces.
    pub fn final_content(&self) -> (r: String)
        ensures
            r@ == join_seq(texts(self@.final_words), seq![' ']),
    {
        join_words(&self.final_words)
    }
}

/// Keeps the partial (not yet final) words of one transcription stream.
pub struct TranscriptManager {
    id: u128,
    partial_words: Vec<Word>,
}

impl View for TranscriptManager {
    type V = Seq<WordView>;

    closed spec fn view(&self) -> Seq<WordView> {
        words_view(self.partial_words@)
    }
}

impl Default for TranscriptManager {
    fn default() -> (r: TranscriptManager)
        ensures
            r@ == Seq::<WordView>::empty(),
            r.id() == 0,
    {
        let r = TranscriptManager { id: 0, partial_words: Vec::new() };
        assert(r@ =~= Seq::<WordView>::empty());
        r
    }
}

fn copy_words(ws: &Vec<Word>) -> (r: Vec<Word>)
    ensures
        words_view(r@) == words_view(ws@),
{
    let mut out: Vec<Word> = Vec::new();
    for i in 0..ws.len()
        invariant
            words_view(out@) == words_view(ws@).take(i as int),
    {
        let ghost before = out@;
        out.push(ws[i].duplicate());
        assert(words_view(out@) =~= words_view(before).push(ws@[i as int]@));
        assert(words_view(ws@).take(i + 1) =~= words_view(ws@).take(i as int).push(ws@[i as int]@));
    }
    assert(words_view(ws@).take(ws@.len() as int) =~= words_view(ws@));
    out
}

fn clean(ws: &Vec<Word>) -> (r: Vec<Word>)
    ensures
        words_view(r@) == clean_words(words_view(ws@)),
{
    let mut out: Vec<Word> = Vec::new();
    let ghost wv = words_view(ws@);
    for i in 0..ws.len()
        invariant
            wv == words_view(ws@),
            words_view(out@) == clean_words(wv.take(i as int)),
    {
        let ghost before = out@;
        assert(wv.take(i + 1).drop_last() =~= wv.take(i as int));
        let t = trim(ws[i].word.as_str());
        if !t.as_str().is_empty() {
            out.push(Word { word: t, start: ws[i].start, end: ws[i].end, tag: ws[i].tag });
            assert(words_view(out@) =~= words_view(before).push(out@.last()@));
        }
    }
    assert(wv.take(ws@.len() as int) =~= wv);
    out
}

fn keep_starting_after(ws: &Vec<Word>, t: i64) -> (r: Vec<Word>)
    ensures
        words_view(r@) == starting_after(words_view(ws@), t),
{
    let mut out: Vec<Word> = Vec::new();
    let ghost wv = words_view(ws@);
    for i in 0..ws.len()
        invariant
            wv == words_view(ws@),
            words_view(out@) == starting_after(wv.take(i as int), t),
    {
        let ghost before = out@;
        assert(wv.take(i + 1).drop_last() =~= wv.take(i as int));
        if ws[i].start > t {
            out.push(ws[i].duplicate());
            assert(words_view(out@) =~= words_view(before).push(ws@[i as int]@));
        }
    }
    assert(wv.take(ws@.len() as int) =~= wv);
    out
}

fn keep_ending_by(ws: &Vec<Word>, t: i64) -> (r: Vec<Word>)
    ensures
        words_view(r@) == ending_by(words_view(ws@), t),
{
    let mut out: Vec<Word> = Vec::new();
    let ghost wv = words_view(ws@);
    for i in 0..ws.len()
        invariant
            wv == words_view(ws@),
            words_view(out@) == ending_by(wv.take(i as int), t),
    {
        let ghost before = out@;
        assert(wv.take(i + 1).drop_last() =~= wv.take(i as int));
        if ws[i].end <= t {
            out.push(ws[i].duplicate());
            assert(words_view(out@) =~= words_view(before).push(ws@[i as int]@));
        }
    }
    assert(wv.take(ws@.len() as int) =~= wv);
    out
}

impl StreamResponse {
    /// Whether `TranscriptManager::append` accepts the response (see `appendable`).
    pub fn is_appendable(&self) -> (b: bool)
        ensures
            b == appendable(self@),
    {
        match self {
            StreamResponse::TranscriptResponse { is_final, alternatives } => {
                if alternatives.len() == 0 {
                    return false;
                }
                if *is_final {
                    let words = clean(&alternatives[0].words);
                    words.len() > 0
                } else {
                    true
                }
            },
            StreamResponse::Other => true,
        }
    }
}

impl TranscriptManager {
    /// The identifier of the stream, as a 128-bit value.
    pub closed spec fn id(&self) -> u128 {
        self.id
    }

    /// Merges one response of the stream into the partial words and reports
    /// the partial words after it and the words it made final.
    ///
    /// A final transcript settles its (trimmed, non-blank) words and drops the
    /// partial words that do not start after the last of them. An interim
    /// transcript with confidence above the threshold replaces the partial
    /// words from its first word's start on. Anything else changes nothing.
    pub fn append(&mut self, response: StreamResponse) -> (diff: Diff)
        requires
            appendable(response@),
        ensures
            final(self)@ == merge(old(self)@, response@).0,
            final(self).id() == old(self).id(),
            diff@.partial_words == final(self)@,
            diff@.final_words == merge(old(self)@, response@).1,
    {
        match response {
            StreamResponse::TranscriptResponse { is_final, alternatives } => {
                let data = &alternatives[0];
                let words = clean(&data.words);
                if is_final {
                    let last_final_word_end = words[words.len() - 1].end;
                    self.partial_words = keep_starting_after(&self.partial_words, last_final_word_end);
                    return Diff { final_words: words, partial_words: copy_words(&self.partial_words) };
                } else if data.confidence > CONFIDENCE_THRESHOLD {
                    let mut merged: Vec<Word> = if words.len() > 0 {
                        keep_ending_by(&self.partial_words, words[0].start)
                    } else {
                        Vec::new()
                    };
                    let ghost kept = words_view(merged@);
                    let mut fresh = copy_words(&words);
                    merged.append(&mut fresh);
                    assert(words_view(merged@) =~= kept + words_view(words@));
                    self.partial_words = merged;
                    return Diff { final_words: Vec::new(), partial_words: copy_words(&self.partial_words) };
                }
            },
            StreamResponse::Other => {},
        }
        Diff { final_words: Vec::new(), partial_words: copy_words(&self.partial_words) }
    }
}

// ---------------------------------------------------------------------------
// Identifier text
// ---------------------------------------------------------------------------

/// Lower-case hex digit of `n` (0 to 15).
pub open spec fn hex_lower(n: int) -> char {
    if n < 10 {
        (n + 48) as char
    } else {
        (n + 87) as char
    }
}

/// The `k`-th hex digit (0 to 31, most significant first) of `v`.
pub open spec fn nibble_of(v: u128, k: int) -> int {
    ((v >> ((124 - 4 * k) as u128)) & 0xf) as int
}

/// Position among the 32 hex digits of character `j` of the hyphenated form.
pub open spec fn uuid_digit_index(j: int) -> int {
    if j < 8 {
        j
    } else if j < 13 {
        j - 1
    } else if j < 18 {
        j - 2
    } else if j < 23 {
        j - 3
    } else {
        j - 4
    }
}

/// The hyphenated lower-case text of the UUID whose 128 bits, big-endian, are
/// `v`, such as `67e55044-10b1-426f-9247-bb680e5fe0c8`.
pub open spec fn uuid_hyphenated(v: u128) -> Seq<char> {
    Seq::new(
        36,
        |j: int|
            if j == 8 || j == 13 || j == 18 || j == 23 {
                '-'
            } else {
                hex_lower(nibble_of(v, uuid_digit_index(j)))
            },
    )
}

/// `uuid::Uuid::from_u128(v).to_string()`: the crate's `Display` writes the
/// hyphenated lower-case hex form of the big-endian bytes.
#[verifier::external_body]
fn uuid_text(v: u128) -> (s: String)
    ensures
        s@ == uuid_hyphenated(v),
{
    uuid::Uuid::from_u128(v).to_string()
}

impl TranscriptManager {
    /// Name of the file that records the stream's responses:
    /// `transcript_<id>.jsonl`.
    pub fn log_file_name(&self) -> (r: String)
        ensures
            r@ == "transcript_"@ + uuid_hyphenated(self.id()) + ".jsonl"@,
    {
        let mut r = String::from_str("transcript_");
        let id = uuid_text(self.id);
        r.append(id.as_str());
        r.append(".jsonl");
        r
    }
}

// ---------------------------------------------------------------------------
// Properties of the merging rules
// ---------------------------------------------------------------------------

proof fn lemma_clean_words_clean(ws: Seq<WordView>)
    ensures
        all_clean(clean_words(ws)),
        clean_words(ws).len() <= ws.len(),
    decreases ws.len(),
{
    if ws.len() > 0 {
        lemma_clean_words_clean(ws.drop_last());
        crate::text::lemma_trim_is_trimmed(ws.last().text);
    }
}

proof fn lemma_starting_after(ws: Seq<WordView>, t: i64)
    ensures
        all_clean(ws) ==> all_clean(starting_after(ws, t)),
        forall|i: int| 0 <= i < starting_after(ws, t).len() ==> #[trigger] starting_after(ws, t)[i].start > t,
        (forall|i: int| 0 <= i < ws.len() ==> #[trigger] ws[i].start > t) ==> starting_after(ws, t) == ws,
    decreases ws.len(),
{
    if ws.len() > 0 {
        let rest = starting_after(ws.drop_last(), t);
        lemma_starting_after(ws.drop_last(), t);
        assert(all_clean(ws) ==> all_clean(ws.drop_last()));
        if ws.last().start > t {
            let r = rest.push(ws.last());
            assert forall|i: int| 0 <= i < r.len() implies #[trigger] r[i].start > t by {
                if i < rest.len() {
                    assert(r[i] == rest[i]);
                }
            }
            if all_clean(ws) {
                assert forall|i: int| 0 <= i < r.len() implies {
                    &&& #[trigger] r[i].text.len() > 0
                    &&& is_trimmed(r[i].text)
                } by {
                    if i < rest.len() {
                        assert(r[i] == rest[i]);
                    }
                }
            }
        }
        if forall|i: int| 0 <= i < ws.len() ==> #[trigger] ws[i].start > t {
            assert(forall|i: int| 0 <= i < ws.drop_last().len() ==> #[trigger] ws.drop_last()[i].start > t);
            assert(ws.drop_last().push(ws.last()) =~= ws);
        }
    } else {
        assert(starting_after(ws, t) =~= ws);
    }
}

proof fn lemma_ending_by(ws: Seq<WordView>, t: i64)
    ensures
        all_clean(ws) ==> all_clean(ending_by(ws, t)),
        forall|i: int| 0 <= i < ending_by(ws, t).len() ==> #[trigger] ending_by(ws, t)[i].end <= t,
    decreases ws.len(),
{
    if ws.len() > 0 {
        let rest = ending_by(ws.drop_last(), t);
        lemma_ending_by(ws.drop_last(), t);
        assert(all_clean(ws) ==> all_clean(ws.drop_last()));
        if ws.last().end <= t {
            let r = rest.push(ws.last());
            assert forall|i: int| 0 <= i < r.len() implies #[trigger] r[i].end <= t by {
                if i < rest.len() {
                    assert(r[i] == rest[i]);
                }
            }
            if all_clean(ws) {
                assert forall|i: int| 0 <= i < r.len() implies {
                    &&& #[trigger] r[i].text.len() > 0
                    &&& is_trimmed(r[i].text)
                } by {
                    if i < rest.len() {
                        assert(r[i] == rest[i]);
                    }
                }
            }
        }
    }
}

/// Cleaning keeps every word that is not blank, in order, with its times and
/// tag, and only its text trimmed.
pub proof fn law_cleaning_trims_each_word(ws: Seq<WordView>)
    requires
        forall|i: int| 0 <= i < ws.len() ==> #[trigger] trim_seq(ws[i].text).len() > 0,
    ensures
        clean_words(ws) == ws.map_values(|w: WordView| WordView { text: trim_seq(w.text), ..w }),
    decreases ws.len(),
{
    let f = |w: WordView| WordView { text: trim_seq(w.text), ..w };
    if ws.len() > 0 {
        assert forall|i: int| 0 <= i < ws.drop_last().len() implies #[trigger] trim_seq(
            ws.drop_last()[i].text,
        ).len() > 0 by {
            assert(ws.drop_last()[i] == ws[i]);
        }
        law_cleaning_trims_each_word(ws.drop_last());
        assert(trim_seq(ws[ws.len() - 1].text).len() > 0);
        assert(ws.map_values(f) =~= ws.drop_last().map_values(f).push(f(ws.last())));
    } else {
        assert(ws.map_values(f) =~= Seq::<WordView>::empty());
    }
}

proof fn lemma_clean_words_origin(ws: Seq<WordView>)
    ensures
        forall|i: int| 0 <= i < clean_words(ws).len() ==> trimmed_among(#[trigger] clean_words(ws)[i], ws),
    decreases ws.len(),
{
    if ws.len() > 0 {
        let d = ws.drop_last();
        let rest = clean_words(d);
        lemma_clean_words_origin(d);
        let r = clean_words(ws);
        assert forall|i: int| 0 <= i < r.len() implies trimmed_among(#[trigger] r[i], ws) by {
            if i < rest.len() {
                assert(r[i] == rest[i]);
                assert(trimmed_among(rest[i], d));
                let j = choose|j: int| 0 <= j < d.len() && rest[i] == trimmed_word(#[trigger] d[j]);
                assert(d[j] == ws[j]);
            } else {
                assert(r[i] == trimmed_word(ws[ws.len() - 1]));
            }
        }
    }
}

proof fn lemma_starting_after_origin(ws: Seq<WordView>, t: i64)
    ensures
        forall|i: int| 0 <= i < starting_after(ws, t).len() ==> among(#[trigger] starting_after(ws, t)[i], ws),
    decreases ws.len(),
{
    if ws.len() > 0 {
        let d = ws.drop_last();
        let rest = starting_after(d, t);
        lemma_starting_after_origin(d, t);
        let r = starting_after(ws, t);
        assert forall|i: int| 0 <= i < r.len() implies among(#[trigger] r[i], ws) by {
            if i < rest.len() {
                assert(r[i] == rest[i]);
                assert(among(rest[i], d));
                let j = choose|j: int| 0 <= j < d.len() && #[trigger] d[j] == rest[i];
                assert(ws[j] == d[j]);
            } else {
                assert(r[i] == ws[ws.len() - 1]);
            }
        }
    }
}

proof fn lemma_ending_by_origin(ws: Seq<WordView>, t: i64)
    ensures
        forall|i: int| 0 <= i < ending_by(ws, t).len() ==> among(#[trigger] ending_by(ws, t)[i], ws),
    decreases ws.len(),
{
    if ws.len() > 0 {
        let d = ws.drop_last();
        let rest = ending_by(d, t);
        lemma_ending_by_origin(d, t);
        let r = ending_by(ws, t);
        assert forall|i: int| 0 <= i < r.len() implies among(#[trigger] r[i], ws) by {
            if i < rest.len() {
                assert(r[i] == rest[i]);
                assert(among(rest[i], d));
                let j = choose|j: int| 0 <= j < d.len() && #[trigger] d[j] == rest[i];
                assert(ws[j] == d[j]);
            } else {
                assert(r[i] == ws[ws.len() - 1]);
            }
        }
    }
}

/// Every word the merging keeps as partial or hands out as final is either
/// one of the earlier partial words, unchanged, or one of the words of the
/// response's first alternative with only its text trimmed; final words are
/// always of the latter kind.
pub proof fn law_merged_words_come_from_inputs(partial: Seq<WordView>, r: ResponseView)
    requires
        appendable(r),
    ensures
        forall|i: int| 0 <= i < merge(partial, r).0.len() ==> {
            ||| among(#[trigger] merge(partial, r).0[i], partial)
            ||| (r matches ResponseView::Transcript { alternatives, .. } && trimmed_among(
                merge(partial, r).0[i],
                alternatives[0].words,
            ))
        },
        forall|i: int| 0 <= i < merge(partial, r).1.len() ==> (r matches ResponseView::Transcript {
            alternatives,
            ..
        } && trimmed_among(#[trigger] merge(partial, r).1[i], alternatives[0].words)),
{
    match r {
        ResponseView::Transcript { is_final, alternatives } => {
            let ws = alternatives[0].words;
            let words = clean_words(ws);
            lemma_clean_words_origin(ws);
            let next = merge(partial, r).0;
            if is_final {
                lemma_starting_after_origin(partial, words.last().end);
            } else if alternatives[0].confidence > CONFIDENCE_THRESHOLD {
                if words.len() > 0 {
                    let kept = ending_by(partial, words[0].start);
                    lemma_ending_by_origin(partial, words[0].start);
                    assert forall|i: int| 0 <= i < next.len() implies {
                        ||| among(#[trigger] next[i], partial)
                        ||| trimmed_among(next[i], ws)
                    } by {
                        if i < kept.len() {
                            assert(next[i] == kept[i]);
                        } else {
                            assert(next[i] == words[i - kept.len()]);
                        }
                    }
                } else {
                    assert(next =~= Seq::<WordView>::empty());
                }
            } else {
                assert forall|i: int| 0 <= i < next.len() implies among(#[trigger] next[i], partial) by {
                    assert(partial[i] == next[i]);
                }
            }
        },
        ResponseView::Other => {
            let next = merge(partial, r).0;
            assert forall|i: int| 0 <= i < next.len() implies among(#[trigger] next[i], partial) by {
                assert(partial[i] == next[i]);
            }
        },
    }
}

/// The earlier partial words kept before new interim words are all those that
/// end by `t`, in their order, and no others.
pub proof fn law_ending_by_is_filter(ws: Seq<WordView>, t: i64)
    ensures
        ending_by(ws, t) == ws.filter(|w: WordView| w.end <= t),
    decreases ws.len(),
{
    reveal(Seq::filter);
    if ws.len() > 0 {
        law_ending_by_is_filter(ws.drop_last(), t);
    }
}

/// The partial words kept after a final transcript are all those that start
/// after `t`, in their order, and no others.
pub proof fn law_starting_after_is_filter(ws: Seq<WordView>, t: i64)
    ensures
        starting_after(ws, t) == ws.filter(|w: WordView| w.start > t),
    decreases ws.len(),
{
    reveal(Seq::filter);
    if ws.len() > 0 {
        law_starting_after_is_filter(ws.drop_last(), t);
    }
}

/// Cleaning keeps exactly the words whose trimmed text is not empty, in order,
/// each with its text trimmed.
pub proof fn law_clean_words_is_filter_then_trim(ws: Seq<WordView>)
    ensures
        clean_words(ws) == ws.filter(|w: WordView| trim_seq(w.text).len() > 0).map_values(
            |w: WordView| trimmed_word(w),
        ),
    decreases ws.len(),
{
    reveal(Seq::filter);
    let p = |w: WordView| trim_seq(w.text).len() > 0;
    let f = |w: WordView| trimmed_word(w);
    if ws.len() > 0 {
        law_clean_words_is_filter_then_trim(ws.drop_last());
        let sub = ws.drop_last().filter(p);
        if p(ws.last()) {
            assert(sub.push(ws.last()).map_values(f) =~= sub.map_values(f).push(f(ws.last())));
        }
    } else {
        assert(ws.filter(p).map_values(f) =~= Seq::<WordView>::empty());
    }
}

/// A confident interim transcript makes the partial words: every earlier
/// partial word that ends by the start of its first non-blank word, in order,
/// followed by its non-blank words trimmed; without such words, none. Nothing
/// becomes final.
pub proof fn law_confident_interim_result(partial: Seq<WordView>, r: ResponseView)
    requires
        appendable(r),
        r matches ResponseView::Transcript { is_final, alternatives } && !is_final
            && alternatives[0].confidence > CONFIDENCE_THRESHOLD,
    ensures
        ({
            let words = r->alternatives[0].words.filter(|w: WordView| trim_seq(w.text).len() > 0).map_values(
                |w: WordView| trimmed_word(w),
            );
            &&& merge(partial, r).1.len() == 0
            &&& words.len() > 0 ==> merge(partial, r).0 == partial.filter(
                |w: WordView| w.end <= words[0].start,
            ) + words
            &&& words.len() == 0 ==> merge(partial, r).0.len() == 0
        }),
{
    let ws = r->alternatives[0].words;
    law_clean_words_is_filter_then_trim(ws);
    let words = clean_words(ws);
    if words.len() > 0 {
        law_ending_by_is_filter(partial, words[0].start);
    }
}

/// A final transcript settles exactly its non-blank words, trimmed, in order,
/// and keeps as partial exactly the earlier partial words that start after the
/// end of its last such word, in order.
pub proof fn law_final_result(partial: Seq<WordView>, r: ResponseView)
    requires
        appendable(r),
        r matches ResponseView::Transcript { is_final, .. } && is_final,
    ensures
        ({
            let words = r->alternatives[0].words.filter(|w: WordView| trim_seq(w.text).len() > 0).map_values(
                |w: WordView| trimmed_word(w),
            );
            &&& words.len() > 0
            &&& merge(partial, r).1 == words
            &&& merge(partial, r).0 == partial.filter(|w: WordView| w.start > words.last().end)
        }),
{
    let ws = r->alternatives[0].words;
    law_clean_words_is_filter_then_trim(ws);
    let words = clean_words(ws);
    law_starting_after_is_filter(partial, words.last().end);
}

/// Every word the merging hands out or keeps has non-empty text with no
/// surrounding whitespace, as long as the partial words had.
pub proof fn law_merged_words_are_clean(partial: Seq<WordView>, r: ResponseView)
    requires
        appendable(r),
        all_clean(partial),
    ensures
        all_clean(merge(partial, r).0),
        all_clean(merge(partial, r).1),
{
    match r {
        ResponseView::Transcript { is_final, alternatives } => {
            let words = clean_words(alternatives[0].words);
            lemma_clean_words_clean(alternatives[0].words);
            if is_final {
                lemma_starting_after(partial, words.last().end);
            } else if words.len() > 0 {
                lemma_ending_by(partial, words[0].start);
                let kept = ending_by(partial, words[0].start);
                assert forall|i: int| 0 <= i < (kept + words).len() implies {
                    &&& #[trigger] (kept + words)[i].text.len() > 0
                    &&& is_trimmed((kept + words)[i].text)
                } by {
                    if i < kept.len() {
                        assert((kept + words)[i] == kept[i]);
                    } else {
                        assert((kept + words)[i] == words[i - kept.len()]);
                    }
                }
            } else {
                assert(Seq::<WordView>::empty() + words =~= words);
            }
        },
        ResponseView::Other => {},
    }
}

/// After a final transcript, every partial word starts after the end of the
/// last final word.
pub proof fn law_partials_start_after_finals(partial: Seq<WordView>, r: ResponseView)
    requires
        appendable(r),
        r matches ResponseView::Transcript { is_final, .. } && is_final,
    ensures
        merge(partial, r).1.len() > 0,
        forall|i: int| 0 <= i < merge(partial, r).0.len() ==>
            #[trigger] merge(partial, r).0[i].start > merge(partial, r).1.last().end,
{
    let words = clean_words(r->alternatives[0].words);
    lemma_starting_after(partial, words.last().end);
}

/// A final transcript that arrives twice settles the partial words no further
/// the second time.
pub proof fn law_repeated_final_is_stable(partial: Seq<WordView>, r: ResponseView)
    requires
        appendable(r),
        r matches ResponseView::Transcript { is_final, .. } && is_final,
    ensures
        merge(merge(partial, r).0, r) == merge(partial, r),
{
    let words = clean_words(r->alternatives[0].words);
    let t = words.last().end;
    lemma_starting_after(partial, t);
    lemma_starting_after(starting_after(partial, t), t);
}

/// A confident interim transcript makes its words the tail of the partial
/// words: the partial words before them are those that end by the first new
/// word's start (none when the transcript has no word), and nothing is final.
pub proof fn law_confident_interim_replaces_tail(partial: Seq<WordView>, r: ResponseView)
    requires
        appendable(r),
        r matches ResponseView::Transcript { is_final, alternatives } && !is_final
            && alternatives[0].confidence > CONFIDENCE_THRESHOLD,
    ensures
        ({
            let words = clean_words(r->alternatives[0].words);
            let next = merge(partial, r).0;
            &&& merge(partial, r).1.len() == 0
            &&& next.len() >= words.len()
            &&& next.subrange(next.len() - words.len(), next.len() as int) == words
            &&& forall|i: int| 0 <= i < next.len() - words.len() ==> #[trigger] next[i].end <= words[0].start
            &&& words.len() == 0 ==> next.len() == 0
        }),
{
    let words = clean_words(r->alternatives[0].words);
    let next = merge(partial, r).0;
    if words.len() > 0 {
        let kept = ending_by(partial, words[0].start);
        lemma_ending_by(partial, words[0].start);
        assert(next.subrange(next.len() - words.len(), next.len() as int) =~= words);
        assert forall|i: int| 0 <= i < next.len() - words.len() implies #[trigger] next[i].end <= words[0].start by {
            assert(next[i] == kept[i]);
        }
    } else {
        assert(next =~= Seq::<WordView>::empty());
    }
}

/// An interim transcript at or below the confidence threshold, or a message
/// that is not a transcript, leaves the partial words as they were and makes
/// nothing final.
pub proof fn law_other_messages_change_nothing(partial: Seq<WordView>, r: ResponseView)
    requires
        appendable(r),
        match r {
            ResponseView::Transcript { is_final, alternatives } => !is_final
                && alternatives[0].confidence <= CONFIDENCE_THRESHOLD,
            ResponseView::Other => true,
        },
    ensures
        merge(partial, r).0 == partial,
        merge(partial, r).1.len() == 0,
{
}

} // verus!
