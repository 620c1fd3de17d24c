use hypr_plugins::transcript::{
    Alternative, Diff, StreamResponse, TranscriptManager, Word, CONFIDENCE_THRESHOLD,
};

/// Order key of a float: integers that compare as the floats do.
fn key(x: f64) -> i64 {
    let bits = x.to_bits() as i64;
    if bits < 0 {
        bits ^ i64::MAX
    } else {
        bits
    }
}

fn word(text: &str, start: f64, end: f64) -> Word {
    Word { word: text.to_string(), start: key(start), end: key(end), tag: 0 }
}

fn transcript(is_final: bool, confidence: f64, words: Vec<Word>) -> StreamResponse {
    StreamResponse::TranscriptResponse {
        is_final,
        alternatives: vec![Alternative { words, confidence: key(confidence) }],
    }
}

fn texts(ws: &[Word]) -> Vec<String> {
    ws.iter().map(|w| w.word.clone()).collect()
}

#[test]
fn threshold_is_key_of_point_six() {
    assert_eq!(CONFIDENCE_THRESHOLD, key(0.6));
    assert!(key(0.61) > CONFIDENCE_THRESHOLD);
    assert!(key(0.6) <= CONFIDENCE_THRESHOLD);
    assert!(key(-1.0) < key(-0.5));
    assert!(key(-0.5) < key(0.0));
}

#[test]
fn confident_interim_becomes_partial() {
    let mut m = TranscriptManager::default();
    let d = m.append(transcript(
        false,
        0.9,
        vec![word("I", 0.0, 0.2), word(" just ", 0.2, 0.5), word("   ", 0.5, 0.6), word("learned", 0.6, 1.0)],
    ));
    assert_eq!(texts(&d.partial_words), vec!["I", "just", "learned"]);
    assert!(d.final_words.is_empty());
    assert_eq!(d.partial_content(), "I just learned");
    assert_eq!(d.final_content(), "");
}

#[test]
fn unconfident_interim_changes_nothing() {
    let mut m = TranscriptManager::default();
    m.append(transcript(false, 0.9, vec![word("hello", 0.0, 0.5)]));
    let d = m.append(transcript(false, 0.6, vec![word("goodbye", 0.0, 0.5)]));
    assert_eq!(texts(&d.partial_words), vec!["hello"]);
    assert!(d.final_words.is_empty());
}

#[test]
fn other_message_changes_nothing() {
    let mut m = TranscriptManager::default();
    m.append(transcript(false, 0.9, vec![word("hello", 0.0, 0.5)]));
    let d = m.append(StreamResponse::Other);
    assert_eq!(texts(&d.partial_words), vec!["hello"]);
    assert!(d.final_words.is_empty());
}

#[test]
fn interim_keeps_earlier_words_that_end_before_it() {
    let mut m = TranscriptManager::default();
    m.append(transcript(false, 0.9, vec![word("a", 0.0, 1.0), word("b", 1.0, 2.0), word("c", 2.0, 3.0)]));
    let d = m.append(transcript(false, 0.8, vec![word("B", 1.5, 2.5), word("D", 2.5, 3.5)]));
    assert_eq!(texts(&d.partial_words), vec!["a", "B", "D"]);
}

#[test]
fn confident_interim_without_words_clears_partials() {
    let mut m = TranscriptManager::default();
    m.append(transcript(false, 0.9, vec![word("a", 0.0, 1.0)]));
    let d = m.append(transcript(false, 0.9, vec![word(" ", 1.0, 2.0)]));
    assert!(d.partial_words.is_empty());
}

#[test]
fn final_settles_words_and_drops_covered_partials() {
    let mut m = TranscriptManager::default();
    m.append(transcript(
        false,
        0.9,
        vec![word("I", 0.0, 0.2), word("just", 0.2, 0.5), word("learned", 0.6, 1.0), word("a", 1.1, 1.2)],
    ));
    let d = m.append(transcript(true, 0.3, vec![word("I ", 0.0, 0.2), word("just", 0.2, 0.55)]));
    assert_eq!(texts(&d.final_words), vec!["I", "just"]);
    assert_eq!(texts(&d.partial_words), vec!["learned", "a"]);
    assert_eq!(d.final_content(), "I just");
    assert_eq!(d.partial_content(), "learned a");
    // the same final once more settles nothing further
    let again = m.append(transcript(true, 0.3, vec![word("I", 0.0, 0.2), word("just", 0.2, 0.55)]));
    assert_eq!(texts(&again.partial_words), vec!["learned", "a"]);
}

#[test]
fn final_keeps_only_words_starting_after_it() {
    let mut m = TranscriptManager::default();
    m.append(transcript(false, 0.9, vec![word("x", 1.0, 2.0), word("y", 2.0, 3.0)]));
    let d = m.append(transcript(true, 0.9, vec![word("x", 1.0, 2.0)]));
    // "y" starts at 2.0, which is not after 2.0
    assert!(d.partial_words.is_empty());
}

#[test]
fn tags_travel_with_words() {
    let mut m = TranscriptManager::default();
    let mut w = word(" w ", 0.0, 1.0);
    w.tag = 42;
    let d = m.append(transcript(false, 0.9, vec![w]));
    assert_eq!(d.partial_words[0].tag, 42);
    assert_eq!(d.partial_words[0].word, "w");
}

#[test]
fn appendable_responses() {
    assert!(StreamResponse::Other.is_appendable());
    assert!(transcript(false, 0.1, vec![]).is_appendable());
    assert!(!transcript(true, 0.9, vec![]).is_appendable());
    assert!(!transcript(true, 0.9, vec![word(" \t", 0.0, 1.0)]).is_appendable());
    assert!(transcript(true, 0.9, vec![word("ok", 0.0, 1.0)]).is_appendable());
    let no_alternatives = StreamResponse::TranscriptResponse { is_final: false, alternatives: vec![] };
    assert!(!no_alternatives.is_appendable());
}

#[test]
fn log_file_name_of_default_manager() {
    let m = TranscriptManager::default();
    assert_eq!(m.log_file_name(), "transcript_00000000-0000-0000-0000-000000000000.jsonl");
}

#[test]
fn empty_diff_has_empty_content() {
    let d = Diff::default();
    assert_eq!(d.partial_content(), "");
    assert_eq!(d.final_content(), "");
}
