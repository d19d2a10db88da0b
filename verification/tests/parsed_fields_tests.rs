use dictate::realtime::{classify_deepgram, classify_mistral, DeepgramMessage, MistralMessage};
use dictate::transcript::TranscriptBuffer;
use dictate::word_store::{book_from_lists, word_lists_from_toml, WordLists};

fn s(x: &str) -> String {
    x.to_string()
}

#[test]
fn word_lists_read_the_three_keys() {
    let text = "preferred_words = [\"Kubernetes\", 3]\nstarred_words = [\"Rust\"]\nother = [\"x\"]\n\n[dictionary]\n\"kuber nets\" = \"Kubernetes\"\nbad = 1\n";
    let lists = word_lists_from_toml(text).unwrap();
    assert_eq!(lists.preferred, Some(vec![Some(s("Kubernetes")), None]));
    assert_eq!(lists.starred, Some(vec![Some(s("Rust"))]));
    let mut dict = lists.dictionary.unwrap();
    dict.sort();
    assert_eq!(dict, vec![(s("bad"), None), (s("kuber nets"), Some(s("Kubernetes")))]);
}

#[test]
fn word_lists_missing_keys_are_none() {
    let lists = word_lists_from_toml("[polish]\nstyle = \"casual\"\n").unwrap();
    assert!(lists.preferred.is_none());
    assert!(lists.starred.is_none());
    assert!(lists.dictionary.is_none());
}

#[test]
fn word_lists_report_parse_errors() {
    assert!(word_lists_from_toml("preferred_words = [").is_err());
}

#[test]
fn book_from_lists_sorts_and_dedups_stars() {
    let lists = WordLists {
        preferred: Some(vec![Some(s("zeta")), Some(s(" Alpha ")), None]),
        starred: Some(vec![Some(s("b")), Some(s(" a ")), Some(s("B")), Some(s("  "))]),
        dictionary: Some(vec![(s("kuber nets"), Some(s("Kubernetes"))), (s("x"), None)]),
    };
    let book = book_from_lists(&lists);
    assert_eq!(book.starred_words, vec![s("a"), s("b")]);
    assert!(book.preferred_words.contains(&s("Alpha")));
    assert!(book.preferred_words.contains(&s("zeta")));
    assert!(book.preferred_words.contains(&s("Kubernetes")));
}

#[test]
fn mistral_fields_classify() {
    assert!(matches!(
        classify_mistral(Some(s("transcription.text.delta")), Some(s("hi"))),
        MistralMessage::Delta(Some(t)) if t == "hi"
    ));
    assert!(matches!(classify_mistral(Some(s("transcription.done")), None), MistralMessage::Done));
    assert!(matches!(classify_mistral(Some(s("session.updated")), None), MistralMessage::Session));
    assert!(matches!(classify_mistral(None, Some(s("hi"))), MistralMessage::Untyped));
    assert!(matches!(classify_mistral(Some(s("ping")), None), MistralMessage::Other(k) if k == "ping"));
}

#[test]
fn deepgram_fields_classify() {
    assert!(matches!(classify_deepgram(false, Some(s("Results")), None, None), DeepgramMessage::Unreadable));
    assert!(matches!(
        classify_deepgram(true, Some(s("Results")), None, None),
        DeepgramMessage::Results(t) if t.is_empty()
    ));
    assert!(matches!(classify_deepgram(true, Some(s("UtteranceEnd")), None, None), DeepgramMessage::Info));
    assert!(matches!(
        classify_deepgram(true, None, None, Some(s("bad key"))),
        DeepgramMessage::Other(Some(e)) if e == "bad key"
    ));
}

#[test]
fn segments_record_finalization_only() {
    let mut buffer = TranscriptBuffer::new();
    buffer.append_typed("hello");
    let seg = &buffer.segments()[0];
    assert!(seg.started_at.is_none());
    assert!(seg.finalized_at.is_some());
}
