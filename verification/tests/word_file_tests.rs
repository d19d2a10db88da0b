use dictate::word_store::{word_book_from_toml, word_book_toml, word_lists_from_toml, WordBook};

fn s(x: &str) -> String {
    x.to_string()
}

fn sample_book() -> WordBook {
    let mut book = WordBook::default();
    book.add_preferred_word("Alpha");
    book.add_alias("alfa", "Alpha");
    book
}

#[test]
fn saving_replaces_word_keys_and_keeps_the_rest() {
    let existing = "starred_words = [\"x\"]\nother = 1\n\n[polish]\nstyle = \"casual\"\n";
    let text = word_book_toml(existing, &sample_book(), "text.toml").unwrap();
    let lists = word_lists_from_toml(&text).unwrap();
    assert_eq!(lists.preferred, Some(vec![Some(s("Alpha"))]));
    assert_eq!(lists.starred, None);
    assert_eq!(lists.dictionary, Some(vec![(s("alfa"), Some(s("Alpha")))]));
    assert!(text.contains("other = 1"));
    assert!(text.contains("[polish]"));
    assert!(text.contains("casual"));
}

#[test]
fn saving_writes_starred_words_when_there_are_some() {
    let mut book = sample_book();
    book.toggle_star("Alpha");
    let text = word_book_toml("", &book, "text.toml").unwrap();
    let lists = word_lists_from_toml(&text).unwrap();
    assert_eq!(lists.starred, Some(vec![Some(s("Alpha"))]));
}

#[test]
fn saving_into_blank_text_starts_empty() {
    let text = word_book_toml("  \n", &sample_book(), "text.toml").unwrap();
    let back = word_book_from_toml(&text).unwrap();
    assert_eq!(back.preferred_words, vec![s("Alpha")]);
    assert_eq!(back.dictionary.entries(), vec![(s("alfa"), s("Alpha"))]);
}

#[test]
fn saving_refuses_text_that_is_not_toml() {
    assert!(word_book_toml("preferred_words = [", &sample_book(), "text.toml").is_err());
}
