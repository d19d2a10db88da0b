use dictate::word_store::{word_char_len, WordBook, WordMap, MAX_WORD_LEN};

#[test]
fn one_misspelling_per_correct_word() {
    let mut book = WordBook::default();
    book.set_misspelling("Draft", Some("Draught"));
    book.set_misspelling("Draft", Some("Draf"));
    assert_eq!(book.dictionary.len(), 1);
    assert_eq!(book.dictionary.get("Draf"), Some(&"Draft".to_string()));
}

#[test]
fn preferred_words_stay_sorted_and_unique() {
    let mut book = WordBook::default();
    book.add_preferred_word("  zebra ");
    book.add_preferred_word("Apple");
    book.add_preferred_word("APPLE");
    book.add_preferred_word("   ");
    book.add_preferred_word(&"x".repeat(MAX_WORD_LEN + 1));
    book.add_preferred_word("mango");
    assert_eq!(book.preferred_words, vec!["Apple", "mango", "zebra"]);
}

#[test]
fn removing_a_word_removes_its_star_and_alias() {
    let mut book = WordBook::default();
    book.add_alias("super base", "Supabase");
    book.toggle_star("supabase");
    book.remove_preferred_word(" SUPABASE ");
    assert!(book.preferred_words.is_empty());
    assert!(book.starred_words.is_empty());
    assert_eq!(book.dictionary.len(), 0);
}

#[test]
fn toggling_a_star_twice_removes_it() {
    let mut book = WordBook::default();
    book.toggle_star("Rust");
    assert_eq!(book.starred_words, vec!["Rust"]);
    book.toggle_star("rust");
    assert!(book.starred_words.is_empty());
}

#[test]
fn aliases_are_removed_by_heard_form() {
    let mut book = WordBook::default();
    book.add_alias("get hub", "GitHub");
    book.add_alias("git hub", "Gitlab");
    assert_eq!(book.dictionary.len(), 2);
    book.remove_alias(" get hub ");
    assert_eq!(book.dictionary.get("get hub"), None);
    assert_eq!(book.dictionary.get("git hub"), Some(&"Gitlab".to_string()));
}

#[test]
fn rows_put_starred_words_first() {
    let mut book = WordBook::default();
    book.add_preferred_word("beta");
    book.add_preferred_word("Alpha");
    book.add_alias("see", "Gamma");
    book.toggle_star("gamma");
    let rows = book.rows();
    let words: Vec<&str> = rows.iter().map(|r| r.word.as_str()).collect();
    assert_eq!(words, vec!["Gamma", "Alpha", "beta"]);
    assert!(rows[0].starred);
    assert_eq!(rows[0].misspelling.as_deref(), Some("see"));
    assert_eq!(rows[1].misspelling, None);
}

#[test]
fn upsert_renames_and_recases() {
    let mut book = WordBook::default();
    book.upsert_row("github", Some("get hub"), None);
    book.toggle_star("github");
    book.upsert_row("GitHub", Some("get hub"), Some("github"));
    assert_eq!(book.preferred_words, vec!["GitHub"]);
    assert_eq!(book.starred_words, vec!["GitHub"]);
    assert_eq!(book.dictionary.get("get hub"), Some(&"GitHub".to_string()));
    book.upsert_row("Gitea", None, Some("GitHub"));
    assert_eq!(book.preferred_words, vec!["Gitea"]);
    assert_eq!(book.dictionary.len(), 0);
}

#[test]
fn validating_new_words() {
    let mut book = WordBook::default();
    book.add_preferred_word("Rust");
    assert_eq!(
        book.validate_new_word("  ", None),
        Err("Enter a word or phrase.".to_string())
    );
    assert_eq!(
        book.validate_new_word(&"y".repeat(61), None),
        Err("Use at most 60 characters.".to_string())
    );
    assert_eq!(
        book.validate_new_word("rust", None),
        Err("That word is already in your dictionary.".to_string())
    );
    assert_eq!(book.validate_new_word("rust", Some("RUST")), Ok(()));
    assert_eq!(book.validate_new_word("Go", None), Ok(()));
}

#[test]
fn word_map_keeps_keys_ordered() {
    let mut map = WordMap::default();
    map.insert("b".to_string(), "2".to_string());
    map.insert("a".to_string(), "1".to_string());
    map.insert("b".to_string(), "3".to_string());
    assert_eq!(
        map.entries(),
        vec![
            ("a".to_string(), "1".to_string()),
            ("b".to_string(), "3".to_string())
        ]
    );
    map.remove_value(&['1']);
    assert_eq!(map.len(), 1);
}

#[test]
fn counts_characters() {
    assert_eq!(word_char_len("héllo"), 5);
}

#[test]
fn word_book_reads_its_sections_from_text_toml() {
    let text = r#"
preferred_words = ["Supabase", "zed", 3, "Zed"]
starred_words = [" zed ", "ZED", "", "Alpha"]

[dictionary]
"super base" = "Supabase"
"draught" = "Draft"
"bad" = 7

[[snippets]]
trigger = "sig"
text = "Best"
"#;
    let book = dictate::word_store::word_book_from_toml(text).unwrap();
    assert_eq!(book.preferred_words, vec!["Draft", "Supabase", "zed"]);
    assert_eq!(book.starred_words, vec!["Alpha", "zed"]);
    assert_eq!(book.dictionary.get("super base"), Some(&"Supabase".to_string()));
    assert_eq!(book.dictionary.get("draught"), Some(&"Draft".to_string()));
    assert_eq!(book.dictionary.len(), 2);
}

#[test]
fn empty_or_broken_text_toml() {
    let book = dictate::word_store::word_book_from_toml("  \n").unwrap();
    assert!(book.preferred_words.is_empty());
    assert!(dictate::word_store::word_book_from_toml("preferred_words = [").is_err());
}

#[test]
fn adds_words_to_text_toml() {
    let mut book = dictate::word_store::word_book_from_toml("").unwrap();
    let (changed, messages) = dictate::word_store::add_words(
        &mut book,
        &["Hyprland".to_string(), "Supabase".to_string()],
    );
    assert!(changed);
    assert!(messages.is_empty());
    assert_eq!(book.preferred_words, vec!["Hyprland", "Supabase"]);
}

#[test]
fn skips_duplicates_without_failing() {
    let mut book = dictate::word_store::word_book_from_toml("").unwrap();
    dictate::word_store::add_words(&mut book, &["Hyprland".to_string()]);
    let (changed, messages) = dictate::word_store::add_words(&mut book, &["hyprland".to_string()]);
    assert!(!changed);
    assert_eq!(messages, vec!["That word is already in your dictionary."]);
    assert_eq!(book.preferred_words, vec!["Hyprland"]);
}

#[test]
fn rows_filter_by_word_or_misspelling() {
    let row = dictate::word_store::DictionaryRow {
        word: "Supabase".to_string(),
        misspelling: Some("super base".to_string()),
        starred: false,
    };
    assert!(dictate::word_store::row_matches_filter(&row, "  "));
    assert!(dictate::word_store::row_matches_filter(&row, " SUPA"));
    assert!(dictate::word_store::row_matches_filter(&row, "per b"));
    assert!(!dictate::word_store::row_matches_filter(&row, "zed"));
}
