use dictate::text_processing::{
    apply_cleanup, apply_dictionary, apply_preferred_words, apply_snippets, preferred_vocabulary,
    process_text, CleanupConfig, CommandModeConfig, Snippet, TextProcessingConfig,
};

#[test]
fn empty_config_is_no_op() {
    let config = TextProcessingConfig::default();
    assert_eq!(process_text("hello world", &config), "hello world");
}

#[test]
fn expands_exact_snippet_trigger() {
    let config = TextProcessingConfig {
        snippets: vec![Snippet {
            trigger: "calendar link".to_string(),
            text: "Book a time here: https://cal.com/adi".to_string(),
        }],
        ..Default::default()
    };

    assert_eq!(
        process_text("  Calendar Link  ", &config),
        "Book a time here: https://cal.com/adi"
    );
}

#[test]
fn dictionary_runs_before_snippets() {
    let mut dictionary: Vec<(String, String)> = Vec::new();
    dictionary.push(("sig".to_string(), "email signature".to_string()));
    let config = TextProcessingConfig {
        dictionary,
        snippets: vec![Snippet {
            trigger: "email signature".to_string(),
            text: "Best,\nAditya".to_string(),
        }],
        ..Default::default()
    };

    assert_eq!(process_text("sig", &config), "Best,\nAditya");
}

#[test]
fn preferred_words_fix_near_matches() {
    let config = TextProcessingConfig {
        preferred_words: vec!["Supabase".to_string(), "Hyprland".to_string()],
        ..Default::default()
    };

    assert_eq!(
        process_text("I use superbase on hyperland.", &config),
        "I use Supabase on Hyprland."
    );
}

#[test]
fn preferred_words_ignore_short_common_words() {
    let config = TextProcessingConfig {
        preferred_words: vec!["Rust".to_string()],
        ..Default::default()
    };

    assert_eq!(
        process_text("rest of the text", &config),
        "rest of the text"
    );
}

#[test]
fn preferred_vocabulary_combines_words_and_dictionary_values() {
    let mut dictionary: Vec<(String, String)> = Vec::new();
    dictionary.push(("super base".to_string(), "Supabase".to_string()));
    let config = TextProcessingConfig {
        dictionary,
        preferred_words: vec!["Convex".to_string(), "Supabase".to_string()],
        ..Default::default()
    };

    assert_eq!(preferred_vocabulary(&config), vec!["Convex", "Supabase"]);
}

#[test]
fn dictionary_is_case_insensitive() {
    let mut dictionary: Vec<(String, String)> = Vec::new();
    dictionary.push(("high per land".to_string(), "Hyprland".to_string()));
    let config = TextProcessingConfig {
        dictionary,
        ..Default::default()
    };

    assert_eq!(
        process_text("I use HIGH PER LAND daily.", &config),
        "I use Hyprland daily."
    );
}

#[test]
fn dictionary_does_not_replace_inside_larger_words() {
    let mut dictionary: Vec<(String, String)> = Vec::new();
    dictionary.push(("adi".to_string(), "Aditya".to_string()));
    let config = TextProcessingConfig {
        dictionary,
        ..Default::default()
    };

    assert_eq!(
        process_text("adi radiant tradition", &config),
        "Aditya radiant tradition"
    );
}

#[test]
fn longer_dictionary_entries_win_first() {
    let mut dictionary: Vec<(String, String)> = Vec::new();
    dictionary.push(("whisper".to_string(), "Whisper".to_string()));
    dictionary.push(("whisper flow".to_string(), "Wispr Flow".to_string()));
    let config = TextProcessingConfig {
        dictionary,
        ..Default::default()
    };

    assert_eq!(process_text("whisper flow", &config), "Wispr Flow");
}

#[test]
fn cleanup_is_disabled_by_default() {
    let config = TextProcessingConfig::default();
    assert_eq!(process_text("um hello", &config), "um hello");
}

#[test]
fn cleanup_removes_fillers() {
    let config = TextProcessingConfig {
        cleanup: CleanupConfig {
            enabled: true,
            remove_fillers: true,
            ..Default::default()
        },
        ..Default::default()
    };

    assert_eq!(process_text("um hello uh world", &config), "hello world");
}

#[test]
fn cleanup_fixes_spacing() {
    let config = TextProcessingConfig {
        cleanup: CleanupConfig {
            enabled: true,
            fix_spacing: true,
            ..Default::default()
        },
        ..Default::default()
    };

    assert_eq!(process_text("hello   world  !", &config), "hello world!");
}

#[test]
fn cleanup_capitalizes_sentences() {
    let config = TextProcessingConfig {
        cleanup: CleanupConfig {
            enabled: true,
            capitalize_sentences: true,
            ..Default::default()
        },
        ..Default::default()
    };

    assert_eq!(
        process_text("hello world. next thing", &config),
        "Hello world. Next thing"
    );
}

#[test]
fn cleanup_fixes_final_punctuation() {
    let config = TextProcessingConfig {
        cleanup: CleanupConfig {
            enabled: true,
            fix_punctuation: true,
            ..Default::default()
        },
        ..Default::default()
    };

    assert_eq!(process_text("hello world", &config), "hello world.");
}

#[test]
fn cleanup_applies_spoken_punctuation() {
    let config = TextProcessingConfig {
        cleanup: CleanupConfig {
            enabled: true,
            spoken_punctuation: true,
            fix_spacing: true,
            capitalize_sentences: true,
            fix_punctuation: true,
            ..Default::default()
        },
        ..Default::default()
    };

    assert_eq!(
        process_text("this should work exclamation", &config),
        "This should work!"
    );
    assert_eq!(
        process_text("is this right question mark", &config),
        "Is this right?"
    );
}

#[test]
fn spoken_punctuation_is_no_op_when_cleanup_is_disabled() {
    let config = TextProcessingConfig::default();
    assert_eq!(
        process_text("this should work exclamation", &config),
        "this should work exclamation"
    );
}

#[test]
fn inline_corrections_are_always_on() {
    let config = TextProcessingConfig::default();
    assert_eq!(
        process_text(
            "Is this correct? Actually replace correct with right.",
            &config
        ),
        "Is this right?"
    );
}

#[test]
fn inline_corrections_preserve_following_text() {
    let config = TextProcessingConfig::default();
    assert_eq!(
        process_text(
            "This is correct. Actually replace correct with right. This should work",
            &config
        ),
        "This is right. This should work"
    );
}

#[test]
fn inline_corrections_support_spoken_punctuation_in_replacement() {
    let config = TextProcessingConfig::default();
    assert_eq!(
        process_text(
            "Is this Correct? Actually replace correct with right question mark",
            &config
        ),
        "Is this right?"
    );
}

#[test]
fn inline_corrections_tolerate_common_replace_mishearing() {
    let config = TextProcessingConfig::default();
    assert_eq!(
        process_text(
            "Is this Correct? Actually the place working with right question mark",
            &config
        ),
        "Is this right?"
    );
}

#[test]
fn inline_corrections_tolerate_the_replace_phrase() {
    let config = TextProcessingConfig::default();
    assert_eq!(
        process_text(
            "Is this correct? Actually the replace correct with right.",
            &config
        ),
        "Is this right?"
    );
}

#[test]
fn cleanup_removes_repeated_words() {
    let config = TextProcessingConfig {
        cleanup: CleanupConfig {
            enabled: true,
            clean_repeated_words: true,
            ..Default::default()
        },
        ..Default::default()
    };

    assert_eq!(
        process_text("the the thing is is ready", &config),
        "the thing is ready"
    );
}

#[test]
fn cleanup_converts_spoken_lists() {
    let config = TextProcessingConfig {
        cleanup: CleanupConfig {
            enabled: true,
            spoken_lists: true,
            ..Default::default()
        },
        ..Default::default()
    };

    assert_eq!(
        process_text(
            "first thing is install pipe wire second thing is set the key bind",
            &config
        ),
        "First:\n- Install pipe wire.\n- Set the key bind."
    );
}

#[test]
fn combined_cleanup_runs_after_dictionary_and_snippets() {
    let mut dictionary: Vec<(String, String)> = Vec::new();
    dictionary.push(("pipe wire".to_string(), "PipeWire".to_string()));
    let config = TextProcessingConfig {
        dictionary,
        cleanup: CleanupConfig {
            enabled: true,
            remove_fillers: true,
            fix_spacing: true,
            capitalize_sentences: true,
            fix_punctuation: true,
            clean_repeated_words: true,
            ..Default::default()
        },
        ..Default::default()
    };

    assert_eq!(
        process_text("um install pipe wire pipe wire", &config),
        "Install PipeWire."
    );
}


#[test]
fn dictionary_triggers_are_literal() {
    let dictionary = vec![("a.b".to_string(), "X".to_string())];
    assert_eq!(apply_dictionary("axb and a.b", &dictionary), "axb and X");
}

#[test]
fn dictionary_skips_blank_triggers_and_repeats_passes() {
    let dictionary = vec![
        ("  ".to_string(), "never".to_string()),
        ("go".to_string(), "Go".to_string()),
    ];
    assert_eq!(apply_dictionary("go go go", &dictionary), "Go go Go");
}

#[test]
fn preferred_words_respect_distance_threshold() {
    let words = vec!["Hyprland".to_string()];
    assert_eq!(apply_preferred_words("hyprlnd", &words), "Hyprland");
    assert_eq!(apply_preferred_words("hyperlanding", &words), "hyperlanding");
    assert_eq!(apply_preferred_words("Hyprland", &words), "Hyprland");
    assert_eq!(apply_preferred_words("HYPRLAND rocks", &words), "Hyprland rocks");
}

#[test]
fn preferred_words_pick_the_closest_term() {
    let words = vec!["Kotlin".to_string(), "Kotlen".to_string()];
    assert_eq!(apply_preferred_words("kotlen", &words), "Kotlen");
}

#[test]
fn snippets_ignore_ascii_case_only() {
    let snippets = vec![Snippet {
        trigger: " sign off ".to_string(),
        text: "Cheers".to_string(),
    }];
    assert_eq!(apply_snippets("SIGN OFF", &snippets), "Cheers");
    assert_eq!(apply_snippets("sign off now", &snippets), "sign off now");
}

#[test]
fn cleanup_spacing_keeps_lines() {
    let cleanup = CleanupConfig {
        enabled: true,
        fix_spacing: true,
        ..Default::default()
    };
    assert_eq!(apply_cleanup("  a  b ,\r\n c   .\n", &cleanup), "a b,\nc.");
}

#[test]
fn cleanup_list_needs_two_items_from_the_start() {
    let cleanup = CleanupConfig {
        enabled: true,
        spoken_lists: true,
        ..Default::default()
    };
    assert_eq!(
        apply_cleanup("note first is milk second is eggs", &cleanup),
        "note first is milk second is eggs"
    );
    assert_eq!(
        apply_cleanup("first is milk", &cleanup),
        "first is milk"
    );
}

#[test]
fn cleanup_disabled_leaves_text() {
    let cleanup = CleanupConfig {
        enabled: false,
        remove_fillers: true,
        fix_punctuation: true,
        ..Default::default()
    };
    assert_eq!(apply_cleanup("um hi", &cleanup), "um hi");
}

#[test]
fn final_punctuation_kept_when_present() {
    let cleanup = CleanupConfig {
        enabled: true,
        fix_punctuation: true,
        ..Default::default()
    };
    assert_eq!(apply_cleanup("done!  ", &cleanup), "done!  ");
    assert_eq!(apply_cleanup("   ", &cleanup), "   ");
    assert_eq!(apply_cleanup("note: ", &cleanup), "note: ");
}

#[test]
fn preferred_vocabulary_dedups_ignoring_case_and_sorts() {
    let config = TextProcessingConfig {
        preferred_words: vec![
            "  zed ".to_string(),
            "Alpha".to_string(),
            "ALPHA".to_string(),
            " ".to_string(),
        ],
        dictionary: vec![("b".to_string(), "beta".to_string())],
        ..Default::default()
    };
    assert_eq!(preferred_vocabulary(&config), vec!["Alpha", "beta", "zed"]);
}

#[test]
fn clipboard_command_defaults_to_wl_paste() {
    let config = CommandModeConfig::default();
    assert_eq!(
        config.clipboard_command_or_default(),
        vec!["wl-paste".to_string(), "--no-newline".to_string()]
    );
    let custom = CommandModeConfig {
        clipboard_command: vec!["xclip".to_string(), "-o".to_string()],
        use_llm: true,
    };
    assert_eq!(
        custom.clipboard_command_or_default(),
        vec!["xclip".to_string(), "-o".to_string()]
    );
}

#[test]
fn polish_effective_enabled() {
    let p = dictate::text_processing::PolishConfig::default();
    assert!(p.effective_enabled(true));
    assert!(!p.effective_enabled(false));
    let off = dictate::text_processing::PolishConfig {
        enabled: false,
        ..Default::default()
    };
    assert!(!off.effective_enabled(true));
}
