use words::Excluded;
use words::Included;
use words::Word;
use words::WordError;
use words::WordsResult;

#[test]
fn should_return_matching_word() {
    let excluded = Excluded(vec!['w']);
    let included = Included(vec![]);
    let words = vec!["aahed", "aalii", "aargh", "zowie", "zorro"];
    let chosen_word = Word::new("aargh").unwrap();
    let mut result = WordsResult::new(chosen_word);

    assert_eq!(result.is_word_possible(words[0], &excluded, &included), false);
    assert_eq!(result.is_word_possible(words[1], &excluded, &included), false);
    assert_eq!(result.is_word_possible(words[2], &excluded, &included), true);
    assert_eq!(result.is_word_possible(words[3], &excluded, &included), false);
    assert_eq!(result.possible_words.len(), 1);
    assert_eq!(result.possible_words[0], Word::new("aargh").unwrap());
}

#[test]
fn should_return_none_if_word_contains_excluded_char() {
    let excluded = Excluded(vec!['w']);
    let included = Included(vec![]);
    let words = vec!["zowie"];
    let chosen_word = Word::new("aargh");
    let mut result = WordsResult::new(chosen_word.unwrap());

    assert_eq!(result.is_word_possible(words[0], &excluded, &included), false);
    assert_eq!(result.possible_words.len(), 0);
}

#[test]
fn should_return_both_words_if_excluded_char_is_wildcard() {
    let excluded = Excluded(vec!['m']);
    let included = Included(vec![]);
    let words = vec!["zorro", "morro"];
    let chosen_word = Word::new("*orro").unwrap();
    let mut result = WordsResult::new(chosen_word);

    assert_eq!(result.is_word_possible(words[0], &excluded, &included), true);
    assert_eq!(result.is_word_possible(words[1], &excluded, &included), true);

    assert_eq!(result.possible_words.len(), 2);
    assert_eq!(result.possible_words[0], Word::new("zorro").unwrap());
    assert_eq!(result.possible_words[1], Word::new("morro").unwrap());
}

#[test]
fn should_return_word_if_it_matches_completly() {
    let excluded = Excluded(vec![]);
    let included = Included(vec![]);
    let words = vec!["zowie", "aaron"];
    let chosen_word = Word::new("zowie").unwrap();
    let mut result = WordsResult::new(chosen_word);

    assert_eq!(result.is_word_possible(words[0], &excluded, &included), true);
    assert_eq!(result.possible_words.len(), 1);
    assert_eq!(result.possible_words[0], Word::new("zowie").unwrap());
}

#[test]
fn should_return_word_if_it_matches_with_wildcards() {
    let excluded = Excluded(vec![]);
    let included = Included(vec![]);
    let words = vec!["zowie", "aaron"];
    let chosen_word = Word::new("z?*ie").unwrap();
    let mut result = WordsResult::new(chosen_word);

    assert_eq!(result.is_word_possible(words[0], &excluded, &included), true);
    assert_eq!(result.possible_words.len(), 1);
    assert_eq!(result.possible_words[0], Word::new("zowie").unwrap());
}

#[test]
fn should_return_words_containing_included_chars() {
    let excluded = Excluded(vec![]);
    let included = Included(vec!['i']);
    let words = vec!["light", "focus"];
    let chosen_word = Word::new("*****").unwrap();
    let mut result = WordsResult::new(chosen_word);

    assert_eq!(result.is_word_possible(words[0], &excluded, &included), true);
    assert_eq!(result.possible_words.len(), 1);
    assert_eq!(result.possible_words[0], Word::new("light").unwrap());
}

#[test]
fn should_accept_every_candidate_when_pattern_is_all_wildcards() {
    let excluded = Excluded(vec![]);
    let included = Included(vec!['I']);
    let chosen_word = Word::new("*****").unwrap();
    let mut result = WordsResult::new(chosen_word);

    assert_eq!(result.is_word_possible("light", &excluded, &included), true);
    assert_eq!(result.is_word_possible("focus", &excluded, &included), true);
    assert_eq!(result.possible_words.len(), 2);
}

#[test]
fn should_let_included_char_override_exclusion_and_mismatch() {
    let excluded = Excluded(vec!['Z']);
    let included = Included(vec!['E']);
    let chosen_word = Word::new("zorro").unwrap();
    let mut result = WordsResult::new(chosen_word);

    assert_eq!(result.is_word_possible("zorro", &excluded, &included), false);
    assert_eq!(result.is_word_possible("eorro", &excluded, &included), true);
    assert_eq!(result.possible_words.len(), 1);
    assert_eq!(result.possible_words[0], Word::new("eorro").unwrap());
}

#[test]
fn should_append_again_when_same_candidate_is_reevaluated() {
    let excluded = Excluded(vec![]);
    let included = Included(vec![]);
    let chosen_word = Word::new("aargh").unwrap();
    let mut result = WordsResult::new(chosen_word);

    assert_eq!(result.is_word_possible("aargh", &excluded, &included), true);
    assert_eq!(result.possible_words.len(), 1);
    assert_eq!(result.is_word_possible("aargh", &excluded, &included), true);
    assert_eq!(result.possible_words.len(), 2);
    assert_eq!(result.possible_words[0], Word::new("aargh").unwrap());
    assert_eq!(result.possible_words[1], Word::new("aargh").unwrap());
}

#[test]
fn should_not_treat_candidate_wildcard_as_matching_letter() {
    let excluded = Excluded(vec![]);
    let included = Included(vec![]);
    let chosen_word = Word::new("zowie").unwrap();
    let mut result = WordsResult::new(chosen_word);

    assert_eq!(result.is_word_possible("z?wie", &excluded, &included), false);
    assert_eq!(result.possible_words.len(), 0);
}

#[test]
fn should_never_match_candidate_wildcard_against_included_set() {
    let excluded = Excluded(vec![]);
    let included = Included(vec![' ']);
    let chosen_word = Word::new("zzzzz").unwrap();
    let mut result = WordsResult::new(chosen_word);

    assert_eq!(result.is_word_possible("?????", &excluded, &included), false);
    assert_eq!(result.possible_words.len(), 0);
}

#[test]
fn should_propagate_parse_error_from_check_word() {
    let excluded = Excluded(vec![]);
    let included = Included(vec![]);
    let chosen_word = Word::new("aargh").unwrap();
    let mut result = WordsResult::new(chosen_word);

    assert_eq!(
        result.check_word("toolong", &excluded, &included),
        Err(WordError::InvalidWordLength(7))
    );
    assert_eq!(
        result.check_word("ab-de", &excluded, &included),
        Err(WordError::InvalidCharValue('-'))
    );
    assert_eq!(result.possible_words.len(), 0);
    assert_eq!(result.check_word("aargh", &excluded, &included), Ok(true));
    assert_eq!(result.check_word("zzzzz", &excluded, &included), Ok(false));
    assert_eq!(result.possible_words.len(), 1);
}

#[test]
fn should_normalize_constraint_sets_from_text() {
    let excluded = Excluded::from_str("abC").unwrap();
    assert_eq!(excluded.0, vec!['A', 'B', 'C']);
    let included = Included::from_str("").unwrap();
    assert_eq!(included.0, Vec::<char>::new());
    let included = Included::from_str("wZ").unwrap();
    assert_eq!(included.0, vec!['W', 'Z']);
}

#[test]
fn should_render_empty_report_as_header_only() {
    let chosen_word = Word::new("aargh").unwrap();
    let result = WordsResult::new(chosen_word);
    assert_eq!(result.render(), "List of possible matching words:\n");
}

#[test]
fn should_render_accepted_words_in_order() {
    let excluded = Excluded(vec!['m']);
    let included = Included(vec![]);
    let chosen_word = Word::new("*orro").unwrap();
    let mut result = WordsResult::new(chosen_word);

    assert!(result.is_word_possible("zorro", &excluded, &included));
    assert!(result.is_word_possible("morro", &excluded, &included));
    assert_eq!(
        result.render(),
        "List of possible matching words:\n1. ZORRO\n2. MORRO\n"
    );
}

#[test]
fn should_render_two_digit_entry_numbers() {
    let excluded = Excluded(vec![]);
    let included = Included(vec![]);
    let chosen_word = Word::new("*****").unwrap();
    let mut result = WordsResult::new(chosen_word);

    let candidates = vec![
        "aback", "abase", "abate", "abbey", "abbot", "abhor", "abide", "abled", "abode", "abort",
        "about", "above",
    ];
    for candidate in candidates {
        assert!(result.is_word_possible(candidate, &excluded, &included));
    }
    assert_eq!(result.possible_words.len(), 12);
    let report = result.render();
    assert!(report.starts_with("List of possible matching words:\n1. ABACK\n"));
    assert!(report.contains("\n9. ABODE\n"));
    assert!(report.contains("\n10. ABORT\n"));
    assert!(report.ends_with("\n12. ABOVE\n"));
}
