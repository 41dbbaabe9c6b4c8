use mee::get_suggestions;
use mee::suggest::{contains_word, lowercase_all, matching_words, starts_with, SuggestionIndex};

fn word_list(words: &[&str]) -> Vec<String> {
    words.iter().map(|w| w.to_string()).collect()
}

fn char_list(text: &str) -> Vec<char> {
    text.chars().collect()
}

#[test]
fn prefix_filter_keeps_catalog_order() {
    let catalog = word_list(&["select", "send", "set"]);
    assert_eq!(get_suggestions("se".to_string(), &catalog), word_list(&["select", "send", "set"]));
    assert_eq!(get_suggestions("sel".to_string(), &catalog), word_list(&["select"]));
    assert_eq!(get_suggestions(String::new(), &catalog), Vec::<String>::new());
}

#[test]
fn prefix_filter_does_not_sort() {
    let catalog = word_list(&["zeta", "alpha", "zoo", "beta", "zap"]);
    assert_eq!(get_suggestions("z".to_string(), &catalog), word_list(&["zeta", "zoo", "zap"]));
}

#[test]
fn prefix_filter_without_a_match_is_empty() {
    let catalog = word_list(&["select", "send", "set"]);
    assert_eq!(get_suggestions("x".to_string(), &catalog), Vec::<String>::new());
    assert_eq!(get_suggestions("selects".to_string(), &catalog), Vec::<String>::new());
    assert_eq!(get_suggestions("se".to_string(), &Vec::new()), Vec::<String>::new());
}

#[test]
fn prefix_filter_ignores_case_on_both_sides() {
    let catalog = word_list(&["Select", "SEND", "set", "other"]);
    assert_eq!(get_suggestions("se".to_string(), &catalog), word_list(&["Select", "SEND", "set"]));
    assert_eq!(get_suggestions("SE".to_string(), &catalog), word_list(&["Select", "SEND", "set"]));
    assert_eq!(get_suggestions("sEn".to_string(), &catalog), word_list(&["SEND"]));
}

#[test]
fn prefix_filter_lowers_letters_outside_ascii() {
    let catalog = word_list(&["Ärger", "ärmel", "arm"]);
    assert_eq!(get_suggestions("är".to_string(), &catalog), word_list(&["Ärger", "ärmel"]));
    assert_eq!(get_suggestions("ÄR".to_string(), &catalog), word_list(&["Ärger", "ärmel"]));
}

#[test]
fn a_word_equal_to_the_token_is_suggested() {
    let catalog = word_list(&["set", "settle"]);
    assert_eq!(get_suggestions("set".to_string(), &catalog), word_list(&["set", "settle"]));
}

#[test]
fn free_filter_keeps_repeated_words() {
    let catalog = word_list(&["set", "send", "set"]);
    assert_eq!(get_suggestions("se".to_string(), &catalog), word_list(&["set", "send", "set"]));
}

#[test]
fn starts_with_compares_character_by_character() {
    assert!(starts_with(&char_list("select"), &char_list("sel")));
    assert!(starts_with(&char_list("select"), &char_list("select")));
    assert!(starts_with(&char_list("select"), &char_list("")));
    assert!(starts_with(&char_list(""), &char_list("")));
    assert!(!starts_with(&char_list("select"), &char_list("selects")));
    assert!(!starts_with(&char_list("select"), &char_list("set")));
    assert!(!starts_with(&char_list("select"), &char_list("Sel")));
    assert!(!starts_with(&char_list(""), &char_list("a")));
}

#[test]
fn matching_words_selects_by_key() {
    let words = word_list(&["One", "Two", "Three", "Four"]);
    let keys = word_list(&["a1", "b2", "a3", "a"]);
    assert_eq!(matching_words("a", &keys, &words), word_list(&["One", "Three", "Four"]));
    assert_eq!(matching_words("a3", &keys, &words), word_list(&["Three"]));
    assert_eq!(matching_words("", &keys, &words), words);
    assert_eq!(matching_words("c", &keys, &words), Vec::<String>::new());
}

#[test]
fn matching_words_leaves_out_words_without_a_key() {
    let words = word_list(&["One", "Two", "Three"]);
    let keys = word_list(&["a", "a"]);
    assert_eq!(matching_words("a", &keys, &words), word_list(&["One", "Two"]));
}

#[test]
fn lowercase_all_lowers_each_word() {
    assert_eq!(
        lowercase_all(&word_list(&["Select", "SEND", "set", "ÄÖ", ""])),
        word_list(&["select", "send", "set", "äö", ""])
    );
}

#[test]
fn contains_word_compares_whole_words() {
    let words = word_list(&["set", "send"]);
    assert!(contains_word(&words, &"send".to_string()));
    assert!(!contains_word(&words, &"sen".to_string()));
    assert!(!contains_word(&words, &"Send".to_string()));
    assert!(!contains_word(&Vec::new(), &"send".to_string()));
}

#[test]
fn index_keeps_the_first_of_repeated_words() {
    let index = SuggestionIndex::new(word_list(&["set", "send", "set", "select", "send"]));
    assert_eq!(index.words(), &word_list(&["set", "send", "select"]));
    assert_eq!(index.len(), 3);
}

#[test]
fn index_keeps_a_catalog_of_distinct_words_as_it_is() {
    let catalog = word_list(&["select", "send", "set", "Set"]);
    let index = SuggestionIndex::new(catalog.clone());
    assert_eq!(index.words(), &catalog);
}

#[test]
fn index_filter_answers_the_prefix_query() {
    let index = SuggestionIndex::new(word_list(&["select", "send", "set"]));
    assert_eq!(index.filter("se"), word_list(&["select", "send", "set"]));
    assert_eq!(index.filter("sel"), word_list(&["select"]));
    assert_eq!(index.filter(""), Vec::<String>::new());
    assert_eq!(index.filter("SEN"), word_list(&["send"]));
}

#[test]
fn index_of_an_empty_catalog_suggests_nothing() {
    let index = SuggestionIndex::new(Vec::new());
    assert_eq!(index.len(), 0);
    assert_eq!(index.filter("a"), Vec::<String>::new());
}
