use prelearning::language_pack::transcription::match_line_words;

fn v(items: &[&str]) -> Vec<String> {
    items.iter().map(|s| s.to_string()).collect()
}

#[test]
fn characters_fall_on_aligned_words() {
    let words = v(&["猫", "が", "好", "き"]);
    let segments = v(&["猫", "が", "好き"]);
    assert_eq!(match_line_words(&words, &segments), Some(vec![vec![0], vec![1], vec![2, 3]]));
}

#[test]
fn search_runs_on_and_may_stay() {
    let words = v(&["a", "x", "a", "b"]);
    let segments = v(&["a", "ab", "b"]);
    assert_eq!(match_line_words(&words, &segments), Some(vec![vec![0], vec![0, 3], vec![3]]));
}

#[test]
fn unknown_segments_and_no_words_fall_on_nothing() {
    let words = v(&["a"]);
    assert_eq!(match_line_words(&words, &v(&["UNK", "a"])), Some(vec![vec![], vec![0]]));
    assert_eq!(match_line_words(&vec![], &v(&["a", "b"])), Some(vec![vec![], vec![]]));
}

#[test]
fn missing_character_is_none() {
    let words = v(&["b", "a"]);
    assert_eq!(match_line_words(&words, &v(&["a", "b"])), None);
}
