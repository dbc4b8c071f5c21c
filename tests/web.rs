use ganada::{compose, decompose, is_korean};

fn units(items: &[&str]) -> Vec<String> {
    items.iter().map(|s| s.to_string()).collect()
}

#[test]
fn test_is_korean() {
    assert_eq!(is_korean("안녕하세요"), true);
    assert_eq!(is_korean("Hello"), false);
    assert_eq!(is_korean("Hello 안녕하세요"), true);
}

#[test]
fn test_decompose() {
    let decomposed = decompose("안녕");
    let expected: Vec<String> = vec!["ㅇ".to_string(), "ㅏ".to_string(), "ㄴ".to_string(), "ㄴ".to_string(), "ㅕ".to_string(), "ㅇ".to_string()];
    assert_eq!(decomposed, expected);

    let mixed = decompose("Hello 안녕");
    let expected_mixed: Vec<String> = vec!["H".to_string(), "e".to_string(), "l".to_string(), "l".to_string(), "o".to_string(), " ".to_string(), "ㅇ".to_string(), "ㅏ".to_string(), "ㄴ".to_string(), "ㄴ".to_string(), "ㅕ".to_string(), "ㅇ".to_string()];
    assert_eq!(mixed, expected_mixed);

    assert_eq!(decompose("화"), vec!["ㅎ".to_string(), "ㅗ".to_string(), "ㅏ".to_string()]);
    assert_eq!(decompose("뷁"), vec!["ㅂ".to_string(), "ㅜ".to_string(), "ㅔ".to_string(), "ㄺ".to_string()]);
    assert_eq!(decompose("값"), vec!["ㄱ".to_string(), "ㅏ".to_string(), "ㅄ".to_string()]);
}

#[test]
fn test_compose() {
    let composed = compose(vec!["ㅇ".to_string(), "ㅏ".to_string(), "ㄴ".to_string(), "ㄴ".to_string(), "ㅕ".to_string(), "ㅇ".to_string()]);
    assert_eq!(composed, "안녕".to_string());

    let composed_no_jongseong = compose(vec!["ㄱ".to_string(), "ㅏ".to_string()]);
    assert_eq!(composed_no_jongseong, "가".to_string());

    let composed_complex_vowel = compose(vec!["ㅎ".to_string(), "ㅗ".to_string(), "ㅏ".to_string()]);
    assert_eq!(composed_complex_vowel, "화".to_string());

    let composed_complex_jongseong = compose(vec!["ㄱ".to_string(), "ㅏ".to_string(), "ㅄ".to_string()]);
    assert_eq!(composed_complex_jongseong, "값".to_string());

    let decomposed_bwelg = decompose("뷁");
    let composed_bwelg = compose(decomposed_bwelg);
    assert_eq!(composed_bwelg, "뷁".to_string());

    let mixed_compose = compose(vec!["H".to_string(), "e".to_string(), "l".to_string(), "l".to_string(), "o".to_string(), " ".to_string(), "ㅇ".to_string(), "ㅏ".to_string(), "ㄴ".to_string()]);
    assert_eq!(mixed_compose, "Hello 안".to_string());

    let invalid_compose = compose(vec!["ㄱ".to_string(), "ㄴ".to_string()]);
    assert_eq!(invalid_compose, "ㄱㄴ".to_string());

    let only_choseong = compose(vec!["ㄱ".to_string()]);
    assert_eq!(only_choseong, "ㄱ".to_string());

    let only_jungseong = compose(vec!["ㅏ".to_string()]);
    assert_eq!(only_jungseong, "ㅏ".to_string());

    let empty_compose = compose(vec![]);
    assert_eq!(empty_compose, "".to_string());

    let single_char_string_input = compose(vec!["안".to_string(), "녕".to_string()]);
    assert_eq!(single_char_string_input, "안녕".to_string());
}

#[test]
fn round_trip_of_recomposable_texts() {
    for s in ["안녕", "Hello 안녕", "뷁", "값", "힣", "뒑 곽!", "", "abc"] {
        assert_eq!(compose(decompose(s)), s.to_string());
    }
}

#[test]
fn round_trip_breaks_where_a_leading_consonant_follows_an_open_syllable() {
    assert_eq!(compose(decompose("가나")), "간ㅏ".to_string());
    assert_eq!(compose(decompose("안녕하세요")), "안녕핫ㅔ요".to_string());
    assert_eq!(compose(decompose("갈게")), "갉ㅔ".to_string());
    assert_eq!(compose(decompose("ㄱㅏ")), "가".to_string());
}

#[test]
fn arity_follows_the_compound_tables() {
    assert_eq!(decompose("가").len(), 2);
    assert_eq!(decompose("과").len(), 3);
    assert_eq!(decompose("각").len(), 3);
    assert_eq!(decompose("값").len(), 3);
    assert_eq!(decompose("곽").len(), 4);
    assert_eq!(decompose("뷁").len(), 4);
    assert_eq!(decompose("개").len(), 2);
}

#[test]
fn text_without_syllables_is_left_as_it_is() {
    let s = "abc 123 ㄱㅏ ᄀ ä!";
    let expected: Vec<String> = s.chars().map(|c| c.to_string()).collect();
    assert_eq!(decompose(s), expected);
    assert_eq!(is_korean(s), false);
    assert_eq!(is_korean(""), false);
    assert_eq!(decompose(""), Vec::<String>::new());
}

#[test]
fn syllable_range_edges() {
    assert_eq!(decompose("가"), units(&["ㄱ", "ㅏ"]));
    assert_eq!(decompose("힣"), units(&["ㅎ", "ㅣ", "ㅎ"]));
    assert_eq!(decompose("\u{ABFF}\u{D7A4}"), units(&["\u{ABFF}", "\u{D7A4}"]));
    assert_eq!(is_korean("\u{ABFF}\u{D7A4}"), false);
    assert_eq!(is_korean("\u{AC00}"), true);
    assert_eq!(is_korean("x\u{D7A3}"), true);
}

#[test]
fn compose_joins_compound_pairs() {
    assert_eq!(compose(units(&["ㄱ", "ㅏ", "ㅅ"])), "갓".to_string());
    assert_eq!(compose(units(&["ㄱ", "ㅏ", "ㄱ", "ㅅ"])), "갃".to_string());
    assert_eq!(compose(units(&["ㄱ", "ㅏ", "ㅂ", "ㅅ"])), "값".to_string());
    assert_eq!(compose(units(&["ㄷ", "ㅜ", "ㅔ", "ㄹ", "ㄱ"])), "뒑".to_string());
    assert_eq!(compose(units(&["ㅎ", "ㅘ"])), "화".to_string());
    assert_eq!(compose(units(&["ㅎ", "ㅡ", "ㅣ"])), "희".to_string());
}

#[test]
fn compose_takes_a_trailing_consonant_greedily() {
    assert_eq!(compose(units(&["ㄱ", "ㅏ", "ㄴ", "ㅏ"])), "간ㅏ".to_string());
    assert_eq!(compose(units(&["ㄱ", "ㅏ", "ㄸ", "ㅏ"])), "가따".to_string());
}

#[test]
fn compose_passes_other_tokens_through_whole() {
    assert_eq!(compose(units(&["ab", "ㅏ"])), "abㅏ".to_string());
    assert_eq!(compose(units(&["ㄱx", "ㅏ"])), "ㄱxㅏ".to_string());
    assert_eq!(compose(units(&["", "ㄱ", "ㅏ"])), "가".to_string());
    assert_eq!(compose(units(&["ㄱ", "", "ㅏ"])), "ㄱㅏ".to_string());
    assert_eq!(compose(units(&["ㄱ", "ㅏ", "\0"])), "가\0".to_string());
}
