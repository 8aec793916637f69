use wuwa_echo_sight::shape::{
    build_tail_signature, canonicalize_shape, ends_with_pattern, find_key, infer_hint_from_guess,
    infer_next_stat_from_approx_shape, infer_next_stat_from_shape, shape_hamming_distance, shape_signature,
    shape_signature_slice,
};

fn s(v: &[&str]) -> Vec<String> {
    v.iter().map(|x| x.to_string()).collect()
}

#[test]
fn shapes_letter_tokens_by_first_appearance() {
    assert_eq!(shape_signature(&s(&["x", "y", "x", "z"])), "ABAC");
    assert_eq!(shape_signature(&[]), "");
    assert_eq!(shape_signature_slice(&["q", "q", "r"]), "AAB");
    let many: Vec<String> = (0..27).map(|i| format!("k{i}")).collect();
    let sig = shape_signature(&many);
    assert!(sig.starts_with("ABC"));
    assert!(sig.ends_with("Z?"));
}

#[test]
fn renaming_tokens_keeps_the_shape() {
    assert_eq!(shape_signature(&s(&["a", "b", "a", "c"])), shape_signature(&s(&["q", "r", "q", "s"])));
}

#[test]
fn guesses_are_canonicalized() {
    assert_eq!(canonicalize_shape("x y x y"), Some("ABAB".to_string()));
    assert_eq!(canonicalize_shape("BAAB"), Some("ABBA".to_string()));
    assert_eq!(canonicalize_shape("a"), None);
    assert_eq!(canonicalize_shape("abcdefghijklmnopq"), None);
    assert_eq!(canonicalize_shape("ABAB").and_then(|c| canonicalize_shape(&c)), Some("ABAB".to_string()));
}

#[test]
fn suffix_and_lookup() {
    let seq = s(&["a", "b", "c"]);
    assert!(ends_with_pattern(&seq, &s(&["b", "c"])));
    assert!(ends_with_pattern(&seq, &[]));
    assert!(!ends_with_pattern(&seq, &s(&["a", "c"])));
    assert!(!ends_with_pattern(&s(&["c"]), &seq));
    assert_eq!(find_key(&seq, &"c".to_string()), Some(2));
    assert_eq!(find_key(&seq, &"d".to_string()), None);
}

#[test]
fn shapes_predict_the_next_stat() {
    assert_eq!(infer_next_stat_from_shape("ABA", &s(&["x", "y"])), Some("x".to_string()));
    assert_eq!(infer_next_stat_from_shape("ABC", &s(&["x", "y"])), None);
    assert_eq!(infer_next_stat_from_shape("AAB", &s(&["x", "y"])), None);
    assert_eq!(infer_next_stat_from_shape("AB", &s(&["x", "y"])), None);
    assert_eq!(infer_hint_from_guess(&s(&["p", "q", "p"]), "ABAB"), Some("q".to_string()));
    assert_eq!(infer_hint_from_guess(&s(&["p"]), "A"), None);
}

#[test]
fn approximate_shapes_allow_one_mismatch() {
    assert_eq!(shape_hamming_distance("ABAB", "ABBA"), Some(2));
    assert_eq!(shape_hamming_distance("AB", "ABC"), None);
    assert_eq!(
        infer_next_stat_from_approx_shape("ABAB", &s(&["x", "y", "y"])),
        Some(("y".to_string(), 1))
    );
    assert_eq!(infer_next_stat_from_approx_shape("ABCA", &s(&["x", "x", "x"])), None);
    assert_eq!(
        infer_next_stat_from_approx_shape("ABA", &s(&["x", "y"])),
        Some(("x".to_string(), 0))
    );
}

#[test]
fn tail_signature_joins_the_last_eight() {
    assert_eq!(build_tail_signature(&[]), "empty");
    assert_eq!(build_tail_signature(&s(&["a", "b"])), "a>b");
    let ten = s(&["0", "1", "2", "3", "4", "5", "6", "7", "8", "9"]);
    assert_eq!(build_tail_signature(&ten), "2>3>4>5>6>7>8>9");
}
