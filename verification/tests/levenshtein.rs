use string_evolution::levenshtein::{char_distance, levenshtein};

#[test]
fn test_levenshtein() {
    assert_eq!(levenshtein("aaaa", "aaaa"), 0);
    assert_eq!(levenshtein("aaaa", "aaab"), 1);
    assert_eq!(levenshtein("aaaa", "a"), 3);
    assert_eq!(levenshtein("a", "aaaa"), 3);
}

#[test]
fn distance_to_self_is_zero() {
    assert_eq!(levenshtein("", ""), 0);
    assert_eq!(levenshtein("x", "x"), 0);
    assert_eq!(levenshtein("Hello World!", "Hello World!"), 0);
}

#[test]
fn distance_to_empty_is_length() {
    assert_eq!(levenshtein("", "abc"), 3);
    assert_eq!(levenshtein("abc", ""), 3);
    assert_eq!(levenshtein("", "Hello World!"), 12);
    assert_eq!(levenshtein("Hello World!", ""), 12);
}

#[test]
fn distance_is_symmetric() {
    let pairs = [
        ("kitten", "sitting"),
        ("flaw", "lawn"),
        ("aaaa", "a"),
        ("", "xyz"),
        ("Hello", "World"),
    ];
    for (a, b) in pairs {
        assert_eq!(levenshtein(a, b), levenshtein(b, a));
    }
}

#[test]
fn known_distances() {
    assert_eq!(levenshtein("kitten", "sitting"), 3);
    assert_eq!(levenshtein("flaw", "lawn"), 2);
    assert_eq!(levenshtein("gumbo", "gambol"), 2);
}

#[test]
fn char_distance_matches_string_distance() {
    let a: Vec<char> = "kitten".chars().collect();
    let b: Vec<char> = "sitting".chars().collect();
    assert_eq!(char_distance(&a, &b), 3);
    let empty: Vec<char> = Vec::new();
    assert_eq!(char_distance(&empty, &b), 7);
    assert_eq!(char_distance(&a, &empty), 6);
}
