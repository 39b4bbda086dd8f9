use tectonic_wasi::text::{
    join_text, find_bytes, remove_separators, replace_separators_with_underscore, same_bytes,
    same_text, split_nonempty, strip_suffix,
};

#[test]
fn splitting_keeps_nonempty_fields() {
    assert_eq!(split_nonempty("a;b;;c;", ';'), vec!["a", "b", "c"]);
    assert!(split_nonempty("", ';').is_empty());
    assert!(split_nonempty(";;", ';').is_empty());
    assert_eq!(split_nonempty("one", ';'), vec!["one"]);
}

#[test]
fn separators_and_suffixes() {
    assert_eq!(replace_separators_with_underscore("a-b+c"), "a_b_c");
    assert_eq!(remove_separators("a-b+c"), "abc");
    assert_eq!(strip_suffix("doc.tex", ".tex"), Some("doc".to_string()));
    assert_eq!(strip_suffix("doc.txt", ".tex"), None);
    assert_eq!(strip_suffix(".tex", ".tex"), Some(String::new()));
    assert_eq!(strip_suffix("tex", ".tex"), None);
    assert_eq!(join_text("lib", "z"), "libz");
}

#[test]
fn comparisons_and_search() {
    assert!(same_text("abc", "abc"));
    assert!(!same_text("abc", "abd"));
    assert!(same_bytes(&vec![1, 2], &vec![1, 2]));
    assert!(!same_bytes(&vec![1, 2], &vec![1]));
    assert!(find_bytes(b"hello world", b"o w"));
    assert!(!find_bytes(b"hello", b"hello!"));
    assert!(find_bytes(b"abc", b""));
}
