use pantry::text::{join_strings, split_at_char};

#[test]
fn split_keeps_empty_pieces() {
    assert_eq!(split_at_char("a,,b", ','), vec!["a", "", "b"]);
    assert_eq!(split_at_char("", ','), vec![""]);
    assert_eq!(split_at_char("héllo,wörld", ','), vec!["héllo", "wörld"]);
}

#[test]
fn join_puts_separator_between() {
    let parts = vec![String::from("a"), String::from("b"), String::from("c")];
    assert_eq!(join_strings(&parts, ", "), "a, b, c");
    assert_eq!(join_strings(&Vec::new(), ","), "");
}
