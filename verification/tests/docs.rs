use bonsai::docs::{
    clean_body_indentation, clean_comments, extract_balanced_block, scan_header, DocsArgs,
};

#[test]
fn comment_markers_are_removed_line_by_line() {
    assert_eq!(clean_comments("// hello\n//   world  \n//\n"), "hello\n  world\n");
    assert_eq!(clean_comments("hello"), "hello");
    assert_eq!(clean_comments("   // a\r\n\t//b"), "a\nb");
    assert_eq!(clean_comments("////x"), "x");
    assert_eq!(clean_comments("///  x"), "/  x");
    assert_eq!(clean_comments("//  two spaces"), " two spaces");
    assert_eq!(clean_comments(""), "");
    assert_eq!(clean_comments("\n"), "");
    assert_eq!(clean_comments("// a // b"), "a // b");
}

#[test]
fn body_indentation_is_reduced_by_one_level() {
    assert_eq!(clean_body_indentation("\n    a\n        b\n}".to_string()), "a\n    b\n}");
    assert_eq!(clean_body_indentation("\r\n\r\n    x".to_string()), "x");
    assert_eq!(clean_body_indentation("   three\n\ttab\n    four".to_string()), "   three\n\ttab\nfour");
    assert_eq!(clean_body_indentation("".to_string()), "");
    assert_eq!(clean_body_indentation("    a\r\n    b\r\n".to_string()), "a\nb");
}

#[test]
fn balanced_block_ends_at_the_matching_brace() {
    assert_eq!(extract_balanced_block("{ a { b } c } d", 1), Some(" a { b } c ".to_string()));
    assert_eq!(extract_balanced_block("{}", 1), Some(String::new()));
    assert_eq!(extract_balanced_block("{ a", 1), None);
    assert_eq!(extract_balanced_block("{ { } ", 1), None);
    assert_eq!(extract_balanced_block("x", 1), None);
    assert_eq!(extract_balanced_block("a } b }", 0), Some("a ".to_string()));
}

#[test]
fn header_ends_at_the_first_brace_outside_parentheses() {
    assert_eq!(
        scan_header("proc(a: int) -> int { body }", 4),
        ("(a: int) -> int ".to_string(), 21)
    );
    assert_eq!(scan_header("abc", 1), ("bc".to_string(), 0));
    assert_eq!(scan_header("f(x: struct {a: int}) {", 1), ("(x: struct {a: int}) ".to_string(), 23));
    assert_eq!(scan_header(") {", 0), (") ".to_string(), 3));
    assert_eq!(scan_header("{", 0), (String::new(), 1));
    assert_eq!(scan_header("", 0), (String::new(), 0));
    assert_eq!(scan_header("(((", 0), ("(((".to_string(), 0));
}

#[test]
fn documentation_directories_have_defaults() {
    let args = DocsArgs { dir: None, target: None, trigger: "@doc".to_string() };
    assert_eq!(args.source_dir(), "./bonsai");
    assert_eq!(args.target_dir(), "./docs");
    let args = DocsArgs {
        dir: Some("src".to_string()),
        target: Some("out".to_string()),
        trigger: "@doc".to_string(),
    };
    assert_eq!(args.source_dir(), "src");
    assert_eq!(args.target_dir(), "out");
}

#[test]
fn positions_are_byte_offsets() {
    assert_eq!(scan_header("\u{e9}{", 0), ("\u{e9}".to_string(), 3));
    assert_eq!(extract_balanced_block("\u{e9}{a}", 3), Some("a".to_string()));
    assert_eq!(extract_balanced_block("{\u{e9}\u{2713}} x", 1), Some("\u{e9}\u{2713}".to_string()));
    assert_eq!(scan_header("f(\u{3b1}: T) \u{2192} U { x }", 1), ("(\u{3b1}: T) \u{2192} U ".to_string(), 16));
    assert_eq!(scan_header("\u{e9}\u{e9}", 2), ("\u{e9}".to_string(), 0));
    assert_eq!(extract_balanced_block("\u{e9}", 2), None);
}
