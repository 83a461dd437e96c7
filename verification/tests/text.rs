use bonsai::lines::{join_lines, space, split_lines, trim, trim_end, trim_start};
use bonsai::ordering::{lex_less, path_order};
use bonsai::paths::{
    extension, file_name, file_stem, has_extension, join, last_index, slice_chars, with_extension,
};
use bonsai::text::{
    ends_with, push_all, push_decimal, push_str_chars, starts_with, str_chars, string_from_chars,
};

fn chars(s: &str) -> Vec<char> {
    s.chars().collect()
}

fn text(v: &[char]) -> String {
    v.iter().collect()
}

fn decimal(n: u32) -> String {
    let mut out = Vec::new();
    push_decimal(&mut out, n);
    text(&out)
}

#[test]
fn strings_and_characters_convert_both_ways() {
    assert_eq!(str_chars("héllo ✓"), chars("héllo ✓"));
    assert_eq!(str_chars(""), Vec::<char>::new());
    assert_eq!(string_from_chars(&chars("héllo ✓")), "héllo ✓");
    assert_eq!(string_from_chars(&Vec::new()), "");
}

#[test]
fn decimal_digits_are_written_without_leading_zeros() {
    assert_eq!(decimal(0), "0");
    assert_eq!(decimal(7), "7");
    assert_eq!(decimal(10), "10");
    assert_eq!(decimal(1234567890), "1234567890");
    assert_eq!(decimal(u32::MAX), "4294967295");
}

#[test]
fn appending_keeps_what_was_there() {
    let mut out = chars("ab");
    push_str_chars(&mut out, "cd");
    push_all(&mut out, &chars("ef"));
    push_decimal(&mut out, 42);
    assert_eq!(text(&out), "abcdef42");
}

#[test]
fn prefixes_and_suffixes_are_recognised() {
    assert!(starts_with(&chars("tilesets/a.png"), &chars("tilesets/")));
    assert!(!starts_with(&chars("tileset/a.png"), &chars("tilesets/")));
    assert!(starts_with(&chars("abc"), &chars("")));
    assert!(!starts_with(&chars("ab"), &chars("abc")));
    assert!(ends_with(&chars("hero.png"), &chars(".png")));
    assert!(!ends_with(&chars("hero.pngx"), &chars(".png")));
    assert!(ends_with(&chars("x"), &chars("")));
    assert!(!ends_with(&chars("ng"), &chars(".png")));
}

#[test]
fn lexicographic_order_goes_by_code_point() {
    assert!(lex_less(&chars("a"), &chars("b")));
    assert!(!lex_less(&chars("b"), &chars("a")));
    assert!(!lex_less(&chars("a"), &chars("a")));
    assert!(lex_less(&chars("a"), &chars("ab")));
    assert!(!lex_less(&chars("ab"), &chars("a")));
    assert!(lex_less(&chars(""), &chars("a")));
    assert!(lex_less(&chars("Z"), &chars("a")));
    assert!(lex_less(&chars("a/b"), &chars("a0")));
    assert!(lex_less(&chars("z"), &chars("é")));
}

#[test]
fn paths_are_ordered_and_equal_paths_keep_their_order() {
    let paths: Vec<Vec<char>> =
        ["b.png", "a/z.png", "a.png", "b.png", "a/a.png"].iter().map(|p| chars(p)).collect();
    assert_eq!(path_order(&paths), vec![2, 4, 1, 0, 3]);
    assert_eq!(path_order(&Vec::new()), Vec::<usize>::new());
}

#[test]
fn path_order_agrees_with_the_order_of_strings() {
    let names = ["s10", "s2", "S1", "tile", "s", "é", "", "s1/a", "s1.a"];
    let paths: Vec<Vec<char>> = names.iter().map(|p| chars(p)).collect();
    let order = path_order(&paths);
    let mut expected: Vec<usize> = (0..names.len()).collect();
    expected.sort_by(|a, b| names[*a].cmp(names[*b]));
    assert_eq!(order, expected);
}

#[test]
fn file_names_stems_and_extensions_follow_the_last_slash_and_dot() {
    assert_eq!(file_name("assets/images/hero.png"), "hero.png");
    assert_eq!(file_name("hero.png"), "hero.png");
    assert_eq!(file_name("dir/"), "");
    assert_eq!(file_stem("assets/images/hero.png"), "hero");
    assert_eq!(file_stem("a/b.tar.gz"), "b.tar");
    assert_eq!(file_stem("a/.hidden"), ".hidden");
    assert_eq!(file_stem("a.d/plain"), "plain");
    assert_eq!(file_stem(".."), "..");
    assert_eq!(extension("assets/images/hero.png"), Some("png".to_string()));
    assert_eq!(extension("a/b.tar.gz"), Some("gz".to_string()));
    assert_eq!(extension("a/.hidden"), None);
    assert_eq!(extension("a.d/plain"), None);
    assert_eq!(extension("x."), Some(String::new()));
    assert_eq!(extension(".."), None);
    assert_eq!(extension(""), None);
    assert!(has_extension("a/b.png", "png"));
    assert!(!has_extension("a/b.PNG", "png"));
    assert!(!has_extension("a/png", "png"));
}

#[test]
fn joining_puts_one_slash_between() {
    assert_eq!(join("assets", "images"), "assets/images");
    assert_eq!(join("assets/", "images"), "assets/images");
    assert_eq!(join("", "images"), "images");
    assert_eq!(join("/", "usr"), "/usr");
    assert_eq!(join("a", ""), "a/");
}

#[test]
fn replacing_the_extension_keeps_directory_and_stem() {
    assert_eq!(with_extension("source/shaders/shader.glsl", "odin"), "source/shaders/shader.odin");
    assert_eq!(with_extension("a/b", "odin"), "a/b.odin");
    assert_eq!(with_extension("a.d/b.c.glsl", "odin"), "a.d/b.c.odin");
    assert_eq!(with_extension(".hidden", "x"), ".hidden.x");
}

#[test]
fn last_index_and_slices_of_characters() {
    assert_eq!(last_index(&chars("a/b/c"), '/'), Some(3));
    assert_eq!(last_index(&chars("abc"), '/'), None);
    assert_eq!(last_index(&chars(""), '/'), None);
    assert_eq!(text(&slice_chars(&chars("hello"), 1, 4)), "ell");
    assert_eq!(text(&slice_chars(&chars("hello"), 2, 2)), "");
}

#[test]
fn white_space_is_trimmed_at_both_ends() {
    assert!(space(' ') && space('\t') && space('\n') && space('\r') && space('\u{a0}'));
    assert!(space('\u{2003}') && space('\u{3000}') && space('\u{85}'));
    assert!(!space('a') && !space('_') && !space('\u{200b}') && !space('\u{8}'));
    assert_eq!(text(&trim_start(&chars("  \t a b "))), "a b ");
    assert_eq!(text(&trim_end(&chars(" a b \r\n"))), " a b");
    assert_eq!(text(&trim(&chars("\u{a0} a b\u{2003}"))), "a b");
    assert_eq!(text(&trim(&chars("   "))), "");
    assert_eq!(text(&trim(&chars(""))), "");
    for sample in ["  x ", "\ty\n", "z", " \u{1680}w\u{205f} "] {
        assert_eq!(text(&trim(&chars(sample))), sample.trim());
    }
}

#[test]
fn lines_are_split_as_the_standard_library_splits_them() {
    for sample in ["", "a", "a\n", "a\nb", "a\r\nb\r\n", "\n", "\n\n", "a\r", "a\rb\n", "\r\n", "x\n\ny"]
    {
        let got: Vec<String> = split_lines(&chars(sample)).iter().map(|l| text(l)).collect();
        let want: Vec<String> = sample.lines().map(|l| l.to_string()).collect();
        assert_eq!(got, want);
    }
}

#[test]
fn lines_are_joined_with_line_feeds() {
    let lines: Vec<Vec<char>> = vec![chars("a"), chars(""), chars("b")];
    assert_eq!(text(&join_lines(&lines)), "a\n\nb");
    assert_eq!(text(&join_lines(&vec![chars("only")])), "only");
    assert_eq!(text(&join_lines(&Vec::new())), "");
}
