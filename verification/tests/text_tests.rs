use voiceflow::text::{chars_of, replace_chars, trim};
use voiceflow::transcript::normalize_transcript;

#[test]
fn trim_removes_unicode_white_space_at_both_ends() {
    assert_eq!(trim("  hello world \t\n"), "hello world");
    assert_eq!(trim("\u{3000}\u{a0}x\u{2028}"), "x");
    assert_eq!(trim(" \n\t "), "");
    assert_eq!(trim(""), "");
    assert_eq!(trim("a b"), "a b");
}

#[test]
fn trim_agrees_with_std() {
    for s in ["", " ", "x", " x", "x ", "\u{85}y\u{205f}", "\u{200b}z\u{200b}", " a\u{1680}b "] {
        assert_eq!(trim(s), s.trim());
    }
}

#[test]
fn replace_takes_occurrences_from_the_left() {
    let s = chars_of("aaaa");
    let pat = chars_of("aa");
    let rep = chars_of("b");
    assert_eq!(replace_chars(&s, &pat, &rep), vec!['b', 'b']);
    let s = chars_of("aaa");
    assert_eq!(replace_chars(&s, &pat, &rep), vec!['b', 'a']);
    let s = chars_of("xyz");
    assert_eq!(replace_chars(&s, &pat, &rep), vec!['x', 'y', 'z']);
    let empty: Vec<char> = Vec::new();
    assert_eq!(replace_chars(&chars_of("ggml-a.bin"), &chars_of(".bin"), &empty), chars_of("ggml-a"));
}

#[test]
fn normalize_transcript_joins_lines() {
    assert_eq!(normalize_transcript("  Hello\nworld  \n"), "Hello world");
    assert_eq!(normalize_transcript("a\n\nb"), "a b");
    assert_eq!(normalize_transcript("a    b"), "a  b");
    assert_eq!(normalize_transcript("\n\n"), "");
}

#[test]
fn normalize_transcript_agrees_with_std() {
    for s in ["", " hi ", "one\ntwo", "x \n y", "a\r\nb", "   \n  q  \n\n r", "tab\tsep"] {
        let expected = s.trim().replace('\n', " ").replace("  ", " ");
        assert_eq!(normalize_transcript(s), expected);
    }
}

#[test]
fn normalized_transcript_is_one_trimmed_line() {
    for s in [" a\nb\n", "\n x \n\n y \n", "\u{a0}q\u{a0}"] {
        let t = normalize_transcript(s);
        assert!(!t.contains('\n'));
        assert_eq!(t.trim(), t);
        assert!(t.chars().count() <= s.chars().count());
    }
}
