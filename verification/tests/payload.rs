use open_intent::payload::decode_path_list;

fn list(items: &[&str]) -> Option<Vec<String>> {
    Some(items.iter().map(|s| s.to_string()).collect())
}

#[test]
fn decodes_a_list_of_paths() {
    assert_eq!(
        decode_path_list("[\"image.png\",\"notes.pdf\",\"draft.pdf\"]"),
        list(&["image.png", "notes.pdf", "draft.pdf"])
    );
    assert_eq!(decode_path_list("[\"a\"]"), list(&["a"]));
    assert_eq!(decode_path_list("[\"\"]"), list(&[""]));
    assert_eq!(decode_path_list("[\"\",\"\"]"), list(&["", ""]));
}

#[test]
fn decodes_the_empty_list() {
    assert_eq!(decode_path_list("[]"), list(&[]));
    assert_eq!(decode_path_list(" [ ] "), list(&[]));
    assert_eq!(decode_path_list("\n[\t\r\n]\n"), list(&[]));
}

#[test]
fn blanks_between_the_parts_are_skipped() {
    assert_eq!(
        decode_path_list(" \t[ \"a.pdf\" ,\r\n\t\"b c.pdf\"\n]\n"),
        list(&["a.pdf", "b c.pdf"])
    );
    assert_eq!(decode_path_list("[\" a \"]"), list(&[" a "]));
}

#[test]
fn decodes_the_short_escapes() {
    assert_eq!(decode_path_list(r#"["a\"b"]"#), list(&["a\"b"]));
    assert_eq!(decode_path_list(r#"["C:\\Users\\me\\a.pdf"]"#), list(&["C:\\Users\\me\\a.pdf"]));
    assert_eq!(decode_path_list(r#"["\/tmp\/a.pdf"]"#), list(&["/tmp/a.pdf"]));
    assert_eq!(decode_path_list(r#"["\b\f\n\r\t"]"#), list(&["\u{8}\u{c}\n\r\t"]));
    assert_eq!(decode_path_list(r#"["],[","\\"]"#), list(&["],[", "\\"]));
}

#[test]
fn decodes_the_numbered_escapes() {
    assert_eq!(decode_path_list(r#"["\u0041\u00e9\u00E9\u4e2d"]"#), list(&["A\u{e9}\u{e9}\u{4e2d}"]));
    assert_eq!(decode_path_list(r#"["\u0000\u001f\uffff"]"#), list(&["\u{0}\u{1f}\u{ffff}"]));
    assert_eq!(decode_path_list(r#"["\ud83d\ude00.pdf"]"#), list(&["\u{1f600}.pdf"]));
    assert_eq!(decode_path_list(r#"["\uD800\uDC00\uDBFF\uDFFF"]"#), list(&["\u{10000}\u{10ffff}"]));
    assert_eq!(decode_path_list(r#"["\ud7ff\ue000"]"#), list(&["\u{d7ff}\u{e000}"]));
}

#[test]
fn keeps_characters_outside_ascii() {
    assert_eq!(
        decode_path_list("[\"/home/z\u{fc}rich/\u{1f600}.pdf\",\"\u{7f}\"]"),
        list(&["/home/z\u{fc}rich/\u{1f600}.pdf", "\u{7f}"])
    );
}

#[test]
fn rejects_what_is_not_an_array() {
    assert_eq!(decode_path_list(""), None);
    assert_eq!(decode_path_list("   "), None);
    assert_eq!(decode_path_list("not json"), None);
    assert_eq!(decode_path_list("\"a.pdf\""), None);
    assert_eq!(decode_path_list("{\"paths\":[\"a.pdf\"]}"), None);
    assert_eq!(decode_path_list("null"), None);
    assert_eq!(decode_path_list("a.pdf"), None);
}

#[test]
fn rejects_a_broken_array() {
    assert_eq!(decode_path_list("["), None);
    assert_eq!(decode_path_list("]"), None);
    assert_eq!(decode_path_list("[\"a.pdf\""), None);
    assert_eq!(decode_path_list("[\"a.pdf\","), None);
    assert_eq!(decode_path_list("[\"a.pdf\",]"), None);
    assert_eq!(decode_path_list("[,\"a.pdf\"]"), None);
    assert_eq!(decode_path_list("[,]"), None);
    assert_eq!(decode_path_list("[\"a.pdf\" \"b.pdf\"]"), None);
    assert_eq!(decode_path_list("[\"a.pdf\",,\"b.pdf\"]"), None);
    assert_eq!(decode_path_list("[\"a.pdf\"]]"), None);
    assert_eq!(decode_path_list("[\"a.pdf\"] x"), None);
    assert_eq!(decode_path_list("[\"a.pdf\"][]"), None);
    assert_eq!(decode_path_list("[\"a.pdf]"), None);
    assert_eq!(decode_path_list("['a.pdf']"), None);
}

#[test]
fn rejects_elements_that_are_not_strings() {
    assert_eq!(decode_path_list("[1]"), None);
    assert_eq!(decode_path_list("[null]"), None);
    assert_eq!(decode_path_list("[true]"), None);
    assert_eq!(decode_path_list("[\"a.pdf\",2]"), None);
    assert_eq!(decode_path_list("[[\"a.pdf\"]]"), None);
    assert_eq!(decode_path_list("[{\"path\":\"a.pdf\"}]"), None);
}

#[test]
fn rejects_broken_strings() {
    assert_eq!(decode_path_list("[\"a\tb\"]"), None);
    assert_eq!(decode_path_list("[\"a\nb\"]"), None);
    assert_eq!(decode_path_list("[\"a\u{0}b\"]"), None);
    assert_eq!(decode_path_list("[\"a\u{1f}b\"]"), None);
    assert_eq!(decode_path_list(r#"["\x41"]"#), None);
    assert_eq!(decode_path_list(r#"["\a"]"#), None);
    assert_eq!(decode_path_list(r#"["\U0041"]"#), None);
    assert_eq!(decode_path_list(r#"["\"]"#), None);
    assert_eq!(decode_path_list(r#"["\u12"]"#), None);
    assert_eq!(decode_path_list(r#"["\u12g4"]"#), None);
    assert_eq!(decode_path_list(r#"["\u"]"#), None);
    assert_eq!(decode_path_list("[\"\\"), None);
    assert_eq!(decode_path_list("[\"\\u00"), None);
}

#[test]
fn rejects_surrogates_that_are_not_paired() {
    assert_eq!(decode_path_list(r#"["\ud83d"]"#), None);
    assert_eq!(decode_path_list(r#"["\ude00"]"#), None);
    assert_eq!(decode_path_list(r#"["\ud83dx"]"#), None);
    assert_eq!(decode_path_list(r#"["\ud83d\n"]"#), None);
    assert_eq!(decode_path_list(r#"["\ud83d\u0041"]"#), None);
    assert_eq!(decode_path_list(r#"["\ud83d\ud83d"]"#), None);
    assert_eq!(decode_path_list(r#"["\ude00\ud83d"]"#), None);
    assert_eq!(decode_path_list(r#"["\ud83d\ude0"]"#), None);
    assert_eq!(decode_path_list(r#"["\ud83d\u"#), None);
}

#[test]
fn plain_written_form_is_read_back() {
    assert_eq!(decode_path_list("[]"), list(&[]));
    assert_eq!(decode_path_list("[\"a.pdf\"]"), list(&["a.pdf"]));
    assert_eq!(
        decode_path_list("[\"a \\\"b\\\".pdf\",\"c\\\\d\",\"\\u0000\\u000a\\u001f \u{7f}\"]"),
        list(&["a \"b\".pdf", "c\\d", "\u{0}\n\u{1f} \u{7f}"])
    );
}
