use mycel::cypher::escape;

#[test]
fn escapes_single_quote() {
    assert_eq!(escape("a'b"), "a\\'b");
}

#[test]
fn escapes_backslash_first() {
    assert_eq!(escape("a\\b"), "a\\\\b");
}

#[test]
fn handles_combined() {
    assert_eq!(escape("a\\'b"), "a\\\\\\'b");
}

#[test]
fn passthrough_safe_string() {
    assert_eq!(escape("crate::foo::Bar"), "crate::foo::Bar");
}

#[test]
fn escapes_newline() {
    assert_eq!(escape("a\nb"), "a\\nb");
}

#[test]
fn escapes_carriage_return_and_tab() {
    assert_eq!(escape("a\r\tb"), "a\\r\\tb");
}

#[test]
fn escapes_combined_control_and_quote() {
    assert_eq!(escape("line1\n'quoted'"), "line1\\n\\'quoted\\'");
}

#[test]
fn escaped_text_has_no_bare_quote() {
    let out = escape("it's a 'test'\\'");
    let cs: Vec<char> = out.chars().collect();
    let mut i = 0;
    while i < cs.len() {
        if cs[i] == '\\' {
            i += 2;
        } else {
            assert_ne!(cs[i], '\'');
            i += 1;
        }
    }
}
