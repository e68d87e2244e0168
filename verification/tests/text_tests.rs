use timesheet::text::{escape_html, normalize, sanitize_filename};

#[test]
fn sanitize_accented_name() {
    // one output character per input character; only ASCII alphanumerics stay
    let out = sanitize_filename("Jos\u{e9}  P\u{e9}rez!");
    assert_eq!(out, "Jos___P_rez_");
    assert_eq!(out.chars().count(), "Jos\u{e9}  P\u{e9}rez!".chars().count());
    assert!(out
        .chars()
        .all(|c| c.is_ascii_alphanumeric() || c == '_'));
}

#[test]
fn sanitize_empty_name_falls_back() {
    assert_eq!(sanitize_filename(""), "worker");
}

#[test]
fn sanitize_keeps_alphanumerics() {
    assert_eq!(sanitize_filename("Ana99"), "Ana99");
    assert_eq!(sanitize_filename("a-b c"), "a_b_c");
}

#[test]
fn escape_html_special_characters() {
    assert_eq!(
        escape_html("<a href=\"x\">&'quote'</a>"),
        "&lt;a href=&quot;x&quot;&gt;&amp;&#39;quote&#39;&lt;/a&gt;"
    );
    assert_eq!(escape_html("plain"), "plain");
    assert_eq!(escape_html(""), "");
}

#[test]
fn normalize_keeps_only_digits() {
    assert_eq!(normalize("  0123456789\r\n"), "0123456789");
    assert_eq!(normalize("\u{feff}12-34 56x"), "123456");
    assert_eq!(normalize("abc"), "");
}
