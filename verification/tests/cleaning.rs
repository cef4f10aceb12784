use sublang::text::clean_text;

#[test]
fn clean_no_markup_is_identity() {
    assert_eq!(clean_text("Hello world"), "Hello world");
    assert_eq!(clean_text("碧蓝档案"), "碧蓝档案");
}

#[test]
fn clean_trims_whitespace() {
    assert_eq!(clean_text("  hi  "), "hi");
    assert_eq!(clean_text("\u{3000}你好\u{3000}"), "你好");
    assert_eq!(clean_text("\t\r\n"), "");
}

#[test]
fn clean_removes_brace_groups() {
    assert_eq!(clean_text("{\\i1}Hello{\\i0} world"), "Hello world");
    assert_eq!(clean_text("a{}b"), "ab");
    assert_eq!(clean_text("{\\an8}{\\pos(1,2)}text"), "text");
}

#[test]
fn clean_removes_angle_tags() {
    assert_eq!(clean_text("<i>Hello</i> world"), "Hello world");
    assert_eq!(clean_text("<font color=\"red\">x</font>"), "x");
}

#[test]
fn clean_removes_both_families() {
    assert_eq!(clean_text("{\\i1}<i>x</i>{\\i0}"), "x");
}

#[test]
fn clean_keeps_unmatched_delimiters() {
    assert_eq!(clean_text("{abc"), "{abc");
    assert_eq!(clean_text("a}b"), "a}b");
    assert_eq!(clean_text("a<>b"), "a<>b");
    assert_eq!(clean_text("a<b"), "a<b");
}

#[test]
fn clean_empty_is_empty() {
    assert_eq!(clean_text(""), "");
}

#[test]
fn clean_passes_entities_through() {
    assert_eq!(clean_text("a &amp; b"), "a &amp; b");
}
