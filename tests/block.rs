use helix_search::block::generate_content_block;

const ALL: (usize, usize) = (0, usize::MAX);

#[test]
fn empty_content_is_line_one() {
    assert_eq!(generate_content_block("", ALL.0, ALL.1), "1:");
    assert_eq!(generate_content_block("", 5, 7), "1:");
}

#[test]
fn every_line_is_numbered() {
    assert_eq!(generate_content_block("a\nb", ALL.0, ALL.1), "1: a\n2: b\n");
    assert_eq!(generate_content_block("a\nb\n", ALL.0, ALL.1), "1: a\n2: b\n");
}

#[test]
fn carriage_returns_before_line_feeds_are_dropped() {
    assert_eq!(generate_content_block("a\r\nb\r\n", ALL.0, ALL.1), "1: a\n2: b\n");
    assert_eq!(generate_content_block("a\rb\n", ALL.0, ALL.1), "1: a\rb\n");
}

#[test]
fn empty_lines_are_kept() {
    assert_eq!(generate_content_block("a\n\nb", ALL.0, ALL.1), "1: a\n2: \n3: b\n");
    assert_eq!(generate_content_block("\n", ALL.0, ALL.1), "1: \n");
}

#[test]
fn only_lines_in_range_are_listed() {
    let text = "one\ntwo\nthree\nfour";
    assert_eq!(generate_content_block(text, 1, 2), "2: two\n3: three\n");
    assert_eq!(generate_content_block(text, 3, 3), "4: four\n");
    assert_eq!(generate_content_block(text, 4, 9), "");
}

#[test]
fn numbers_past_nine_have_several_digits() {
    let text: String = (0..12).map(|i| format!("l{i}\n")).collect();
    assert_eq!(generate_content_block(&text, 9, 11), "10: l9\n11: l10\n12: l11\n");
}

#[test]
fn multibyte_lines_are_kept_whole() {
    assert_eq!(generate_content_block("héllo\nwörld", ALL.0, ALL.1), "1: héllo\n2: wörld\n");
}
