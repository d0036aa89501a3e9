use helix_search::search::Searcher;

#[test]
fn test_search_next() {
    let text = "hello world!";

    let searcher = Searcher::new(r"\w+").unwrap();

    let result = searcher.search_next(text, 0).unwrap();
    let fragment = &text[result.start..result.end];
    assert_eq!("hello", fragment);

    let result = searcher.search_next(text, result.end).unwrap();
    let fragment = &text[result.start..result.end];
    assert_eq!("world", fragment);

    let result = searcher.search_next(text, result.end);
    assert!(result.is_none());
}

#[test]
fn test_search_prev() {
    let text = "hello world!";

    let searcher = Searcher::new(r"\w+").unwrap();

    let result = searcher.search_prev(text, text.len()).unwrap();
    let fragment = &text[result.start..result.end];
    assert_eq!("world", fragment);

    let result = searcher.search_prev(text, result.start).unwrap();
    let fragment = &text[result.start..result.end];
    assert_eq!("hello", fragment);

    let result = searcher.search_prev(text, result.start);
    assert!(result.is_none());
}

#[test]
fn word_ranges_forward() {
    let text = "hello world!";
    let searcher = Searcher::new(r"\w+").unwrap();
    assert_eq!(searcher.search_next(text, 0), Some(0..5));
    assert_eq!(searcher.search_next(text, 5), Some(6..11));
    assert_eq!(searcher.search_next(text, 11), None);
}

#[test]
fn word_ranges_backward() {
    let text = "hello world!";
    let searcher = Searcher::new(r"\w+").unwrap();
    assert_eq!(searcher.search_prev(text, 12), Some(6..11));
    assert_eq!(searcher.search_prev(text, 6), Some(0..5));
    assert_eq!(searcher.search_prev(text, 0), None);
}

#[test]
fn search_from_inside_a_word() {
    let text = "hello world!";
    let searcher = Searcher::new(r"\w+").unwrap();
    assert_eq!(searcher.search_next(text, 2), Some(2..5));
    assert_eq!(searcher.search_prev(text, 9), Some(6..9));
}

#[test]
fn lowercase_pattern_ignores_case() {
    let searcher = Searcher::new("foo").unwrap();
    for text in ["Foo", "FOO", "foo"] {
        assert_eq!(searcher.search_next(text, 0), Some(0..3));
        assert_eq!(searcher.search_prev(text, 3), Some(0..3));
    }
}

#[test]
fn uppercase_pattern_keeps_case() {
    let searcher = Searcher::new("Foo").unwrap();
    assert_eq!(searcher.search_next("Foo", 0), Some(0..3));
    assert_eq!(searcher.search_next("foo", 0), None);
    assert_eq!(searcher.search_next("FOO", 0), None);
    assert_eq!(searcher.search_prev("FOO", 3), None);
    assert_eq!(searcher.search_next("a foo and a Foo", 0), Some(12..15));
}

#[test]
fn single_match_same_both_ways() {
    let text = "one needle in the hay";
    let searcher = Searcher::new("needle").unwrap();
    let forward = searcher.search_next(text, 0);
    assert_eq!(forward, Some(4..10));
    assert_eq!(forward, searcher.search_prev(text, text.len()));
}

#[test]
fn forward_search_does_not_overlap() {
    let text = "aa aaa a";
    let searcher = Searcher::new("a+").unwrap();
    let mut offset = 0;
    let mut found = Vec::new();
    while let Some(r) = searcher.search_next(text, offset) {
        if let Some(last) = found.last() {
            let last: &std::ops::Range<usize> = last;
            assert!(r.start >= last.end);
        }
        offset = r.end;
        found.push(r);
    }
    assert_eq!(found, vec![0..2, 3..6, 7..8]);
}

#[test]
fn backward_search_walks_to_front() {
    let text = "aa aaa a";
    let searcher = Searcher::new("a+").unwrap();
    let mut offset = text.len();
    let mut found = Vec::new();
    while let Some(r) = searcher.search_prev(text, offset) {
        assert!(r.end <= offset);
        assert!(r.start < offset);
        offset = r.start;
        found.push(r);
    }
    assert_eq!(found, vec![7..8, 3..6, 0..2]);
}

#[test]
fn empty_text_has_no_match() {
    let searcher = Searcher::new("x").unwrap();
    assert_eq!(searcher.search_next("", 0), None);
    assert_eq!(searcher.search_prev("", 0), None);
}

#[test]
fn multibyte_text_gives_byte_offsets() {
    let text = "é x é";
    let searcher = Searcher::new("x").unwrap();
    assert_eq!(searcher.search_next(text, 0), Some(3..4));
    assert_eq!(searcher.search_prev(text, text.len()), Some(3..4));
}

#[test]
fn unbalanced_group_is_a_compile_error() {
    let err = Searcher::new("(abc").err().expect("the pattern is malformed");
    assert!(!err.message.is_empty());
}

#[test]
fn unbalanced_bracket_is_a_compile_error() {
    assert!(Searcher::new("[a-").is_err());
}
