use helix_search::motion::{find_nth_next, find_nth_prev};

fn chars(s: &str) -> Vec<char> {
    s.chars().collect()
}

#[test]
fn next_zero_steps_is_identity() {
    let text = chars("abcabc");
    assert_eq!(find_nth_next(&text, 'c', 1, 0, true), Some(1));
    assert_eq!(find_nth_next(&text, 'c', 1, 0, false), Some(1));
}

#[test]
fn prev_zero_steps_is_identity() {
    let text = chars("abcabc");
    assert_eq!(find_nth_prev(&text, 'a', 4, 0, true), Some(4));
    assert_eq!(find_nth_prev(&text, 'a', 4, 0, false), Some(4));
    assert_eq!(find_nth_prev(&text, 'a', 0, 0, false), Some(0));
}

#[test]
fn next_occurrences() {
    let text = chars("abcabc");
    assert_eq!(find_nth_next(&text, 'c', 0, 1, true), Some(2));
    assert_eq!(find_nth_next(&text, 'c', 0, 1, false), Some(1));
    assert_eq!(find_nth_next(&text, 'c', 0, 2, true), Some(5));
    assert_eq!(find_nth_next(&text, 'c', 0, 2, false), Some(4));
    assert_eq!(find_nth_next(&text, 'c', 0, 3, true), None);
}

#[test]
fn next_skips_the_start_position() {
    let text = chars("aaa");
    assert_eq!(find_nth_next(&text, 'a', 0, 1, true), Some(1));
    assert_eq!(find_nth_next(&text, 'a', 2, 1, true), None);
}

#[test]
fn next_from_past_the_end_is_absent() {
    let text = chars("abc");
    assert_eq!(find_nth_next(&text, 'a', 3, 0, true), None);
    assert_eq!(find_nth_next(&text, 'a', 7, 1, true), None);
    assert_eq!(find_nth_next(&[], 'a', 0, 0, true), None);
}

#[test]
fn prev_occurrences() {
    let text = chars("abcabc");
    assert_eq!(find_nth_prev(&text, 'a', 6, 1, true), Some(3));
    assert_eq!(find_nth_prev(&text, 'a', 6, 1, false), Some(4));
    assert_eq!(find_nth_prev(&text, 'a', 6, 2, true), Some(0));
    assert_eq!(find_nth_prev(&text, 'a', 6, 2, false), Some(1));
    assert_eq!(find_nth_prev(&text, 'a', 6, 3, true), None);
    assert_eq!(find_nth_prev(&text, 'a', 3, 1, true), Some(0));
}

#[test]
fn inclusive_and_exclusive_differ_by_one() {
    let text = chars("x.y.x.y");
    for pos in 0..text.len() {
        for n in 1..4 {
            if let (Some(a), Some(b)) = (
                find_nth_next(&text, 'y', pos, n, true),
                find_nth_next(&text, 'y', pos, n, false),
            ) {
                assert_eq!(a, b + 1);
            }
            if let (Some(a), Some(b)) = (
                find_nth_prev(&text, 'x', pos, n, false),
                find_nth_prev(&text, 'x', pos, n, true),
            ) {
                assert_eq!(a, b + 1);
            }
        }
    }
}

#[test]
fn unicode_characters_are_counted_once() {
    let text = chars("héllo wörld");
    assert_eq!(find_nth_next(&text, 'ö', 0, 1, true), Some(7));
    assert_eq!(find_nth_prev(&text, 'é', 11, 1, true), Some(1));
}
