use plaintext::document::{rebuild_style, Document, STYLE_HIGHLIGHT, STYLE_PLAIN};
use plaintext::navigate::SearchState;
use plaintext::search::{fold_byte_exec, search, MatchSpan};
use plaintext::session::Session;
use plaintext::status::{match_count_text, position_of, status_text};

fn spans(r: &[MatchSpan]) -> Vec<(usize, usize)> {
    r.iter().map(|m| (m.start, m.end)).collect()
}

#[test]
fn case_fold_maps_uppercase_only() {
    assert_eq!(fold_byte_exec(b'A'), b'a');
    assert_eq!(fold_byte_exec(b'Z'), b'z');
    assert_eq!(fold_byte_exec(b'a'), b'a');
    assert_eq!(fold_byte_exec(b'0'), b'0');
    assert_eq!(fold_byte_exec(b'@'), b'@');
    assert_eq!(fold_byte_exec(b'['), b'[');
    assert_eq!(fold_byte_exec(0xC3), 0xC3);
}

#[test]
fn search_case_insensitive_finds_both_occurrences() {
    let text = b"xx abc ABC".to_vec();
    let pattern = b"ABC".to_vec();
    let r = search(&pattern, false, &text);
    assert_eq!(spans(&r), vec![(3, 6), (7, 10)]);
}

#[test]
fn search_case_sensitive_finds_exact_case_only() {
    let text = b"xx abc ABC".to_vec();
    let pattern = b"ABC".to_vec();
    let r = search(&pattern, true, &text);
    assert_eq!(spans(&r), vec![(7, 10)]);
}

#[test]
fn search_skips_overlapping_occurrences() {
    let text = b"aaaa".to_vec();
    let pattern = b"aa".to_vec();
    let r = search(&pattern, true, &text);
    assert_eq!(spans(&r), vec![(0, 2), (2, 4)]);
}

#[test]
fn search_empty_pattern_matches_nothing() {
    let text = b"anything at all".to_vec();
    let r = search(&Vec::new(), true, &text);
    assert!(r.is_empty());
    let r = search(&Vec::new(), false, &text);
    assert!(r.is_empty());
}

#[test]
fn search_spans_are_strictly_increasing() {
    let text = b"abcabcabc".to_vec();
    let pattern = b"abc".to_vec();
    let r = search(&pattern, true, &text);
    assert_eq!(spans(&r), vec![(0, 3), (3, 6), (6, 9)]);
    for w in r.windows(2) {
        assert!(w[0].start < w[0].end);
        assert!(w[0].end <= w[1].start);
    }
}

#[test]
fn search_match_at_exact_end_of_document() {
    let text = b"the end".to_vec();
    let pattern = b"end".to_vec();
    let r = search(&pattern, true, &text);
    assert_eq!(spans(&r), vec![(4, 7)]);
}

#[test]
fn search_pattern_equal_to_whole_document() {
    let text = b"abc".to_vec();
    let pattern = b"abc".to_vec();
    let r = search(&pattern, true, &text);
    assert_eq!(spans(&r), vec![(0, 3)]);
}

#[test]
fn search_pattern_longer_than_document() {
    let text = b"ab".to_vec();
    let pattern = b"abc".to_vec();
    let r = search(&pattern, true, &text);
    assert!(r.is_empty());
}

#[test]
fn search_empty_document() {
    let text = Vec::new();
    let pattern = b"a".to_vec();
    let r = search(&pattern, true, &text);
    assert!(r.is_empty());
}

#[test]
fn style_overlay_marks_match_offsets() {
    let text = b"xx abc ABC".to_vec();
    let pattern = b"abc".to_vec();
    let r = search(&pattern, false, &text);
    let style = rebuild_style(text.len(), &r);
    assert_eq!(style.len(), text.len());
    for i in 0..text.len() {
        let highlighted = (3 <= i && i < 6) || (7 <= i && i < 10);
        let expected = if highlighted { STYLE_HIGHLIGHT } else { STYLE_PLAIN };
        assert_eq!(style[i], expected, "offset {}", i);
    }
}

#[test]
fn style_overlay_of_empty_content_is_single_placeholder() {
    let style = rebuild_style(0, &Vec::new());
    assert_eq!(style, vec![STYLE_PLAIN]);
}

#[test]
fn document_keeps_style_length_on_every_mutation() {
    let mut d = Document::new();
    assert_eq!(d.style.len(), 1);
    d.set_content(b"hello".to_vec());
    assert_eq!(d.style.len(), d.content.len());
    d.set_content(Vec::new());
    assert_eq!(d.style.len(), 1);
}

#[test]
fn navigation_wraps_forward_from_last_to_first() {
    let mut s = SearchState::new();
    s.results = vec![
        MatchSpan { start: 0, end: 1 },
        MatchSpan { start: 2, end: 3 },
        MatchSpan { start: 4, end: 5 },
    ];
    s.current = 2;
    let r = s.next();
    assert_eq!(s.current, 0);
    assert_eq!(r, Some(MatchSpan { start: 0, end: 1 }));
}

#[test]
fn navigation_wraps_backward_from_first_to_last() {
    let mut s = SearchState::new();
    s.results = vec![
        MatchSpan { start: 0, end: 1 },
        MatchSpan { start: 2, end: 3 },
        MatchSpan { start: 4, end: 5 },
    ];
    s.current = 0;
    let r = s.previous();
    assert_eq!(s.current, 2);
    assert_eq!(r, Some(MatchSpan { start: 4, end: 5 }));
}

#[test]
fn navigation_is_a_no_op_without_results() {
    let mut s = SearchState::new();
    assert_eq!(s.next(), None);
    assert_eq!(s.previous(), None);
    assert_eq!(s.current, 0);
}

#[test]
fn position_of_derives_line_and_column() {
    let text = b"ab\ncd".to_vec();
    assert_eq!(position_of(0, &text), (1, 1));
    assert_eq!(position_of(3, &text), (2, 1));
    assert_eq!(position_of(5, &text), (2, 3));
}

#[test]
fn position_of_at_separator_boundary() {
    let text = b"ab\ncd".to_vec();
    assert_eq!(position_of(2, &text), (1, 3));
    assert_eq!(position_of(4, &text), (2, 2));
}

#[test]
fn status_text_formats_position_and_untitled_placeholder() {
    let untitled = String::new();
    assert_eq!(status_text(1, 1, &untitled), "Line 1, Col 1   |   (untitled)");
}

#[test]
fn status_text_shows_filepath_verbatim() {
    let path = String::from("notes.txt");
    assert_eq!(status_text(12, 34, &path), "Line 12, Col 34   |   notes.txt");
}

#[test]
fn match_count_text_counts_and_clears() {
    assert_eq!(match_count_text(3, 2), "2 match(es)");
    assert_eq!(match_count_text(1, 0), "0 match(es)");
    assert_eq!(match_count_text(0, 7), "");
}

#[test]
fn session_search_pass_updates_everything() {
    let mut s = Session::new();
    s.set_content(b"xx abc ABC".to_vec());
    let first = s.set_pattern(b"ABC".to_vec(), false);
    assert_eq!(first, Some(MatchSpan { start: 3, end: 6 }));
    assert_eq!(spans(&s.search.results), vec![(3, 6), (7, 10)]);
    assert_eq!(s.search.current, 0);
    assert_eq!(s.match_display, "2 match(es)");
    assert_eq!(s.doc.style, b"AAABBBABBB".to_vec());
}

#[test]
fn session_empty_pattern_clears_matches_and_display() {
    let mut s = Session::new();
    s.set_content(b"aaaa".to_vec());
    s.set_pattern(b"aa".to_vec(), true);
    assert_eq!(s.match_display, "2 match(es)");
    let r = s.set_pattern(Vec::new(), true);
    assert_eq!(r, None);
    assert!(s.search.results.is_empty());
    assert_eq!(s.match_display, "");
    assert_eq!(s.doc.style, b"AAAA".to_vec());
}

#[test]
fn session_navigation_cycles_through_matches() {
    let mut s = Session::new();
    s.set_content(b"aaaaaa".to_vec());
    let first = s.set_pattern(b"aa".to_vec(), true);
    assert_eq!(first, Some(MatchSpan { start: 0, end: 2 }));
    assert_eq!(s.next_match(), Some(MatchSpan { start: 2, end: 4 }));
    assert_eq!(s.next_match(), Some(MatchSpan { start: 4, end: 6 }));
    assert_eq!(s.next_match(), Some(MatchSpan { start: 0, end: 2 }));
    assert_eq!(s.previous_match(), Some(MatchSpan { start: 4, end: 6 }));
}

#[test]
fn session_content_change_recomputes_matches() {
    let mut s = Session::new();
    s.set_pattern(b"ab".to_vec(), true);
    assert!(s.search.results.is_empty());
    s.set_content(b"abab".to_vec());
    assert_eq!(spans(&s.search.results), vec![(0, 2), (2, 4)]);
    assert_eq!(s.match_display, "2 match(es)");
}

#[test]
fn session_new_document_clears_content_and_identity() {
    let mut s = Session::new();
    s.set_content(b"abab".to_vec());
    s.saved_as(String::from("a.txt"));
    s.set_pattern(b"ab".to_vec(), true);
    s.new_document();
    assert!(s.doc.content.is_empty());
    assert_eq!(s.doc.style, vec![STYLE_PLAIN]);
    assert!(s.search.results.is_empty());
    assert_eq!(s.search.filepath, "");
}

#[test]
fn session_toggle_visibility_keeps_results_and_cursor() {
    let mut s = Session::new();
    s.set_content(b"aaaa".to_vec());
    s.set_pattern(b"aa".to_vec(), true);
    s.next_match();
    let before = (s.search.current, spans(&s.search.results));
    s.toggle_search_visible();
    assert!(s.search.visible);
    assert_eq!((s.search.current, spans(&s.search.results)), before);
    s.toggle_search_visible();
    assert!(!s.search.visible);
}

#[test]
fn session_status_line_reports_position_and_identity() {
    let mut s = Session::new();
    s.set_content(b"ab\ncd".to_vec());
    assert_eq!(s.status_at(0), "Line 1, Col 1   |   (untitled)");
    s.saved_as(String::from("d.txt"));
    assert_eq!(s.status_at(3), "Line 2, Col 1   |   d.txt");
    assert_eq!(s.status_at(5), "Line 2, Col 3   |   d.txt");
}
