use std::borrow::Cow;
use std::cell::RefCell;

use tbr::highlight::{range_highlight, HighlightMode, Position};
use tbr::line::Line;
use tbr::search::{after_match, char_index_for_byte, match_range, Pattern, SearchError, SearchStep};

fn lines(texts: &[&str]) -> Vec<Line> {
    texts.iter().map(|t| Line::new(t)).collect()
}

fn selected(info: &tbr::highlight::HighlightInfo) -> (&str, usize) {
    match &info.mode {
        HighlightMode::Selection(text, line_to) => (text.as_str(), *line_to),
    }
}

#[test]
fn highlight_spans_three_lines() {
    let ls = lines(&["abc", "defg", "hi"]);
    let info = range_highlight(&ls, Position::new(0, 1), Position::new(2, 0)).unwrap();
    assert_eq!(selected(&info), ("bc\ndefg\nh", 2));
    assert_eq!((info.line, info.start, info.end), (0, 1, 1));
}

#[test]
fn highlight_accepts_endpoints_in_either_order() {
    let ls = lines(&["abc", "defg", "hi"]);
    let info = range_highlight(&ls, Position::new(2, 0), Position::new(0, 1)).unwrap();
    assert_eq!(selected(&info), ("bc\ndefg\nh", 2));
    let same = range_highlight(&ls, Position::new(1, 2), Position::new(1, 0)).unwrap();
    assert_eq!(selected(&same), ("def", 1));
    assert_eq!((same.line, same.start, same.end), (1, 0, 3));
}

#[test]
fn highlight_without_lines_selects_nothing() {
    let ls: Vec<Line> = Vec::new();
    assert!(range_highlight(&ls, Position::new(0, 0), Position::new(3, 4)).is_none());
}

#[test]
fn highlight_past_the_end_runs_to_document_end() {
    let ls = lines(&["abc", "de"]);
    let info = range_highlight(&ls, Position::new(0, 2), Position::new(9, 0)).unwrap();
    assert_eq!(selected(&info), ("c\nde", 1));
    assert_eq!(info.end, 2);
}

#[test]
fn highlight_of_empty_text_is_none() {
    let ls = lines(&["", "x"]);
    assert!(range_highlight(&ls, Position::new(0, 0), Position::new(0, 0)).is_none());
    let info = range_highlight(&ls, Position::new(0, 0), Position::new(1, 0)).unwrap();
    assert_eq!(selected(&info), ("x", 1));
}

#[test]
fn search_once_forward_and_reverse() {
    let re = Pattern::new("a+").unwrap();
    let line = Line::new("aa bb aaa");
    assert_eq!(line.search_pattern_once(&re, None, None, false), Some(0..2));
    assert_eq!(line.search_pattern_once(&re, None, None, true), Some(6..9));
    assert_eq!(line.search_pattern_once(&re, Some(1), None, false), Some(1..2));
    assert_eq!(line.search_pattern_once(&re, Some(2), Some(5), false), None);
}

#[test]
fn search_once_reports_characters_not_bytes() {
    let re = Pattern::new("世界").unwrap();
    let line = Line::new("你好，世界！世界");
    assert_eq!(line.search_pattern_once(&re, None, None, false), Some(3..5));
    assert_eq!(line.search_pattern_once(&re, None, None, true), Some(6..8));
    assert_eq!(line.search_pattern_once(&re, Some(4), None, false), Some(6..8));
}

#[test]
fn search_pattern_visits_every_match() {
    let re = Pattern::new("ab").unwrap();
    let line = Line::new("ab—ab—ab");
    let found = RefCell::new(Vec::new());
    let r = line.search_pattern(&re, |text, range| {
        assert_eq!(text, "ab—ab—ab");
        found.borrow_mut().push(range);
        Ok(())
    });
    assert!(r.is_ok());
    assert_eq!(found.into_inner(), vec![0..2, 3..5, 6..8]);
}

#[test]
fn search_pattern_moves_past_empty_matches() {
    let re = Pattern::new("x*").unwrap();
    let line = Line::new("axb");
    let found = RefCell::new(Vec::new());
    let r = line.search_pattern(&re, |_, range| {
        found.borrow_mut().push(range);
        Ok(())
    });
    assert!(r.is_ok());
    assert_eq!(found.into_inner(), vec![0..0, 1..2, 2..2]);
}

#[test]
fn search_pattern_stops_on_cancel() {
    let re = Pattern::new("a").unwrap();
    let line = Line::new("a a a");
    let count = RefCell::new(0);
    let r = line.search_pattern(&re, |_, _| {
        *count.borrow_mut() += 1;
        Err(SearchError::Canceled)
    });
    assert!(matches!(r, Err(SearchError::Canceled)));
    assert_eq!(*count.borrow(), 1);
}

#[test]
fn search_pattern_passes_custom_errors_on() {
    let re = Pattern::new("b").unwrap();
    let line = Line::new("abab");
    let r = line.search_pattern(&re, |_, range| {
        if range.start == 3 {
            Err(SearchError::Custom(Cow::Borrowed("chapter changed")))
        } else {
            Ok(())
        }
    });
    match r {
        Err(e) => assert_eq!(e.to_string(), "chapter changed"),
        Ok(()) => panic!("expected an error"),
    }
    assert_eq!(SearchError::Canceled.to_string(), "Find canceled");
    assert_eq!(SearchError::Custom(Cow::Owned(String::from("m"))).to_string(), "m");
}

#[test]
fn search_without_match_is_none() {
    let re = Pattern::new("z").unwrap();
    let line = Line::new("abc");
    assert_eq!(line.search_pattern_once(&re, None, None, false), None);
    assert_eq!(line.search_pattern_once(&re, None, None, true), None);
    let calls = RefCell::new(0);
    assert!(line.search_pattern(&re, |_, _| {
        *calls.borrow_mut() += 1;
        Ok(())
    }).is_ok());
    assert_eq!(*calls.borrow(), 0);
}

#[test]
fn byte_offsets_convert_to_character_indices() {
    let text = "é a世";
    assert_eq!(char_index_for_byte(text, 0), Some(0));
    assert_eq!(char_index_for_byte(text, 1), None);
    assert_eq!(char_index_for_byte(text, 2), Some(1));
    assert_eq!(char_index_for_byte(text, 4), Some(3));
    assert_eq!(char_index_for_byte(text, 7), Some(4));
    assert_eq!(char_index_for_byte(text, 8), None);
    assert_eq!(match_range(text, Some((2, 7)), 10), Some(11..14));
    assert_eq!(match_range(text, Some((1, 7)), 0), None);
    assert_eq!(match_range(text, None, 0), None);
}

#[test]
fn search_once_shifts_by_anchor_on_cjk_text() {
    let re = Pattern::new("a+").unwrap();
    let line = Line::new("中文aa");
    assert_eq!(line.search_pattern_once(&re, None, None, false), Some(2..4));
    let line = Line::new("aa bb aaa");
    assert_eq!(line.search_pattern_once(&re, Some(7), None, true), Some(7..9));
    assert_eq!(line.search_pattern_once(&re, Some(3), Some(8), true), Some(6..8));
}

#[test]
fn search_pattern_hands_over_successive_runs() {
    let re = Pattern::new("a+").unwrap();
    let line = Line::new("aa bb aaa");
    let found = RefCell::new(Vec::new());
    let r = line.search_pattern(&re, |text, range| {
        assert_eq!(text, "aa bb aaa");
        found.borrow_mut().push(range);
        Ok(())
    });
    assert!(r.is_ok());
    assert_eq!(found.into_inner(), vec![0..2, 6..9]);
}

#[test]
fn next_match_starts_at_the_given_character() {
    let re = Pattern::new("b+").unwrap();
    let line = Line::new("bb a bbb");
    assert_eq!(line.next_match(&re, 0), Some(0..2));
    assert_eq!(line.next_match(&re, 1), Some(1..2));
    assert_eq!(line.next_match(&re, 2), Some(5..8));
    assert_eq!(line.next_match(&re, 8), None);
}

#[test]
fn after_match_stops_on_error_and_resumes_otherwise() {
    assert!(matches!(after_match(Ok(()), 0, 2, 9), SearchStep::Continue(2)));
    assert!(matches!(after_match(Ok(()), 3, 3, 9), SearchStep::Continue(4)));
    assert!(matches!(after_match(Ok(()), 8, 8, 9), SearchStep::Stop(Ok(()))));
    assert!(matches!(after_match(Ok(()), 6, 9, 9), SearchStep::Stop(Ok(()))));
    assert!(matches!(
        after_match(Err(SearchError::Canceled), 0, 2, 9),
        SearchStep::Stop(Err(SearchError::Canceled))
    ));
    match after_match(Err(SearchError::Custom(Cow::Borrowed("why"))), 0, 1, 9) {
        SearchStep::Stop(Err(e)) => assert_eq!(e.to_string(), "why"),
        other => panic!("unexpected {:?}", other),
    }
}

#[test]
fn patterns_keep_their_source() {
    let re = Pattern::new("a(b|c)").unwrap();
    assert_eq!(re.as_str(), "a(b|c)");
    assert!(Pattern::new("a(").is_err());
}
