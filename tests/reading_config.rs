use tbr::book::Listable;
use tbr::config::{
    default_locale, locale_or_default, select_history, BookToOpen, GuiConfiguration, ReadingInfo, DEFAULT_LOCALE,
};
use tbr::highlight::Position;

fn reading(name: &str) -> ReadingInfo {
    ReadingInfo::new(name)
}

#[test]
fn new_reading_starts_at_the_beginning() {
    let r = reading("book.txt");
    assert_eq!(r.filename, "book.txt");
    assert_eq!((r.inner_book, r.chapter, r.line, r.position, r.row_id), (0, 0, 0, 0, 0));
    assert!(r.custom_color);
    assert!(!r.strip_empty_lines);
}

#[test]
fn reading_builders() {
    let mut r = reading("a");
    r.line = 3;
    r.position = 4;
    assert_eq!(r.pos(), Position::new(3, 4));
    let last = r.clone().with_last_chapter();
    assert_eq!(last.chapter, usize::MAX);
    assert_eq!(last.line, 3);
    let inner = last.with_inner_book(2);
    assert_eq!((inner.inner_book, inner.chapter, inner.line, inner.position), (2, 0, 0, 0));
    let plain = inner.no_custom_color();
    assert!(!plain.custom_color);
    assert_eq!(plain.filename, "a");
}

#[test]
fn reading_is_listable() {
    let mut r = reading("x.epub");
    assert_eq!(r.title(), "x.epub");
    r.row_id = 7;
    assert_eq!(r.id(), 7);
    r.row_id = -3;
    assert_eq!(r.id(), 0);
    let copy = r.clone();
    assert_eq!((copy.row_id, copy.filename.as_str()), (-3, "x.epub"));
}

#[test]
fn history_skips_excluded_and_stops_at_limit() {
    let rows = vec![reading("a"), reading("b"), reading("c"), reading("d")];
    let names = |v: Vec<ReadingInfo>| v.into_iter().map(|r| r.filename).collect::<Vec<_>>();
    assert_eq!(names(select_history(&rows, &Some(String::from("b")), 2)), vec!["a", "c"]);
    assert_eq!(names(select_history(&rows, &None, 20)), vec!["a", "b", "c", "d"]);
    assert_eq!(names(select_history(&rows, &None, 1)), vec!["a"]);
    assert_eq!(names(select_history(&rows, &None, 0)), vec!["a"]);
    assert!(select_history(&Vec::new(), &None, 3).is_empty());
}

#[test]
fn book_to_open_names() {
    assert_eq!(BookToOpen::Nothing.name(), None);
    assert_eq!(BookToOpen::Cmd(String::from("a.txt")).name(), Some("a.txt"));
    assert_eq!(BookToOpen::Env(String::from("b.txt")).name(), Some("b.txt"));
}

#[test]
fn gui_configuration_defaults() {
    let c = GuiConfiguration::default();
    assert!(c.fonts.is_empty() && c.dictionaries.is_empty());
    assert_eq!((c.font_size, c.sidebar_size), (20, 300));
    assert!(!c.cache_dict && !c.strip_empty_lines && !c.ignore_font_weight);
    assert!(!c.lang.is_empty());
    assert!(!default_locale().is_empty());
    assert_eq!(DEFAULT_LOCALE, "en");
    assert_eq!(locale_or_default(None), "en");
    assert_eq!(locale_or_default(Some(String::from("zh-TW"))), "zh-TW");
}
