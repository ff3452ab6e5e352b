use std::ops::Range;

use tbr::line::{Decoration, Line};
use tbr::style::{
    BorderLines, Color32, Colors, DecorationLine, FontSize, ImageStyle, TextDecoration, TextStyle,
};

fn text_of(line: &Line) -> String {
    line.to_string()
}

fn colors() -> Colors {
    Colors {
        color: Color32 { r: 1, g: 1, b: 1, a: 255 },
        background: Color32 { r: 2, g: 2, b: 2, a: 255 },
        highlight: Color32 { r: 3, g: 3, b: 3, a: 255 },
        highlight_background: Color32 { r: 4, g: 4, b: 4, a: 255 },
        link: Color32 { r: 0, g: 0, b: 200, a: 255 },
    }
}

#[test]
fn new_counts_scalar_values() {
    let line = Line::new("héllo, 世界");
    assert_eq!(line.len(), 9);
    assert_eq!(line.char_at(1), Some('é'));
    assert_eq!(line.char_at(8), Some('界'));
    assert_eq!(line.char_at(9), None);
    assert_eq!(Line::new("").len(), 0);
    assert!(Line::new("").is_empty());
}

#[test]
fn new_keeps_nul_but_push_drops_it() {
    let mut line = Line::new("a\0b");
    assert_eq!(line.len(), 3);
    line.push('\0');
    assert_eq!(line.len(), 3);
    line.push('c');
    assert_eq!(text_of(&line), "a\0bc");
    line.concat("d\0e");
    assert_eq!(text_of(&line), "a\0bcd\0e");
}

#[test]
fn concat_skips_indentation_after_newline() {
    let mut a = Line::new("abc");
    a.concat("  \n\tword");
    let mut b = Line::new("abc");
    b.concat("word");
    assert_eq!(text_of(&a), "abcword");
    assert!(a == b);
}

#[test]
fn concat_drops_carriage_returns_and_newlines() {
    let mut line = Line::new("");
    line.concat("x\r\n  y z\r");
    assert_eq!(text_of(&line), "xy z");
    assert!(!text_of(&line).contains('\r'));
}

#[test]
fn concat_skips_leading_ascii_whitespace_only() {
    let mut line = Line::new("p");
    line.concat(" \t a b");
    assert_eq!(text_of(&line), "pa b");
    let mut wide = Line::new("");
    wide.concat("\u{3000}x");
    assert_eq!(text_of(&wide), "\u{3000}x");
    let mut empty = Line::new("q");
    empty.concat("");
    assert_eq!(text_of(&empty), "q");
}

#[test]
fn word_at_offset_finds_words() {
    let line = Line::new("hello, world");
    assert_eq!(line.word_at_offset(0), Some((0, 4)));
    assert_eq!(line.word_at_offset(3), Some((0, 4)));
    assert_eq!(line.word_at_offset(5), Some((5, 5)));
    assert_eq!(line.word_at_offset(6), Some((6, 6)));
    assert_eq!(line.word_at_offset(7), Some((7, 11)));
    assert_eq!(line.word_at_offset(11), Some((7, 11)));
    assert_eq!(line.word_at_offset(12), None);
}

#[test]
fn word_at_offset_splits_on_tab_and_cjk_punctuation() {
    let line = Line::new("ab\tcd");
    assert_eq!(line.word_at_offset(2), Some((2, 2)));
    assert_eq!(line.word_at_offset(4), Some((3, 4)));
    let cjk = Line::new("你好，世界。");
    assert_eq!(cjk.word_at_offset(0), Some((0, 1)));
    assert_eq!(cjk.word_at_offset(2), Some((2, 2)));
    assert_eq!(cjk.word_at_offset(4), Some((3, 4)));
    assert_eq!(Line::new("").word_at_offset(0), None);
}

#[test]
fn link_round_trip() {
    let mut line = Line::new("0123456789");
    line.push_style(TextStyle::Link(String::from("x")), 2..5);
    let link = line.link_at(0).unwrap();
    assert_eq!(link.target, "x");
    assert_eq!(*link.range, 2..5);
    assert_eq!(link.index, 0);
    assert!(line.link_at(1).is_none());
}

#[test]
fn link_iter_reverse_visits_latest_first() {
    let mut line = Line::new("0123456789");
    line.push_style(TextStyle::Link(String::from("first")), 0..2);
    line.push_style(TextStyle::FontWeight(700), 0..9);
    line.push_style(TextStyle::Link(String::from("second")), 4..6);
    let last = line.link_iter(false, |l| (true, Some(l.target.to_string())));
    assert_eq!(last, Some(String::from("second")));
    let first = line.link_iter(true, |l| (true, Some(l.index)));
    assert_eq!(first, Some(0));
    assert!(line.link_at(1).is_none());
    let second = line.link_iter(true, |l| (l.index == 2, Some(l.index)));
    assert_eq!(second, Some(2));
    let none: Option<usize> = line.link_iter(true, |_| (false, Some(9)));
    assert_eq!(none, None);
}

#[test]
fn image_at_prefers_latest() {
    let mut line = Line::new("abcdef");
    let image = |p: &str| ImageStyle { path: String::from(p), href: String::from(p) };
    line.push_style(TextStyle::Image(image("a.png")), 0..4);
    line.push_style(TextStyle::Image(image("b.png")), 2..3);
    assert_eq!(line.image_at(0).unwrap().path, "a.png");
    assert_eq!(line.image_at(2).unwrap().path, "b.png");
    assert!(line.image_at(4).is_none());
}

#[test]
fn char_style_merges_latest_first() {
    let mut line = Line::new("abcdefgh");
    let red = Color32 { r: 255, g: 0, b: 0, a: 255 };
    let green = Color32 { r: 0, g: 255, b: 0, a: 255 };
    line.push_style(TextStyle::FontSize(FontSize { scale: 200, relative: false }), 0..8);
    line.push_style(TextStyle::FontSize(FontSize { scale: 150, relative: true }), 2..4);
    line.push_style(TextStyle::FontWeight(700), 0..8);
    line.push_style(TextStyle::FontWeight(300), 2..3);
    line.push_style(TextStyle::Color(red), 0..8);
    line.push_style(TextStyle::Link(String::from("l")), 2..4);
    line.push_style(TextStyle::BackgroundColor(green), 3..4);
    line.push_style(TextStyle::Title(String::from("t")), 1..2);
    line.push_style(TextStyle::Border(BorderLines::Dashed, None), 5..6);
    line.push_style(TextStyle::FontFamily(3), 6..7);
    let c = colors();

    let s = line.char_style_at(2, true, &c);
    assert_eq!(s.font_scale.scale, 300);
    assert!(s.font_scale.fixed);
    assert_eq!(s.font_weight.weight, 300);
    assert_eq!(s.color, red);
    assert_eq!(s.link.map(|(i, r)| (i, r.clone())), Some((5, 2..4)));
    assert!(s.background.is_none());

    let s = line.char_style_at(3, true, &c);
    assert_eq!(s.background, Some(green));
    let s = line.char_style_at(3, false, &c);
    assert!(s.background.is_none());
    assert_eq!(s.color, c.link);

    let s = line.char_style_at(0, true, &c);
    assert_eq!(s.font_scale.scale, 200);
    assert_eq!(s.font_weight.weight, 700);
    assert_eq!(s.color, red);
    let s = line.char_style_at(0, false, &c);
    assert_eq!(s.color, c.color);
    let s = line.char_style_at(2, false, &c);
    assert_eq!(s.color, c.link);

    let s = line.char_style_at(1, true, &c);
    assert_eq!(s.title.map(|t| t.as_str()), Some("t"));
    let s = line.char_style_at(5, true, &c);
    let border = s.border.unwrap();
    assert_eq!((border.0.clone(), border.1, border.2), (5..6, BorderLines::Dashed, None));
    let s = line.char_style_at(6, true, &c);
    assert_eq!(s.font_family, Some(3));
    assert!(s.link.is_none());
    assert!(s.image.is_none());
}

#[test]
fn custom_color_wins_over_link() {
    let blue = Color32 { r: 0, g: 0, b: 255, a: 255 };
    let c = colors();
    let mut line = Line::new("abc");
    line.push_style(TextStyle::Color(blue), 0..3);
    line.push_style(TextStyle::Link(String::from("x")), 0..3);
    assert_eq!(line.char_style_at(1, true, &c).color, blue);
    assert_eq!(line.char_style_at(1, false, &c).color, c.link);
    let mut other = Line::new("abc");
    other.push_style(TextStyle::Link(String::from("x")), 0..3);
    other.push_style(TextStyle::Color(blue), 1..2);
    assert_eq!(other.char_style_at(1, true, &c).color, blue);
    assert_eq!(other.char_style_at(0, true, &c).color, c.link);
}

#[test]
fn char_style_without_styles_uses_defaults() {
    let line = Line::new("ab");
    let c = colors();
    let s = line.char_style_at(0, true, &c);
    assert_eq!(s.font_scale.scale, 100);
    assert!(!s.font_scale.fixed);
    assert_eq!(s.font_weight.weight, 400);
    assert_eq!(s.color, c.color);
    assert!(s.font_family.is_none() && s.border.is_none() && s.title.is_none());
}

#[test]
fn decoration_iter_lists_latest_first() {
    let mut line = Line::new("abcdef");
    let under = TextDecoration { line: DecorationLine::Underline, color: None };
    line.push_style(TextStyle::Decoration(under), 0..2);
    line.push_style(TextStyle::Link(String::from("x")), 0..2);
    line.push_style(TextStyle::Border(BorderLines::Solid, None), 1..3);
    let items = line.decoration_iter();
    assert_eq!(items.len(), 2);
    match &items[0] {
        Decoration::Border(range, lines, color) => {
            assert_eq!(range.clone(), 1..3);
            assert_eq!(*lines, BorderLines::Solid);
            assert!(color.is_none());
        }
        other => panic!("unexpected {:?}", other),
    }
    match &items[1] {
        Decoration::Text(range, d) => {
            assert_eq!(range.clone(), 0..2);
            assert_eq!(*d, under);
        }
        other => panic!("unexpected {:?}", other),
    }
}

#[test]
fn blank_lines_hold_only_whitespace() {
    assert!(Line::new("").is_blank());
    assert!(Line::new(" \t\u{3000}\u{a0}").is_blank());
    assert!(!Line::new("  x ").is_blank());
}

#[test]
fn sub_str_replaces_target() {
    let line = Line::new("你好世界abc");
    let mut target = String::from("old");
    line.sub_str(&mut target, 1..5);
    assert_eq!(target, "好世界a");
    line.sub_str(&mut target, Range { start: 3, end: 3 });
    assert_eq!(target, "");
}

#[test]
fn lines_compare_by_characters() {
    let mut a = Line::new("same");
    a.push_style(TextStyle::FontWeight(700), 0..4);
    let b = Line::new("same");
    assert!(a == b);
    assert!(Line::new("same") != Line::new("sane"));
    assert!(Line::new("ab") != Line::new("abc"));
    assert!(Line::default() == Line::new(""));
}

#[test]
fn iter_yields_characters() {
    let line = Line::new("añb");
    let collected: String = line.iter().collect();
    assert_eq!(collected, "añb");
}
