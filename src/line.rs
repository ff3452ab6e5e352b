//! The styled line: characters addressed by index, plus style annotations
//! over half-open character ranges.
use std::ops::Range;
use std::slice::Iter;

use vstd::prelude::*;
use vstd::std_specs::iter::IteratorSpec;

use crate::splitter::{is_splitter, is_splitter_char};
use crate::style::{
    BorderLines, Color32, Colors, FontScale, FontWeight, ImageStyle, TextDecoration, TextStyle,
};
use crate::text::{
    chars_of, clear_string, is_ascii_whitespace, is_white_space, push_char, spec_ascii_whitespace,
    spec_white_space,
};

verus! {

broadcast use vstd::std_specs::slice::axiom_spec_slice_iter;

/// A line of text: its characters and the style annotations over them, in
/// the order they were pushed.
pub struct Line {
    chars: Vec<char>,
    styles: Vec<(TextStyle, Range<usize>)>,
}

impl View for Line {
    type V = Seq<char>;

    closed spec fn view(&self) -> Seq<char> {
        self.chars@
    }
}

/// `r` lies within a line of `len` characters.
pub open spec fn range_within(r: Range<usize>, len: nat) -> bool {
    r.start <= r.end <= len
}

/// State of the whitespace-collapsing append after reading `text`: the
/// characters kept so far, and whether ASCII whitespace is being skipped.
/// Skipping is on at the start and after every newline, and ends at the first
/// other character; carriage returns and newlines are never kept.
pub open spec fn append_state(text: Seq<char>) -> (Seq<char>, bool)
    decreases text.len(),
{
    if text.len() == 0 {
        (Seq::empty(), true)
    } else {
        let (kept, skipping) = append_state(text.drop_last());
        let c = text.last();
        if c == '\r' {
            (kept, skipping)
        } else if c == '\n' {
            (kept, true)
        } else if skipping && spec_ascii_whitespace(c) {
            (kept, true)
        } else {
            (kept.push(c), false)
        }
    }
}

/// The characters that `Line::concat` adds for `text`.
pub open spec fn appended(text: Seq<char>) -> Seq<char> {
    append_state(text).0
}

/// Appending never keeps a carriage return or a newline.
pub proof fn lemma_appended_drops_line_breaks(text: Seq<char>)
    ensures
        !appended(text).contains('\r'),
        !appended(text).contains('\n'),
    decreases text.len(),
{
    if text.len() > 0 {
        lemma_appended_drops_line_breaks(text.drop_last());
        let (kept, _) = append_state(text.drop_last());
        assert forall|k: int| 0 <= k < appended(text).len() implies appended(text)[k] != '\r'
            && appended(text)[k] != '\n' by {
            if k < kept.len() {
                assert(appended(text)[k] == kept[k]);
            }
        }
    }
}

/// Indentation after a line break is dropped: appending `"  \n\tword"` adds
/// exactly what appending `"word"` adds, to any line.
pub proof fn lemma_append_skips_indentation(line: Seq<char>)
    ensures
        line + appended("  \n\tword"@) == line + appended("word"@),
{
    reveal_strlit("  \n\tword");
    reveal_strlit("word");
    reveal_with_fuel(append_state, 10);
    let long = "  \n\tword"@;
    let short = "word"@;
    assert(long.drop_last() =~= seq![' ', ' ', '\n', '\t', 'w', 'o', 'r']);
    assert(long.drop_last().drop_last() =~= seq![' ', ' ', '\n', '\t', 'w', 'o']);
    assert(long.drop_last().drop_last().drop_last() =~= seq![' ', ' ', '\n', '\t', 'w']);
    assert(long.drop_last().drop_last().drop_last().drop_last() =~= seq![' ', ' ', '\n', '\t']);
    assert(seq![' ', ' ', '\n', '\t'].drop_last() =~= seq![' ', ' ', '\n']);
    assert(seq![' ', ' ', '\n'].drop_last() =~= seq![' ', ' ']);
    assert(seq![' ', ' '].drop_last() =~= seq![' ']);
    assert(seq![' '].drop_last() =~= Seq::<char>::empty());
    assert(short.drop_last() =~= seq!['w', 'o', 'r']);
    assert(seq!['w', 'o', 'r'].drop_last() =~= seq!['w', 'o']);
    assert(seq!['w', 'o'].drop_last() =~= seq!['w']);
    assert(seq!['w'].drop_last() =~= Seq::<char>::empty());
    assert(appended(long) =~= appended(short));
}

impl Line {
    /// The style annotations, in the order they were pushed.
    pub closed spec fn styles(&self) -> Seq<(TextStyle, Range<usize>)> {
        self.styles@
    }

    /// Every style range lies within the line.
    pub open spec fn wf(&self) -> bool {
        forall|i: int| 0 <= i < self.styles().len() ==> range_within(
            #[trigger] self.styles()[i].1,
            self@.len(),
        )
    }

    pub(crate) fn with_chars(chars: Vec<char>) -> (r: Line)
        ensures
            r@ == chars@,
            r.styles() == Seq::<(TextStyle, Range<usize>)>::empty(),
            r.wf(),
    {
        Line { chars, styles: Vec::new() }
    }

    /// A line holding the characters of `text`, without styles.
    pub fn new(text: &str) -> (r: Line)
        ensures
            r@ == text@,
            r.styles() == Seq::<(TextStyle, Range<usize>)>::empty(),
            r.wf(),
    {
        let mut chars: Vec<char> = Vec::new();
        for ch in it: text.chars()
            invariant
                chars@ == it.seq().take(it.index() as int),
        {
            chars.push(ch);
        }
        Self::with_chars(chars)
    }

    /// Appends `text`, dropping carriage returns and newlines, and skipping
    /// ASCII whitespace at the start of `text` and after each newline.
    pub fn concat(&mut self, text: &str)
        ensures
            final(self)@ == old(self)@ + appended(text@),
            final(self).styles() == old(self).styles(),
            old(self).wf() ==> final(self).wf(),
    {
        let ghost start = self@;
        let text = chars_of(text);
        let mut ignore_whitespace = true;
        let mut i: usize = 0;
        while i < text.len()
            invariant
                i <= text.len(),
                self@ == start + append_state(text@.take(i as int)).0,
                ignore_whitespace == append_state(text@.take(i as int)).1,
                self.styles() == old(self).styles(),
                start == old(self)@,
                old(self).wf() ==> self.wf(),
            decreases text.len() - i,
        {
            let ch = text[i];
            proof {
                assert(text@.take(i + 1).drop_last() =~= text@.take(i as int));
            }
            if ch == '\r' {
            } else if ch == '\n' {
                ignore_whitespace = true;
            } else if ignore_whitespace && is_ascii_whitespace(ch) {
            } else {
                ignore_whitespace = false;
                self.chars.push(ch);
            }
            i += 1;
        }
        proof {
            assert(text@.take(i as int) =~= text@);
        }
    }

    /// Appends a style annotation over `range`.
    pub fn push_style(&mut self, style: TextStyle, range: Range<usize>)
        requires
            range_within(range, old(self)@.len()),
        ensures
            final(self)@ == old(self)@,
            final(self).styles() == old(self).styles().push((style, range)),
            old(self).wf() ==> final(self).wf(),
    {
        self.styles.push((style, range));
    }

    /// Appends `ch`, except the NUL character, which is dropped.
    pub fn push(&mut self, ch: char)
        ensures
            final(self)@ == if ch == '\0' {
                old(self)@
            } else {
                old(self)@.push(ch)
            },
            final(self).styles() == old(self).styles(),
            old(self).wf() ==> final(self).wf(),
    {
        if ch == '\0' {
            return;
        }
        self.chars.push(ch);
    }

    pub fn len(&self) -> (r: usize)
        ensures
            r == self@.len(),
    {
        self.chars.len()
    }

    pub fn is_empty(&self) -> (r: bool)
        ensures
            r == (self@.len() == 0),
    {
        self.chars.len() == 0
    }

    /// Whether every character is whitespace (true of an empty line).
    pub fn is_blank(&self) -> (r: bool)
        ensures
            r == forall|i: int| 0 <= i < self@.len() ==> spec_white_space(#[trigger] self@[i]),
    {
        let mut i: usize = 0;
        while i < self.chars.len()
            invariant
                i <= self.chars.len(),
                forall|k: int| 0 <= k < i ==> spec_white_space(#[trigger] self@[k]),
            decreases self.chars.len() - i,
        {
            if !is_white_space(self.chars[i]) {
                assert(!spec_white_space(self@[i as int]));
                return false;
            }
            i += 1;
        }
        true
    }

    pub fn char_at(&self, index: usize) -> (r: Option<char>)
        ensures
            r == if index < self@.len() {
                Some(self@[index as int])
            } else {
                None
            },
    {
        if index < self.chars.len() {
            Some(self.chars[index])
        } else {
            None
        }
    }

    /// The characters, in order.
    pub fn iter(&self) -> (r: Iter<'_, char>)
        ensures
            r.remaining().len() == self@.len(),
            forall|i: int| 0 <= i < self@.len() ==> *#[trigger] r.remaining()[i] == self@[i],
    {
        self.chars.as_slice().iter()
    }

    /// Replaces the contents of `target` with the characters in `range`.
    pub fn sub_str(&self, target: &mut String, range: Range<usize>)
        requires
            range_within(range, self@.len()),
        ensures
            final(target)@ == self@.subrange(range.start as int, range.end as int),
    {
        clear_string(target);
        let mut idx = range.start;
        while idx < range.end
            invariant
                range.start <= idx <= range.end <= self@.len(),
                target@ == self@.subrange(range.start as int, idx as int),
            decreases range.end - idx,
        {
            push_char(target, self.chars[idx]);
            proof {
                assert(target@ =~= self@.subrange(range.start as int, idx + 1));
            }
            idx += 1;
        }
    }

    /// The characters as a string.
    pub fn to_string(&self) -> (r: String)
        ensures
            r@ == self@,
    {
        let mut s = String::new();
        let mut i: usize = 0;
        while i < self.chars.len()
            invariant
                i <= self.chars.len(),
                s@ == self@.take(i as int),
            decreases self.chars.len() - i,
        {
            push_char(&mut s, self.chars[i]);
            proof {
                assert(s@ =~= self@.take(i + 1));
            }
            i += 1;
        }
        proof {
            assert(self@.take(i as int) =~= self@);
        }
        s
    }
}

/// The kind of a style annotation, without its value.
#[derive(Clone, Copy, Debug, PartialEq, Eq, Structural)]
pub enum StyleKind {
    FontSize,
    FontWeight,
    FontFamily,
    Color,
    BackgroundColor,
    Link,
    Image,
    Border,
    Decoration,
    Title,
}

pub open spec fn kind_of(style: TextStyle) -> StyleKind {
    match style {
        TextStyle::FontSize(_) => StyleKind::FontSize,
        TextStyle::FontWeight(_) => StyleKind::FontWeight,
        TextStyle::FontFamily(_) => StyleKind::FontFamily,
        TextStyle::Color(_) => StyleKind::Color,
        TextStyle::BackgroundColor(_) => StyleKind::BackgroundColor,
        TextStyle::Link(_) => StyleKind::Link,
        TextStyle::Image(_) => StyleKind::Image,
        TextStyle::Border(_, _) => StyleKind::Border,
        TextStyle::Decoration(_) => StyleKind::Decoration,
        TextStyle::Title(_) => StyleKind::Title,
    }
}

impl TextStyle {
    pub fn kind(&self) -> (r: StyleKind)
        ensures
            r == kind_of(*self),
    {
        match self {
            TextStyle::FontSize(_) => StyleKind::FontSize,
            TextStyle::FontWeight(_) => StyleKind::FontWeight,
            TextStyle::FontFamily(_) => StyleKind::FontFamily,
            TextStyle::Color(_) => StyleKind::Color,
            TextStyle::BackgroundColor(_) => StyleKind::BackgroundColor,
            TextStyle::Link(_) => StyleKind::Link,
            TextStyle::Image(_) => StyleKind::Image,
            TextStyle::Border(_, _) => StyleKind::Border,
            TextStyle::Decoration(_) => StyleKind::Decoration,
            TextStyle::Title(_) => StyleKind::Title,
        }
    }
}

/// Character `i` lies in `r`.
pub open spec fn covers(r: Range<usize>, i: int) -> bool {
    r.start <= i < r.end
}

/// `entry` is of kind `a` or `b` and covers character `i`.
pub open spec fn applies(entry: (TextStyle, Range<usize>), i: int, a: StyleKind, b: StyleKind) -> bool {
    (kind_of(entry.0) == a || kind_of(entry.0) == b) && covers(entry.1, i)
}

/// Index of the last style in `styles` that covers character `i` and is of
/// kind `a` or `b`: the one that wins at that character.
pub open spec fn last_covering(
    styles: Seq<(TextStyle, Range<usize>)>,
    i: int,
    a: StyleKind,
    b: StyleKind,
) -> Option<int>
    decreases styles.len(),
{
    if styles.len() == 0 {
        None
    } else if applies(styles.last(), i, a, b) {
        Some(styles.len() - 1)
    } else {
        last_covering(styles.drop_last(), i, a, b)
    }
}

/// `last_covering` picks the applying style with the highest index.
pub proof fn lemma_last_covering(
    styles: Seq<(TextStyle, Range<usize>)>,
    i: int,
    a: StyleKind,
    b: StyleKind,
)
    ensures
        match last_covering(styles, i, a, b) {
            Some(j) => {
                &&& 0 <= j < styles.len()
                &&& applies(styles[j], i, a, b)
                &&& forall|m: int| j < m < styles.len() ==> !applies(#[trigger] styles[m], i, a, b)
            },
            None => forall|m: int| 0 <= m < styles.len() ==> !applies(#[trigger] styles[m], i, a, b),
        },
    decreases styles.len(),
{
    if styles.len() > 0 {
        lemma_last_covering(styles.drop_last(), i, a, b);
        assert(forall|m: int| 0 <= m < styles.len() - 1 ==> styles.drop_last()[m] == styles[m]);
    }
}

/// The font scale at character `i`: the size declarations covering it,
/// merged from the last pushed to the first, starting from `acc`.
pub open spec fn merged_scale(
    styles: Seq<(TextStyle, Range<usize>)>,
    i: int,
    acc: FontScale,
) -> FontScale
    decreases styles.len(),
{
    if styles.len() == 0 {
        acc
    } else {
        let (style, range) = styles.last();
        let next = match style {
            TextStyle::FontSize(size) => if covers(range, i) {
                acc.spec_update(size.scale, size.relative)
            } else {
                acc
            },
            _ => acc,
        };
        merged_scale(styles.drop_last(), i, next)
    }
}

/// A link annotation seen from its line: the style's index, its target and
/// its range.
pub struct Link<'a> {
    pub index: usize,
    pub target: &'a str,
    pub range: &'a Range<usize>,
}

/// A decoration or border annotation, as a renderer draws it.
#[derive(Debug)]
pub enum Decoration {
    Text(Range<usize>, TextDecoration),
    Border(Range<usize>, BorderLines, Option<Color32>),
}

/// The decorations and borders among `styles`, last pushed first.
pub open spec fn decorations_of(styles: Seq<(TextStyle, Range<usize>)>) -> Seq<Decoration>
    decreases styles.len(),
{
    if styles.len() == 0 {
        Seq::empty()
    } else {
        let (style, range) = styles.last();
        let rest = decorations_of(styles.drop_last());
        match style {
            TextStyle::Decoration(d) => seq![Decoration::Text(range, d)] + rest,
            TextStyle::Border(lines, color) => seq![Decoration::Border(range, lines, color)]
                + rest,
            _ => rest,
        }
    }
}

/// How one character is to be drawn, once the styles covering it are merged.
pub struct CharStyle<'a> {
    pub font_scale: FontScale,
    pub font_weight: FontWeight,
    pub font_family: Option<u16>,
    pub color: Color32,
    pub background: Option<Color32>,
    pub border: Option<(&'a Range<usize>, BorderLines, Option<Color32>)>,
    pub link: Option<(usize, &'a Range<usize>)>,
    pub image: Option<&'a ImageStyle>,
    pub title: Option<&'a String>,
}

/// Index of the `k`-th style visited by a walk over `n` styles, forwards or
/// backwards.
pub open spec fn visit_index(n: int, forward: bool, k: int) -> int {
    if forward {
        k
    } else {
        n - 1 - k
    }
}

impl Line {
    /// `l` is the view of style `i` as a link.
    pub open spec fn is_link_of(&self, l: Link, i: int) -> bool {
        &&& 0 <= i < self.styles().len()
        &&& self.styles()[i].0 is Link
        &&& l.index == i
        &&& l.target@ == self.styles()[i].0->Link_0@
        &&& *l.range == self.styles()[i].1
    }

    /// Style `i` is no link, or `f` may answer its link by going on.
    pub open spec fn link_passes<F: Fn(Link) -> (bool, Option<T>), T>(
        &self,
        f: F,
        i: int,
    ) -> bool {
        !(self.styles()[i].0 is Link) || exists|l: Link, x: Option<T>|
            self.is_link_of(l, i) && #[trigger] f.ensures((l,), (false, x))
    }

    /// Style `i` is a link that `f` may answer by stopping with `out`.
    pub open spec fn link_stops<F: Fn(Link) -> (bool, Option<T>), T>(
        &self,
        f: F,
        i: int,
        out: Option<T>,
    ) -> bool {
        &&& self.styles()[i].0 is Link
        &&& exists|l: Link| self.is_link_of(l, i) && #[trigger] f.ensures((l,), (true, out))
    }

    fn last_covering_index(&self, i: usize, a: StyleKind, b: StyleKind) -> (r: Option<usize>)
        ensures
            r is Some <==> last_covering(self.styles(), i as int, a, b) is Some,
            r is Some ==> r->0 == last_covering(self.styles(), i as int, a, b)->0,
            r matches Some(j) ==> j < self.styles().len() && applies(self.styles()[j as int], i as int, a, b),
    {
        proof {
            lemma_last_covering(self.styles(), i as int, a, b);
        }
        let n = self.styles.len();
        let mut k = n;
        proof {
            assert(self.styles@.take(n as int) =~= self.styles@);
        }
        while k > 0
            invariant
                k <= n == self.styles@.len(),
                last_covering(self.styles@.take(k as int), i as int, a, b) == last_covering(
                    self.styles@,
                    i as int,
                    a,
                    b,
                ),
            decreases k,
        {
            let style = &self.styles[k - 1];
            proof {
                assert(self.styles@.take(k as int).drop_last() =~= self.styles@.take(k - 1));
            }
            let kind = style.0.kind();
            if (kind == a || kind == b) && style.1.start <= i && i < style.1.end {
                return Some(k - 1);
            }
            k -= 1;
        }
        None
    }

    /// Walks the links in push order, or in reverse, calling `f` on each
    /// until it asks to stop; returns what `f` returned with the request to
    /// stop, or `None` if it never asked.
    pub fn link_iter<F, T>(&self, forward: bool, f: F) -> (r: Option<T>) where
        F: Fn(Link) -> (bool, Option<T>),

        requires
            forall|l: Link| #[trigger] f.requires((l,)),
        ensures
            ({
                let n = self.styles().len() as int;
                ||| r is None && forall|k: int|
                    0 <= k < n ==> #[trigger] self.link_passes(f, visit_index(n, forward, k))
                ||| exists|k: int|
                    0 <= k < n && #[trigger] self.link_stops(f, visit_index(n, forward, k), r)
                        && forall|j: int|
                        0 <= j < k ==> #[trigger] self.link_passes(
                            f,
                            visit_index(n, forward, j),
                        )
            }),
    {
        let n = self.styles.len();
        let mut k: usize = 0;
        while k < n
            invariant
                k <= n == self.styles().len(),
                forall|l: Link| #[trigger] f.requires((l,)),
                forall|j: int|
                    0 <= j < k ==> #[trigger] self.link_passes(
                        f,
                        visit_index(n as int, forward, j),
                    ),
            decreases n - k,
        {
            let index = if forward {
                k
            } else {
                n - 1 - k
            };
            let style = &self.styles[index];
            match &style.0 {
                TextStyle::Link(target) => {
                    let link = Link { index, target: target.as_str(), range: &style.1 };
                    proof {
                        assert(self.is_link_of(link, index as int));
                    }
                    let (stop, found) = f(link);
                    if stop {
                        assert(self.link_stops(f, visit_index(n as int, forward, k as int), found));
                        return found;
                    }
                    assert(self.link_passes(f, visit_index(n as int, forward, k as int)));
                },
                _ => {},
            }
            k += 1;
        }
        None
    }

    /// The link annotation at style index `link_index`, if that style is a
    /// link.
    pub fn link_at(&self, link_index: usize) -> (r: Option<Link<'_>>)
        ensures
            r is Some <==> link_index < self.styles().len() && self.styles()[link_index as int].0 is Link,
            r is Some ==> self.is_link_of(r->0, link_index as int),
    {
        if link_index < self.styles.len() {
            let style = &self.styles[link_index];
            match &style.0 {
                TextStyle::Link(target) => Some(
                    Link { index: link_index, target: target.as_str(), range: &style.1 },
                ),
                _ => None,
            }
        } else {
            None
        }
    }

    /// The image of the last pushed image annotation covering `char_offset`.
    pub fn image_at(&self, char_offset: usize) -> (r: Option<&ImageStyle>)
        ensures
            ({
                let found = last_covering(
                    self.styles(),
                    char_offset as int,
                    StyleKind::Image,
                    StyleKind::Image,
                );
                &&& r is Some <==> found is Some
                &&& r is Some ==> *r->0 == self.styles()[found->0].0->Image_0
            }),
    {
        match self.last_covering_index(char_offset, StyleKind::Image, StyleKind::Image) {
            Some(j) => {
                match &self.styles[j].0 {
                    TextStyle::Image(image) => {
                        Some(image)
                    },
                    _ => None,
                }
            },
            None => None,
        }
    }

    /// How the character at `char_index` is drawn: for each property the
    /// last pushed annotation covering it wins, font sizes are merged from
    /// the last pushed outwards, and colors are taken from annotations only
    /// when `custom_color` is set. The foreground is then the last pushed
    /// covering color; failing that, a covering link gives the link color.
    pub fn char_style_at(&self, char_index: usize, custom_color: bool, colors: &Colors) -> (r:
        CharStyle<'_>)
        ensures
            ({
                let s = self.styles();
                let i = char_index as int;
                let weight = last_covering(s, i, StyleKind::FontWeight, StyleKind::FontWeight);
                let family = last_covering(s, i, StyleKind::FontFamily, StyleKind::FontFamily);
                let custom = last_covering(s, i, StyleKind::Color, StyleKind::Color);
                let bg = last_covering(s, i, StyleKind::BackgroundColor, StyleKind::BackgroundColor);
                let border = last_covering(s, i, StyleKind::Border, StyleKind::Border);
                let link = last_covering(s, i, StyleKind::Link, StyleKind::Link);
                let image = last_covering(s, i, StyleKind::Image, StyleKind::Image);
                let title = last_covering(s, i, StyleKind::Title, StyleKind::Title);
                &&& r.font_scale == merged_scale(s, i, FontScale { scale: 100, fixed: false })
                &&& r.font_weight == if weight is Some {
                    FontWeight { weight: s[weight->0].0->FontWeight_0, fixed: true }
                } else {
                    FontWeight { weight: 400, fixed: false }
                }
                &&& r.font_family == if family is Some {
                    Some(s[family->0].0->FontFamily_0)
                } else {
                    None
                }
                &&& r.color == if custom_color && custom is Some {
                    s[custom->0].0->Color_0
                } else if link is Some {
                    colors.link
                } else {
                    colors.color
                }
                &&& r.background == if custom_color && bg is Some {
                    Some(s[bg->0].0->BackgroundColor_0)
                } else {
                    None
                }
                &&& (r.border is Some <==> border is Some)
                &&& border is Some ==> {
                    &&& *(r.border->0).0 == s[border->0].1
                    &&& (r.border->0).1 == s[border->0].0->Border_0
                    &&& (r.border->0).2 == s[border->0].0->Border_1
                }
                &&& (r.link is Some <==> link is Some)
                &&& link is Some ==> (r.link->0).0 == link->0 && *(r.link->0).1 == s[link->0].1
                &&& (r.image is Some <==> image is Some)
                &&& image is Some ==> *r.image->0 == s[image->0].0->Image_0
                &&& (r.title is Some <==> title is Some)
                &&& title is Some ==> *r.title->0 == s[title->0].0->Title_0
            }),
    {
        let n = self.styles.len();
        let mut font_scale = FontScale::new();
        let mut k = n;
        proof {
            assert(self.styles@.take(n as int) =~= self.styles@);
        }
        while k > 0
            invariant
                k <= n == self.styles@.len(),
                merged_scale(self.styles@.take(k as int), char_index as int, font_scale)
                    == merged_scale(
                    self.styles@,
                    char_index as int,
                    FontScale { scale: 100, fixed: false },
                ),
            decreases k,
        {
            let style = &self.styles[k - 1];
            proof {
                assert(self.styles@.take(k as int).drop_last() =~= self.styles@.take(k - 1));
            }
            match &style.0 {
                TextStyle::FontSize(size) => {
                    if style.1.start <= char_index && char_index < style.1.end {
                        font_scale.update(size.scale, size.relative);
                    }
                },
                _ => {},
            }
            k -= 1;
        }
        let mut font_weight = FontWeight::new();
        if let Some(j) = self.last_covering_index(
            char_index,
            StyleKind::FontWeight,
            StyleKind::FontWeight,
        ) {
            if let TextStyle::FontWeight(weight) = &self.styles[j].0 {
                font_weight.update(*weight);
            }
        }
        let font_family = match self.last_covering_index(
            char_index,
            StyleKind::FontFamily,
            StyleKind::FontFamily,
        ) {
            Some(j) => match &self.styles[j].0 {
                TextStyle::FontFamily(family) => Some(*family),
                _ => None,
            },
            None => None,
        };
        let link_index = self.last_covering_index(char_index, StyleKind::Link, StyleKind::Link);
        let custom = if custom_color {
            match self.last_covering_index(char_index, StyleKind::Color, StyleKind::Color) {
                Some(j) => match &self.styles[j].0 {
                    TextStyle::Color(color) => Some(*color),
                    _ => None,
                },
                None => None,
            }
        } else {
            None
        };
        let color = match custom {
            Some(color) => color,
            None => if link_index.is_some() {
                colors.link
            } else {
                colors.color
            },
        };
        let background = if custom_color {
            match self.last_covering_index(
                char_index,
                StyleKind::BackgroundColor,
                StyleKind::BackgroundColor,
            ) {
                Some(j) => match &self.styles[j].0 {
                    TextStyle::BackgroundColor(color) => Some(*color),
                    _ => None,
                },
                None => None,
            }
        } else {
            None
        };
        let border = match self.last_covering_index(
            char_index,
            StyleKind::Border,
            StyleKind::Border,
        ) {
            Some(j) => {
                let style = &self.styles[j];
                match &style.0 {
                    TextStyle::Border(lines, color) => Some((&style.1, *lines, *color)),
                    _ => None,
                }
            },
            None => None,
        };
        let link = match link_index {
            Some(j) => Some((j, &self.styles[j].1)),
            None => None,
        };
        let image = match self.last_covering_index(
            char_index,
            StyleKind::Image,
            StyleKind::Image,
        ) {
            Some(j) => match &self.styles[j].0 {
                TextStyle::Image(image) => Some(image),
                _ => None,
            },
            None => None,
        };
        let title = match self.last_covering_index(
            char_index,
            StyleKind::Title,
            StyleKind::Title,
        ) {
            Some(j) => match &self.styles[j].0 {
                TextStyle::Title(title) => Some(title),
                _ => None,
            },
            None => None,
        };
        CharStyle {
            font_scale,
            font_weight,
            font_family,
            color,
            background,
            border,
            link,
            image,
            title,
        }
    }

    /// The word around `offset`: the longest run of non-splitter characters
    /// containing it, as inclusive bounds, or just `offset` when that
    /// character is itself a splitter. `None` past the end of the line.
    pub fn word_at_offset(&self, offset: usize) -> (r: Option<(usize, usize)>)
        ensures
            offset >= self@.len() ==> r is None,
            offset < self@.len() ==> r is Some && ({
                let (from, to) = r->0;
                if is_splitter(self@[offset as int]) {
                    from == offset && to == offset
                } else {
                    &&& from <= offset <= to < self@.len()
                    &&& forall|k: int| from <= k <= to ==> !is_splitter(#[trigger] self@[k])
                    &&& (from == 0 || is_splitter(self@[from - 1]))
                    &&& (to + 1 == self@.len() || is_splitter(self@[to + 1]))
                }
            }),
    {
        let len = self.chars.len();
        if offset >= len {
            return None;
        }
        if is_splitter_char(self.chars[offset]) {
            return Some((offset, offset));
        }
        let mut from = offset;
        while from > 0
            invariant
                from <= offset < len == self@.len(),
                forall|k: int| from <= k <= offset ==> !is_splitter(#[trigger] self@[k]),
            ensures
                from <= offset,
                forall|k: int| from <= k <= offset ==> !is_splitter(#[trigger] self@[k]),
                from == 0 || is_splitter(self@[from - 1]),
            decreases from,
        {
            if is_splitter_char(self.chars[from - 1]) {
                break;
            }
            from -= 1;
        }
        let mut to = offset;
        while to + 1 < len
            invariant
                from <= offset <= to < len == self@.len(),
                forall|k: int| from <= k <= to ==> !is_splitter(#[trigger] self@[k]),
            ensures
                offset <= to < len,
                forall|k: int| from <= k <= to ==> !is_splitter(#[trigger] self@[k]),
                to + 1 == len || is_splitter(self@[to + 1]),
            decreases len - to,
        {
            if is_splitter_char(self.chars[to + 1]) {
                break;
            }
            to += 1;
        }
        Some((from, to))
    }

    /// The decoration and border annotations, last pushed first.
    pub fn decoration_iter(&self) -> (r: Vec<Decoration>)
        ensures
            r@ == decorations_of(self.styles()),
    {
        let n = self.styles.len();
        let mut out: Vec<Decoration> = Vec::new();
        let mut k = n;
        proof {
            assert(self.styles@.take(n as int) =~= self.styles@);
        }
        while k > 0
            invariant
                k <= n == self.styles@.len(),
                out@ + decorations_of(self.styles@.take(k as int)) == decorations_of(
                    self.styles@,
                ),
            decreases k,
        {
            let style = &self.styles[k - 1];
            proof {
                assert(self.styles@.take(k as int).drop_last() =~= self.styles@.take(k - 1));
            }
            let range = Range { start: style.1.start, end: style.1.end };
            match &style.0 {
                TextStyle::Decoration(d) => {
                    let ghost before = out@;
                    out.push(Decoration::Text(range, *d));
                    proof {
                        assert(out@ + decorations_of(self.styles@.take(k - 1)) =~= before
                            + decorations_of(self.styles@.take(k as int)));
                    }
                },
                TextStyle::Border(lines, color) => {
                    let ghost before = out@;
                    out.push(Decoration::Border(range, *lines, *color));
                    proof {
                        assert(out@ + decorations_of(self.styles@.take(k - 1)) =~= before
                            + decorations_of(self.styles@.take(k as int)));
                    }
                },
                _ => {},
            }
            k -= 1;
        }
        proof {
            assert(out@ + decorations_of(self.styles@.take(0)) =~= out@);
        }
        out
    }
}

impl Default for Line {
    fn default() -> (r: Line)
        ensures
            r@ == Seq::<char>::empty(),
            r.styles() == Seq::<(TextStyle, Range<usize>)>::empty(),
    {
        Self::with_chars(Vec::new())
    }
}

/// Lines are equal when their characters are; styles are not compared.
impl PartialEq for Line {
    fn eq(&self, other: &Line) -> (r: bool)
        ensures
            r == (self@ == other@),
    {
        let len = self.chars.len();
        if len != other.chars.len() {
            return false;
        }
        let mut i: usize = 0;
        while i < len
            invariant
                len == self@.len() == other@.len(),
                i <= len,
                forall|k: int| 0 <= k < i ==> self@[k] == other@[k],
            decreases len - i,
        {
            if self.chars[i] != other.chars[i] {
                return false;
            }
            i += 1;
        }
        proof {
            assert(self@ =~= other@);
        }
        true
    }
}

impl vstd::std_specs::cmp::PartialEqSpecImpl for Line {
    open spec fn obeys_eq_spec() -> bool {
        true
    }

    open spec fn eq_spec(&self, other: &Line) -> bool {
        self@ == other@
    }
}

} // verus!
