//! What a loaded document offers its reader: the lines of the current
//! chapter, chapter navigation, and optional table of contents, link, image
//! and title lookups.
use std::borrow::Cow;

use indexmap::IndexSet;
use vstd::prelude::*;

use crate::highlight::{
    highlights, lines_view, range_highlight, selection, HighlightInfo, HighlightMode, Position,
};
use crate::line::Line;
use crate::text::{chars_of, push_str};

verus! {

#[verifier::external_type_specification]
#[verifier::external_body]
#[verifier::reject_recursive_types(T)]
#[verifier::reject_recursive_types(S)]
pub struct ExIndexSet<T, S>(IndexSet<T, S>);

/// Text shown for a chapter without content.
pub const EMPTY_CHAPTER_CONTENT: &'static str = "No content.";

/// Character standing for an image in the text.
pub const IMAGE_CHAR: char = '\u{1F5BC}';

/// An embedded resource: its path and its bytes, borrowed from the book or
/// owned.
pub enum ImageData<'a> {
    Borrowed((Cow<'a, str>, &'a [u8])),
    Owned((String, Vec<u8>)),
}

impl<'a> ImageData<'a> {
    pub open spec fn path_view(&self) -> Seq<char> {
        match self {
            ImageData::Borrowed((path, _)) => path@,
            ImageData::Owned((path, _)) => path@,
        }
    }

    pub open spec fn bytes_view(&self) -> Seq<u8> {
        match self {
            ImageData::Borrowed((_, bytes)) => bytes@,
            ImageData::Owned((_, bytes)) => bytes@,
        }
    }

    /// A copy of the path.
    pub fn path_dup(&self) -> (r: String)
        ensures
            r@ == self.path_view(),
    {
        match self {
            ImageData::Borrowed((path, _)) => match path {
                Cow::Borrowed(p) => (*p).to_owned(),
                Cow::Owned(p) => p.clone(),
            },
            ImageData::Owned((path, _)) => path.clone(),
        }
    }

    /// The path, taking the data apart.
    pub fn path(self) -> (r: String)
        ensures
            r@ == self.path_view(),
    {
        match self {
            ImageData::Borrowed((path, _)) => match path {
                Cow::Borrowed(p) => p.to_owned(),
                Cow::Owned(p) => p,
            },
            ImageData::Owned((path, _)) => path,
        }
    }

    pub fn bytes(&self) -> (r: &[u8])
        ensures
            r@ == self.bytes_view(),
    {
        match self {
            ImageData::Borrowed((_, bytes)) => bytes,
            ImageData::Owned((_, vec)) => vec.as_slice(),
        }
    }
}

/// Which chapter to open a book at.
#[derive(Clone, Copy, Debug, PartialEq, Eq, Structural)]
pub enum LoadingChapter {
    Index(usize),
    Last,
}

/// A place in a book: chapter, line and character offset.
#[derive(Clone, Copy, Debug, PartialEq, Eq, Structural)]
pub struct TraceInfo {
    pub chapter: usize,
    pub line: usize,
    pub offset: usize,
}

/// Something shown in a list: a title and an identifier.
pub trait Listable {
    fn title(&self) -> &str;

    fn id(&self) -> usize;
}

/// One entry of a table of contents: its title, the index it leads to and
/// its nesting level.
pub struct TocInfo<'a> {
    pub title: &'a str,
    pub index: usize,
    pub level: usize,
}

impl<'a> Listable for TocInfo<'a> {
    fn title(&self) -> (r: &str)
        ensures
            r@ == self.title@,
    {
        self.title
    }

    fn id(&self) -> (r: usize)
        ensures
            r == self.index,
    {
        self.index
    }
}

/// A failure while changing chapter.
#[derive(Debug)]
pub struct ChapterError {
    msg: String,
}

impl ChapterError {
    pub closed spec fn message(&self) -> Seq<char> {
        self.msg@
    }

    pub fn new(msg: String) -> (r: ChapterError)
        ensures
            r.message() == msg@,
    {
        ChapterError { msg }
    }

    /// The text shown for this error.
    pub fn to_string(&self) -> (r: String)
        ensures
            r@ == "Chapter error: "@ + self.message(),
    {
        let mut s = "Chapter error: ".to_owned();
        push_str(&mut s, self.msg.as_str());
        s
    }
}

/// Where `goto_chapter(index)` leads in a book of `count` chapters: `index`
/// itself, or nowhere when there is no such chapter.
pub fn chapter_target(index: usize, count: usize) -> (r: Option<usize>)
    ensures
        r == if index < count {
            Some(index)
        } else {
            None
        },
{
    if index >= count {
        None
    } else {
        Some(index)
    }
}

/// The chapter before `current`, or nowhere at the first one.
pub fn previous_chapter(current: usize) -> (r: Option<usize>)
    ensures
        r == if current == 0 {
            None
        } else {
            Some((current - 1) as usize)
        },
{
    if current == 0 {
        None
    } else {
        Some(current - 1)
    }
}

/// The chapter after `current`, or nowhere when no index follows it.
pub fn following_chapter(current: usize) -> (r: Option<usize>)
    ensures
        r == if current < usize::MAX {
            Some((current + 1) as usize)
        } else {
            None
        },
{
    if current < usize::MAX {
        Some(current + 1)
    } else {
        None
    }
}

/// A loaded document. A flat document has one chapter and needs only
/// `lines`; formats with chapters, a table of contents, links or images
/// override the rest.
pub trait Book {
    /// The lines of the current chapter, as values. Every implementation
    /// overrides this with the view of what `lines` returns.
    open spec fn spec_lines(&self) -> Seq<Line> {
        Seq::empty()
    }

    fn name(&self) -> Option<&str> {
        None
    }

    fn chapter_count(&self) -> usize {
        1
    }

    /// Goes to the previous chapter; `Ok(None)` at the first one.
    fn prev_chapter(&mut self) -> (r: Result<Option<usize>, ChapterError>)
        default_ensures
            r matches Ok(Some(index)) ==> index < usize::MAX,
    {
        let current = self.current_chapter();
        match previous_chapter(current) {
            Some(index) => self.goto_chapter(index),
            None => Ok(None),
        }
    }

    /// Goes to the next chapter; `Ok(None)` after the last one.
    fn next_chapter(&mut self) -> (r: Result<Option<usize>, ChapterError>)
        default_ensures
            r matches Ok(Some(index)) ==> index > 0,
    {
        let current = self.current_chapter();
        match following_chapter(current) {
            Some(index) => self.goto_chapter(index),
            None => Ok(None),
        }
    }

    /// Goes to chapter `chapter_index`; `Ok(None)` when there is no such
    /// chapter.
    fn goto_chapter(&mut self, chapter_index: usize) -> (r: Result<Option<usize>, ChapterError>)
        ensures
            r matches Ok(Some(index)) ==> index == chapter_index,
        default_ensures
            r is Ok,
    {
        Ok(chapter_target(chapter_index, self.chapter_count()))
    }

    fn current_chapter(&self) -> usize {
        0
    }

    /// The title of the table of contents entry at a position.
    fn title(&self, _line: usize, _offset: usize) -> Option<&str> {
        None
    }

    /// The index of the table of contents entry at a position.
    fn toc_index(&self, _line: usize, _offset: usize) -> usize {
        0
    }

    /// The table of contents; `None` for a format without one.
    fn toc_iterator(&self) -> Option<Vec<TocInfo<'_>>> {
        None
    }

    fn toc_position(&mut self, _toc_index: usize) -> Option<TraceInfo> {
        None
    }

    /// The lines of the current chapter.
    fn lines(&self) -> (r: &Vec<Line>)
        ensures
            r@ == self.spec_lines(),
    ;

    fn leading_space(&self) -> usize {
        2
    }

    fn link_position(&mut self, _line: usize, _link_index: usize) -> Option<TraceInfo> {
        None
    }

    /// The resource `href` refers to: its path and bytes.
    fn image<'a>(&'a self, _href: &'a str) -> Option<ImageData<'a>> {
        None
    }

    fn font_family_names(&self) -> Option<&IndexSet<String>> {
        None
    }

    fn color_customizable(&self) -> bool {
        false
    }

    fn fonts_customizable(&self) -> bool {
        false
    }

    fn style_customizable(&self) -> bool {
        false
    }

    /// The selection between two positions of the current chapter; never an
    /// empty one.
    fn range_highlight(&self, from: Position, to: Position) -> (r: Option<HighlightInfo>)
        default_ensures
            match selection(lines_view(self.spec_lines()), from, to) {
                Some(s) => r is Some && highlights(r->0, s),
                None => r is None,
            },
            r matches Some(h) ==> (h.mode matches HighlightMode::Selection(t, _) && t@.len()
                > 0),
    {
        range_highlight(self.lines(), from, to)
    }
}

/// The lines of `text`: the pieces between newline characters.
pub open spec fn split_lines(text: Seq<char>) -> Seq<Seq<char>>
    decreases text.len(),
{
    if text.len() == 0 {
        seq![Seq::empty()]
    } else {
        let prev = split_lines(text.drop_last());
        if text.last() == '\n' {
            prev.push(Seq::empty())
        } else {
            prev.update(prev.len() - 1, prev.last().push(text.last()))
        }
    }
}

proof fn lemma_split_lines_nonempty(text: Seq<char>)
    ensures
        split_lines(text).len() >= 1,
    decreases text.len(),
{
    if text.len() > 0 {
        lemma_split_lines_nonempty(text.drop_last());
    }
}

/// A book of one chapter made from plain text, one line per newline-ended
/// piece.
pub struct ReadmeBook {
    lines: Vec<Line>,
}

impl ReadmeBook {
    pub closed spec fn lines_view(&self) -> Seq<Seq<char>> {
        self.lines@.map_values(|l: Line| l@)
    }

    pub fn new(text: &str) -> (r: ReadmeBook)
        ensures
            r.lines_view() == split_lines(text@),
    {
        let chars = chars_of(text);
        let mut lines: Vec<Line> = Vec::new();
        let mut current: Vec<char> = Vec::new();
        let mut i: usize = 0;
        while i < chars.len()
            invariant
                i <= chars@.len(),
                chars@ == text@,
                lines@.map_values(|l: Line| l@).push(current@) == split_lines(chars@.take(i as int)),
            decreases chars.len() - i,
        {
            let ch = chars[i];
            proof {
                assert(chars@.take(i + 1).drop_last() =~= chars@.take(i as int));
                lemma_split_lines_nonempty(chars@.take(i as int));
            }
            let ghost before = lines@.map_values(|l: Line| l@);
            if ch == '\n' {
                let line = Line::with_chars(current);
                lines.push(line);
                current = Vec::new();
                proof {
                    assert(lines@.map_values(|l: Line| l@) =~= before.push(line@));
                    assert(lines@.map_values(|l: Line| l@).push(current@) =~= split_lines(
                        chars@.take(i + 1),
                    ));
                }
            } else {
                let ghost old_current = current@;
                current.push(ch);
                proof {
                    assert(before.push(current@) =~= before.push(old_current).update(
                        before.len() as int,
                        old_current.push(ch),
                    ));
                }
            }
            i += 1;
        }
        let line = Line::with_chars(current);
        let ghost before = lines@.map_values(|l: Line| l@);
        lines.push(line);
        proof {
            assert(chars@.take(i as int) =~= text@);
            assert(lines@.map_values(|l: Line| l@) =~= before.push(line@));
        }
        ReadmeBook { lines }
    }
}

impl Book for ReadmeBook {
    closed spec fn spec_lines(&self) -> Seq<Line> {
        self.lines@
    }

    fn lines(&self) -> (r: &Vec<Line>)
        ensures
            r@.map_values(|l: Line| l@) == self.lines_view(),
    {
        &self.lines
    }
}

} // verus!
