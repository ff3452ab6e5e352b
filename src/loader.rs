//! The registry of format parsers: picks the parser for a file by its
//! extension and repairs the reading position the parser reports.
use vstd::prelude::*;

use crate::book::{Book, LoadingChapter};
use crate::config::ReadingInfo;
use crate::line::Line;
use crate::text::{chars_of, lower_of, lowercase, push_str};

verus! {

/// Options handed to every parser.
#[derive(Clone, Copy, Debug, PartialEq, Eq, Structural)]
pub struct BookLoadingInfo {
    /// Leave out lines that hold only whitespace.
    pub strip_empty_lines: bool,
    /// Which document of a multi-document container to open.
    pub inner_book: usize,
}

/// Why a book could not be opened.
#[derive(Debug)]
pub enum LoadError {
    /// No registered parser handles the file name.
    NotSupported(String),
    /// The parser could not decode the content.
    Content(String),
}

impl LoadError {
    /// The message shown for this error.
    pub fn to_string(&self) -> (r: String)
        ensures
            r@ == match self {
                LoadError::NotSupported(name) => "Not support open book: "@ + name@,
                LoadError::Content(msg) => "Failed to read book: "@ + msg@,
            },
    {
        match self {
            LoadError::NotSupported(name) => {
                let mut s = "Not support open book: ".to_owned();
                push_str(&mut s, name.as_str());
                s
            },
            LoadError::Content(msg) => {
                let mut s = "Failed to read book: ".to_owned();
                push_str(&mut s, msg.as_str());
                s
            },
        }
    }
}

/// `s` ends with `suffix`.
pub open spec fn ends_with(s: Seq<char>, suffix: Seq<char>) -> bool {
    suffix.len() <= s.len() && s.subrange(s.len() - suffix.len(), s.len() as int) == suffix
}

/// `name` ends with one of `extensions`.
pub open spec fn has_extension(name: Seq<char>, extensions: Seq<&str>) -> bool {
    exists|i: int| 0 <= i < extensions.len() && ends_with(name, #[trigger] extensions[i]@)
}

fn str_ends_with(s: &str, suffix: &str) -> (r: bool)
    ensures
        r == ends_with(s@, suffix@),
{
    let text = chars_of(s);
    let tail = chars_of(suffix);
    if tail.len() > text.len() {
        return false;
    }
    let base = text.len() - tail.len();
    let mut i: usize = 0;
    while i < tail.len()
        invariant
            text@ == s@,
            tail@ == suffix@,
            base + tail.len() == text.len(),
            i <= tail@.len(),
            forall|k: int| 0 <= k < i ==> text@[base + k] == tail@[k],
        decreases tail.len() - i,
    {
        if text[base + i] != tail[i] {
            assert(text@.subrange(base as int, text@.len() as int)[i as int] != tail@[i as int]);
            return false;
        }
        i += 1;
    }
    assert(text@.subrange(base as int, text@.len() as int) =~= tail@);
    true
}

/// Whether `lower_name`, a file name already in lower case, ends with one of
/// `extensions`.
pub fn has_extension_lower(lower_name: &str, extensions: &Vec<&'static str>) -> (r: bool)
    ensures
        r == has_extension(lower_name@, extensions@),
{
    let mut i: usize = 0;
    while i < extensions.len()
        invariant
            i <= extensions@.len(),
            forall|k: int| 0 <= k < i ==> !ends_with(lower_name@, #[trigger] extensions@[k]@),
        decreases extensions.len() - i,
    {
        if str_ends_with(lower_name, extensions[i]) {
            return true;
        }
        i += 1;
    }
    false
}

/// Whether `filename`, compared case-insensitively, ends with one of
/// `extensions`.
pub fn supports_extension(filename: &str, extensions: &Vec<&'static str>) -> (r: bool)
    ensures
        r == has_extension(lower_of(filename@), extensions@),
{
    let lower = lowercase(filename);
    has_extension_lower(lower.as_str(), extensions)
}

/// A parser for one family of formats.
pub trait Loader {
    /// The file name endings, in lower case, this parser recognizes.
    fn extensions(&self) -> &Vec<&'static str>;

    /// Whether this parser handles `filename`.
    fn support(&self, filename: &str) -> bool {
        supports_extension(filename, self.extensions())
    }

    /// Parses `content` into a book and the position to open it at.
    fn load_buf(
        &self,
        filename: &str,
        content: Vec<u8>,
        loading_chapter: LoadingChapter,
        loading: BookLoadingInfo,
    ) -> Result<(Box<dyn Book>, ReadingInfo), LoadError>;
}

/// The reading position a parser reported, made to fit its book: the
/// chapter is the one the book is at, a line past the end becomes the last
/// line, and a position past the end of its line becomes 0.
pub open spec fn clamped(reading: ReadingInfo, chapter: usize, lines: Seq<Seq<char>>) -> ReadingInfo {
    let n = lines.len();
    let line = if reading.line < n {
        reading.line
    } else if n == 0 {
        0
    } else {
        (n - 1) as usize
    };
    let position = if line < n && reading.position < lines[line as int].len() {
        reading.position
    } else {
        0
    };
    ReadingInfo { chapter, line, position, ..reading }
}

/// Repairs `reading` against the book's current chapter `chapter` and its
/// `lines`.
pub fn clamp_reading(reading: ReadingInfo, chapter: usize, lines: &Vec<Line>) -> (r: ReadingInfo)
    ensures
        r == clamped(reading, chapter, lines@.map_values(|l: Line| l@)),
{
    let n = lines.len();
    let line = if reading.line < n {
        reading.line
    } else if n == 0 {
        0
    } else {
        n - 1
    };
    let position = if line < n && reading.position < lines[line].len() {
        reading.position
    } else {
        0
    };
    ReadingInfo { chapter, line, position, ..reading }
}

/// The extensions of every parser, in registration order.
pub open spec fn all_extensions(table: Seq<Seq<&'static str>>) -> Seq<&'static str>
    decreases table.len(),
{
    if table.len() == 0 {
        Seq::empty()
    } else {
        all_extensions(table.drop_last()) + table.last()
    }
}

/// The first parser, in registration order, whose extensions `name` ends
/// with.
pub open spec fn first_supporting(table: Seq<Seq<&'static str>>, name: Seq<char>) -> Option<int> {
    if exists|i: int| 0 <= i < table.len() && has_extension(name, #[trigger] table[i]) {
        Some(
            choose|i: int|
                0 <= i < table.len() && has_extension(name, #[trigger] table[i]) && forall|j: int|
                    0 <= j < i ==> !has_extension(name, #[trigger] table[j]),
        )
    } else {
        None
    }
}

fn copy_extensions(declared: &Vec<&'static str>) -> (r: Vec<&'static str>)
    ensures
        r@ == declared@,
{
    let mut copy: Vec<&'static str> = Vec::new();
    let mut i: usize = 0;
    while i < declared.len()
        invariant
            i <= declared@.len(),
            copy@ == declared@.take(i as int),
        decreases declared.len() - i,
    {
        copy.push(declared[i]);
        proof {
            assert(copy@ =~= declared@.take(i + 1));
        }
        i += 1;
    }
    assert(copy@ =~= declared@);
    copy
}

/// The registered parsers, in order, and the extensions each declared when
/// it was added.
pub struct BookLoader {
    loaders: Vec<Box<dyn Loader>>,
    extensions: Vec<Vec<&'static str>>,
}

impl BookLoader {
    /// The extensions of each parser, in registration order.
    pub closed spec fn table(&self) -> Seq<Seq<&'static str>> {
        self.extensions@.map_values(|v: Vec<&'static str>| v@)
    }

    /// Each parser has its extension list.
    pub closed spec fn wf(&self) -> bool {
        self.loaders@.len() == self.extensions@.len()
    }

    /// A registry with no parser.
    pub fn new() -> (r: BookLoader)
        ensures
            r.wf(),
            r.table() == Seq::<Seq<&'static str>>::empty(),
    {
        let r = BookLoader { loaders: Vec::new(), extensions: Vec::new() };
        assert(r.table() =~= Seq::<Seq<&'static str>>::empty());
        r
    }

    /// Registers `loader` after the others; earlier parsers win when both
    /// recognize a file.
    pub fn add(&mut self, loader: Box<dyn Loader>)
        requires
            old(self).wf(),
        ensures
            final(self).wf(),
            final(self).table().len() == old(self).table().len() + 1,
            final(self).table().drop_last() == old(self).table(),
    {
        let copy = copy_extensions(loader.extensions());
        let ghost before = self.loaders@;
        self.loaders.push(loader);
        proof {
            vstd::seq::axiom_seq_push_len(before, loader);
        }
        self.extensions.push(copy);
        assert(self.table().drop_last() =~= old(self).table());
    }

    /// Every extension of every parser, in registration order.
    pub fn extension(&self) -> (r: Vec<&'static str>)
        ensures
            r@ == all_extensions(self.table()),
    {
        let mut vec: Vec<&'static str> = Vec::new();
        let mut i: usize = 0;
        while i < self.extensions.len()
            invariant
                i <= self.extensions@.len(),
                vec@ == all_extensions(self.table().take(i as int)),
            decreases self.extensions.len() - i,
        {
            let exts = &self.extensions[i];
            let ghost before = vec@;
            let mut j: usize = 0;
            while j < exts.len()
                invariant
                    j <= exts@.len(),
                    vec@ == before + exts@.take(j as int),
                decreases exts.len() - j,
            {
                vec.push(exts[j]);
                proof {
                    assert(before + exts@.take(j + 1) =~= (before + exts@.take(j as int)).push(
                        exts@[j as int],
                    ));
                }
                j += 1;
            }
            proof {
                assert(exts@.take(j as int) =~= exts@);
                assert(self.table().take(i + 1).drop_last() =~= self.table().take(i as int));
                assert(self.table()[i as int] == exts@);
            }
            i += 1;
        }
        proof {
            assert(self.table().take(i as int) =~= self.table());
        }
        vec
    }

    /// Index of the first parser whose extensions `lower_name`, a file name
    /// already in lower case, ends with.
    pub fn find_loader(&self, lower_name: &str) -> (r: Option<usize>)
        ensures
            match first_supporting(self.table(), lower_name@) {
                Some(i) => r == Some(i as usize),
                None => r is None,
            },
            r matches Some(i) ==> i < self.table().len(),
    {
        let mut i: usize = 0;
        while i < self.extensions.len()
            invariant
                i <= self.extensions@.len(),
                forall|k: int| 0 <= k < i ==> !has_extension(lower_name@, #[trigger] self.table()[k]),
            decreases self.extensions.len() - i,
        {
            if has_extension_lower(lower_name, &self.extensions[i]) {
                proof {
                    let t = self.table();
                    assert(has_extension(lower_name@, t[i as int]));
                    let c = choose|c: int|
                        0 <= c < t.len() && has_extension(lower_name@, #[trigger] t[c]) && forall|
                            j: int,
                        |
                            0 <= j < c ==> !has_extension(lower_name@, #[trigger] t[j]);
                    if c < i {
                    } else if c > i {
                        assert(!has_extension(lower_name@, t[i as int]));
                    }
                }
                return Some(i);
            }
            i += 1;
        }
        None
    }

    /// Whether some parser handles `filename`, compared case-insensitively.
    pub fn support(&self, filename: &str) -> (r: bool)
        ensures
            r == (first_supporting(self.table(), lower_of(filename@)) is Some),
    {
        let lower = lowercase(filename);
        self.find_loader(lower.as_str()).is_some()
    }

    /// Opens `content` with the first parser that handles `filename`, and
    /// repairs the position it reports; fails with `NotSupported` when no
    /// parser handles the name, without running any parser.
    pub fn load(
        &self,
        filename: &str,
        content: Vec<u8>,
        loading_chapter: LoadingChapter,
        loading: BookLoadingInfo,
    ) -> (r: Result<(Box<dyn Book>, ReadingInfo), LoadError>)
        requires
            self.wf(),
        ensures
            first_supporting(self.table(), lower_of(filename@)) is None ==> (r matches Err(
                LoadError::NotSupported(name),
            ) && name@ == filename@),
            r is Ok ==> first_supporting(self.table(), lower_of(filename@)) is Some,
            r matches Ok((book, reading)) ==> ({
                let lines = book.spec_lines();
                &&& lines.len() == 0 ==> reading.line == 0 && reading.position == 0
                &&& lines.len() > 0 ==> reading.line < lines.len() && (reading.position == 0
                    || reading.position < lines[reading.line as int]@.len())
            }),
    {
        let lower = lowercase(filename);
        match self.find_loader(lower.as_str()) {
            Some(i) => {
                let (book, reading) = match self.loaders[i].load_buf(
                    filename,
                    content,
                    loading_chapter,
                    loading,
                ) {
                    Ok(loaded) => loaded,
                    Err(e) => {
                        return Err(e);
                    },
                };
                let chapter = book.current_chapter();
                let lines = book.lines();
                let reading = clamp_reading(reading, chapter, lines);
                proof {
                    let view = lines@.map_values(|l: Line| l@);
                    assert(view.len() == lines@.len());
                    if lines@.len() > 0 {
                        assert(view[reading.line as int] == lines@[reading.line as int]@);
                    }
                }
                let result = Ok((book, reading));
                assert(result matches Ok((b, rd)) ==> b == book && rd == reading);
                result
            },
            None => Err(LoadError::NotSupported(filename.to_owned())),
        }
    }
}

} // verus!
