//! Reading state that is saved between sessions, and the configuration
//! values the library itself reads.
use vstd::prelude::*;

use crate::book::Listable;
use crate::highlight::Position;

verus! {

/// Where a reader is in a book, with the per-book options.
#[derive(Debug)]
pub struct ReadingInfo {
    /// The record's key in the reading history; 0 for a book never saved.
    pub row_id: i64,
    pub filename: String,
    pub inner_book: usize,
    pub chapter: usize,
    pub line: usize,
    pub position: usize,
    pub custom_color: bool,
    pub strip_empty_lines: bool,
}

impl ReadingInfo {
    /// A fresh reading of `filename`, at its very start.
    pub fn new(filename: &str) -> (r: ReadingInfo)
        ensures
            r.row_id == 0,
            r.filename@ == filename@,
            r.inner_book == 0,
            r.chapter == 0,
            r.line == 0,
            r.position == 0,
            r.custom_color,
            !r.strip_empty_lines,
    {
        ReadingInfo {
            row_id: 0,
            filename: filename.to_owned(),
            inner_book: 0,
            chapter: 0,
            line: 0,
            position: 0,
            custom_color: true,
            strip_empty_lines: false,
        }
    }

    /// The same reading, asking for the book's last chapter.
    pub fn with_last_chapter(self) -> (r: ReadingInfo)
        ensures
            r == (ReadingInfo { chapter: usize::MAX, ..self }),
    {
        ReadingInfo { chapter: usize::MAX, ..self }
    }

    /// The start of inner book `inner_book`.
    pub fn with_inner_book(self, inner_book: usize) -> (r: ReadingInfo)
        ensures
            r == (ReadingInfo { inner_book, chapter: 0, line: 0, position: 0, ..self }),
    {
        ReadingInfo { inner_book, chapter: 0, line: 0, position: 0, ..self }
    }

    /// The same reading, with the book's own colors turned off.
    pub fn no_custom_color(self) -> (r: ReadingInfo)
        ensures
            r == (ReadingInfo { custom_color: false, ..self }),
    {
        ReadingInfo { custom_color: false, ..self }
    }

    /// The line and character position.
    pub fn pos(&self) -> (r: Position)
        ensures
            r == (Position { line: self.line, offset: self.position }),
    {
        Position::new(self.line, self.position)
    }
}

impl Clone for ReadingInfo {
    fn clone(&self) -> (r: ReadingInfo)
        ensures
            r == *self,
    {
        ReadingInfo {
            row_id: self.row_id,
            filename: self.filename.clone(),
            inner_book: self.inner_book,
            chapter: self.chapter,
            line: self.line,
            position: self.position,
            custom_color: self.custom_color,
            strip_empty_lines: self.strip_empty_lines,
        }
    }
}

impl Listable for ReadingInfo {
    fn title(&self) -> (r: &str)
        ensures
            r@ == self.filename@,
    {
        self.filename.as_str()
    }

    /// The history key, with keys below zero shown as 0.
    fn id(&self) -> (r: usize)
        ensures
            r == if self.row_id < 0 {
                0
            } else if self.row_id > usize::MAX {
                usize::MAX as int
            } else {
                self.row_id as int
            },
    {
        let rowid = self.row_id;
        if rowid < 0 {
            0
        } else if rowid as u64 > usize::MAX as u64 {
            usize::MAX
        } else {
            rowid as usize
        }
    }
}

/// A file the user named, with whether it is in use.
#[derive(Clone, Default, Debug)]
pub struct PathConfig {
    pub enabled: bool,
    pub path: String,
}

/// Locale used when the system reports none.
pub const DEFAULT_LOCALE: &'static str = "en";

/// Settings of the graphical reader.
#[derive(Clone, Debug)]
pub struct GuiConfiguration {
    pub fonts: Vec<PathConfig>,
    pub font_size: u8,
    pub sidebar_size: u32,
    pub lang: String,
    pub dictionaries: Vec<PathConfig>,
    pub cache_dict: bool,
    pub strip_empty_lines: bool,
    pub ignore_font_weight: bool,
}

/// Relies on `sys_locale::get_locale`: the locale the system reports, if
/// any.
#[verifier::external_body]
fn system_locale() -> (r: Option<String>) {
    sys_locale::get_locale()
}

/// `locale`, or `DEFAULT_LOCALE` when there is none.
pub fn locale_or_default(locale: Option<String>) -> (r: String)
    ensures
        r@ == match locale {
            Some(l) => l@,
            None => DEFAULT_LOCALE@,
        },
{
    match locale {
        Some(l) => l,
        None => DEFAULT_LOCALE.to_owned(),
    }
}

/// The system's locale, or `DEFAULT_LOCALE` when it reports none.
pub fn default_locale() -> String {
    locale_or_default(system_locale())
}

impl Default for GuiConfiguration {
    fn default() -> (r: GuiConfiguration)
        ensures
            r.fonts@.len() == 0,
            r.font_size == 20,
            r.sidebar_size == 300,
            r.dictionaries@.len() == 0,
            !r.cache_dict,
            !r.strip_empty_lines,
            !r.ignore_font_weight,
    {
        GuiConfiguration {
            fonts: Vec::new(),
            font_size: 20,
            sidebar_size: 300,
            lang: default_locale(),
            dictionaries: Vec::new(),
            cache_dict: false,
            strip_empty_lines: false,
            ignore_font_weight: false,
        }
    }
}

/// The book named at start-up, and where it was named.
#[derive(Debug)]
pub enum BookToOpen {
    Nothing,
    Cmd(String),
    Env(String),
}

impl BookToOpen {
    pub fn name(&self) -> (r: Option<&str>)
        ensures
            match self {
                BookToOpen::Nothing => r is None,
                BookToOpen::Cmd(name) => r matches Some(n) && n@ == name@,
                BookToOpen::Env(name) => r matches Some(n) && n@ == name@,
            },
    {
        match self {
            BookToOpen::Nothing => None,
            BookToOpen::Cmd(name) => Some(name.as_str()),
            BookToOpen::Env(name) => Some(name.as_str()),
        }
    }
}

/// `info` is the book to leave out of a history list.
pub open spec fn is_excluded(info: ReadingInfo, exclude: Option<String>) -> bool {
    exclude matches Some(name) && name@ == info.filename@
}

/// The readings of `rows` that are not left out, in order.
pub open spec fn kept_readings(rows: Seq<ReadingInfo>, exclude: Option<String>) -> Seq<ReadingInfo>
    decreases rows.len(),
{
    if rows.len() == 0 {
        Seq::empty()
    } else {
        let rest = kept_readings(rows.drop_last(), exclude);
        if is_excluded(rows.last(), exclude) {
            rest
        } else {
            rest.push(rows.last())
        }
    }
}

/// The history list shown to the reader: the readings of `rows` (most
/// recent first, each for a file that still exists) other than `exclude`,
/// at most `limit` of them, and at least one when any is left.
pub fn select_history(rows: &Vec<ReadingInfo>, exclude: &Option<String>, limit: usize) -> (r: Vec<
    ReadingInfo,
>)
    ensures
        ({
            let kept = kept_readings(rows@, *exclude);
            let n = if limit == 0 {
                1
            } else {
                limit as int
            };
            r@ == kept.take(if kept.len() < n {
                kept.len() as int
            } else {
                n
            })
        }),
{
    let ghost kept = kept_readings(rows@, *exclude);
    let ghost n: int = if limit == 0 {
        1
    } else {
        limit as int
    };
    let mut list: Vec<ReadingInfo> = Vec::new();
    let mut i: usize = 0;
    let mut done = false;
    while i < rows.len() && !done
        invariant
            i <= rows.len(),
            kept == kept_readings(rows@, *exclude),
            n == if limit == 0 {
                1
            } else {
                limit as int
            },
            !done ==> list@ == kept_readings(rows@.take(i as int), *exclude) && list@.len() < n,
            done ==> list@ == kept.take(n) && n <= kept.len(),
        decreases rows.len() - i,
    {
        proof {
            assert(rows@.take(i + 1).drop_last() =~= rows@.take(i as int));
        }
        let info = &rows[i];
        let excluded = match exclude {
            Some(name) => *name == info.filename,
            None => false,
        };
        if !excluded {
            list.push(info.clone());
            if list.len() >= limit {
                proof {
                    lemma_kept_prefix(rows@, *exclude, i + 1);
                }
                done = true;
            }
        }
        i += 1;
    }
    proof {
        if !done {
            assert(rows@.take(i as int) =~= rows@);
            assert(kept.take(kept.len() as int) =~= kept);
        }
    }
    list
}

/// What is kept of a prefix of the rows is a prefix of what is kept of all.
proof fn lemma_kept_prefix(rows: Seq<ReadingInfo>, exclude: Option<String>, i: int)
    requires
        0 <= i <= rows.len(),
    ensures
        kept_readings(rows.take(i), exclude).len() <= kept_readings(rows, exclude).len(),
        kept_readings(rows.take(i), exclude) == kept_readings(rows, exclude).take(
            kept_readings(rows.take(i), exclude).len() as int,
        ),
    decreases rows.len() - i,
{
    if i < rows.len() {
        lemma_kept_prefix(rows, exclude, i + 1);
        assert(rows.take(i + 1).drop_last() =~= rows.take(i));
        let a = kept_readings(rows.take(i), exclude);
        let b = kept_readings(rows.take(i + 1), exclude);
        let all = kept_readings(rows, exclude);
        assert(a =~= all.take(a.len() as int));
    } else {
        assert(rows.take(i) =~= rows);
        assert(kept_readings(rows, exclude).take(kept_readings(rows, exclude).len() as int)
            =~= kept_readings(rows, exclude));
    }
}

} // verus!
