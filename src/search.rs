//! Pattern search within one line. The regular expression engine reports
//! byte offsets into the UTF-8 text; matches are handed on as character
//! ranges.
use std::borrow::Cow;
use std::ops::Range;

use fancy_regex::Regex;
use vstd::prelude::*;

use crate::line::Line;
use crate::text::{char_width, chars_of, is_boundary, utf8_len};

verus! {

#[verifier::external_type_specification]
#[verifier::external_body]
pub struct ExRegex(Regex);

/// Why a whole-line search stopped early.
#[derive(Debug)]
pub enum SearchError {
    /// The callback asked to stop.
    Canceled,
    /// An application-defined failure, with its message.
    Custom(Cow<'static, str>),
}

impl SearchError {
    /// The message shown for this error.
    pub fn to_string(&self) -> (r: String)
        ensures
            r@ == match self {
                SearchError::Canceled => "Find canceled"@,
                SearchError::Custom(msg) => msg@,
            },
    {
        match self {
            SearchError::Canceled => "Find canceled".to_owned(),
            SearchError::Custom(msg) => match msg {
                Cow::Borrowed(s) => (*s).to_owned(),
                Cow::Owned(s) => s.clone(),
            },
        }
    }
}

/// Byte lengths of prefixes grow by at least one per character.
pub proof fn lemma_utf8_len_grows(s: Seq<char>, a: int, b: int)
    requires
        0 <= a <= b <= s.len(),
    ensures
        utf8_len(s.take(a)) + (b - a) <= utf8_len(s.take(b)),
    decreases b - a,
{
    if a < b {
        lemma_utf8_len_grows(s, a, b - 1);
        assert(s.take(b).drop_last() =~= s.take(b - 1));
    }
}

/// The character index whose prefix is `byte` bytes long.
pub open spec fn char_index_of(text: Seq<char>, byte: int) -> int {
    choose|i: int| 0 <= i <= text.len() && utf8_len(#[trigger] text.take(i)) == byte
}

proof fn lemma_char_index_unique(text: Seq<char>, i: int)
    requires
        0 <= i <= text.len(),
    ensures
        char_index_of(text, utf8_len(text.take(i)) as int) == i,
{
    let byte = utf8_len(text.take(i)) as int;
    assert(is_boundary(text, byte));
    let j = char_index_of(text, byte);
    if j < i {
        lemma_utf8_len_grows(text, j, i);
    } else if j > i {
        lemma_utf8_len_grows(text, i, j);
    }
}

/// The index of the character that starts at byte `byte` of `text`, or the
/// length of `text` for its end; `None` when `byte` is no character boundary.
pub fn char_index_for_byte(text: &str, byte: usize) -> (r: Option<usize>)
    ensures
        match r {
            Some(i) => i <= text@.len() && utf8_len(text@.take(i as int)) == byte,
            None => !is_boundary(text@, byte as int),
        },
{
    let chars = chars_of(text);
    let len = chars.len();
    let mut i: usize = 0;
    let mut pos: usize = 0;
    while i < len && pos < byte
        invariant
            i <= len == text@.len(),
            chars@ == text@,
            pos == utf8_len(text@.take(i as int)),
            pos <= byte,
        decreases len - i,
    {
        let w = char_width(chars[i]);
        proof {
            assert(text@.take(i + 1).drop_last() =~= text@.take(i as int));
        }
        if byte - pos < w {
            proof {
                assert forall|k: int| 0 <= k <= text@.len() implies utf8_len(
                    #[trigger] text@.take(k),
                ) != byte by {
                    if k <= i {
                        lemma_utf8_len_grows(text@, k, i as int);
                    } else {
                        lemma_utf8_len_grows(text@, i + 1, k);
                    }
                }
            }
            return None;
        }
        pos = pos + w;
        i = i + 1;
    }
    if pos == byte {
        Some(i)
    } else {
        proof {
            assert(i == len);
            assert forall|k: int| 0 <= k <= text@.len() implies utf8_len(
                #[trigger] text@.take(k),
            ) != byte by {
                lemma_utf8_len_grows(text@, k, i as int);
                assert(text@.take(i as int) =~= text@);
            }
        }
        None
    }
}

/// The character range, shifted by `offset`, of a match given as byte
/// bounds into `text`; `None` when there is no match or a bound is no
/// character boundary.
pub open spec fn char_match(text: Seq<char>, m: Option<(usize, usize)>, offset: int) -> Option<
    (int, int),
> {
    match m {
        Some((s, e)) => if is_boundary(text, s as int) && is_boundary(text, e as int) {
            Some((char_index_of(text, s as int) + offset, char_index_of(text, e as int) + offset))
        } else {
            None
        },
        None => None,
    }
}

/// Converts a match `m` in byte offsets of `text` to character offsets,
/// shifted by `offset`.
pub fn match_range(text: &str, m: Option<(usize, usize)>, offset: usize) -> (r: Option<
    Range<usize>,
>)
    requires
        offset + text@.len() <= usize::MAX,
    ensures
        match char_match(text@, m, offset as int) {
            Some((s, e)) => r matches Some(rg) && rg.start == s && rg.end == e,
            None => r is None,
        },
{
    match m {
        Some((s, e)) => {
            let start = char_index_for_byte(text, s);
            let end = char_index_for_byte(text, e);
            match (start, end) {
                (Some(start), Some(end)) => {
                    proof {
                        lemma_char_index_unique(text@, start as int);
                        lemma_char_index_unique(text@, end as int);
                    }
                    Some(Range { start: start + offset, end: end + offset })
                },
                _ => None,
            }
        },
        None => None,
    }
}

/// A compiled regular expression, with the pattern it was compiled from.
pub struct Pattern {
    source: String,
    regex: Regex,
}

/// Whether the regular expression engine accepts `source` as a pattern.
pub uninterp spec fn regex_accepts(source: Seq<char>) -> bool;

/// Relies on `fancy_regex::Regex::new`: compiles `source` with the default
/// options; on failure, the error's message. Whether it succeeds depends on
/// `source` alone.
#[verifier::external_body]
fn compile(source: &str) -> (r: Result<Regex, String>)
    ensures
        r is Ok <==> regex_accepts(source@),
{
    match Regex::new(source) {
        Ok(regex) => Ok(regex),
        Err(e) => Err(e.to_string()),
    }
}

impl Pattern {
    /// The pattern this expression was compiled from.
    pub closed spec fn source_view(&self) -> Seq<char> {
        self.source@
    }

    /// Compiles `source`; the error is the engine's message.
    pub fn new(source: &str) -> (r: Result<Pattern, String>)
        ensures
            r is Ok <==> regex_accepts(source@),
            r matches Ok(p) ==> p.source_view() == source@,
    {
        match compile(source) {
            Ok(regex) => Ok(Pattern { source: source.to_owned(), regex }),
            Err(e) => Err(e),
        }
    }

    pub fn as_str(&self) -> (r: &str)
        ensures
            r@ == self.source_view(),
    {
        self.source.as_str()
    }
}

/// Byte bounds of the first match of `pattern` in `text`, as the regular
/// expression engine finds it; `None` when there is none or the engine fails.
pub uninterp spec fn first_match_of(pattern: Seq<char>, text: Seq<char>) -> Option<(usize, usize)>;

/// Byte bounds of the last of the successive non-overlapping matches of
/// `pattern` in `text`; `None` when there is none or the walk ends on a
/// failure of the engine.
pub uninterp spec fn last_match_of(pattern: Seq<char>, text: Seq<char>) -> Option<(usize, usize)>;

/// Relies on `fancy_regex::Regex::find_from_pos` from position 0: the byte
/// bounds of the first match, if there is one and no error. With the default
/// options the result depends on the pattern and the text alone.
#[verifier::external_body]
fn first_match(pattern: &Pattern, text: &str) -> (r: Option<(usize, usize)>)
    ensures
        r == first_match_of(pattern.source_view(), text@),
        r matches Some((s, e)) ==> s <= e,
{
    match pattern.regex.find_from_pos(text, 0) {
        Ok(Some(m)) => Some((m.start(), m.end())),
        _ => None,
    }
}

/// Relies on `fancy_regex::Regex::find_iter` and `Iterator::last`: the byte
/// bounds of the last of the successive non-overlapping matches, if the walk
/// ended on a match rather than an error. With the default options the
/// result depends on the pattern and the text alone.
#[verifier::external_body]
fn last_match(pattern: &Pattern, text: &str) -> (r: Option<(usize, usize)>)
    ensures
        r == last_match_of(pattern.source_view(), text@),
        r matches Some((s, e)) ==> s <= e,
{
    match pattern.regex.find_iter(text).last() {
        Some(Ok(m)) => Some((m.start(), m.end())),
        _ => None,
    }
}

/// The first match of `pattern` in `text` (the last one when `rev`), as a
/// character range shifted by `offset`.
pub open spec fn found_match(pattern: Seq<char>, text: Seq<char>, offset: int, rev: bool) -> Option<
    (int, int),
> {
    char_match(
        text,
        if rev {
            last_match_of(pattern, text)
        } else {
            first_match_of(pattern, text)
        },
        offset,
    )
}

/// The first match of `pattern` in `text` (the last one when `rev`), as a
/// character range shifted by `start_offset`.
fn find_pattern(text: &str, pattern: &Pattern, start_offset: usize, rev: bool) -> (r: Option<
    Range<usize>,
>)
    requires
        start_offset + text@.len() <= usize::MAX,
    ensures
        match found_match(pattern.source_view(), text@, start_offset as int, rev) {
            Some((s, e)) => r matches Some(rg) && rg.start == s && rg.end == e,
            None => r is None,
        },
        r matches Some(rg) ==> start_offset <= rg.start <= rg.end <= start_offset + text@.len(),
{
    let m = if rev {
        last_match(pattern, text)
    } else {
        first_match(pattern, text)
    };
    let r = match_range(text, m, start_offset);
    proof {
        if let Some((s, e)) = m {
            if is_boundary(text@, s as int) && is_boundary(text@, e as int) {
                let cs = char_index_of(text@, s as int);
                let ce = char_index_of(text@, e as int);
                if cs > ce {
                    lemma_utf8_len_grows(text@, ce, cs);
                }
            }
        }
    }
    r
}

/// The next match of `pattern` at or after character `start` of `line`: the
/// first match in the characters from `start` on, as a range of the line.
pub open spec fn next_match_of(pattern: Seq<char>, line: Seq<char>, start: int) -> Option<
    (int, int),
> {
    found_match(pattern, line.subrange(start, line.len() as int), start, false)
}

/// `rg` is the next match of `pattern` at or after some character of `line`:
/// the only ranges a whole-line search hands to its callback.
pub open spec fn is_next_match(pattern: Seq<char>, line: Seq<char>, rg: Range<usize>) -> bool {
    exists|s: int|
        0 <= s <= line.len() && #[trigger] next_match_of(pattern, line, s) == Some(
            (rg.start as int, rg.end as int),
        )
}

/// Where a whole-line search resumes after the match `match_start ..
/// match_end` in a line of `len` characters: right after a non-empty match,
/// one character further after an empty one; `None` once that is the end.
pub open spec fn resume_at(match_start: int, match_end: int, len: int) -> Option<int> {
    let next = if match_start < match_end {
        match_end
    } else {
        match_end + 1
    };
    if next < len {
        Some(next)
    } else {
        None
    }
}

/// The successive matches a whole-line search of `pattern` over `line`
/// visits from character `start`: the next match, then those from where
/// the search resumes after it.
pub open spec fn matches_from(pattern: Seq<char>, line: Seq<char>, start: int) -> Seq<(int, int)>
    decreases line.len() - start,
{
    if start < 0 || start > line.len() {
        Seq::empty()
    } else {
        match next_match_of(pattern, line, start) {
            None => Seq::empty(),
            Some((s, e)) => seq![(s, e)] + match resume_at(s, e, line.len() as int) {
                Some(next) => if start < next {
                    matches_from(pattern, line, next)
                } else {
                    Seq::empty()
                },
                None => Seq::empty(),
            },
        }
    }
}

/// The character range `m` as a `Range`.
pub open spec fn as_range(m: (int, int)) -> Range<usize> {
    Range { start: m.0 as usize, end: m.1 as usize }
}

/// `f` may answer `out` when handed the text `line` and the match `m`.
pub open spec fn answers<F: Fn(&str, Range<usize>) -> Result<(), SearchError>>(
    f: F,
    line: Seq<char>,
    m: (int, int),
    out: Result<(), SearchError>,
) -> bool {
    exists|t: &str| t@ == line && #[trigger] f.ensures((t, as_range(m)), out)
}

/// `f` may accept the match `m` of the text `line`, answering `Ok`.
pub open spec fn accepts<F: Fn(&str, Range<usize>) -> Result<(), SearchError>>(
    f: F,
    line: Seq<char>,
    m: (int, int),
) -> bool {
    exists|t: &str, out: Result<(), SearchError>|
        t@ == line && out is Ok && #[trigger] f.ensures((t, as_range(m)), out)
}

/// What a whole-line search does after handing a match to its callback.
#[derive(Debug)]
pub enum SearchStep {
    /// Search again from this character.
    Continue(usize),
    /// Stop, returning this.
    Stop(Result<(), SearchError>),
}

/// The step after the callback answered `result` for the match
/// `match_start .. match_end`: an error stops the search and is returned
/// unchanged; otherwise the search resumes where `resume_at` says, or ends.
pub fn after_match(
    result: Result<(), SearchError>,
    match_start: usize,
    match_end: usize,
    len: usize,
) -> (r: SearchStep)
    requires
        match_start <= match_end <= len,
    ensures
        match result {
            Err(_) => r == SearchStep::Stop(result),
            Ok(()) => match resume_at(match_start as int, match_end as int, len as int) {
                Some(next) => r == SearchStep::Continue(next as usize),
                None => r == SearchStep::Stop(Ok(())),
            },
        },
{
    match result {
        Err(e) => SearchStep::Stop(Err(e)),
        Ok(()) => {
            if match_end >= len {
                return SearchStep::Stop(Ok(()));
            }
            let next = if match_start < match_end {
                match_end
            } else {
                match_end + 1
            };
            if next >= len {
                SearchStep::Stop(Ok(()))
            } else {
                SearchStep::Continue(next)
            }
        },
    }
}

impl Line {
    /// Searches the characters from `start` (default: the beginning) up to
    /// `stop` (default: the end) for the first match of `pattern`, or the
    /// last one when `rev`; the match is returned as a character range of
    /// the line.
    pub fn search_pattern_once(
        &self,
        pattern: &Pattern,
        start: Option<usize>,
        stop: Option<usize>,
        rev: bool,
    ) -> (r: Option<Range<usize>>)
        requires
            ({
                let lo = match start {
                    Some(s) => s as int,
                    None => 0,
                };
                let hi = match stop {
                    Some(s) => s as int,
                    None => self@.len() as int,
                };
                lo <= hi <= self@.len()
            }),
        ensures
            ({
                let lo = match start {
                    Some(s) => s as int,
                    None => 0,
                };
                let hi = match stop {
                    Some(s) => s as int,
                    None => self@.len() as int,
                };
                &&& match found_match(pattern.source_view(), self@.subrange(lo, hi), lo, rev) {
                    Some((s, e)) => r matches Some(rg) && rg.start == s && rg.end == e,
                    None => r is None,
                }
                &&& r matches Some(rg) ==> lo <= rg.start <= rg.end <= hi
            }),
    {
        let start = match start {
            Some(s) => s,
            None => 0,
        };
        let stop = match stop {
            Some(s) => s,
            None => self.len(),
        };
        let mut line = String::new();
        self.sub_str(&mut line, Range { start, end: stop });
        find_pattern(line.as_str(), pattern, start, rev)
    }

    /// The next match of `pattern` at or after character `start`.
    pub fn next_match(&self, pattern: &Pattern, start: usize) -> (r: Option<Range<usize>>)
        requires
            start <= self@.len(),
        ensures
            match next_match_of(pattern.source_view(), self@, start as int) {
                Some((s, e)) => r matches Some(rg) && rg.start == s && rg.end == e,
                None => r is None,
            },
            r matches Some(rg) ==> start <= rg.start <= rg.end <= self@.len(),
    {
        self.search_pattern_once(pattern, Some(start), None, false)
    }

    /// Calls `f` with the line's text and each successive match of
    /// `pattern` (see `next_match`; only such ranges reach `f`), as a
    /// character range, resuming where
    /// `resume_at` says, until there is no further match or `f` fails; `f`'s
    /// error is returned at once, unchanged.
    pub fn search_pattern<F>(&self, pattern: &Pattern, f: F) -> (r: Result<(), SearchError>) where
        F: Fn(&str, Range<usize>) -> Result<(), SearchError>,

        requires
            forall|t: &str, rg: Range<usize>|
                t@ == self@ && is_next_match(pattern.source_view(), self@, rg)
                    ==> #[trigger] f.requires((t, rg)),
        ensures
            ({
                let ms = matches_from(pattern.source_view(), self@, 0);
                &&& r is Ok ==> forall|k: int|
                    0 <= k < ms.len() ==> #[trigger] accepts(f, self@, ms[k])
                &&& r is Err ==> exists|k: int|
                    0 <= k < ms.len() && #[trigger] answers(f, self@, ms[k], r) && forall|j: int|
                        0 <= j < k ==> #[trigger] accepts(f, self@, ms[j])
            }),
            next_match_of(pattern.source_view(), self@, 0) is None ==> r is Ok,
    {
        let text = self.to_string();
        let len = self.len();
        let mut start: usize = 0;
        let ghost ms = matches_from(pattern.source_view(), self@, 0);
        let ghost mut done: Seq<(int, int)> = Seq::empty();
        assert(ms == done + matches_from(pattern.source_view(), self@, 0));
        loop
            invariant
                start <= len == self@.len(),
                text@ == self@,
                ms == matches_from(pattern.source_view(), self@, 0),
                ms == done + matches_from(pattern.source_view(), self@, start as int),
                forall|k: int| 0 <= k < done.len() ==> #[trigger] accepts(f, self@, done[k]),
                next_match_of(pattern.source_view(), self@, 0) is None ==> start == 0,
                forall|t: &str, rg: Range<usize>|
                    t@ == self@ && is_next_match(pattern.source_view(), self@, rg)
                        ==> #[trigger] f.requires((t, rg)),
            decreases len - start,
        {
            match self.next_match(pattern, start) {
                None => {
                    assert(ms =~= done);
                    return Ok(());
                },
                Some(range) => {
                    let match_start = range.start;
                    let match_end = range.end;
                    let ghost handed = range;
                    assert(is_next_match(pattern.source_view(), self@, range));
                    let whole = text.as_str();
                    let result = f(whole, range);
                    let ghost m = (match_start as int, match_end as int);
                    assert(as_range(m) == handed);
                    assert(answers(f, self@, m, result));
                    let ghost answered = result;
                    let ghost rest = matches_from(pattern.source_view(), self@, start as int);
                    assert(rest[0] == m);
                    match after_match(result, match_start, match_end, len) {
                        SearchStep::Continue(next) => {
                            proof {
                                assert(answered is Ok);
                                assert(accepts(f, self@, m));
                                assert(rest =~= seq![m] + matches_from(
                                    pattern.source_view(),
                                    self@,
                                    next as int,
                                ));
                                done = done.push(m);
                                assert(ms =~= done + matches_from(
                                    pattern.source_view(),
                                    self@,
                                    next as int,
                                ));
                            }
                            start = next;
                        },
                        SearchStep::Stop(r) => {
                            proof {
                                if r is Err {
                                    assert(ms[done.len() as int] == m);
                                    assert(forall|j: int|
                                        0 <= j < done.len() ==> ms[j] == done[j]);
                                } else {
                                    assert(answered is Ok);
                                    assert(accepts(f, self@, m));
                                    assert(rest =~= seq![m]);
                                    let all = done.push(m);
                                    assert(ms =~= all);
                                    assert(forall|k: int|
                                        0 <= k < all.len() ==> #[trigger] accepts(
                                            f,
                                            self@,
                                            all[k],
                                        ));
                                }
                            }
                            return r;
                        },
                    }
                },
            }
        }
    }
}

} // verus!
