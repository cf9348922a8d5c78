//! The in-memory chart model and its read/fix/save lifecycle.
//!
//! A [`Chart`] carries the raw lines of one file, the path they were read
//! from, and a dirty flag. The one repair it knows is the channel-02 defect:
//! a directive line `#` + three digits + `02:` whose value runs to ten or
//! more characters is rewritten to the directive prefix plus the value's
//! first ten characters.

use crate::lines::{render, render_lines, split_content, split_lines};
use std::io::Write;
use vstd::prelude::*;

verus! {

/// An ASCII decimal digit.
pub open spec fn is_ascii_digit(c: char) -> bool {
    48 <= c as int <= 57
}

/// A channel-02 directive: `#`, exactly three ASCII digits, then the literal
/// `02:`. The value is everything after the colon, i.e. after index 6.
pub open spec fn is_channel_02_directive(s: Seq<char>) -> bool {
    &&& s.len() >= 7
    &&& s[0] == '#'
    &&& is_ascii_digit(s[1])
    &&& is_ascii_digit(s[2])
    &&& is_ascii_digit(s[3])
    &&& s[4] == '0'
    &&& s[5] == '2'
    &&& s[6] == ':'
}

/// A line that the fix rewrites: a channel-02 directive whose value has at
/// least ten characters (the directive prefix is seven characters, so the
/// whole line has at least seventeen).
pub open spec fn needs_fix(s: Seq<char>) -> bool {
    is_channel_02_directive(s) && s.len() >= 17
}

/// What a line looks like after the fix: a rewritten line keeps the
/// seven-character prefix and the value's first ten characters; every other
/// line is untouched. A value of exactly ten characters is rewritten to
/// itself, which still counts as a rewrite.
pub open spec fn fixed_line(s: Seq<char>) -> Seq<char> {
    if needs_fix(s) {
        s.subrange(0, 17)
    } else {
        s
    }
}

/// The fix is idempotent on a line: fixing an already fixed line changes
/// nothing. A line that needed the fix still matches the rewrite trigger
/// afterwards (its value then has exactly ten characters), so a second pass
/// rewrites it to itself and counts it as a rewrite again.
pub proof fn lemma_fixed_line_idempotent(l: Seq<char>)
    ensures
        fixed_line(fixed_line(l)) == fixed_line(l),
        needs_fix(fixed_line(l)) == needs_fix(l),
{
    if needs_fix(l) {
        let f = l.subrange(0, 17);
        assert(is_channel_02_directive(f));
        assert(f.subrange(0, 17) =~= f);
    }
}

/// The fix is idempotent on a chart's lines: a second pass over lines that
/// came out of a first pass reproduces them, and it finds a line to rewrite
/// exactly when the first pass did, so it reports the same modification.
pub proof fn lemma_fix_idempotent(
    before: Seq<Seq<char>>,
    once: Seq<Seq<char>>,
    twice: Seq<Seq<char>>,
)
    requires
        once.len() == before.len(),
        twice.len() == once.len(),
        forall|i: int| 0 <= i < before.len() ==> once[i] == fixed_line(#[trigger] before[i]),
        forall|i: int| 0 <= i < once.len() ==> twice[i] == fixed_line(#[trigger] once[i]),
    ensures
        twice == once,
        (exists|i: int| 0 <= i < once.len() && needs_fix(#[trigger] once[i])) == (exists|i: int|
            0 <= i < before.len() && needs_fix(#[trigger] before[i])),
{
    assert forall|i: int| 0 <= i < once.len() implies twice[i] == once[i] && needs_fix(
        #[trigger] once[i],
    ) == needs_fix(before[i]) by {
        lemma_fixed_line_idempotent(before[i]);
    }
    assert(twice =~= once);
    assert((exists|i: int| 0 <= i < once.len() && needs_fix(#[trigger] once[i])) == (exists|i: int|
        0 <= i < before.len() && needs_fix(#[trigger] before[i])));
}

/// A line that is not a channel-02 directive is never altered, whatever its
/// length or content.
pub proof fn lemma_non_directive_unchanged(l: Seq<char>)
    requires
        !is_channel_02_directive(l),
    ensures
        fixed_line(l) == l,
{
}

/// Relies on `regex`: the anchored pattern `^#[0-9]{3}02:` matches a string
/// exactly when it starts with `#`, three ASCII digits, and the literal
/// `02:`. The pattern is a valid constant, so compiling it cannot fail, and
/// `is_match` reports whether the anchored match exists.
#[verifier::external_body]
fn matches_channel_02(s: &str) -> (r: bool)
    ensures
        r == is_channel_02_directive(s@),
{
    regex::Regex::new("^#[0-9]{3}02:").unwrap().is_match(s)
}

/// Relies on `std::io::stdout` to report one correction on the diagnostics
/// channel; nothing else is touched, and a write failure is ignored.
#[verifier::external_body]
fn log_fix(path: &str, index: usize, before: &str, after: &str) {
    let _ = writeln!(
        std::io::stdout(),
        "[INFO] File {}, Line {}, fixed: {} => {}",
        path,
        index,
        before,
        after,
    );
}

/// The operations of the chart lifecycle: read, fix, save, and the reader
/// state around them.
pub trait ChartMethods: Sized {
    /// The chart's lines, each as its sequence of characters.
    spec fn lines_view(&self) -> Seq<Seq<char>>;

    /// The path the content was most recently read from.
    spec fn path_view(&self) -> Seq<char>;

    /// Whether any line differs from what was last read.
    spec fn modified_view(&self) -> bool;

    /// The diagnostics level.
    spec fn verbose_view(&self) -> int;

    /// The reserved metadata: title, artist, genre, level.
    spec fn meta_view(&self) -> (Seq<char>, Seq<char>, Seq<char>, int);

    /// Installs the text of the file at `path`, replacing all content and
    /// clearing the dirty flag. The caller hands over the file's text, or the
    /// error it got instead; on an error nothing changes and the same error
    /// comes back, so no partial read is ever observable.
    fn read(&mut self, path: &str, content: Result<String, String>) -> (r: Result<(), String>)
        ensures
            content is Ok ==> {
                &&& r == Ok::<(), String>(())
                &&& final(self).lines_view() == split_lines(content->Ok_0@)
                &&& final(self).path_view() == path@
                &&& final(self).modified_view() == false
                &&& final(self).verbose_view() == old(self).verbose_view()
                &&& final(self).meta_view() == old(self).meta_view()
            },
            content matches Err(e) ==> r == Err::<(), String>(e) && *final(self) == *old(self),
    ;

    /// Rewrites every line that [`needs_fix`] to its [`fixed_line`] form, in
    /// place and in order, and raises the dirty flag exactly when some line
    /// was rewritten. It never fails, and never inserts or deletes lines.
    fn fix(&mut self) -> (r: Result<(), String>)
        ensures
            r == Ok::<(), String>(()),
            final(self).lines_view().len() == old(self).lines_view().len(),
            forall|i: int|
                0 <= i < old(self).lines_view().len() ==> final(self).lines_view()[i]
                    == fixed_line(#[trigger] old(self).lines_view()[i]),
            final(self).modified_view() == (old(self).modified_view() || exists|i: int|
                0 <= i < old(self).lines_view().len() && needs_fix(
                    #[trigger] old(self).lines_view()[i],
                )),
            final(self).path_view() == old(self).path_view(),
            final(self).verbose_view() == old(self).verbose_view(),
            final(self).meta_view() == old(self).meta_view(),
    ;

    /// The text that persisting the chart writes: every line followed by a
    /// newline, in order. The caller takes it to disk; no field changes.
    fn save(&self) -> (out: String)
        ensures
            out@ == render_lines(self.lines_view()),
    ;

    /// Sets the diagnostics level and nothing else.
    fn set_verbose(&mut self, level: i32)
        ensures
            final(self).verbose_view() == level as int,
            final(self).lines_view() == old(self).lines_view(),
            final(self).path_view() == old(self).path_view(),
            final(self).modified_view() == old(self).modified_view(),
            final(self).meta_view() == old(self).meta_view(),
    ;

    /// Whether the chart was modified since it was last read.
    fn is_modified(&self) -> (r: bool)
        ensures
            r == self.modified_view(),
    ;
}

/// The in-memory representation of one chart file.
pub struct Chart {
    /// Raw text lines, the sole carrier of file content.
    pub lines: Vec<String>,
    /// Reserved metadata fields; read-only in this core, no invariant.
    pub title: String,
    pub artist: String,
    pub genre: String,
    pub level: i32,
    /// Diagnostics level: 0 is silent except errors, 1 and above reports
    /// every correction.
    pub verbose: i32,
    /// Where the current content was most recently read from.
    pub path: String,
    /// Whether any line differs from what was last read.
    pub is_modified: bool,
}

impl ChartMethods for Chart {
    open spec fn lines_view(&self) -> Seq<Seq<char>> {
        self.lines.deep_view()
    }

    open spec fn path_view(&self) -> Seq<char> {
        self.path@
    }

    open spec fn modified_view(&self) -> bool {
        self.is_modified
    }

    open spec fn verbose_view(&self) -> int {
        self.verbose as int
    }

    open spec fn meta_view(&self) -> (Seq<char>, Seq<char>, Seq<char>, int) {
        (self.title@, self.artist@, self.genre@, self.level as int)
    }

    fn read(&mut self, path: &str, content: Result<String, String>) -> (r: Result<(), String>) {
        match content {
            Ok(text) => {
                self.lines = split_content(text.as_str());
                self.path = path.to_owned();
                self.is_modified = false;
                Ok(())
            },
            Err(e) => Err(e),
        }
    }

    fn fix(&mut self) -> (r: Result<(), String>) {
        let n = self.lines.len();
        let mut i: usize = 0;
        while i < n
            invariant
                n == self.lines@.len(),
                self.lines@.len() == old(self).lines@.len(),
                i <= n,
                forall|k: int|
                    0 <= k < i ==> self.lines.deep_view()[k] == fixed_line(
                        #[trigger] old(self).lines_view()[k],
                    ),
                forall|k: int| i <= k < n ==> self.lines@[k] == #[trigger] old(self).lines@[k],
                self.is_modified == (old(self).is_modified || exists|k: int|
                    0 <= k < i && needs_fix(#[trigger] old(self).lines_view()[k])),
                self.path == old(self).path,
                self.verbose == old(self).verbose,
                self.title == old(self).title,
                self.artist == old(self).artist,
                self.genre == old(self).genre,
                self.level == old(self).level,
            decreases n - i,
        {
            let ghost prev = old(self).lines_view()[i as int];
            proof {
                assert(self.lines@[i as int] == old(self).lines@[i as int]);
                assert(self.lines.deep_view()[i as int] == prev);
            }
            if matches_channel_02(self.lines[i].as_str()) {
                let len = self.lines[i].as_str().unicode_len();
                if len >= 17 {
                    let fixed: String = String::from_str(
                        self.lines[i].as_str().substring_char(0, 17),
                    );
                    if self.verbose > 0 {
                        let before: &str = self.lines[i].as_str().substring_char(7, len);
                        let after: &str = fixed.as_str().substring_char(7, 17);
                        log_fix(self.path.as_str(), i, before, after);
                    }
                    self.lines[i] = fixed;
                    self.is_modified = true;
                    proof {
                        assert(needs_fix(old(self).lines_view()[i as int]));
                        assert(self.lines.deep_view()[i as int] == fixed_line(prev));
                    }
                } else {
                    proof {
                        assert(!needs_fix(old(self).lines_view()[i as int]));
                        assert((exists|k: int|
                            0 <= k < i + 1 && needs_fix(
                                #[trigger] old(self).lines_view()[k],
                            )) == (exists|k: int|
                            0 <= k < i && needs_fix(#[trigger] old(self).lines_view()[k])));
                    }
                }
            } else {
                proof {
                    assert(!needs_fix(old(self).lines_view()[i as int]));
                    assert((exists|k: int|
                        0 <= k < i + 1 && needs_fix(#[trigger] old(self).lines_view()[k]))
                        == (exists|k: int|
                        0 <= k < i && needs_fix(#[trigger] old(self).lines_view()[k])));
                }
            }
            i += 1;
        }
        Ok(())
    }

    fn save(&self) -> (out: String) {
        render(&self.lines)
    }

    fn set_verbose(&mut self, level: i32) {
        self.verbose = level;
    }

    fn is_modified(&self) -> (r: bool) {
        self.is_modified
    }
}

impl Default for Chart {
    /// A chart with no content: every field at its zero or empty default.
    fn default() -> (c: Self)
        ensures
            c.lines@ == Seq::<String>::empty(),
            c.title@ == Seq::<char>::empty(),
            c.artist@ == Seq::<char>::empty(),
            c.genre@ == Seq::<char>::empty(),
            c.level == 0,
            c.verbose == 0,
            c.path@ == Seq::<char>::empty(),
            c.is_modified == false,
    {
        Chart {
            lines: Vec::new(),
            title: String::new(),
            artist: String::new(),
            genre: String::new(),
            level: 0,
            verbose: 0,
            path: String::new(),
            is_modified: false,
        }
    }
}

} // verus!
