//! The message log: finished lines of colored text, and the line being
//! written.

use vstd::prelude::*;
use vstd::string::StrSliceExecFns;

verus! {

/// The color log text starts in.
pub const WHITE: (u8, u8, u8) = (255, 255, 255);

/// A piece of a log line: text, or a change of color for the text after.
pub enum LogEntry {
    Text(String),
    Color((u8, u8, u8)),
}

/// The message log.
pub struct GameLog {
    /// The finished lines, oldest first.
    pub entries: Vec<Vec<LogEntry>>,
    /// The line being written.
    pub current_line: Vec<LogEntry>,
}

/// Where each text of a line goes when the line is drawn from column `x`
/// in `color`, from its `k`-th piece on: the piece's index, its column and
/// its color. A text moves the column on by its number of characters; a
/// color applies to the texts after it.
pub open spec fn layout_from(line: Seq<LogEntry>, k: int, x: int, color: (u8, u8, u8)) -> Seq<
    (usize, int, (u8, u8, u8)),
>
    decreases line.len() - k,
{
    if k < 0 || k >= line.len() {
        Seq::empty()
    } else {
        match line[k] {
            LogEntry::Text(t) => seq![(k as usize, x, color)] + layout_from(
                line,
                k + 1,
                x + t@.len(),
                color,
            ),
            LogEntry::Color(c) => layout_from(line, k + 1, x, c),
        }
    }
}

/// The number of characters in the texts of a line from its `k`-th piece
/// on.
pub open spec fn text_len_from(line: Seq<LogEntry>, k: int) -> int
    decreases line.len() - k,
{
    if k < 0 || k >= line.len() {
        0
    } else {
        match line[k] {
            LogEntry::Text(t) => t@.len() + text_len_from(line, k + 1),
            LogEntry::Color(_) => text_len_from(line, k + 1),
        }
    }
}

/// The number of characters is never negative.
pub proof fn lemma_text_len_nonneg(line: Seq<LogEntry>, k: int)
    ensures
        text_len_from(line, k) >= 0,
    decreases line.len() - k,
{
    if 0 <= k < line.len() {
        lemma_text_len_nonneg(line, k + 1);
    }
}

/// Where each text of a line goes: its piece's index, its column and its
/// color, starting from column 1 in white; see `layout_from`.
pub fn line_layout(line: &Vec<LogEntry>) -> (r: Vec<(usize, usize, (u8, u8, u8))>)
    requires
        text_len_from(line@, 0) < usize::MAX,
    ensures
        r@.len() == layout_from(line@, 0, 1, WHITE).len(),
        forall|k: int|
            0 <= k < r@.len() ==> {
                let (i, x, c) = #[trigger] r@[k];
                (i, x as int, c) == layout_from(line@, 0, 1, WHITE)[k]
            },
{
    let mut r: Vec<(usize, usize, (u8, u8, u8))> = Vec::new();
    let mut x: usize = 1;
    let mut color = WHITE;
    let ghost mut done: Seq<(usize, int, (u8, u8, u8))> = Seq::empty();
    for k in 0..line.len()
        invariant
            done + layout_from(line@, k as int, x as int, color) == layout_from(line@, 0, 1, WHITE),
            x as int + text_len_from(line@, k as int) == 1 + text_len_from(line@, 0),
            text_len_from(line@, 0) < usize::MAX,
            r@.len() == done.len(),
            forall|j: int|
                0 <= j < r@.len() ==> {
                    let (i, xx, c) = #[trigger] r@[j];
                    (i, xx as int, c) == done[j]
                },
    {
        match &line[k] {
            LogEntry::Text(text) => {
                proof {
                    lemma_text_len_nonneg(line@, k + 1);
                    assert(done.push((k as usize, x as int, color)) + layout_from(
                        line@,
                        k + 1,
                        x + text@.len(),
                        color,
                    ) =~= done + layout_from(line@, k as int, x as int, color));
                    done = done.push((k as usize, x as int, color));
                }
                r.push((k, x, color));
                x = x + text.as_str().unicode_len();
            },
            LogEntry::Color(c) => {
                color = *c;
            },
        }
    }
    r
}

impl GameLog {
    /// An empty log.
    pub fn new() -> (r: Self)
        ensures
            r.entries@.len() == 0,
            r.current_line@.len() == 0,
    {
        GameLog { entries: Vec::new(), current_line: Vec::new() }
    }

    /// Adds text to the line being written.
    pub fn write_text(&mut self, s: String)
        ensures
            final(self).current_line@ == old(self).current_line@.push(LogEntry::Text(s)),
            final(self).entries == old(self).entries,
    {
        self.current_line.push(LogEntry::Text(s));
    }

    /// Changes the color of the text written after.
    pub fn set_color(&mut self, color: (u8, u8, u8))
        ensures
            final(self).current_line@ == old(self).current_line@.push(LogEntry::Color(color)),
            final(self).entries == old(self).entries,
    {
        self.current_line.push(LogEntry::Color(color));
    }

    /// Finishes the line being written: it becomes the newest line of the
    /// log, and an empty line is begun.
    pub fn end_of_line(&mut self)
        ensures
            final(self).entries@ == old(self).entries@.push(old(self).current_line),
            final(self).current_line@.len() == 0,
    {
        let mut line: Vec<LogEntry> = Vec::new();
        std::mem::swap(&mut line, &mut self.current_line);
        self.entries.push(line);
    }

    /// The index of the oldest line shown when `rows` lines fit: the newest
    /// `rows` lines are shown, or all of them when fewer.
    pub fn first_shown(&self, rows: u32) -> (first: usize)
        ensures
            first == (if (rows as int) < self.entries@.len() {
                self.entries@.len() - rows
            } else {
                0
            }),
    {
        let rows = rows as usize;
        let l = self.entries.len();
        if rows < l {
            l - rows
        } else {
            0
        }
    }
}

} // verus!
