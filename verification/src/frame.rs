//! A plain frame: a cache of lines and the range of them that is shown,
//! one line to a row from the top of the terminal.

use crate::screen::glyph_at;
use crate::screen::Span;
use crate::screen::Style;
use std::fmt::Display;
use vstd::prelude::*;
use vstd::std_specs::iter::IteratorSpec;
use vstd::string::*;

verus! {

/// The size of the terminal: `y` rows and `x` columns.
pub struct FrameSize {
    pub y: i32,
    pub x: i32,
}

impl FrameSize {
    /// The size of a terminal that was measured as `y` rows and `x`
    /// columns.
    pub fn new(y: i32, x: i32) -> (size: FrameSize)
        ensures
            size.y == y,
            size.x == x,
    {
        FrameSize { y, x }
    }

    /// Takes over what the terminal was measured as.
    pub fn refresh(&mut self, y: i32, x: i32)
        ensures
            final(self).y == y,
            final(self).x == x,
    {
        self.y = y;
        self.x = x;
    }
}

/// `text` with every occurrence of `from` replaced by `to`, found from left
/// to right, each search going on behind the last occurrence found. An
/// empty `from` is found before every character and at the end.
pub open spec fn replaced(text: Seq<char>, from: Seq<char>, to: Seq<char>) -> Seq<char>
    decreases text.len(),
{
    if text.len() == 0 {
        if from.len() == 0 {
            to
        } else {
            text
        }
    } else if from.len() == 0 {
        to + seq![glyph_at(text, 0)] + replaced(text.skip(1), from, to)
    } else if from.len() <= text.len() && text.take(from.len() as int) == from {
        to + replaced(text.skip(from.len() as int), from, to)
    } else {
        seq![glyph_at(text, 0)] + replaced(text.skip(1), from, to)
    }
}

/// The characters of `text`.
fn chars_of(text: &str) -> (list: Vec<char>)
    ensures
        list@ == text@,
{
    let mut list: Vec<char> = Vec::new();
    let mut chars = text.chars();
    let ghost mut done: int = 0;
    proof {
        broadcast use vstd::string::group_string_axioms;

        assert(text@.skip(0) =~= text@);
        assert(list@ =~= text@.take(0));
    }
    loop
        invariant_except_break
            chars.remaining() == text@.skip(done),
        invariant
            0 <= done <= text@.len(),
            list@ == text@.take(done),
        ensures
            list@ == text@,
        decreases text@.len() - done,
    {
        let next = chars.next();
        proof {
            broadcast use vstd::string::group_string_axioms;

        }
        match next {
            Some(c) => {
                list.push(c);
                proof {
                    assert(text@.skip(done)[0] == c);
                    assert(text@.skip(done).drop_first() =~= text@.skip(done + 1));
                    assert(list@ =~= text@.take(done + 1));
                    done = done + 1;
                }
            },
            None => {
                proof {
                    assert(text@.skip(done).len() == 0);
                    assert(text@.take(done) =~= text@);
                }
                break;
            },
        }
    }
    list
}

/// Whether `pattern` stands in `text` at position `at`.
fn stands_at(text: &Vec<char>, at: usize, pattern: &Vec<char>) -> (found: bool)
    requires
        at <= text@.len(),
    ensures
        found == (pattern@.len() <= text@.len() - at && text@.skip(at as int).take(
            pattern@.len() as int,
        ) == pattern@),
{
    if pattern.len() > text.len() - at {
        return false;
    }
    let ghost rest = text@.skip(at as int);
    let mut i: usize = 0;
    while i < pattern.len()
        invariant
            i <= pattern@.len() <= text@.len() - at,
            text@.len() <= usize::MAX,
            rest == text@.skip(at as int),
            forall|j: int| 0 <= j < i ==> text@[at + j] == pattern@[j],
        decreases pattern@.len() - i,
    {
        if text[at + i] != pattern[i] {
            proof {
                assert(rest.take(pattern@.len() as int)[i as int] == text@[at + i]);
            }
            return false;
        }
        i = i + 1;
    }
    assert(rest.take(pattern@.len() as int) =~= pattern@);
    true
}

/// `text` with every occurrence of `from` replaced by `to`.
pub fn replace_all(text: &str, from: &str, to: &str) -> (out: String)
    ensures
        out@ == replaced(text@, from@, to@),
{
    let chars = chars_of(text);
    let pattern = chars_of(from);
    let mut out = String::new();
    let mut at: usize = 0;
    proof {
        assert(text@.skip(0) =~= text@);
        assert(out@ + replaced(text@, from@, to@) =~= replaced(text@, from@, to@));
    }
    while at < chars.len()
        invariant
            at <= chars@.len(),
            chars@ == text@,
            pattern@ == from@,
            replaced(text@, from@, to@) == out@ + replaced(text@.skip(at as int), from@, to@),
        decreases chars@.len() - at,
    {
        let ghost rest = text@.skip(at as int);
        let ghost so_far = out@;
        if pattern.len() == 0 {
            out.append(to);
            out.push(chars[at]);
            proof {
                assert(rest.skip(1) =~= text@.skip(at + 1));
                assert(glyph_at(rest, 0) == chars@[at as int]);
                assert(so_far + (to@ + seq![glyph_at(rest, 0)] + replaced(rest.skip(1), from@, to@))
                    =~= out@ + replaced(text@.skip(at + 1), from@, to@));
            }
            at = at + 1;
        } else if stands_at(&chars, at, &pattern) {
            out.append(to);
            proof {
                assert(rest.skip(from@.len() as int) =~= text@.skip(at + from@.len()));
                assert(so_far + (to@ + replaced(rest.skip(from@.len() as int), from@, to@))
                    =~= out@ + replaced(text@.skip(at + from@.len()), from@, to@));
            }
            at = at + pattern.len();
        } else {
            out.push(chars[at]);
            proof {
                assert(rest.skip(1) =~= text@.skip(at + 1));
                assert(glyph_at(rest, 0) == chars@[at as int]);
                assert(so_far + (seq![glyph_at(rest, 0)] + replaced(rest.skip(1), from@, to@))
                    =~= out@ + replaced(text@.skip(at + 1), from@, to@));
            }
            at = at + 1;
        }
    }
    proof {
        assert(text@.skip(at as int).len() == 0);
    }
    if pattern.len() == 0 {
        out.append(to);
    } else {
        assert(out@ + Seq::<char>::empty() =~= out@);
    }
    out
}

/// `repr` is the line of an item: the icon, a space, the prefix, and a text
/// that `item` displays as.
pub open spec fn line_of<D: Display + ?Sized>(
    item: &D,
    prefix: Seq<char>,
    icon: Seq<char>,
    repr: Seq<char>,
) -> bool {
    exists|text: String| #[trigger]
        to_string_from_display_ensures::<D>(item, text) && repr == icon + seq![' '] + prefix
            + text@
}

/// A line of the frame: an icon, a prefix and a text.
pub struct Item {
    pub repr: String,
    pub index: i32,
    pub icon: String,
}

impl Item {
    /// The line of `item` with the given prefix and icon.
    pub fn new<D: Display + ?Sized>(
        item: &D,
        index: i32,
        prefix: String,
        icon: &String,
    ) -> (made: Item)
        ensures
            made.index == index,
            made.icon@ == icon@,
            line_of(item, prefix@, icon@, made.repr@),
    {
        let icon = icon.clone();
        let text = item.to_string();
        let mut repr = icon.clone();
        proof {
            reveal_strlit(" ");
            assert(" "@ =~= seq![' ']);
        }
        repr.append(" ");
        repr.append(prefix.as_str());
        repr.append(text.as_str());
        assert(to_string_from_display_ensures::<D>(item, text));
        Item { repr, index, icon }
    }

    /// Replaces the icon in the line, wherever it stands, by `icon`.
    pub fn choose_icon(&mut self, icon: String)
        ensures
            final(self).repr@ == replaced(old(self).repr@, old(self).icon@, icon@),
            final(self).icon == old(self).icon,
            final(self).index == old(self).index,
    {
        self.repr = replace_all(self.repr.as_str(), self.icon.as_str(), icon.as_str());
    }

    /// The line of a text with a fixed icon and prefix, at index 0.
    pub fn from_string(val: &str) -> (made: Item)
        ensures
            made.index == 0,
            made.icon@ == seq!['‚', 'ù', 'Ø'],
            made.repr@ == seq!['‚', 'ù', 'Ø', ' ', 'p', 'r', 'e', '.', ' '] + val@,
    {
        proof {
            broadcast use vstd::string::group_string_axioms;

            reveal_strlit("‚ùØ");
            reveal_strlit("pre. ");
            assert("‚ùØ"@ =~= seq!['‚', 'ù', 'Ø']);
            assert("pre. "@ =~= seq!['p', 'r', 'e', '.', ' ']);
        }
        let icon = String::from_str("‚ùØ");
        let prefix = String::from_str("pre. ");
        let index: i32 = 0;
        let made = Item::new(val, index, prefix, &icon);
        proof {
            let text = choose|text: String| #[trigger]
                to_string_from_display_ensures::<str>(val, text) && made.repr@ == icon@ + seq![
                    ' ',
                ] + prefix@ + text@;
            assert(text@ == val@);
            assert(made.repr@ =~= seq!['‚', 'ù', 'Ø', ' ', 'p', 'r', 'e', '.', ' '] + val@);
        }
        made
    }

    /// The line.
    pub fn to_text(&self) -> (line: String)
        ensures
            line@ == self.repr@,
    {
        self.repr.clone()
    }
}

/// A number of rows as an index of the cache: a negative number counts
/// down from beyond the largest index.
pub open spec fn as_index(rows: i32) -> int {
    if rows >= 0 {
        rows as int
    } else {
        usize::MAX + 1 + rows
    }
}

/// The step of a scroll: one line if none is given.
pub open spec fn step_of(step: Option<isize>) -> int {
    match step {
        Some(val) => val as int,
        None => 1,
    }
}

/// The lines sent so far, the range of them that is shown, and the size of
/// the terminal.
pub struct Frame {
    pub cache: Vec<Item>,
    pub range: (usize, usize),
    pub size: FrameSize,
}

impl Frame {
    /// How many lines a frame shows: those of the range that are in the
    /// cache.
    pub open spec fn shown(self) -> int {
        let end = if self.range.1 <= self.cache@.len() {
            self.range.1 as int
        } else {
            self.cache@.len() as int
        };
        if end > self.range.0 {
            end - self.range.0
        } else {
            0
        }
    }

    /// An empty frame for a terminal of the given size, which shows as many
    /// lines as the terminal has rows.
    pub fn new(size: FrameSize) -> (frame: Frame)
        ensures
            frame.cache@.len() == 0,
            frame.range.0 == 0,
            frame.range.1 == as_index(size.y),
            frame.size == size,
    {
        let rows: usize = if size.y >= 0 {
            size.y as usize
        } else {
            usize::MAX - ((-(size.y + 1)) as usize)
        };
        Frame { cache: Vec::new(), range: (0, rows), size }
    }

    /// The rows of the terminal as it was last measured.
    pub fn height(&self) -> (rows: i32)
        ensures
            rows == self.size.y,
    {
        self.size.y
    }

    /// The columns of the terminal as it was last measured.
    pub fn width(&self) -> (columns: i32)
        ensures
            columns == self.size.x,
    {
        self.size.x
    }

    /// Whether [`Frame::refresh`] can be called: the rows of the lines that
    /// are shown can be counted.
    pub fn refreshable(&self) -> (ok: bool)
        ensures
            ok == (self.shown() <= i32::MAX),
    {
        let end: usize = if self.range.1 <= self.cache.len() {
            self.range.1
        } else {
            self.cache.len()
        };
        end <= self.range.0 || end - self.range.0 <= 2147483647
    }

    /// Takes over the size that the terminal was measured as and draws the
    /// lines that are shown, one to a row from the top of the terminal.
    pub fn refresh(&mut self, y: i32, x: i32) -> (out: Vec<Span>)
        requires
            old(self).shown() <= i32::MAX,
        ensures
            final(self).size.y == y,
            final(self).size.x == x,
            final(self).cache == old(self).cache,
            final(self).range == old(self).range,
            out@.len() == old(self).shown(),
            forall|row: int|
                0 <= row < out@.len() ==> {
                    &&& (#[trigger] out@[row]).y == row
                    &&& out@[row].x == 0
                    &&& out@[row].style == Style::Plain
                    &&& out@[row].text@ == old(self).cache@[old(self).range.0 + row].repr@
                },
    {
        self.size.refresh(y, x);
        let end: usize = if self.range.1 <= self.cache.len() {
            self.range.1
        } else {
            self.cache.len()
        };
        let mut out: Vec<Span> = Vec::new();
        let mut i: usize = self.range.0;
        while i < end
            invariant
                self.cache == old(self).cache,
                self.range == old(self).range,
                end <= self.cache@.len(),
                end - self.range.0 <= i32::MAX,
                self.range.0 <= i <= end || (i == self.range.0 && i > end),
                i <= end ==> out@.len() == i - self.range.0,
                i > end ==> out@.len() == 0,
                forall|row: int|
                    0 <= row < out@.len() ==> {
                        &&& (#[trigger] out@[row]).y == row
                        &&& out@[row].x == 0
                        &&& out@[row].style == Style::Plain
                        &&& out@[row].text@ == self.cache@[self.range.0 + row].repr@
                    },
            decreases end - i,
        {
            let row: i32 = (i - self.range.0) as i32;
            out.push(Span { y: row, x: 0, text: self.cache[i].to_text(), style: Style::Plain });
            i = i + 1;
        }
        out
    }

    /// Adds a line behind the lines sent so far.
    pub fn send(&mut self, item: Item)
        ensures
            final(self).cache@ == old(self).cache@.push(item),
            final(self).range == old(self).range,
            final(self).size == old(self).size,
    {
        self.cache.push(item);
    }

    /// Whether the range can be moved by `step`: the range does not start
    /// or end before `step`, and its new start and end can be stored.
    pub open spec fn can_scroll(self, step: int) -> bool {
        &&& step <= self.range.0
        &&& step <= self.range.1
        &&& self.range.0 - step <= usize::MAX
        &&& self.range.1 - step <= usize::MAX
    }

    /// Whether [`Frame::scroll`] can be called with `step`: where the range
    /// moves, its new start and end can be stored.
    pub fn scrollable(&self, step: Option<isize>) -> (ok: bool)
        ensures
            ok == (step_of(step) <= self.range.0 && step_of(step) <= self.range.1
                ==> self.can_scroll(step_of(step))),
    {
        let by: i128 = match step {
            Some(val) => val as i128,
            None => 1,
        };
        if by <= self.range.0 as i128 && by <= self.range.1 as i128 {
            self.range.0 as i128 - by <= usize::MAX as i128 && self.range.1 as i128 - by
                <= usize::MAX as i128
        } else {
            true
        }
    }

    /// Moves the range `step` lines towards the first line, one line if no
    /// step is given, unless it would start or end before the first line.
    pub fn scroll(&mut self, step: Option<isize>)
        requires
            step_of(step) <= old(self).range.0 && step_of(step) <= old(self).range.1
                ==> old(self).can_scroll(step_of(step)),
        ensures
            ({
                let by = step_of(step);
                if old(self).can_scroll(by) {
                    &&& final(self).range.0 == old(self).range.0 - by
                    &&& final(self).range.1 == old(self).range.1 - by
                } else {
                    final(self).range == old(self).range
                }
            }),
            final(self).cache == old(self).cache,
            final(self).size == old(self).size,
    {
        let step: isize = match step {
            Some(val) => val,
            None => 1,
        };
        if self.range.0 as i128 >= step as i128 && self.range.1 as i128 >= step as i128 {
            self.range.1 = (self.range.1 as i128 - step as i128) as usize;
            self.range.0 = (self.range.0 as i128 - step as i128) as usize;
        }
    }
}

} // verus!
