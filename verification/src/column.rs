//! The columns of the details view, and the cells they are made of.

use vstd::prelude::*;

use crate::colours::Style;
use crate::output::table::{SizeFormat, TimeType};
use crate::text::push_char;

verus! {

/// A column of the details view.
#[derive(PartialEq, Eq, Debug, Copy, Clone)]
pub enum Column {
    Permissions,
    FileSize(SizeFormat),
    Timestamp(TimeType),
    Blocks,
    User,
    Group,
    HardLinks,
    Inode,
    GitStatus,
}

/// Each column can pick its own **Alignment**. Usually, numbers are
/// right-aligned, and text is left-aligned.
#[derive(PartialEq, Eq, Debug, Copy, Clone)]
pub enum Alignment {
    Left,
    Right,
}

impl Column {
    /// Get the alignment this column should use: numbers and the Git status
    /// are right-aligned, the rest left-aligned.
    pub fn alignment(&self) -> (r: Alignment)
        ensures
            r == (match *self {
                Column::FileSize(_) | Column::HardLinks | Column::Inode | Column::Blocks | Column::GitStatus => Alignment::Right,
                _ => Alignment::Left,
            }),
    {
        match *self {
            Column::FileSize(_) => Alignment::Right,
            Column::HardLinks => Alignment::Right,
            Column::Inode => Alignment::Right,
            Column::Blocks => Alignment::Right,
            Column::GitStatus => Alignment::Right,
            _ => Alignment::Left,
        }
    }

    /// Get the text that should be printed at the top, when the user elects
    /// to have a header row printed.
    pub fn header(&self) -> (r: &'static str)
        ensures
            r == (match *self {
                Column::Permissions => "Permissions",
                Column::FileSize(_) => "Size",
                Column::Timestamp(t) => match t {
                    TimeType::Modified => "Date Modified",
                    TimeType::Changed => "Date Changed",
                    TimeType::Accessed => "Date Accessed",
                    TimeType::Created => "Date Created",
                },
                Column::Blocks => "Blocks",
                Column::User => "User",
                Column::Group => "Group",
                Column::HardLinks => "Links",
                Column::Inode => "inode",
                Column::GitStatus => "Git",
            }),
    {
        match *self {
            Column::Permissions => "Permissions",
            Column::FileSize(_) => "Size",
            Column::Timestamp(t) => t.header(),
            Column::Blocks => "Blocks",
            Column::User => "User",
            Column::Group => "Group",
            Column::HardLinks => "Links",
            Column::Inode => "inode",
            Column::GitStatus => "Git",
        }
    }
}

/// `n` spaces.
pub open spec fn spaces(n: nat) -> Seq<char> {
    Seq::new(n, |_i: int| ' ')
}

fn push_spaces(s: &mut String, count: usize)
    ensures
        final(s)@ == old(s)@ + spaces(count as nat),
{
    let ghost start = s@;
    let mut i: usize = 0;
    while i < count
        invariant
            0 <= i <= count,
            s@ == start + spaces(i as nat),
        decreases count - i,
    {
        push_char(s, ' ');
        i = i + 1;
        assert(s@ =~= start + spaces(i as nat));
    }
}

impl Alignment {
    /// Pads a string with the given number of spaces, on the right for
    /// left-aligned text and on the left for right-aligned text. It takes
    /// the amount of padding to apply, rather than the width the text should
    /// end up, because these strings are usually full of control characters.
    pub fn pad_string(&self, string: &String, padding: usize) -> (r: String)
        ensures
            r@ == (match *self {
                Alignment::Left => string@ + spaces(padding as nat),
                Alignment::Right => spaces(padding as nat) + string@,
            }),
    {
        let mut s = String::new();
        match *self {
            Alignment::Left => {
                s.append(string.as_str());
                push_spaces(&mut s, padding);
            },
            Alignment::Right => {
                push_spaces(&mut s, padding);
                s.append(string.as_str());
            },
        }
        s
    }
}

/// The number of columns a string takes up on a terminal, as the
/// `unicode-width` crate measures it.
pub uninterp spec fn display_width(s: Seq<char>) -> usize;

/// Calls `UnicodeWidthStr::width`. The result is named by `display_width`.
#[verifier::external_body]
fn unicode_width(s: &str) -> (r: usize)
    ensures
        r == display_width(s@),
{
    unicode_width::UnicodeWidthStr::width(s)
}

/// A cell of the details table: its text, with any escape sequences, and
/// the width it takes up on the terminal.
#[derive(PartialEq, Eq, Debug, Clone)]
pub struct Cell {
    pub length: usize,
    pub text: String,
}

impl Cell {
    /// A cell with no text.
    pub fn empty() -> (r: Cell)
        ensures
            r.length == 0,
            r.text@ == Seq::<char>::empty(),
    {
        Cell { text: String::new(), length: 0 }
    }

    /// A cell holding the string painted in the style; its width is the
    /// width of the string without the escape sequences.
    pub fn paint(style: Style, string: &str) -> (r: Cell)
        ensures
            r.text@ == style.spec_paint(string@),
            r.length == display_width(string@),
    {
        Cell { text: style.paint(string), length: unicode_width(string) }
    }

    /// Adds `count` spaces to the end of the cell.
    pub fn add_spaces(&mut self, count: usize)
        requires
            old(self).length + count <= usize::MAX,
        ensures
            final(self).length == old(self).length + count,
            final(self).text@ == old(self).text@ + spaces(count as nat),
    {
        self.length = self.length + count;
        push_spaces(&mut self.text, count);
    }

    /// Adds the other cell's text and width to the end of this one.
    pub fn append(&mut self, other: &Cell)
        requires
            old(self).length + other.length <= usize::MAX,
        ensures
            final(self).length == old(self).length + other.length,
            final(self).text@ == old(self).text@ + other.text@,
    {
        self.length = self.length + other.length;
        self.text.append(other.text.as_str());
    }
}

} // verus!
