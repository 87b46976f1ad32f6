//! Piece patterns: a name, a color and the cells of the shape.

use crate::utils::colors::{BLUE, GREEN, INDIGO, LIGHT_BLUE, LIME, ORANGE, PURPLE, RED, YELLOW};
use vstd::prelude::*;
use vstd::string::StrSliceExecFns;

verus! {

/// The color tag of a pattern and of the cells it fills.
#[derive(Clone, Copy, Debug, PartialEq, Eq, Structural, Hash)]
pub enum PatternColor {
    Red,
    Orange,
    Yellow,
    Lime,
    Green,
    LightBlue,
    Blue,
    Indigo,
    Purple,
}

impl Default for PatternColor {
    fn default() -> (c: PatternColor)
        ensures
            c == PatternColor::Red,
    {
        PatternColor::Red
    }
}

/// The color called `name`; red where no color is called so.
pub open spec fn color_named(name: Seq<char>) -> PatternColor {
    if name == "red"@ {
        PatternColor::Red
    } else if name == "orange"@ {
        PatternColor::Orange
    } else if name == "yellow"@ {
        PatternColor::Yellow
    } else if name == "lime"@ {
        PatternColor::Lime
    } else if name == "green"@ {
        PatternColor::Green
    } else if name == "light blue"@ {
        PatternColor::LightBlue
    } else if name == "blue"@ {
        PatternColor::Blue
    } else if name == "indigo"@ {
        PatternColor::Indigo
    } else if name == "purple"@ {
        PatternColor::Purple
    } else {
        PatternColor::Red
    }
}

/// Whether two texts are the same.
fn same_text(a: &str, b: &str) -> (same: bool)
    ensures
        same == (a@ == b@),
{
    a.to_owned() == b.to_owned()
}

impl PatternColor {
    /// The color called `name`; red where no color is called so.
    pub fn from_name(name: &str) -> (c: PatternColor)
        ensures
            c == color_named(name@),
    {
        if same_text(name, "red") {
            PatternColor::Red
        } else if same_text(name, "orange") {
            PatternColor::Orange
        } else if same_text(name, "yellow") {
            PatternColor::Yellow
        } else if same_text(name, "lime") {
            PatternColor::Lime
        } else if same_text(name, "green") {
            PatternColor::Green
        } else if same_text(name, "light blue") {
            PatternColor::LightBlue
        } else if same_text(name, "blue") {
            PatternColor::Blue
        } else if same_text(name, "indigo") {
            PatternColor::Indigo
        } else if same_text(name, "purple") {
            PatternColor::Purple
        } else {
            PatternColor::Red
        }
    }

    /// The color as red, green and blue.
    pub fn rgb(self) -> (c: [u8; 3])
        ensures
            c == match self {
                PatternColor::Red => RED,
                PatternColor::Orange => ORANGE,
                PatternColor::Yellow => YELLOW,
                PatternColor::Lime => LIME,
                PatternColor::Green => GREEN,
                PatternColor::LightBlue => LIGHT_BLUE,
                PatternColor::Blue => BLUE,
                PatternColor::Indigo => INDIGO,
                PatternColor::Purple => PURPLE,
            },
    {
        match self {
            PatternColor::Red => RED,
            PatternColor::Orange => ORANGE,
            PatternColor::Yellow => YELLOW,
            PatternColor::Lime => LIME,
            PatternColor::Green => GREEN,
            PatternColor::LightBlue => LIGHT_BLUE,
            PatternColor::Blue => BLUE,
            PatternColor::Indigo => INDIGO,
            PatternColor::Purple => PURPLE,
        }
    }
}

/// A named, colored shape: the cells it fills, as offsets from its origin.
#[derive(Clone, Debug, PartialEq, Eq, Hash)]
pub struct Pattern {
    pub name: String,
    pub color: PatternColor,
    pub blocks: Vec<(isize, isize)>,
}

/// What a pattern holds.
pub struct PatternView {
    pub name: Seq<char>,
    pub color: PatternColor,
    pub blocks: Seq<(isize, isize)>,
}

impl View for Pattern {
    type V = PatternView;

    open spec fn view(&self) -> PatternView {
        PatternView { name: self.name@, color: self.color, blocks: self.blocks@ }
    }
}

/// The sign for a cell that the shape leaves out: a large black square.
pub const GAP: char = '\u{2B1B}';

/// The sign for a cell of the shape: a large white square.
pub const BLOCK: char = '\u{2B1C}';

/// The place of the first line break of `text` at or after `from`; the
/// length of `text` where there is none.
pub open spec fn line_end(text: Seq<char>, from: int) -> int
    decreases text.len() - from,
{
    if from < 0 || from >= text.len() {
        text.len() as int
    } else if text[from] == '\n' {
        from
    } else {
        line_end(text, from + 1)
    }
}

/// Whether `text` has the two lines that come before a shape: a name and
/// a color, each ended by a line break.
pub open spec fn has_header(text: Seq<char>) -> bool {
    let name_end = line_end(text, 0);
    name_end < text.len() && line_end(text, name_end + 1) < text.len()
}

/// The blocks that the signs of `text` from `from` on stand for, read
/// from the cell `(x, y)`: a gap moves one cell to the right, a block
/// fills the cell and moves on, a line break goes to the start of the row
/// below, and any other sign is passed over.
pub open spec fn shape(text: Seq<char>, from: int, x: int, y: int) -> Seq<(isize, isize)>
    decreases text.len() - from,
{
    if from < 0 || from >= text.len() {
        Seq::empty()
    } else if text[from] == GAP {
        shape(text, from + 1, x + 1, y)
    } else if text[from] == BLOCK {
        seq![(x as isize, y as isize)] + shape(text, from + 1, x + 1, y)
    } else if text[from] == '\n' {
        shape(text, from + 1, 0, y - 1)
    } else {
        shape(text, from + 1, x, y)
    }
}

/// The pattern that `text` describes: its first line is the name, its
/// second the color, and the rest draws the shape.
pub open spec fn parsed(text: Seq<char>) -> PatternView {
    let name_end = line_end(text, 0);
    let color_end = line_end(text, name_end + 1);
    PatternView {
        name: text.subrange(0, name_end),
        color: color_named(text.subrange(name_end + 1, color_end)),
        blocks: shape(text, color_end + 1, 0, 0),
    }
}

/// The place of the first line break of `text` at or after `from`.
fn find_line_end(text: &str, from: usize, len: usize) -> (end: usize)
    requires
        len == text@.len(),
        from <= len,
    ensures
        end == line_end(text@, from as int),
        from <= end <= len,
{
    let mut i: usize = from;
    while i < len
        invariant
            from <= i <= len,
            len == text@.len(),
            line_end(text@, from as int) == line_end(text@, i as int),
        decreases len - i,
    {
        if text.get_char(i) == '\n' {
            return i;
        }
        i += 1;
    }
    i
}

/// Whether `text` has the two lines that come before a shape.
pub fn is_pattern_text(text: &str) -> (b: bool)
    ensures
        b == has_header(text@),
{
    let len: usize = text.unicode_len();
    let name_end: usize = find_line_end(text, 0, len);
    if name_end >= len {
        false
    } else {
        find_line_end(text, name_end + 1, len) < len
    }
}

impl Pattern {
    /// Reads a pattern from `input`: a line with its name, a line with the
    /// name of its color, and then its shape, drawn row by row from the
    /// top with one sign for each cell.
    pub fn from_emoji(input: &str) -> (p: Pattern)
        requires
            has_header(input@),
            input@.len() <= isize::MAX,
        ensures
            p@ == parsed(input@),
    {
        let len: usize = input.unicode_len();
        let name_end: usize = find_line_end(input, 0, len);
        let color_end: usize = find_line_end(input, name_end + 1, len);
        let name = input.substring_char(0, name_end).to_owned();
        let color = PatternColor::from_name(input.substring_char(name_end + 1, color_end));
        let mut blocks: Vec<(isize, isize)> = Vec::new();
        let mut x: isize = 0;
        let mut y: isize = 0;
        let mut i: usize = color_end + 1;
        while i < len
            invariant
                color_end + 1 <= i <= len,
                len == input@.len(),
                len <= isize::MAX,
                0 <= x <= i,
                -i <= y <= 0,
                blocks@ + shape(input@, i as int, x as int, y as int) == shape(
                    input@,
                    color_end + 1,
                    0,
                    0,
                ),
            decreases len - i,
        {
            let c: char = input.get_char(i);
            let ghost before = blocks@;
            if c == GAP {
                x = x + 1;
            } else if c == BLOCK {
                blocks.push((x, y));
                proof {
                    assert(blocks@ + shape(input@, i + 1, x + 1, y as int) =~= before + (seq![(x, y)]
                        + shape(input@, i + 1, x + 1, y as int)));
                }
                x = x + 1;
            } else if c == '\n' {
                x = 0;
                y = y - 1;
            }
            i += 1;
        }
        proof {
            assert(blocks@ + Seq::<(isize, isize)>::empty() =~= blocks@);
        }
        Pattern { name, color, blocks }
    }

    /// A pattern with the same name, color and blocks.
    pub fn duplicate(&self) -> (p: Pattern)
        ensures
            p@ == self@,
    {
        let mut blocks: Vec<(isize, isize)> = Vec::new();
        let mut i: usize = 0;
        while i < self.blocks.len()
            invariant
                i <= self.blocks.len(),
                blocks@ == self.blocks@.take(i as int),
            decreases self.blocks.len() - i,
        {
            blocks.push(self.blocks[i]);
            proof {
                assert(self.blocks@.take(i as int).push(self.blocks@[i as int]) =~= self.blocks@.take(
                    i + 1,
                ));
            }
            i += 1;
        }
        proof {
            assert(self.blocks@.take(i as int) =~= self.blocks@);
        }
        Pattern { name: self.name.clone(), color: self.color, blocks }
    }
}

} // verus!
