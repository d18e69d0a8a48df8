//! A styled character cell, held as plain values.

use vstd::prelude::*;
use vstd::string::StringExecFns;
use ratatui::style::Color;

verus! {

/// `ratatui::style::Color`, with its variants as they are.
#[verifier::external_type_specification]
pub struct ExColor(Color);

/// `Color`'s `==`: two colors are equal when they are the same variant with the same
/// components.
pub assume_specification[ <Color as PartialEq>::eq ](a: &Color, b: &Color) -> (r: bool)
    ensures
        r == (*a == *b),
;

/// `Color`'s `clone`: the same color.
pub assume_specification[ <Color as Clone>::clone ](a: &Color) -> (r: Color)
    ensures
        r == *a,
;

/// A set of text attributes, one bit for each.
#[derive(Clone, Copy, Debug, PartialEq, Eq, Structural, Hash)]
pub struct Modifier {
    /// One bit for each way of drawing that is switched on.
    pub bits: u16,
}

/// Bold text.
pub const BOLD: u16 = 0x001;

/// Dim text.
pub const DIM: u16 = 0x002;

/// Italic text.
pub const ITALIC: u16 = 0x004;

/// Underlined text.
pub const UNDERLINED: u16 = 0x008;

/// Text that blinks slowly.
pub const SLOW_BLINK: u16 = 0x010;

/// Text that blinks fast.
pub const RAPID_BLINK: u16 = 0x020;

/// Foreground and background exchanged.
pub const REVERSED: u16 = 0x040;

/// Hidden text.
pub const HIDDEN: u16 = 0x080;

/// Text that is crossed out.
pub const CROSSED_OUT: u16 = 0x100;

impl Modifier {
    /// No attribute.
    pub fn empty() -> (m: Modifier)
        ensures
            m.bits == 0,
    {
        Modifier { bits: 0 }
    }

    /// Whether every attribute of `flags` is set.
    pub open spec fn has(self, flags: u16) -> bool {
        self.bits & flags == flags
    }

    /// Whether every attribute of `flags` is set.
    pub fn contains(&self, flags: u16) -> (r: bool)
        ensures
            r == self.has(flags),
    {
        self.bits & flags == flags
    }
}

/// Changes to apply to a cell's look: colors to set, attributes to add and to remove.
#[derive(Clone, Copy, Debug, PartialEq, Eq)]
pub struct Style {
    pub fg: Option<Color>,
    pub bg: Option<Color>,
    pub add_modifier: Modifier,
    pub sub_modifier: Modifier,
}

impl Style {
    /// The style that changes nothing.
    pub fn new() -> (s: Style)
        ensures
            s == (Style {
                fg: None,
                bg: None,
                add_modifier: Modifier { bits: 0 },
                sub_modifier: Modifier { bits: 0 },
            }),
    {
        Style { fg: None, bg: None, add_modifier: Modifier::empty(), sub_modifier: Modifier::empty() }
    }

    /// This style with the foreground color `color`.
    pub fn fg(self, color: Color) -> (s: Style)
        ensures
            s == (Style { fg: Some(color), ..self }),
    {
        Style { fg: Some(color), ..self }
    }

    /// This style with the background color `color`.
    pub fn bg(self, color: Color) -> (s: Style)
        ensures
            s == (Style { bg: Some(color), ..self }),
    {
        Style { bg: Some(color), ..self }
    }

    /// This style, adding the attributes `flags` and no longer removing them.
    pub fn add_modifier(self, flags: u16) -> (s: Style)
        ensures
            s == (Style {
                add_modifier: Modifier { bits: self.add_modifier.bits | flags },
                sub_modifier: Modifier { bits: self.sub_modifier.bits & !flags },
                ..self
            }),
    {
        Style {
            add_modifier: Modifier { bits: self.add_modifier.bits | flags },
            sub_modifier: Modifier { bits: self.sub_modifier.bits & !flags },
            ..self
        }
    }
}

/// What a cell holds, as mathematical values.
pub struct CellView {
    pub symbol: Seq<char>,
    pub fg: Color,
    pub bg: Color,
    pub modifier: Modifier,
    pub skip: bool,
}

impl CellView {
    /// The cell with its symbol replaced by a blank.
    pub open spec fn blanked(self) -> CellView {
        CellView { symbol: seq![' '], ..self }
    }

    /// The cell with `style` applied: its colors where the style names one, then the
    /// style's added attributes set and its removed attributes cleared.
    pub open spec fn styled(self, style: Style) -> CellView {
        CellView {
            fg: if let Some(c) = style.fg { c } else { self.fg },
            bg: if let Some(c) = style.bg { c } else { self.bg },
            modifier: Modifier {
                bits: (self.modifier.bits | style.add_modifier.bits) & !style.sub_modifier.bits,
            },
            ..self
        }
    }

    /// The look of the cell as a style: both colors, its attributes added, none removed.
    pub open spec fn look(self) -> Style {
        Style {
            fg: Some(self.fg),
            bg: Some(self.bg),
            add_modifier: self.modifier,
            sub_modifier: Modifier { bits: 0 },
        }
    }
}

/// One cell of the grid: a symbol, two colors, text attributes, and whether copies skip
/// it.
#[derive(Clone, Debug, PartialEq, Eq)]
pub struct Cell {
    pub symbol: String,
    pub fg: Color,
    pub bg: Color,
    pub modifier: Modifier,
    pub skip: bool,
}

impl View for Cell {
    type V = CellView;

    open spec fn view(&self) -> CellView {
        CellView {
            symbol: self.symbol@,
            fg: self.fg,
            bg: self.bg,
            modifier: self.modifier,
            skip: self.skip,
        }
    }
}

/// `String::from` on a character: the string of that one character.
#[verifier::external_body]
fn string_of_char(ch: char) -> (s: String)
    ensures
        s@ == seq![ch],
{
    String::from(ch)
}

impl Cell {
    /// A cell that shows `symbol` in the terminal's own colors.
    pub fn new(symbol: &str) -> (c: Cell)
        ensures
            c@ == (CellView {
                symbol: symbol@,
                fg: Color::Reset,
                bg: Color::Reset,
                modifier: Modifier { bits: 0 },
                skip: false,
            }),
    {
        Cell {
            symbol: String::from_str(symbol),
            fg: Color::Reset,
            bg: Color::Reset,
            modifier: Modifier::empty(),
            skip: false,
        }
    }

    /// A copy of the cell.
    pub fn duplicate(&self) -> (c: Cell)
        ensures
            c@ == self@,
    {
        Cell {
            symbol: self.symbol.clone(),
            fg: self.fg,
            bg: self.bg,
            modifier: self.modifier,
            skip: self.skip,
        }
    }

    /// The symbol that the cell shows.
    pub fn symbol(&self) -> (s: &str)
        ensures
            s@ == self@.symbol,
    {
        self.symbol.as_str()
    }

    /// Replaces the symbol.
    pub fn set_symbol(&mut self, symbol: &str)
        ensures
            final(self)@ == (CellView { symbol: symbol@, ..old(self)@ }),
    {
        self.symbol = String::from_str(symbol);
    }

    /// Replaces the symbol by one character.
    pub fn set_char(&mut self, ch: char)
        ensures
            final(self)@ == (CellView { symbol: seq![ch], ..old(self)@ }),
    {
        self.symbol = string_of_char(ch);
    }

    /// Sets the foreground color.
    pub fn set_fg(&mut self, color: Color)
        ensures
            final(self)@ == (CellView { fg: color, ..old(self)@ }),
    {
        self.fg = color;
    }

    /// Sets the background color.
    pub fn set_bg(&mut self, color: Color)
        ensures
            final(self)@ == (CellView { bg: color, ..old(self)@ }),
    {
        self.bg = color;
    }

    /// Applies `style`: sets the colors that it names, adds and removes its attributes.
    pub fn set_style(&mut self, style: Style)
        ensures
            final(self)@ == old(self)@.styled(style),
    {
        if let Some(c) = style.fg {
            self.fg = c;
        }
        if let Some(c) = style.bg {
            self.bg = c;
        }
        self.modifier = Modifier {
            bits: (self.modifier.bits | style.add_modifier.bits) & !style.sub_modifier.bits,
        };
    }

    /// The look of the cell as a style.
    pub fn style(&self) -> (s: Style)
        ensures
            s == self@.look(),
    {
        Style {
            fg: Some(self.fg),
            bg: Some(self.bg),
            add_modifier: self.modifier,
            sub_modifier: Modifier::empty(),
        }
    }

    /// Marks the cell to be skipped, or not, when buffers are copied.
    pub fn set_skip(&mut self, skip: bool)
        ensures
            final(self)@ == (CellView { skip, ..old(self)@ }),
    {
        self.skip = skip;
    }
}

} // verus!
