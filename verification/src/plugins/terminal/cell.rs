//! Character cells: a single code point plus the colors and style flags it
//! was printed with, and the attribute state stamped onto printed characters.

use vstd::prelude::*;

verus! {

/// A cell color: one of the terminal's colors resolved to an RGB value, or
/// the terminal's default for the field it stands in (the theme foreground
/// for a foreground field, transparent for a background field).
#[derive(Clone, Copy, Debug, PartialEq, Eq, Structural)]
pub enum Color {
    Default,
    Rgb { r: u8, g: u8, b: u8 },
}

/// One character position of the grid: a single code point (a space by
/// default), its colors and style flags, and a marker for the second column
/// occupied by a double-width character.
#[derive(Clone, Copy, Debug, PartialEq, Eq, Structural)]
pub struct Cell {
    pub c: char,
    pub fg: Color,
    pub bg: Color,
    pub bold: bool,
    pub italic: bool,
    pub underline: bool,
    pub inverse: bool,
    pub is_wide_continuation: bool,
}

/// The attribute state: what will be stamped onto the next printed character.
/// Updated by SGR control sequences; reset to the defaults by SGR 0.
#[derive(Clone, Copy, Debug, PartialEq, Eq, Structural)]
pub struct Attrs {
    pub fg: Color,
    pub bg: Color,
    pub bold: bool,
    pub italic: bool,
    pub underline: bool,
    pub inverse: bool,
}

/// The attribute state a fresh terminal starts with, and the one SGR 0
/// returns to.
pub open spec fn default_attrs() -> Attrs {
    Attrs {
        fg: Color::Default,
        bg: Color::Default,
        bold: false,
        italic: false,
        underline: false,
        inverse: false,
    }
}

/// The blank cell erase operations fill with: a space with default attributes.
pub open spec fn default_cell() -> Cell {
    Cell {
        c: ' ',
        fg: Color::Default,
        bg: Color::Default,
        bold: false,
        italic: false,
        underline: false,
        inverse: false,
        is_wide_continuation: false,
    }
}

impl Attrs {
    pub fn new() -> (r: Attrs)
        ensures
            r == default_attrs(),
    {
        Attrs {
            fg: Color::Default,
            bg: Color::Default,
            bold: false,
            italic: false,
            underline: false,
            inverse: false,
        }
    }

    /// The cell that printing the character `c` stamps under this attribute
    /// state.
    pub open spec fn spec_cell_for(self, c: char) -> Cell {
        Cell {
            c: c,
            fg: self.fg,
            bg: self.bg,
            bold: self.bold,
            italic: self.italic,
            underline: self.underline,
            inverse: self.inverse,
            is_wide_continuation: false,
        }
    }

    pub fn cell_for(&self, c: char) -> (r: Cell)
        ensures
            r == self.spec_cell_for(c),
    {
        Cell {
            c: c,
            fg: self.fg,
            bg: self.bg,
            bold: self.bold,
            italic: self.italic,
            underline: self.underline,
            inverse: self.inverse,
            is_wide_continuation: false,
        }
    }
}

impl Default for Cell {
    fn default() -> (r: Cell)
        ensures
            r == default_cell(),
    {
        Cell {
            c: ' ',
            fg: Color::Default,
            bg: Color::Default,
            bold: false,
            italic: false,
            underline: false,
            inverse: false,
            is_wide_continuation: false,
        }
    }
}

/// The fixed palette: the sixteen named ANSI colors by index (0 to 7 normal,
/// 8 to 15 bright); any other index resolves to the default color.
pub open spec fn spec_ansi_color(code: u8) -> Color {
    if code == 0 {
        Color::Rgb { r: 0, g: 0, b: 0 }
    } else if code == 1 {
        Color::Rgb { r: 205, g: 0, b: 0 }
    } else if code == 2 {
        Color::Rgb { r: 0, g: 205, b: 0 }
    } else if code == 3 {
        Color::Rgb { r: 205, g: 205, b: 0 }
    } else if code == 4 {
        Color::Rgb { r: 0, g: 0, b: 238 }
    } else if code == 5 {
        Color::Rgb { r: 205, g: 0, b: 205 }
    } else if code == 6 {
        Color::Rgb { r: 0, g: 205, b: 205 }
    } else if code == 7 {
        Color::Rgb { r: 229, g: 229, b: 229 }
    } else if code == 8 {
        Color::Rgb { r: 127, g: 127, b: 127 }
    } else if code == 9 {
        Color::Rgb { r: 255, g: 0, b: 0 }
    } else if code == 10 {
        Color::Rgb { r: 0, g: 255, b: 0 }
    } else if code == 11 {
        Color::Rgb { r: 255, g: 255, b: 0 }
    } else if code == 12 {
        Color::Rgb { r: 92, g: 92, b: 255 }
    } else if code == 13 {
        Color::Rgb { r: 255, g: 0, b: 255 }
    } else if code == 14 {
        Color::Rgb { r: 0, g: 255, b: 255 }
    } else if code == 15 {
        Color::Rgb { r: 255, g: 255, b: 255 }
    } else {
        Color::Default
    }
}

pub fn ansi_color(code: u8) -> (r: Color)
    ensures
        r == spec_ansi_color(code),
{
    match code {
        0 => Color::Rgb { r: 0, g: 0, b: 0 },
        1 => Color::Rgb { r: 205, g: 0, b: 0 },
        2 => Color::Rgb { r: 0, g: 205, b: 0 },
        3 => Color::Rgb { r: 205, g: 205, b: 0 },
        4 => Color::Rgb { r: 0, g: 0, b: 238 },
        5 => Color::Rgb { r: 205, g: 0, b: 205 },
        6 => Color::Rgb { r: 0, g: 205, b: 205 },
        7 => Color::Rgb { r: 229, g: 229, b: 229 },
        8 => Color::Rgb { r: 127, g: 127, b: 127 },
        9 => Color::Rgb { r: 255, g: 0, b: 0 },
        10 => Color::Rgb { r: 0, g: 255, b: 0 },
        11 => Color::Rgb { r: 255, g: 255, b: 0 },
        12 => Color::Rgb { r: 92, g: 92, b: 255 },
        13 => Color::Rgb { r: 255, g: 0, b: 255 },
        14 => Color::Rgb { r: 0, g: 255, b: 255 },
        15 => Color::Rgb { r: 255, g: 255, b: 255 },
        _ => Color::Default,
    }
}

} // verus!
