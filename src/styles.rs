use vstd::prelude::*;

verus! {

#[derive(Clone, Copy, PartialEq, Eq, Structural, Debug, Hash)]
pub enum Color {
    Default,
    True(u8, u8, u8),
    Palette(u8),
}

/// The decorations of a cell or of the cursor.
#[derive(Clone, Copy, PartialEq, Eq, Structural, Debug, Hash)]
pub struct Styles {
    pub fg_color: Color,
    pub bg_color: Color,
    pub opacity: u8,
    pub underline: bool,
    pub double_underline: bool,
    pub italic: bool,
    pub bold: bool,
    pub strikethrough: bool,
    pub inverted: bool,
    pub blink: bool,
}

/// One decoration to set: each variant names one field of `Styles`
/// (`Underline` takes 0 for none, 1 for single, 2 or more for double).
#[derive(Clone, Copy, PartialEq, Eq, Structural, Debug, Hash)]
pub enum Style {
    Underline(u8),
    Bold(bool),
    Italic(bool),
    Blink(bool),
    InvertColors(bool),
    Strikethrough(bool),
    Opacity(u8),
    FgColor(Color),
    BgColor(Color),
}

/// Either the default decorations or a set of its own; keeps "never set"
/// apart from "set to the default values".
#[derive(Clone, Copy, PartialEq, Eq, Structural, Debug, Hash)]
pub enum UseStyles {
    Default,
    Custom(Styles),
}

pub const DEFAULT_STYLES: UseStyles = UseStyles::Default;

impl Styles {
    pub open spec fn initial() -> Styles {
        Styles {
            fg_color: Color::Default,
            bg_color: Color::Default,
            opacity: 0xff,
            underline: false,
            double_underline: false,
            italic: false,
            bold: false,
            strikethrough: false,
            inverted: false,
            blink: false,
        }
    }

    /// The styles with the one field that `style` names set to its value.
    pub open spec fn updated(self, style: Style) -> Styles {
        match style {
            Style::Underline(0) => Styles { underline: false, double_underline: false, ..self },
            Style::Underline(1) => Styles { underline: true, double_underline: false, ..self },
            Style::Underline(_) => Styles { underline: false, double_underline: true, ..self },
            Style::Bold(b) => Styles { bold: b, ..self },
            Style::Italic(b) => Styles { italic: b, ..self },
            Style::Blink(b) => Styles { blink: b, ..self },
            Style::InvertColors(b) => Styles { inverted: b, ..self },
            Style::Strikethrough(b) => Styles { strikethrough: b, ..self },
            Style::Opacity(o) => Styles { opacity: o, ..self },
            Style::FgColor(c) => Styles { fg_color: c, ..self },
            Style::BgColor(c) => Styles { bg_color: c, ..self },
        }
    }

    pub fn new() -> (r: Styles)
        ensures
            r == Styles::initial(),
    {
        Styles {
            fg_color: Color::Default,
            bg_color: Color::Default,
            opacity: 0xff,
            underline: false,
            double_underline: false,
            italic: false,
            bold: false,
            strikethrough: false,
            inverted: false,
            blink: false,
        }
    }

    pub fn update(&mut self, style: Style)
        ensures
            *final(self) == old(self).updated(style),
    {
        match style {
            Style::Underline(0) => {
                self.underline = false;
                self.double_underline = false;
            },
            Style::Underline(1) => {
                self.underline = true;
                self.double_underline = false;
            },
            Style::Underline(_) => {
                self.underline = false;
                self.double_underline = true;
            },
            Style::Bold(b) => self.bold = b,
            Style::Italic(b) => self.italic = b,
            Style::Blink(b) => self.blink = b,
            Style::InvertColors(b) => self.inverted = b,
            Style::Strikethrough(b) => self.strikethrough = b,
            Style::Opacity(o) => self.opacity = o,
            Style::FgColor(c) => self.fg_color = c,
            Style::BgColor(c) => self.bg_color = c,
        }
    }
}

impl Default for UseStyles {
    fn default() -> (r: UseStyles)
        ensures
            r == UseStyles::Default,
    {
        UseStyles::Default
    }
}

impl UseStyles {
    /// The decorations in effect.
    pub open spec fn effective(self) -> Styles {
        match self {
            UseStyles::Default => Styles::initial(),
            UseStyles::Custom(s) => s,
        }
    }

    /// Setting a field turns default styles into styles of their own.
    pub open spec fn updated(self, style: Style) -> UseStyles {
        UseStyles::Custom(self.effective().updated(style))
    }

    pub fn update(&mut self, style: Style)
        ensures
            *final(self) == old(self).updated(style),
    {
        let mut s = match *self {
            UseStyles::Default => Styles::new(),
            UseStyles::Custom(s) => s,
        };
        s.update(style);
        *self = UseStyles::Custom(s);
    }
}

} // verus!
