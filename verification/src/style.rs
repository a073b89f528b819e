use vstd::prelude::*;

verus! {

/// A terminal colour. Widgets only carry colours; turning them into escape
/// sequences is the host's concern.
#[derive(Clone, Copy, Debug, PartialEq, Eq, Structural)]
pub enum Color {
    Reset,
    Black,
    Red,
    Green,
    Yellow,
    Blue,
    Magenta,
    Cyan,
    Gray,
    DarkGray,
    LightRed,
    LightGreen,
    LightYellow,
    LightBlue,
    LightMagenta,
    LightCyan,
    White,
    Rgb(u8, u8, u8),
    Indexed(u8),
}

/// Character styling carried by widgets: optional foreground and background
/// colours plus a few text modifiers. The engine never interprets styles; it
/// stores them and hands them back to whoever paints.
#[derive(Clone, Copy, Debug, PartialEq, Eq, Structural)]
pub struct Style {
    pub fg: Option<Color>,
    pub bg: Option<Color>,
    pub bold: bool,
    pub italic: bool,
    pub underlined: bool,
    pub reversed: bool,
}

impl Style {
    pub fn new() -> (r: Style)
        ensures
            r == Style::plain(),
    {
        Style { fg: None, bg: None, bold: false, italic: false, underlined: false, reversed: false }
    }

    /// The style with no colours and no modifiers.
    pub open spec fn plain() -> Style {
        Style { fg: None, bg: None, bold: false, italic: false, underlined: false, reversed: false }
    }

    pub fn fg(self, color: Color) -> (r: Style)
        ensures
            r == (Style { fg: Some(color), ..self }),
    {
        Style { fg: Some(color), ..self }
    }

    pub fn bg(self, color: Color) -> (r: Style)
        ensures
            r == (Style { bg: Some(color), ..self }),
    {
        Style { bg: Some(color), ..self }
    }
}

impl Default for Style {
    fn default() -> (r: Style)
        ensures
            r == Style::plain(),
    {
        Style::new()
    }
}

/// The glyph family used to draw borders and grid lines.
#[derive(Clone, Copy, Debug, PartialEq, Eq, Structural)]
pub enum BorderType {
    Plain,
    Rounded,
    Double,
    Thick,
}

/// The box-drawing glyphs of one border family.
#[derive(Clone, Copy, Debug)]
pub struct LineSet {
    pub vertical: &'static str,
    pub horizontal: &'static str,
    pub top_left: &'static str,
    pub top_right: &'static str,
    pub bottom_left: &'static str,
    pub bottom_right: &'static str,
    pub vertical_left: &'static str,
    pub vertical_right: &'static str,
    pub horizontal_down: &'static str,
    pub horizontal_up: &'static str,
    pub cross: &'static str,
}

impl LineSet {
    /// The glyph set for single thin lines.
    pub fn normal() -> LineSet {
        LineSet {
            vertical: "│",
            horizontal: "─",
            top_left: "┌",
            top_right: "┐",
            bottom_left: "└",
            bottom_right: "┘",
            vertical_left: "┤",
            vertical_right: "├",
            horizontal_down: "┬",
            horizontal_up: "┴",
            cross: "┼",
        }
    }

    /// The glyph set for rounded corners.
    pub fn rounded() -> LineSet {
        LineSet {
            vertical: "│",
            horizontal: "─",
            top_left: "╭",
            top_right: "╮",
            bottom_left: "╰",
            bottom_right: "╯",
            vertical_left: "┤",
            vertical_right: "├",
            horizontal_down: "┬",
            horizontal_up: "┴",
            cross: "┼",
        }
    }

    /// The glyph set for double lines.
    pub fn double() -> LineSet {
        LineSet {
            vertical: "║",
            horizontal: "═",
            top_left: "╔",
            top_right: "╗",
            bottom_left: "╚",
            bottom_right: "╝",
            vertical_left: "╣",
            vertical_right: "╠",
            horizontal_down: "╦",
            horizontal_up: "╩",
            cross: "╬",
        }
    }

    /// The glyph set for thick lines.
    pub fn thick() -> LineSet {
        LineSet {
            vertical: "┃",
            horizontal: "━",
            top_left: "┏",
            top_right: "┓",
            bottom_left: "┗",
            bottom_right: "┛",
            vertical_left: "┫",
            vertical_right: "┣",
            horizontal_down: "┳",
            horizontal_up: "┻",
            cross: "╋",
        }
    }

    /// The glyph set belonging to a border type.
    pub fn of_border_type(border_type: BorderType) -> LineSet {
        match border_type {
            BorderType::Plain => LineSet::normal(),
            BorderType::Rounded => LineSet::rounded(),
            BorderType::Double => LineSet::double(),
            BorderType::Thick => LineSet::thick(),
        }
    }
}

} // verus!
