//! Per-call rendering configuration: layout orientation and a visual theme.
//! A theme is a plain immutable value; the two presets are built by the
//! factory functions [`light_theme`] and [`dark_theme`].

use vstd::prelude::*;
use vstd::string::StringExecFns;

verus! {

/// Layout direction of the rendered diagram.
#[derive(Clone, Copy, Debug, PartialEq, Eq)]
pub enum Orientation {
    /// Left to right layout.
    LR,
    /// Top to bottom layout.
    TB,
}

impl Orientation {
    /// The value written for the graph-level layout-direction attribute.
    pub open spec fn text(self) -> Seq<char> {
        match self {
            Orientation::LR => "LR"@,
            Orientation::TB => "TB"@,
        }
    }

    /// The layout-direction attribute value, as a `String`.
    pub fn rankdir_value(&self) -> (r: String)
        ensures
            r@ == self.text(),
    {
        match self {
            Orientation::LR => String::from_str("LR"),
            Orientation::TB => String::from_str("TB"),
        }
    }
}

impl Default for Orientation {
    /// The default layout runs top to bottom.
    fn default() -> (o: Self)
        ensures
            o == Orientation::TB,
    {
        Orientation::TB
    }
}

/// Visual theme: string-valued colors, a preferred orientation, and the line
/// style used for quotient (unification) connections.
#[derive(Clone, Debug, PartialEq)]
pub struct Theme {
    pub bgcolor: String,
    pub fontcolor: String,
    pub color: String,
    pub orientation: Orientation,
    /// The line style drawn for a quotient connection between unified nodes.
    pub quotient_style: String,
}

/// The mathematical value of a [`Theme`].
pub struct ThemeV {
    pub bgcolor: Seq<char>,
    pub fontcolor: Seq<char>,
    pub color: Seq<char>,
    pub orientation: Orientation,
    pub quotient_style: Seq<char>,
}

impl View for Theme {
    type V = ThemeV;

    open spec fn view(&self) -> ThemeV {
        ThemeV {
            bgcolor: self.bgcolor@,
            fontcolor: self.fontcolor@,
            color: self.color@,
            orientation: self.orientation,
            quotient_style: self.quotient_style@,
        }
    }
}

/// The light preset: white background, black text and lines.
pub open spec fn light_theme_v() -> ThemeV {
    ThemeV {
        bgcolor: "white"@,
        fontcolor: "black"@,
        color: "black"@,
        orientation: Orientation::LR,
        quotient_style: "dotted"@,
    }
}

/// The dark preset: dark-gray background, white text and lines.
pub open spec fn dark_theme_v() -> ThemeV {
    ThemeV {
        bgcolor: "#4a4a4a"@,
        fontcolor: "white"@,
        color: "white"@,
        orientation: Orientation::LR,
        quotient_style: "dotted"@,
    }
}

/// A light theme preset.
pub fn light_theme() -> (t: Theme)
    ensures
        t@ == light_theme_v(),
{
    Theme {
        bgcolor: String::from_str("white"),
        fontcolor: String::from_str("black"),
        color: String::from_str("black"),
        orientation: Orientation::LR,
        quotient_style: String::from_str("dotted"),
    }
}

/// A dark theme preset.
pub fn dark_theme() -> (t: Theme)
    ensures
        t@ == dark_theme_v(),
{
    Theme {
        bgcolor: String::from_str("#4a4a4a"),
        fontcolor: String::from_str("white"),
        color: String::from_str("white"),
        orientation: Orientation::LR,
        quotient_style: String::from_str("dotted"),
    }
}

impl Default for Theme {
    /// The default theme is the dark preset.
    fn default() -> (t: Self)
        ensures
            t@ == dark_theme_v(),
    {
        dark_theme()
    }
}

/// Per-call configuration of one render.
#[derive(Clone, Debug, PartialEq)]
pub struct Options {
    pub orientation: Orientation,
    pub theme: Theme,
}

/// The mathematical value of [`Options`].
pub struct OptionsV {
    pub orientation: Orientation,
    pub theme: ThemeV,
}

impl View for Options {
    type V = OptionsV;

    open spec fn view(&self) -> OptionsV {
        OptionsV { orientation: self.orientation, theme: self.theme@ }
    }
}

/// The configuration used when the caller supplies none.
pub open spec fn default_options_v() -> OptionsV {
    OptionsV { orientation: Orientation::TB, theme: dark_theme_v() }
}

impl Default for Options {
    /// Top-to-bottom layout with the dark theme.
    fn default() -> (o: Self)
        ensures
            o@ == default_options_v(),
    {
        Options { orientation: Orientation::TB, theme: dark_theme() }
    }
}

} // verus!
