//! How terminal output is styled, as plain values; rendering is left to
//! the caller.

use vstd::prelude::*;
use crate::target::Target;
use crate::version::Version;

verus! {

/// A terminal foreground colour.
#[derive(Debug, Clone, Copy, PartialEq, Eq, Structural)]
pub enum Color {
    Default,
    Cyan,
    White,
    Magenta,
    Green,
    Yellow,
}

/// A colour and attributes for a piece of text.
#[derive(Debug, Clone, Copy, PartialEq, Eq, Structural)]
pub struct TextStyle {
    pub color: Color,
    pub bold: bool,
    pub italic: bool,
}

/// A value together with the style to show it in.
#[derive(Debug, Clone, Copy, PartialEq, Eq)]
pub struct Styled<D> {
    pub style: TextStyle,
    pub content: D,
}

/// The styles of each kind of text the tool prints.
#[derive(Debug, Clone, Copy, PartialEq, Eq, Structural)]
pub struct Style {
    pub version: TextStyle,
    pub target: TextStyle,
    pub artifact: TextStyle,
    pub label: TextStyle,
    pub success: TextStyle,
    pub warning: TextStyle,
}

/// The name the tool labels its messages with.
pub const LABEL: &'static str = "compact";

pub open spec fn default_style() -> Style {
    Style {
        version: TextStyle { color: Color::Cyan, bold: true, italic: false },
        target: TextStyle { color: Color::White, bold: true, italic: false },
        artifact: TextStyle { color: Color::Default, bold: false, italic: true },
        label: TextStyle { color: Color::Magenta, bold: true, italic: false },
        success: TextStyle { color: Color::Green, bold: true, italic: false },
        warning: TextStyle { color: Color::Yellow, bold: false, italic: false },
    }
}

impl Default for Style {
    fn default() -> (r: Style)
        ensures
            r == default_style(),
    {
        Style {
            version: TextStyle { color: Color::Cyan, bold: true, italic: false },
            target: TextStyle { color: Color::White, bold: true, italic: false },
            artifact: TextStyle { color: Color::Default, bold: false, italic: true },
            label: TextStyle { color: Color::Magenta, bold: true, italic: false },
            success: TextStyle { color: Color::Green, bold: true, italic: false },
            warning: TextStyle { color: Color::Yellow, bold: false, italic: false },
        }
    }
}

impl Style {
    pub fn label(&self) -> (r: Styled<&'static str>)
        ensures
            r.style == self.label,
            r.content@ == LABEL@,
    {
        Styled { style: self.label, content: LABEL }
    }

    pub fn artifact<D>(&self, artifact: D) -> (r: Styled<D>)
        ensures
            r.style == self.artifact,
            r.content == artifact,
    {
        Styled { style: self.artifact, content: artifact }
    }

    pub fn target(&self, target: Target) -> (r: Styled<Target>)
        ensures
            r.style == self.target,
            r.content == target,
    {
        Styled { style: self.target, content: target }
    }

    pub fn version(&self, version: Version) -> (r: Styled<Version>)
        ensures
            r.style == self.version,
            r.content == version,
    {
        Styled { style: self.version, content: version }
    }

    pub fn version_raw<D>(&self, message: D) -> (r: Styled<D>)
        ensures
            r.style == self.version,
            r.content == message,
    {
        Styled { style: self.version, content: message }
    }

    pub fn success<D>(&self, message: D) -> (r: Styled<D>)
        ensures
            r.style == self.success,
            r.content == message,
    {
        Styled { style: self.success, content: message }
    }

    pub fn warn<D>(&self, message: D) -> (r: Styled<D>)
        ensures
            r.style == self.warning,
            r.content == message,
    {
        Styled { style: self.warning, content: message }
    }
}

/// A symbol with a plain-text fallback for terminals without Unicode.
#[derive(Debug, Clone, Copy, PartialEq, Eq)]
pub struct Glyph {
    pub fancy: &'static str,
    pub plain: &'static str,
}

/// The symbols the tool prints.
#[derive(Debug, Clone, Copy, PartialEq, Eq)]
pub struct Icons {
    pub arrow: Glyph,
}

impl Default for Icons {
    fn default() -> (r: Icons)
        ensures
            r.arrow.fancy@ == "\u{2192}"@,
            r.arrow.plain@ == "->"@,
    {
        Icons { arrow: Glyph { fancy: "\u{2192}", plain: "->" } }
    }
}

} // verus!
