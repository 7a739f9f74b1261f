//! Colors and text styles of the terminal interface.
use vstd::prelude::*;

verus! {

/// A 24-bit color.
#[derive(Debug, Clone, Copy, PartialEq, Eq)]
pub struct Rgb(pub u8, pub u8, pub u8);

/// A text attribute.
#[derive(Debug, Clone, Copy, PartialEq, Eq)]
pub enum Modifier {
    Bold,
    Dim,
    Underlined,
}

/// A text style: foreground, background and an attribute, each optional.
#[derive(Debug, Clone, Copy, PartialEq, Eq)]
pub struct TextStyle {
    pub fg: Option<Rgb>,
    pub bg: Option<Rgb>,
    pub modifier: Option<Modifier>,
}

/// The colors of the interface.
#[derive(Debug, Clone, Copy, PartialEq, Eq)]
pub struct Theme {
    pub background: Rgb,
    pub foreground: Rgb,
    pub primary: Rgb,
    pub secondary: Rgb,
    pub success: Rgb,
    pub error: Rgb,
    pub warning: Rgb,
    pub info: Rgb,
    pub inactive: Rgb,
}

impl Default for Theme {
    fn default() -> (t: Self)
        ensures
            t == default_theme(),
    {
        Theme {
            background: Rgb(30, 30, 35),
            foreground: Rgb(230, 230, 235),
            primary: Rgb(86, 156, 214),
            secondary: Rgb(170, 191, 252),
            success: Rgb(88, 166, 114),
            error: Rgb(235, 107, 83),
            warning: Rgb(234, 177, 75),
            info: Rgb(129, 161, 193),
            inactive: Rgb(100, 110, 120),
        }
    }
}

/// The default colors.
pub open spec fn default_theme() -> Theme {
    Theme {
        background: Rgb(30, 30, 35),
        foreground: Rgb(230, 230, 235),
        primary: Rgb(86, 156, 214),
        secondary: Rgb(170, 191, 252),
        success: Rgb(88, 166, 114),
        error: Rgb(235, 107, 83),
        warning: Rgb(234, 177, 75),
        info: Rgb(129, 161, 193),
        inactive: Rgb(100, 110, 120),
    }
}

/// The style of an input field.
pub open spec fn input_style(t: Theme) -> TextStyle {
    TextStyle { fg: Some(t.foreground), bg: Some(t.background), modifier: Some(Modifier::Underlined) }
}

/// The style of a focused input field.
pub open spec fn focused_input_style(t: Theme) -> TextStyle {
    TextStyle { fg: Some(t.background), bg: Some(t.primary), modifier: Some(Modifier::Bold) }
}

/// A style with a foreground only.
pub open spec fn fg_only(c: Rgb) -> TextStyle {
    TextStyle { fg: Some(c), bg: None, modifier: None }
}

impl Theme {
    /// The dark colors.
    pub fn dark() -> (t: Self)
        ensures
            t.background == Rgb(27, 31, 36),
            t.foreground == Rgb(220, 223, 228),
            t.primary == Rgb(56, 139, 253),
            t.secondary == Rgb(103, 148, 255),
            t.success == Rgb(46, 160, 87),
            t.error == Rgb(235, 84, 53),
            t.warning == Rgb(208, 137, 60),
            t.info == Rgb(91, 155, 213),
            t.inactive == Rgb(155, 155, 155),
    {
        Theme {
            background: Rgb(27, 31, 36),
            foreground: Rgb(220, 223, 228),
            primary: Rgb(56, 139, 253),
            secondary: Rgb(103, 148, 255),
            success: Rgb(46, 160, 87),
            error: Rgb(235, 84, 53),
            warning: Rgb(208, 137, 60),
            info: Rgb(91, 155, 213),
            inactive: Rgb(155, 155, 155),
        }
    }

    /// The light colors.
    pub fn light() -> (t: Self)
        ensures
            t.background == Rgb(249, 250, 251),
            t.foreground == Rgb(30, 30, 36),
            t.primary == Rgb(29, 100, 211),
            t.secondary == Rgb(66, 133, 244),
            t.success == Rgb(52, 168, 83),
            t.error == Rgb(227, 58, 47),
            t.warning == Rgb(239, 112, 0),
            t.info == Rgb(97, 179, 239),
            t.inactive == Rgb(139, 139, 139),
    {
        Theme {
            background: Rgb(249, 250, 251),
            foreground: Rgb(30, 30, 36),
            primary: Rgb(29, 100, 211),
            secondary: Rgb(66, 133, 244),
            success: Rgb(52, 168, 83),
            error: Rgb(227, 58, 47),
            warning: Rgb(239, 112, 0),
            info: Rgb(97, 179, 239),
            inactive: Rgb(139, 139, 139),
        }
    }

    /// Background and foreground.
    pub fn style(&self) -> (s: TextStyle)
        ensures
            s == (TextStyle { fg: Some(self.foreground), bg: Some(self.background), modifier: None }),
    {
        TextStyle { fg: Some(self.foreground), bg: Some(self.background), modifier: None }
    }

    /// Plain text.
    pub fn normal_text(&self) -> (s: TextStyle)
        ensures
            s == fg_only(self.foreground),
    {
        TextStyle { fg: Some(self.foreground), bg: None, modifier: None }
    }

    /// Titles: the primary color in bold.
    pub fn title(&self) -> (s: TextStyle)
        ensures
            s == (TextStyle { fg: Some(self.primary), bg: None, modifier: Some(Modifier::Bold) }),
    {
        TextStyle { fg: Some(self.primary), bg: None, modifier: Some(Modifier::Bold) }
    }

    pub fn primary(&self) -> (s: TextStyle)
        ensures
            s == fg_only(self.primary),
    {
        TextStyle { fg: Some(self.primary), bg: None, modifier: None }
    }

    pub fn secondary(&self) -> (s: TextStyle)
        ensures
            s == fg_only(self.secondary),
    {
        TextStyle { fg: Some(self.secondary), bg: None, modifier: None }
    }

    pub fn success(&self) -> (s: TextStyle)
        ensures
            s == fg_only(self.success),
    {
        TextStyle { fg: Some(self.success), bg: None, modifier: None }
    }

    pub fn error(&self) -> (s: TextStyle)
        ensures
            s == fg_only(self.error),
    {
        TextStyle { fg: Some(self.error), bg: None, modifier: None }
    }

    pub fn warning(&self) -> (s: TextStyle)
        ensures
            s == fg_only(self.warning),
    {
        TextStyle { fg: Some(self.warning), bg: None, modifier: None }
    }

    pub fn info(&self) -> (s: TextStyle)
        ensures
            s == fg_only(self.info),
    {
        TextStyle { fg: Some(self.info), bg: None, modifier: None }
    }

    /// Dimmed text in the inactive color.
    pub fn inactive(&self) -> (s: TextStyle)
        ensures
            s == (TextStyle { fg: Some(self.inactive), bg: None, modifier: Some(Modifier::Dim) }),
    {
        TextStyle { fg: Some(self.inactive), bg: None, modifier: Some(Modifier::Dim) }
    }

    /// Blocks: the background color as foreground, in bold.
    pub fn block(&self) -> (s: TextStyle)
        ensures
            s == (TextStyle { fg: Some(self.background), bg: None, modifier: Some(Modifier::Bold) }),
    {
        TextStyle { fg: Some(self.background), bg: None, modifier: Some(Modifier::Bold) }
    }

    /// Input fields: underlined text on the background.
    pub fn input(&self) -> (s: TextStyle)
        ensures
            s == input_style(*self),
    {
        TextStyle { fg: Some(self.foreground), bg: Some(self.background), modifier: Some(Modifier::Underlined) }
    }

    /// Focused input fields: the background color in bold on the primary color.
    pub fn input_focused(&self) -> (s: TextStyle)
        ensures
            s == focused_input_style(*self),
    {
        TextStyle { fg: Some(self.background), bg: Some(self.primary), modifier: Some(Modifier::Bold) }
    }
}

} // verus!
