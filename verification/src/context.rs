//! The immutable rendering context threaded through the document walk:
//! an exclusive separator modifier merged by precedence, togglable flags,
//! an exclusive style merged by precedence, and a list-nesting depth.
use vstd::prelude::*;

use crate::line::Fg;
use crate::line::TextStyle;

verus! {

/// Independently togglable rendering flags.
#[derive(Debug, Clone, Copy, PartialEq, Eq, Structural)]
pub enum StackableModifier {
    /// Verbatim mode: no trimming, no word wrap, literal newlines kept.
    InsideRawBlock,
    /// Continuation lines are indented one level deeper than the bullet.
    InsideList,
}

/// The separator that must be emitted before the next content.
/// Exactly one is active; merging keeps the higher-precedence one.
#[derive(Debug, Clone, Copy, PartialEq, Eq, Structural)]
pub enum ExclusiveModifier {
    Inline,
    RequiresSpace,
    NewLine,
    NewParagraph,
    NewHeading,
    UnorderedList,
    OrderedList(u16),
}

/// Independently togglable text styles.
#[derive(Debug, Clone, Copy, PartialEq, Eq, Structural)]
pub enum StackableStyle {
    Bold,
    Italic,
}

/// The exclusive foreground style, merged by precedence like the modifier.
#[derive(Debug, Clone, Copy, PartialEq, Eq, Structural)]
pub enum ExclusiveStyle {
    Default,
    Code,
    Link,
    Heading,
}

/// Whether a subtree produced visible output, and whether a space must
/// separate it from following inline content.
#[derive(Debug, Clone, Copy, PartialEq, Eq, Structural)]
pub enum RenderStatus {
    NotRendered,
    Rendered,
    RenderedRequiresSpace,
}

/// The per-call rendering context. Each recursive call of the walker
/// receives a derived copy; the value is never shared mutably.
#[derive(Debug, Clone, Copy, PartialEq, Eq, Structural)]
pub struct Context {
    pub exclusive_modifier: ExclusiveModifier,
    pub inside_raw_block: bool,
    pub inside_list: bool,

    pub exclusive_style: ExclusiveStyle,
    pub bold: bool,
    pub italic: bool,

    pub indent: u16,
}

impl ExclusiveModifier {
    /// Fixed precedence of each separator: `Inline` lowest, lists highest.
    pub open spec fn spec_precedence(self) -> u8 {
        match self {
            ExclusiveModifier::Inline => 0,
            ExclusiveModifier::RequiresSpace => 1,
            ExclusiveModifier::NewLine => 2,
            ExclusiveModifier::NewParagraph => 3,
            ExclusiveModifier::NewHeading => 4,
            ExclusiveModifier::UnorderedList => 5,
            ExclusiveModifier::OrderedList(_) => 5,
        }
    }

    pub fn precedence(&self) -> (r: u8)
        ensures
            r == self.spec_precedence(),
    {
        match self {
            ExclusiveModifier::Inline => 0,
            ExclusiveModifier::RequiresSpace => 1,
            ExclusiveModifier::NewLine => 2,
            ExclusiveModifier::NewParagraph => 3,
            ExclusiveModifier::NewHeading => 4,
            ExclusiveModifier::UnorderedList => 5,
            ExclusiveModifier::OrderedList(_) => 5,
        }
    }
}

impl ExclusiveStyle {
    /// Fixed precedence of each style: `Default` lowest, `Heading` highest.
    pub open spec fn spec_precedence(self) -> u8 {
        match self {
            ExclusiveStyle::Default => 0,
            ExclusiveStyle::Code => 1,
            ExclusiveStyle::Link => 2,
            ExclusiveStyle::Heading => 3,
        }
    }

    pub fn precedence(&self) -> (r: u8)
        ensures
            r == self.spec_precedence(),
    {
        match self {
            ExclusiveStyle::Default => 0,
            ExclusiveStyle::Code => 1,
            ExclusiveStyle::Link => 2,
            ExclusiveStyle::Heading => 3,
        }
    }
}

impl Context {
    /// The starting context: inline flow, default style, no flags, depth 0.
    pub open spec fn spec_initial() -> Context {
        Context {
            exclusive_modifier: ExclusiveModifier::Inline,
            inside_raw_block: false,
            inside_list: false,
            exclusive_style: ExclusiveStyle::Default,
            bold: false,
            italic: false,
            indent: 0,
        }
    }

    pub fn initial() -> (r: Context)
        ensures
            r == Context::spec_initial(),
    {
        Context {
            exclusive_modifier: ExclusiveModifier::Inline,
            inside_raw_block: false,
            inside_list: false,
            exclusive_style: ExclusiveStyle::Default,
            bold: false,
            italic: false,
            indent: 0,
        }
    }

    /// Merging keeps the strictly higher-precedence modifier; on a tie the
    /// incoming one wins. Taking a list modifier adds one indent level
    /// (clamped at the type's maximum).
    pub open spec fn spec_merge_exclusive_modifier(self, modifier: ExclusiveModifier) -> Context {
        if self.exclusive_modifier.spec_precedence() > modifier.spec_precedence() {
            self
        } else {
            let indent = match modifier {
                ExclusiveModifier::UnorderedList | ExclusiveModifier::OrderedList(_) => {
                    if self.indent == u16::MAX { u16::MAX } else { (self.indent + 1) as u16 }
                },
                _ => self.indent,
            };
            Context { exclusive_modifier: modifier, indent, ..self }
        }
    }

    pub fn merge_exclusive_modifier(self, modifier: ExclusiveModifier) -> (r: Context)
        ensures
            r == self.spec_merge_exclusive_modifier(modifier),
    {
        if self.exclusive_modifier.precedence() > modifier.precedence() {
            self
        } else {
            let indent: u16 = match modifier {
                ExclusiveModifier::UnorderedList | ExclusiveModifier::OrderedList(_) => {
                    if self.indent == u16::MAX { u16::MAX } else { self.indent + 1 }
                },
                _ => self.indent,
            };
            Context { exclusive_modifier: modifier, indent, ..self }
        }
    }

    pub open spec fn spec_set_exclusive_modifier(self, modifier: ExclusiveModifier) -> Context {
        Context { exclusive_modifier: modifier, ..self }
    }

    pub fn set_exclusive_modifier(self, modifier: ExclusiveModifier) -> (r: Context)
        ensures
            r == self.spec_set_exclusive_modifier(modifier),
    {
        Context { exclusive_modifier: modifier, ..self }
    }

    pub open spec fn spec_has_stackable_modifier(self, modifier: StackableModifier) -> bool {
        match modifier {
            StackableModifier::InsideRawBlock => self.inside_raw_block,
            StackableModifier::InsideList => self.inside_list,
        }
    }

    pub fn has_stackable_modifier(&self, modifier: StackableModifier) -> (r: bool)
        ensures
            r == self.spec_has_stackable_modifier(modifier),
    {
        match modifier {
            StackableModifier::InsideRawBlock => self.inside_raw_block,
            StackableModifier::InsideList => self.inside_list,
        }
    }

    pub open spec fn spec_add_stackable_modifier(self, modifier: StackableModifier) -> Context {
        match modifier {
            StackableModifier::InsideRawBlock => Context { inside_raw_block: true, ..self },
            StackableModifier::InsideList => Context { inside_list: true, ..self },
        }
    }

    pub fn add_stackable_modifier(self, modifier: StackableModifier) -> (r: Context)
        ensures
            r == self.spec_add_stackable_modifier(modifier),
    {
        match modifier {
            StackableModifier::InsideRawBlock => Context { inside_raw_block: true, ..self },
            StackableModifier::InsideList => Context { inside_list: true, ..self },
        }
    }

    pub open spec fn spec_remove_stackable_modifier(self, modifier: StackableModifier) -> Context {
        match modifier {
            StackableModifier::InsideRawBlock => Context { inside_raw_block: false, ..self },
            StackableModifier::InsideList => Context { inside_list: false, ..self },
        }
    }

    pub fn remove_stackable_modifier(self, modifier: StackableModifier) -> (r: Context)
        ensures
            r == self.spec_remove_stackable_modifier(modifier),
    {
        match modifier {
            StackableModifier::InsideRawBlock => Context { inside_raw_block: false, ..self },
            StackableModifier::InsideList => Context { inside_list: false, ..self },
        }
    }

    /// Merging keeps the higher-precedence style; on a tie the incoming
    /// style wins.
    pub open spec fn spec_merge_exclusive_style(self, style: ExclusiveStyle) -> Context {
        if self.exclusive_style.spec_precedence() <= style.spec_precedence() {
            Context { exclusive_style: style, ..self }
        } else {
            self
        }
    }

    pub fn merge_exclusive_style(self, style: ExclusiveStyle) -> (r: Context)
        ensures
            r == self.spec_merge_exclusive_style(style),
    {
        if self.exclusive_style.precedence() <= style.precedence() {
            Context { exclusive_style: style, ..self }
        } else {
            self
        }
    }

    pub open spec fn spec_set_exclusive_style(self, style: ExclusiveStyle) -> Context {
        Context { exclusive_style: style, ..self }
    }

    pub fn set_exclusive_style(self, style: ExclusiveStyle) -> (r: Context)
        ensures
            r == self.spec_set_exclusive_style(style),
    {
        Context { exclusive_style: style, ..self }
    }

    pub open spec fn spec_has_stackable_style(self, style: StackableStyle) -> bool {
        match style {
            StackableStyle::Bold => self.bold,
            StackableStyle::Italic => self.italic,
        }
    }

    pub fn has_stackable_style(&self, style: StackableStyle) -> (r: bool)
        ensures
            r == self.spec_has_stackable_style(style),
    {
        match style {
            StackableStyle::Bold => self.bold,
            StackableStyle::Italic => self.italic,
        }
    }

    pub open spec fn spec_add_stackable_style(self, style: StackableStyle) -> Context {
        match style {
            StackableStyle::Bold => Context { bold: true, ..self },
            StackableStyle::Italic => Context { italic: true, ..self },
        }
    }

    pub fn add_stackable_style(self, style: StackableStyle) -> (r: Context)
        ensures
            r == self.spec_add_stackable_style(style),
    {
        match style {
            StackableStyle::Bold => Context { bold: true, ..self },
            StackableStyle::Italic => Context { italic: true, ..self },
        }
    }

    pub open spec fn spec_remove_stackable_style(self, style: StackableStyle) -> Context {
        match style {
            StackableStyle::Bold => Context { bold: false, ..self },
            StackableStyle::Italic => Context { italic: false, ..self },
        }
    }

    pub fn remove_stackable_style(self, style: StackableStyle) -> (r: Context)
        ensures
            r == self.spec_remove_stackable_style(style),
    {
        match style {
            StackableStyle::Bold => Context { bold: false, ..self },
            StackableStyle::Italic => Context { italic: false, ..self },
        }
    }

    /// The resolved span style: the exclusive style picks the foreground
    /// (headings are also bold), and the stackable flags are added on top.
    pub open spec fn spec_style(self) -> TextStyle {
        let fg = match self.exclusive_style {
            ExclusiveStyle::Default => Fg::Default,
            ExclusiveStyle::Code => Fg::Gray,
            ExclusiveStyle::Link => Fg::Link,
            ExclusiveStyle::Heading => Fg::Heading,
        };
        let base_bold = self.exclusive_style == ExclusiveStyle::Heading;
        TextStyle { fg, bold: base_bold || self.bold, italic: self.italic }
    }

    pub fn style(&self) -> (r: TextStyle)
        ensures
            r == self.spec_style(),
    {
        let fg = match self.exclusive_style {
            ExclusiveStyle::Default => Fg::Default,
            ExclusiveStyle::Code => Fg::Gray,
            ExclusiveStyle::Link => Fg::Link,
            ExclusiveStyle::Heading => Fg::Heading,
        };
        let base_bold = self.exclusive_style == ExclusiveStyle::Heading;
        TextStyle { fg, bold: base_bold || self.bold, italic: self.italic }
    }
}

impl RenderStatus {
    pub open spec fn spec_is_rendered(self) -> bool {
        self != RenderStatus::NotRendered
    }

    pub fn is_rendered(&self) -> (r: bool)
        ensures
            r == self.spec_is_rendered(),
    {
        *self != RenderStatus::NotRendered
    }
}

} // verus!
