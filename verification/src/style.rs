//! Rendering style: how sections are framed and how much room that costs.

use vstd::prelude::*;

verus! {

/// Section border style.
#[derive(Copy, Clone, Debug, PartialEq, Eq, Structural)]
pub enum BorderStyle {
    /// Do not frame the section at all.
    NoBorder,
    /// Indent the section by one column.
    Indent,
    /// Leave one blank line after the section.
    Spacing,
    /// Draw a full border around the section.
    FullBorder,
}

impl Default for BorderStyle {
    fn default() -> (r: BorderStyle)
        ensures
            r == BorderStyle::FullBorder,
    {
        BorderStyle::FullBorder
    }
}

/// Section style.
#[derive(Copy, Clone, Debug)]
pub struct SectionStyle {
    /// How a section is framed.
    pub border: BorderStyle,
}

impl Default for SectionStyle {
    fn default() -> (r: SectionStyle)
        ensures
            r.border == BorderStyle::FullBorder,
    {
        SectionStyle { border: BorderStyle::FullBorder }
    }
}

/// Text style.
#[derive(Copy, Clone, Debug)]
pub struct TextStyle {}

impl Default for TextStyle {
    fn default() -> (r: TextStyle) {
        TextStyle {  }
    }
}

/// General style for elements.
#[derive(Copy, Clone, Debug)]
pub struct GeneralStyle {
    /// Style of sections.
    pub section: SectionStyle,
    /// Style of text runs.
    pub text: TextStyle,
}

impl Default for GeneralStyle {
    fn default() -> (r: GeneralStyle)
        ensures
            r.section.border == BorderStyle::FullBorder,
    {
        GeneralStyle { section: SectionStyle::default(), text: TextStyle {  } }
    }
}

/// Style for changing how the widget is rendered.
#[derive(Copy, Clone, Debug)]
pub struct DurfWidgetStyle {
    /// Style applied to every element.
    pub general: GeneralStyle,
}

impl Default for DurfWidgetStyle {
    fn default() -> (r: DurfWidgetStyle)
        ensures
            r.general.section.border == BorderStyle::FullBorder,
    {
        DurfWidgetStyle { general: GeneralStyle::default() }
    }
}

/// The lines of border overhead a section adds around its children.
pub open spec fn border_overhead(b: BorderStyle) -> nat {
    match b {
        BorderStyle::NoBorder => 0,
        BorderStyle::Indent => 0,
        BorderStyle::Spacing => 1,
        BorderStyle::FullBorder => 2,
    }
}

/// The width left for children inside a framed section.
pub open spec fn narrowed_width(w: u16, b: BorderStyle) -> u16 {
    match b {
        BorderStyle::NoBorder => w,
        BorderStyle::Spacing => w,
        BorderStyle::Indent => if w >= 1 {
            (w - 1) as u16
        } else {
            0
        },
        BorderStyle::FullBorder => if w >= 2 {
            (w - 2) as u16
        } else {
            0
        },
    }
}

} // verus!
