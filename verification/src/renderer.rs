//! The capability contract a rendering backend offers to widgets.

use vstd::prelude::*;
use crate::layout::{HorizontalAlignment, Rectangle, Size, VerticalAlignment};

verus! {

/// What widgets need from a backend: default metrics, text measurement (the
/// font-shaping collaborator), and the drawing of text and radio markers.
pub trait Renderer: Sized {
    /// Backend styling data for radio buttons.
    type Style: Default;

    /// Inherited drawing defaults.
    type Defaults;

    /// What drawing produces.
    type Output;

    /// What the font-shaping collaborator reports as the natural size of a
    /// string at a font size.
    spec fn measured(&self, content: Seq<char>, size: u32) -> Size;

    /// The default edge length of a radio button's marker.
    spec fn default_size_spec(&self) -> u32;

    /// The default font size of text.
    spec fn default_text_size_spec(&self) -> u32;

    /// What drawing a string does: the backend's new state and the output it
    /// hands back for the string at the given box, font size and alignment.
    spec fn draw_text_spec(
        self,
        defaults: Self::Defaults,
        bounds: Rectangle,
        content: Seq<char>,
        size: u32,
        horizontal_alignment: HorizontalAlignment,
        vertical_alignment: VerticalAlignment,
    ) -> (Self, Self::Output);

    /// What drawing a radio button does: the backend's new state and the
    /// output for the marker box, selection and hover state, drawn label and
    /// style.
    spec fn draw_radio_spec(
        self,
        bounds: Rectangle,
        is_selected: bool,
        is_mouse_over: bool,
        label: Self::Output,
        style: Self::Style,
    ) -> (Self, Self::Output);

    fn default_size(&self) -> (r: u32)
        ensures
            r == self.default_size_spec(),
    ;

    fn default_text_size(&self) -> (r: u32)
        ensures
            r == self.default_text_size_spec(),
    ;

    fn measure_text(&self, content: &String, size: u32) -> (r: Size)
        ensures
            r == self.measured(content@, size),
    ;

    fn draw_text(
        &mut self,
        defaults: &Self::Defaults,
        bounds: Rectangle,
        content: &String,
        size: u32,
        horizontal_alignment: HorizontalAlignment,
        vertical_alignment: VerticalAlignment,
    ) -> (out: Self::Output)
        ensures
            (*final(self), out) == old(self).draw_text_spec(
                *defaults,
                bounds,
                content@,
                size,
                horizontal_alignment,
                vertical_alignment,
            ),
    ;

    /// Draws a radio button: its box, its selection and hover state, and its
    /// already-drawn label.
    fn draw_radio(
        &mut self,
        bounds: Rectangle,
        is_selected: bool,
        is_mouse_over: bool,
        label: Self::Output,
        style: &Self::Style,
    ) -> (out: Self::Output)
        ensures
            (*final(self), out) == old(self).draw_radio_spec(
                bounds,
                is_selected,
                is_mouse_over,
                label,
                *style,
            ),
    ;
}

/// A renderer that draws nothing and measures all text as empty; it stands in
/// where only layout and event dispatch matter.
pub struct Null;

impl Renderer for Null {
    type Style = ();

    type Defaults = ();

    type Output = ();

    open spec fn measured(&self, content: Seq<char>, size: u32) -> Size {
        Size { width: 0u32, height: 0u32 }
    }

    open spec fn default_size_spec(&self) -> u32 {
        28u32
    }

    open spec fn default_text_size_spec(&self) -> u32 {
        20u32
    }

    open spec fn draw_text_spec(
        self,
        defaults: Self::Defaults,
        bounds: Rectangle,
        content: Seq<char>,
        size: u32,
        horizontal_alignment: HorizontalAlignment,
        vertical_alignment: VerticalAlignment,
    ) -> (Self, Self::Output) {
        (self, ())
    }

    open spec fn draw_radio_spec(
        self,
        bounds: Rectangle,
        is_selected: bool,
        is_mouse_over: bool,
        label: Self::Output,
        style: Self::Style,
    ) -> (Self, Self::Output) {
        (self, ())
    }

    fn default_size(&self) -> (r: u32) {
        28
    }

    fn default_text_size(&self) -> (r: u32) {
        20
    }

    fn measure_text(&self, content: &String, size: u32) -> (r: Size) {
        Size { width: 0, height: 0 }
    }

    fn draw_text(
        &mut self,
        defaults: &Self::Defaults,
        bounds: Rectangle,
        content: &String,
        size: u32,
        horizontal_alignment: HorizontalAlignment,
        vertical_alignment: VerticalAlignment,
    ) -> Self::Output {
    }

    fn draw_radio(
        &mut self,
        bounds: Rectangle,
        is_selected: bool,
        is_mouse_over: bool,
        label: Self::Output,
        style: &Self::Style,
    ) -> Self::Output {
    }
}

} // verus!
