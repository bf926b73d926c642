use vstd::prelude::*;
use crate::draw_handle::{lemma_drawn_twice, DrawCommandView, DrawHandle};
use crate::gui_component::GuiComponentBehaviour;
use crate::gui_theme::{state_colour, state_get_colour, StateColour};
use crate::types::{black, saturate, saturate_i64, Colour, Dimensions, Point};

verus! {

/// A caption on a rectangle with a rule beneath it. Nothing happens when the
/// pointer is over it or clicks it.
#[derive(PartialEq, Debug)]
pub struct Label {
    colour: Colour,
    font_size: i32,
    dimensions: Dimensions,
    position: Point,
    text: String,
}

/// A `Label` as a mathematical value.
pub struct LabelView {
    pub colour: Colour,
    pub font_size: i32,
    pub dimensions: Dimensions,
    pub position: Point,
    pub text: Seq<char>,
}

impl LabelView {
    /// The label that `new` makes of a caption that the renderer measures
    /// `text_width` pixels wide.
    pub open spec fn created(text: Seq<char>, font_size: i32, position: Point, text_width: i32)
        -> LabelView {
        LabelView {
            colour: state_colour(StateColour::Active),
            font_size,
            dimensions: (saturate(text_width + 10) as i32, 50),
            position,
            text,
        }
    }

    /// What paints the label: its rectangle, the rule along its lower edge,
    /// then its caption.
    pub open spec fn commands(self) -> Seq<DrawCommandView> {
        seq![
            DrawCommandView::Rectangle {
                x: self.position.0,
                y: self.position.1,
                width: saturate(self.dimensions.0 + 10) as i32,
                height: self.dimensions.1,
                colour: self.colour,
            },
            DrawCommandView::Line {
                x1: self.position.0,
                y1: saturate(self.position.1 + self.dimensions.1) as i32,
                x2: saturate(self.position.0 + self.dimensions.0 + 10) as i32,
                y2: saturate(self.position.1 + self.dimensions.1) as i32,
                thickness_tenths: 35,
                colour: Colour::black(),
            },
            DrawCommandView::Text {
                text: self.text,
                x: saturate(self.position.0 + 10) as i32,
                y: saturate(self.position.1 + self.dimensions.1 - 30) as i32,
                font_size: self.font_size,
                colour: state_colour(StateColour::Text),
            },
        ]
    }

    /// The widget at the size `dimensions`.
    pub open spec fn resized(self, dimensions: Dimensions) -> LabelView {
        LabelView { dimensions, ..self }
    }

    /// The widget with its left edge at `x`.
    pub open spec fn moved_x(self, x: i32) -> LabelView {
        LabelView { position: (x, self.position.1), ..self }
    }

    /// The label with the caption `text`, which the renderer measures
    /// `text_width` pixels wide.
    pub open spec fn with_text(self, text: Seq<char>, text_width: i32) -> LabelView {
        LabelView {
            text,
            dimensions: (saturate(text_width + 10) as i32, self.dimensions.1),
            ..self
        }
    }
}

impl View for Label {
    type V = LabelView;

    closed spec fn view(&self) -> LabelView {
        LabelView {
            colour: self.colour,
            font_size: self.font_size,
            dimensions: self.dimensions,
            position: self.position,
            text: self.text@,
        }
    }
}

impl Label {
    /// Create a new label whose width follows from `text_width`, the width
    /// that the renderer measures for `text` at `font_size`: ten pixels more,
    /// at most what an `i32` holds. It is 50 pixels high.
    pub fn new(text: &str, font_size: i32, position: Point, text_width: i32) -> (l: Label)
        ensures
            l@ == LabelView::created(text@, font_size, position, text_width),
    {
        Label {
            text: text.to_string(),
            font_size,
            position,
            dimensions: (saturate_i64(text_width as i64 + 10), 50),
            colour: state_get_colour(StateColour::Active),
        }
    }

    /// Create a new label with specific `dimensions`.
    pub fn new_with_dimensions(
        text: &str,
        font_size: i32,
        position: Point,
        dimensions: Dimensions,
    ) -> (l: Label)
        ensures
            l@ == (LabelView {
                colour: state_colour(StateColour::Active),
                font_size,
                dimensions,
                position,
                text: text@,
            }),
    {
        Label {
            text: text.to_string(),
            font_size,
            position,
            dimensions,
            colour: state_get_colour(StateColour::Active),
        }
    }

    /// Set the text of a label and fit its width to `text_width`, the width
    /// that the renderer measures for `text` at the label's font size. The
    /// height stays.
    pub fn set_text(&mut self, text: &str, text_width: i32) -> (r: &Self)
        ensures
            r@ == old(self)@.with_text(text@, text_width),
            final(self)@ == r@,
    {
        self.text = text.to_string();
        let height = self.dimensions.1;
        self.resize((saturate_i64(text_width as i64 + 10), height));
        &*self
    }

    /// Resizes the label to the given `new_dimensions`.
    pub fn resize(&mut self, new_dimensions: Dimensions)
        ensures
            final(self)@ == old(self)@.resized(new_dimensions),
    {
        self.dimensions = new_dimensions;
    }

    /// Moves the label's left edge to `new_x_pos`.
    pub fn move_x(&mut self, new_x_pos: i32)
        ensures
            final(self)@ == old(self)@.moved_x(new_x_pos),
    {
        self.position = (new_x_pos, self.position.1);
    }

    /// Where the top-left corner is.
    pub fn get_position(&self) -> (p: Point)
        ensures
            p == self@.position,
    {
        self.position
    }

    /// The width and the height.
    pub fn get_dimensions(&self) -> (d: Dimensions)
        ensures
            d == self@.dimensions,
    {
        self.dimensions
    }

    /// The font size of the caption, at which its width is to be measured.
    pub fn get_font_size(&self) -> (f: i32)
        ensures
            f == self@.font_size,
    {
        self.font_size
    }

    /// The caption.
    pub fn get_text(&self) -> (t: &str)
        ensures
            t@ == self@.text,
    {
        self.text.as_str()
    }

    /// The color of the rectangle, as the pointer last left it.
    pub fn get_colour(&self) -> (c: Colour)
        ensures
            c == self@.colour,
    {
        self.colour
    }
}

impl GuiComponentBehaviour<()> for Label {
    /// Draw `Label` on the scope.
    fn draw(&mut self, draw_handler: &mut DrawHandle)
        ensures
            final(self)@ == old(self)@,
            final(draw_handler)@ == old(draw_handler)@.drawn(old(self)@.commands()),
    {
        let mouse_position = (draw_handler.get_mouse_x(), draw_handler.get_mouse_y());
        self.is_hovered(mouse_position);

        draw_handler.draw_rectangle(
            self.position.0,
            self.position.1,
            saturate_i64(self.dimensions.0 as i64 + 10),
            self.dimensions.1,
            self.colour,
        );

        let rule_y = saturate_i64(self.position.1 as i64 + self.dimensions.1 as i64);
        draw_handler.draw_line_ex(
            (self.position.0, rule_y),
            (saturate_i64(self.position.0 as i64 + self.dimensions.0 as i64 + 10), rule_y),
            35,
            black(),
        );

        draw_handler.draw_text(
            self.text.as_str(),
            saturate_i64(self.position.0 as i64 + 10),
            saturate_i64(self.position.1 as i64 + self.dimensions.1 as i64 - 30),
            self.font_size,
            state_get_colour(StateColour::Text),
        );
        proof {
            let c = self@.commands();
            let h = old(draw_handler)@;
            lemma_drawn_twice(h, seq![c[0]], seq![c[1]]);
            lemma_drawn_twice(h, seq![c[0]] + seq![c[1]], seq![c[2]]);
            assert(seq![c[0]] + seq![c[1]] + seq![c[2]] =~= c);
        }
    }

    /// Would check whether or not the mouse is hovering over the label,
    /// instead always returns `false`, as nothing should happen when the label
    /// is being hovered over.
    fn is_hovered(&mut self, _mouse_position: Point) -> (r: bool)
        ensures
            !r,
            final(self)@ == old(self)@,
    {
        false
    }

    /// Would check whether or not the user is clicking on the label; a label
    /// has nothing to do when it is clicked.
    fn is_clicked(&mut self, _mouse_position: Point, _is_clicked: bool)
        ensures
            final(self)@ == old(self)@,
    {
    }
}

} // verus!
