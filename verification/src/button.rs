use vstd::prelude::*;
use crate::common::{inside, is_inside};
use crate::draw_handle::{lemma_drawn_twice, DrawCommandView, DrawHandle};
use crate::gui_component::GuiComponentBehaviour;
use crate::gui_theme::{state_colour, state_get_colour, StateColour};
use crate::types::{saturate, saturate_i64, Colour, Dimensions, Point};

verus! {

/// A rectangle with a caption that yields its action when it is clicked.
#[derive(PartialEq, Debug)]
pub struct Button {
    action_string: String,
    colour: Colour,
    font_size: i32,
    dimensions: Dimensions,
    position: Point,
    text: String,
}

/// A `Button` as a mathematical value.
pub struct ButtonView {
    pub action_string: Seq<char>,
    pub colour: Colour,
    pub font_size: i32,
    pub dimensions: Dimensions,
    pub position: Point,
    pub text: Seq<char>,
}

impl ButtonView {
    /// The button that `new` makes of a caption that the renderer measures
    /// `text_width` pixels wide.
    pub open spec fn created(
        text: Seq<char>,
        action_string: Seq<char>,
        font_size: i32,
        position: Point,
        text_width: i32,
    ) -> ButtonView {
        ButtonView {
            action_string,
            colour: state_colour(StateColour::Default),
            font_size,
            dimensions: (saturate(text_width + 10) as i32, 50),
            position,
            text,
        }
    }

    /// Whether a pointer at `point` is over the button.
    pub open spec fn hovering(self, point: Point) -> bool {
        inside(self.position, self.dimensions, point)
    }

    /// The button after it has looked at a pointer at `point`.
    pub open spec fn hovered(self, point: Point) -> ButtonView {
        ButtonView {
            colour: if self.hovering(point) {
                state_colour(StateColour::Hovered)
            } else {
                state_colour(StateColour::Default)
            },
            ..self
        }
    }

    /// What paints the button: its rectangle, then its caption.
    pub open spec fn commands(self) -> Seq<DrawCommandView> {
        seq![
            DrawCommandView::Rectangle {
                x: self.position.0,
                y: self.position.1,
                width: saturate(self.dimensions.0 + 10) as i32,
                height: self.dimensions.1,
                colour: self.colour,
            },
            DrawCommandView::Text {
                text: self.text,
                x: saturate(self.position.0 + 10) as i32,
                y: saturate(self.position.1 + self.dimensions.1 - 30) as i32,
                font_size: self.font_size,
                colour: state_colour(StateColour::Text),
            },
        ]
    }

    /// What a click yields: the action, if the pointer is over the button and
    /// the click is there, else the empty token.
    pub open spec fn token(self, point: Point, is_clicked: bool) -> Seq<char> {
        if self.hovering(point) && is_clicked {
            self.action_string
        } else {
            Seq::empty()
        }
    }

    /// The widget at the size `dimensions`.
    pub open spec fn resized(self, dimensions: Dimensions) -> ButtonView {
        ButtonView { dimensions, ..self }
    }

    /// The widget with its left edge at `x`.
    pub open spec fn moved_x(self, x: i32) -> ButtonView {
        ButtonView { position: (x, self.position.1), ..self }
    }

    /// The button with the caption `text`, which the renderer measures
    /// `text_width` pixels wide.
    pub open spec fn with_text(self, text: Seq<char>, text_width: i32) -> ButtonView {
        ButtonView {
            text,
            dimensions: (saturate(text_width + 10) as i32, self.dimensions.1),
            ..self
        }
    }
}

impl View for Button {
    type V = ButtonView;

    closed spec fn view(&self) -> ButtonView {
        ButtonView {
            action_string: self.action_string@,
            colour: self.colour,
            font_size: self.font_size,
            dimensions: self.dimensions,
            position: self.position,
            text: self.text@,
        }
    }
}

impl Button {
    /// Create a new button whose width follows from `text_width`, the width
    /// that the renderer measures for `text` at `font_size`: ten pixels more,
    /// at most what an `i32` holds. It is 50 pixels high.
    pub fn new(
        text: &str,
        action_string: &str,
        font_size: i32,
        position: Point,
        text_width: i32,
    ) -> (b: Button)
        ensures
            b@ == ButtonView::created(text@, action_string@, font_size, position, text_width),
    {
        Button {
            text: text.to_string(),
            action_string: action_string.to_string(),
            font_size,
            position,
            dimensions: (saturate_i64(text_width as i64 + 10), 50),
            colour: state_get_colour(StateColour::Default),
        }
    }

    /// Create a new button with specific `dimensions`.
    pub fn new_with_dimensions(
        text: &str,
        action_string: &str,
        font_size: i32,
        position: Point,
        dimensions: Dimensions,
    ) -> (b: Button)
        ensures
            b@ == (ButtonView {
                action_string: action_string@,
                colour: state_colour(StateColour::Default),
                font_size,
                dimensions,
                position,
                text: text@,
            }),
    {
        Button {
            text: text.to_string(),
            action_string: action_string.to_string(),
            font_size,
            position,
            dimensions,
            colour: state_get_colour(StateColour::Default),
        }
    }

    /// Set the text of a button and fit its width to `text_width`, the width
    /// that the renderer measures for `text` at the button's font size. The
    /// height stays.
    pub fn set_text(&mut self, text: &str, text_width: i32) -> (r: &Self)
        ensures
            r@ == old(self)@.with_text(text@, text_width),
            final(self)@ == r@,
    {
        self.text = text.to_string();
        let height = self.dimensions.1;
        self.resize((saturate_i64(text_width as i64 + 10), height));
        &*self
    }

    /// Resizes the button to the given `new_dimensions`.
    pub fn resize(&mut self, new_dimensions: Dimensions)
        ensures
            final(self)@ == old(self)@.resized(new_dimensions),
    {
        self.dimensions = new_dimensions;
    }

    /// Moves the button's left edge to `new_x_pos`.
    pub fn move_x(&mut self, new_x_pos: i32)
        ensures
            final(self)@ == old(self)@.moved_x(new_x_pos),
    {
        self.position = (new_x_pos, self.position.1);
    }

    /// Where the top-left corner is.
    pub fn get_position(&self) -> (p: Point)
        ensures
            p == self@.position,
    {
        self.position
    }

    /// The width and the height.
    pub fn get_dimensions(&self) -> (d: Dimensions)
        ensures
            d == self@.dimensions,
    {
        self.dimensions
    }

    /// The font size of the caption, at which its width is to be measured.
    pub fn get_font_size(&self) -> (f: i32)
        ensures
            f == self@.font_size,
    {
        self.font_size
    }

    /// The caption.
    pub fn get_text(&self) -> (t: &str)
        ensures
            t@ == self@.text,
    {
        self.text.as_str()
    }

    /// The color of the rectangle, as the pointer last left it.
    pub fn get_colour(&self) -> (c: Colour)
        ensures
            c == self@.colour,
    {
        self.colour
    }
}

impl GuiComponentBehaviour<String> for Button {
    /// Draw `Button` on the scope, in the color that the pointer's place
    /// gives it.
    fn draw(&mut self, draw_handler: &mut DrawHandle)
        ensures
            final(self)@ == old(self)@.hovered(old(draw_handler)@.pointer.position),
            final(draw_handler)@ == old(draw_handler)@.drawn(final(self)@.commands()),
    {
        let mouse_position = (draw_handler.get_mouse_x(), draw_handler.get_mouse_y());
        self.is_hovered(mouse_position);

        draw_handler.draw_rectangle(
            self.position.0,
            self.position.1,
            saturate_i64(self.dimensions.0 as i64 + 10),
            self.dimensions.1,
            self.colour,
        );

        draw_handler.draw_text(
            self.text.as_str(),
            saturate_i64(self.position.0 as i64 + 10),
            saturate_i64(self.position.1 as i64 + self.dimensions.1 as i64 - 30),
            self.font_size,
            state_get_colour(StateColour::Text),
        );
        proof {
            let c = self@.commands();
            lemma_drawn_twice(old(draw_handler)@, seq![c[0]], seq![c[1]]);
            assert(seq![c[0]] + seq![c[1]] =~= c);
        }
    }

    /// Checks whether cursor is hovering over button, changes colour and
    /// returns `true` or `false` depending on the result.
    fn is_hovered(&mut self, mouse_position: Point) -> (r: bool)
        ensures
            r == old(self)@.hovering(mouse_position),
            final(self)@ == old(self)@.hovered(mouse_position),
    {
        if is_inside(self.position, self.dimensions, mouse_position) {
            self.colour = state_get_colour(StateColour::Hovered);
            true
        } else {
            self.colour = state_get_colour(StateColour::Default);
            false
        }
    }

    /// Checks whether or not the user is clicking on the button.
    fn is_clicked(&mut self, mouse_position: Point, is_clicked: bool) -> (r: String)
        ensures
            r@ == old(self)@.token(mouse_position, is_clicked),
            final(self)@ == old(self)@,
    {
        if is_inside(self.position, self.dimensions, mouse_position) && is_clicked {
            self.action_string.clone()
        } else {
            String::new()
        }
    }
}

} // verus!
