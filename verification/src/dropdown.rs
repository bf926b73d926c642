use vstd::prelude::*;
use crate::button::{Button, ButtonView};
use crate::common::{
    any_button_in, draw_components, dropdown_mut_in, dropdown_views, dropdowns_in,
    fix_component_widths, is_inside, slider_value_in, token_views, widget_views, DrawableType,
};
use crate::draw_handle::{lemma_drawn_twice, DrawHandle};
use crate::error::GuiError;
use crate::fraction::Fraction;
use crate::gui_component::GuiComponentBehaviour;
use crate::gui_theme::{state_get_colour, StateColour};
use crate::model::{
    dropdown_place, dropdowns_of, fix_widths, lemma_dropdown_place, lemma_fix_widths_depth,
    move_all, seq_frame, sliders_of, DropdownView, WidgetView,
};
use crate::slider::{Slider, SliderView};
use crate::types::{saturate_i64, Colour, Dimensions, Point};

verus! {

/// A header that opens and closes a column of widgets of its own. It is a
/// widget among others and a collection of widgets at once.
#[derive(PartialEq, Debug)]
pub struct Dropdown {
    background_colour: Colour,
    components: Vec<DrawableType>,
    components_fixed_widths: bool,
    font_size: i32,
    actions: Vec<String>,
    dimensions: Dimensions,
    position: Point,
    show: bool,
    text: String,
    text_colour: Colour,
}

impl View for Dropdown {
    type V = DropdownView;

    closed spec fn view(&self) -> DropdownView
        decreases self,
    {
        DropdownView {
            background_colour: self.background_colour,
            components: Seq::new(
                self.components@.len(),
                |i: int|
                    if 0 <= i < self.components@.len() {
                        self.components@[i].view()
                    } else {
                        arbitrary()
                    },
            ),
            components_fixed_widths: self.components_fixed_widths,
            font_size: self.font_size,
            actions: token_views(self.actions@),
            dimensions: self.dimensions,
            position: self.position,
            show: self.show,
            text: self.text@,
            text_colour: self.text_colour,
        }
    }
}

impl Dropdown {
    /// The components of the view are the views of the components.
    proof fn lemma_components(&self)
        ensures
            self@.components == widget_views(self.components@),
    {
        reveal_with_fuel(<Dropdown as View>::view, 2);
        assert(self@.components =~= widget_views(self.components@));
    }

    /// Create a new `Dropdown` whose width follows from `text_width`, the
    /// width that the renderer measures for `text` at `font_size`: ten
    /// pixels more, at most what an `i32` holds. It is 50 pixels high,
    /// closed and empty.
    pub fn new(text: &str, font_size: i32, position: Point, text_width: i32) -> (d: Dropdown)
        ensures
            d@ == DropdownView::created(text@, font_size, position, text_width),
    {
        let d = Dropdown {
            actions: Vec::new(),
            background_colour: state_get_colour(StateColour::Default),
            components: Vec::new(),
            components_fixed_widths: false,
            dimensions: (saturate_i64(text_width as i64 + 10), 50),
            font_size,
            position,
            show: false,
            text: text.to_string(),
            text_colour: state_get_colour(StateColour::Text),
        };
        assert(d@.components =~= Seq::empty());
        assert(d@.actions =~= Seq::empty());
        d
    }

    /// Add a new `DrawableType` component behind the components to be drawn.
    pub fn add_component(&mut self, component: DrawableType) -> (r: &mut Self)
        ensures
            r@ == old(self)@.with_component(component@),
            *final(self) == *final(r),
    {
        self.components.push(component);
        proof {
            self.lemma_components();
            old(self).lemma_components();
            assert(self@.components =~= old(self)@.components.push(component@));
        }

        self
    }

    fn get_previous_position(&self) -> (p: Point)
        ensures
            p == if self@.components.len() == 0 {
                self@.position
            } else {
                self@.components.last().position()
            },
    {
        proof {
            self.lemma_components();
        }
        let n = self.components.len();
        if n == 0 {
            self.position
        } else {
            self.components[n - 1].get_position()
        }
    }

    /// Where a component that is added without a position comes to stand.
    fn next_position(&self) -> (p: Point)
        ensures
            p == self@.next_position(),
    {
        proof {
            self.lemma_components();
        }
        let previous_position = self.get_previous_position();
        let new_x = saturate_i64(self.position.0 as i64 + self.dimensions.0 as i64);

        if self.components.len() == 0 {
            (new_x, previous_position.1)
        } else {
            let first_height = self.components[0].get_dimensions().1;
            (new_x, saturate_i64(previous_position.1 as i64 + first_height as i64))
        }
    }

    /// Makes it so that when components are drawn, they are all drawn at the
    /// same width so that they are uniform.
    pub fn set_components_fix_widths(&mut self, value: bool) -> (r: &mut Self)
        ensures
            r@ == (DropdownView { components_fixed_widths: value, ..old(self)@ }),
            *final(self) == *final(r),
    {
        self.components_fixed_widths = value;

        self
    }

    fn components_fix_widths(&mut self)
        ensures
            final(self)@ == (DropdownView {
                components: fix_widths(old(self)@.components),
                ..old(self)@
            }),
    {
        proof {
            self.lemma_components();
        }
        fix_component_widths(&mut self.components);
        proof {
            self.lemma_components();
        }
    }

    /// Resizes the `Dropdown` to given `new_dimensions`, and moves its
    /// components to the new right edge of the header.
    pub fn resize(&mut self, new_dimensions: Dimensions)
        ensures
            final(self)@ == old(self)@.resized(new_dimensions),
    {
        self.dimensions = new_dimensions;
        let new_x_pos = saturate_i64(self.position.0 as i64 + self.dimensions.0 as i64);

        let n = self.components.len();
        let mut i: usize = 0;
        while i < n
            invariant
                i <= n,
                self.components.len() == n,
                old(self).components.len() == n,
                self.background_colour == old(self).background_colour,
                self.components_fixed_widths == old(self).components_fixed_widths,
                self.font_size == old(self).font_size,
                self.actions == old(self).actions,
                self.dimensions == new_dimensions,
                self.position == old(self).position,
                self.show == old(self).show,
                self.text == old(self).text,
                self.text_colour == old(self).text_colour,
                forall|j: int|
                    0 <= j < i ==> self.components@[j]@ == old(self).components@[j]@.moved_x(
                        new_x_pos,
                    ),
                forall|j: int| i <= j < n ==> self.components@[j] == old(self).components@[j],
            decreases n - i,
        {
            self.components[i].move_x(new_x_pos);
            i += 1;
        }
        proof {
            self.lemma_components();
            old(self).lemma_components();
            assert(self@.components =~= move_all(old(self)@.components, new_x_pos));
        }
    }

    /// Moves the left edge of the header to `new_x_pos`.
    pub fn move_x(&mut self, new_x_pos: i32)
        ensures
            final(self)@ == old(self)@.moved_x(new_x_pos),
    {
        self.position = (new_x_pos, self.position.1);
    }

    /// Adds a `Button` to the `Dropdown` with automatic positioning: to the
    /// right of the header, the first in the header's row, each later
    /// component below the one before it. `text_width` is the width that
    /// the renderer measures for `text` at font size 20.
    pub fn add_button(&mut self, text: &str, action: &str, text_width: i32) -> (r: &mut Self)
        ensures
            r@ == old(self)@.with_component(
                WidgetView::Button(
                    ButtonView::created(
                        text@,
                        action@,
                        20,
                        old(self)@.next_position(),
                        text_width,
                    ),
                ),
            ),
            *final(self) == *final(r),
    {
        let position = self.next_position();

        self.add_component(
            DrawableType::Button(Button::new(text, action, 20, position, text_width)),
        )
    }

    /// Adds a `Slider` to the `Dropdown` with automatic positioning: to the
    /// right of the header, the first in the header's row, each later
    /// component below the one before it. Its track is 250 pixels wide.
    pub fn add_slider(&mut self, min: i32, max: i32, initial_value: Fraction) -> (r: &mut Self)
        ensures
            r@ == old(self)@.with_component(
                WidgetView::Slider(
                    SliderView::created(min, max, initial_value, old(self)@.next_position(), 250),
                ),
            ),
            *final(self) == *final(r),
    {
        let position = self.next_position();

        self.add_component(
            DrawableType::Slider(Slider::new(min, max, initial_value, position, 250)),
        )
    }

    /// Gets the value of the `Slider` that is the `index`-th among the
    /// components, counted from zero. Sliders inside dropdowns that are
    /// components do not count.
    pub fn get_slider_value(&self, index: usize) -> (r: Result<Fraction, GuiError>)
        ensures
            match r {
                Ok(v) => index < sliders_of(self@.components).len() && v == sliders_of(
                    self@.components,
                )[index as int].value,
                Err(e) => e == GuiError::Index && index >= sliders_of(self@.components).len(),
            },
    {
        proof {
            self.lemma_components();
        }
        slider_value_in(&self.components, index)
    }

    /// Gets the value of a specified `Slider` via an index, rounded toward
    /// zero.
    pub fn get_slider_value_i32(&self, index: usize) -> (r: Result<i32, GuiError>)
        ensures
            match r {
                Ok(v) => index < sliders_of(self@.components).len() && v == sliders_of(
                    self@.components,
                )[index as int].value.truncated(),
                Err(e) => e == GuiError::Index && index >= sliders_of(self@.components).len(),
            },
    {
        match self.get_slider_value(index) {
            Ok(v) => Ok(v.truncate()),
            Err(e) => Err(e),
        }
    }

    /// Adds a `Dropdown` to the `Dropdown` with automatic positioning: to
    /// the right of the header, the first in the header's row, each later
    /// component below the one before it. `text_width` is the width that
    /// the renderer measures for `text` at font size 20.
    pub fn add_dropdown(&mut self, text: &str, text_width: i32) -> (r: &mut Self)
        ensures
            r@ == old(self)@.with_component(
                WidgetView::Dropdown(
                    DropdownView::created(text@, 20, old(self)@.next_position(), text_width),
                ),
            ),
            *final(self) == *final(r),
    {
        let position = self.next_position();

        self.add_component(DrawableType::Dropdown(Dropdown::new(text, 20, position, text_width)))
    }

    /// The `Dropdown` that is the `index`-th among the components, counted
    /// from zero, to be changed in its place. Dropdowns inside dropdowns
    /// that are components do not count.
    pub fn get_dropdowns_mut(&mut self, index: usize) -> (r: Result<&mut Dropdown, GuiError>)
        ensures
            match r {
                Ok(d) => index < dropdowns_of(old(self)@.components).len() && d@ == dropdowns_of(
                    old(self)@.components,
                )[index as int] && final(self)@ == (DropdownView {
                    components: old(self)@.components.update(
                        dropdown_place(old(self)@.components, index as int),
                        WidgetView::Dropdown(final(d)@),
                    ),
                    ..old(self)@
                }),
                Err(e) => e == GuiError::Index && index >= dropdowns_of(
                    old(self)@.components,
                ).len() && final(self)@ == old(self)@,
            },
    {
        proof {
            self.lemma_components();
            lemma_dropdown_place(self@.components, index as int);
            let a = *self;
            let k = dropdown_place(self@.components, index as int);
            assert forall|b: Dropdown, d: Dropdown|
                #![trigger b.view(), a.components@.update(k, DrawableType::Dropdown(d))]
                0 <= k < a.components@.len() && a.others_as_in(b) && b.components@
                    == a.components@.update(k, DrawableType::Dropdown(d)) implies b@
                    == (DropdownView {
                    components: a@.components.update(k, WidgetView::Dropdown(d@)),
                    ..a@
                }) by {
                a.lemma_components();
                b.lemma_components();
                assert(b@.components =~= a@.components.update(k, WidgetView::Dropdown(d@)));
            }
            assert forall|b: Dropdown|
                a.others_as_in(b) && b.components@ == a.components@ implies #[trigger] b@
                    == a@ by {
                a.lemma_components();
                b.lemma_components();
            }
        }
        dropdown_mut_in(&mut self.components, index)
    }

    /// Whether `other` differs from this dropdown in its components at most.
    spec fn others_as_in(&self, other: Dropdown) -> bool {
        &&& self.background_colour == other.background_colour
        &&& self.components_fixed_widths == other.components_fixed_widths
        &&& self.font_size == other.font_size
        &&& self.actions == other.actions
        &&& self.dimensions == other.dimensions
        &&& self.position == other.position
        &&& self.show == other.show
        &&& self.text == other.text
        &&& self.text_colour == other.text_colour
    }

    /// Gets a vector of the `Dropdown`s among the components, in their
    /// order. Dropdowns inside them are not among them.
    pub fn get_dropdowns(&self) -> (r: Result<Vec<&Dropdown>, GuiError>)
        ensures
            r is Ok,
            dropdown_views(r->Ok_0@) == dropdowns_of(self@.components),
    {
        proof {
            self.lemma_components();
        }
        Ok(dropdowns_in(&self.components))
    }

    /// Where the top-left corner of the header is.
    pub fn get_position(&self) -> (p: Point)
        ensures
            p == self@.position,
    {
        self.position
    }

    /// The width and the height of the header.
    pub fn get_dimensions(&self) -> (d: Dimensions)
        ensures
            d == self@.dimensions,
    {
        self.dimensions
    }

    /// Whether the dropdown is open.
    pub fn is_shown(&self) -> (b: bool)
        ensures
            b == self@.show,
    {
        self.show
    }

    /// The color of the header, as the pointer last left it.
    pub fn get_colour(&self) -> (c: Colour)
        ensures
            c == self@.background_colour,
    {
        self.background_colour
    }

    /// The components, in the order in which they are drawn.
    pub fn get_components(&self) -> (c: &Vec<DrawableType>)
        ensures
            widget_views(c@) == self@.components,
    {
        proof {
            self.lemma_components();
        }
        &self.components
    }

    /// The actions collected during the last draw that have not been moved
    /// on.
    pub fn get_actions(&self) -> (a: &Vec<String>)
        ensures
            token_views(a@) == self@.actions,
    {
        &self.actions
    }

    /// Whether there is a button in the dropdown, at any depth.
    pub fn has_button(&self) -> (r: bool)
        ensures
            r == WidgetView::Dropdown(self@).has_button(),
        decreases self@.depth(), 0nat,
    {
        proof {
            self.lemma_components();
        }
        any_button_in(&self.components)
    }

    /// Moves the collected actions behind those of `actions`.
    pub fn bubble_actions(&mut self, actions: &mut Vec<String>)
        ensures
            final(self)@ == (DropdownView { actions: Seq::empty(), ..old(self)@ }),
            token_views(final(actions)@) == token_views(old(actions)@) + old(self)@.actions,
    {
        actions.append(&mut self.actions);
        assert(self@.actions =~= Seq::empty());
        assert(self@.components =~= old(self)@.components);
        assert(token_views(actions@) =~= token_views(old(actions)@) + old(self)@.actions);
    }
}

impl GuiComponentBehaviour<()> for Dropdown {
    /// Draw `Dropdown` on the scope and, while it is open, let a frame pass
    /// for its components.
    fn draw(&mut self, draw_handler: &mut DrawHandle)
        ensures
            final(self)@ == old(self)@.draw_outcome(old(draw_handler)@.pointer).dropdown,
            final(draw_handler)@ == old(draw_handler)@.drawn(
                old(self)@.draw_outcome(old(draw_handler)@.pointer).commands,
            ),
        decreases old(self)@.depth(), 0nat,
    {
        let ghost pointer = draw_handler@.pointer;
        let ghost outcome = old(self)@.draw_outcome(pointer);
        let ghost scope = draw_handler@;
        let mouse_position = (draw_handler.get_mouse_x(), draw_handler.get_mouse_y());
        self.is_hovered(mouse_position);
        let ghost header = self@;

        self.actions.clear();

        draw_handler.draw_rectangle(
            self.position.0,
            self.position.1,
            saturate_i64(self.dimensions.0 as i64 + 10),
            self.dimensions.1,
            self.background_colour,
        );

        draw_handler.draw_text(
            self.text.as_str(),
            saturate_i64(self.position.0 as i64 + 10),
            saturate_i64(self.position.1 as i64 + self.dimensions.1 as i64 - 30),
            self.font_size,
            self.text_colour,
        );
        proof {
            let c = header.header_commands();
            lemma_drawn_twice(scope, seq![c[0]], seq![c[1]]);
            assert(seq![c[0]] + seq![c[1]] =~= c);
            assert(draw_handler@ == scope.drawn(c));
            assert(self@.actions =~= Seq::empty());
            assert(self@.components =~= old(self)@.components);
        }

        if self.components_fixed_widths {
            self.components_fix_widths();
        }
        assert(self@.components == old(self)@.normalized());

        if self.show {
            proof {
                self.lemma_components();
                lemma_fix_widths_depth(old(self)@.components);
            }
            let ghost inner = seq_frame(old(self)@.normalized(), pointer);
            draw_components(&mut self.components, &mut self.actions, draw_handler);
            proof {
                self.lemma_components();
                lemma_drawn_twice(scope, header.header_commands(), inner.commands);
                assert(self@.actions =~= inner.actions);
                assert(self@ =~= outcome.dropdown);
            }
        } else {
            assert(self@ =~= outcome.dropdown);
        }
    }

    /// Checks whether or not the cursor is hovering over the header of the
    /// `Dropdown` and colors the header accordingly.
    fn is_hovered(&mut self, mouse_position: Point) -> (r: bool)
        ensures
            r == old(self)@.hovering(mouse_position),
            final(self)@ == old(self)@.hovered(mouse_position),
    {
        if is_inside(self.position, self.dimensions, mouse_position) {
            self.background_colour = state_get_colour(StateColour::Hovered);
            assert(self@.components =~= old(self)@.components);
            true
        } else {
            if self.show {
                self.background_colour = state_get_colour(StateColour::Active);
            } else {
                self.background_colour = state_get_colour(StateColour::Default);
            }
            assert(self@.components =~= old(self)@.components);
            false
        }
    }

    /// Opens the `Dropdown` if it is closed, and closes it if it is open,
    /// where `is_clicked` says that the button went down and the pointer is
    /// over the header.
    fn is_clicked(&mut self, mouse_position: Point, is_clicked: bool)
        ensures
            final(self)@ == old(self)@.clicked(mouse_position, is_clicked),
    {
        if is_inside(self.position, self.dimensions, mouse_position) && is_clicked {
            self.background_colour = state_get_colour(StateColour::Active);
            self.show = !self.show;
            assert(self@.components =~= old(self)@.components);
        }
    }
}

} // verus!
