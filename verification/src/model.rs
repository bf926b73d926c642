use vstd::prelude::*;
use crate::button::ButtonView;
use crate::common::inside;
use crate::draw_handle::DrawCommandView;
use crate::gui_theme::{state_colour, StateColour};
use crate::label::LabelView;
use crate::slider::SliderView;
use crate::types::{saturate, Colour, Dimensions, Point, Pointer};

verus! {

/// A `Dropdown` as a mathematical value.
#[verifier::ext_equal]
pub struct DropdownView {
    pub background_colour: Colour,
    pub components: Seq<WidgetView>,
    pub components_fixed_widths: bool,
    pub font_size: i32,
    pub actions: Seq<Seq<char>>,
    pub dimensions: Dimensions,
    pub position: Point,
    pub show: bool,
    pub text: Seq<char>,
    pub text_colour: Colour,
}

/// A `DrawableType` as a mathematical value.
#[verifier::ext_equal]
pub enum WidgetView {
    Button(ButtonView),
    Slider(SliderView),
    Dropdown(DropdownView),
    Label(LabelView),
}

/// What drawing one widget comes to: the widget afterwards and what paints it.
pub struct DrawOutcome {
    pub widget: WidgetView,
    pub commands: Seq<DrawCommandView>,
}

/// What drawing a dropdown comes to: the dropdown afterwards, its collected
/// actions in it, and what paints it.
pub struct DropdownOutcome {
    pub dropdown: DropdownView,
    pub commands: Seq<DrawCommandView>,
}

/// What a frame comes to for one widget or for a row of them: the widgets
/// afterwards, what paints them, and the actions that their clicks yield.
pub struct FrameOutcome {
    pub widgets: Seq<WidgetView>,
    pub commands: Seq<DrawCommandView>,
    pub actions: Seq<Seq<char>>,
}

/// The greater of two numbers.
pub open spec fn larger(a: int, b: int) -> int {
    if a >= b {
        a
    } else {
        b
    }
}

/// How deep dropdowns are nested in the deepest widget of `widgets`.
pub open spec fn seq_depth(widgets: Seq<WidgetView>) -> nat
    decreases widgets,
{
    if widgets.len() == 0 {
        0
    } else {
        larger(seq_depth(widgets.drop_last()) as int, widgets.last().depth() as int) as nat
    }
}

/// The greatest width among `widgets`; -1 where there is none that wide.
pub open spec fn widest(widgets: Seq<WidgetView>) -> int
    decreases widgets.len(),
{
    if widgets.len() == 0 {
        -1
    } else {
        larger(widest(widgets.drop_last()), widgets.last().dimensions().0 as int)
    }
}

/// Each of `widgets` at the width `width`, its height kept.
pub open spec fn resize_all(widgets: Seq<WidgetView>, width: i32) -> Seq<WidgetView> {
    Seq::new(widgets.len(), |i: int| widgets[i].resized((width, widgets[i].dimensions().1)))
}

/// Each of `widgets` at the width of the widest of them.
pub open spec fn fix_widths(widgets: Seq<WidgetView>) -> Seq<WidgetView> {
    resize_all(widgets, widest(widgets) as i32)
}

/// Each of `widgets` with its left edge at `x`.
pub open spec fn move_all(widgets: Seq<WidgetView>, x: i32) -> Seq<WidgetView> {
    Seq::new(widgets.len(), |i: int| widgets[i].moved_x(x))
}

/// Whether there is a button among `widgets`, at any depth.
pub open spec fn any_button(widgets: Seq<WidgetView>) -> bool
    decreases widgets,
{
    if widgets.len() == 0 {
        false
    } else {
        any_button(widgets.drop_last()) || widgets.last().has_button()
    }
}

/// The sliders among `widgets`, in their order. Those inside dropdowns are
/// not among them.
pub open spec fn sliders_of(widgets: Seq<WidgetView>) -> Seq<SliderView>
    decreases widgets.len(),
{
    if widgets.len() == 0 {
        Seq::empty()
    } else {
        let before = sliders_of(widgets.drop_last());
        match widgets.last() {
            WidgetView::Slider(s) => before.push(s),
            _ => before,
        }
    }
}

/// The buttons among `widgets`, in their order. Those inside dropdowns are
/// not among them.
pub open spec fn buttons_of(widgets: Seq<WidgetView>) -> Seq<ButtonView>
    decreases widgets.len(),
{
    if widgets.len() == 0 {
        Seq::empty()
    } else {
        let before = buttons_of(widgets.drop_last());
        match widgets.last() {
            WidgetView::Button(b) => before.push(b),
            _ => before,
        }
    }
}

/// The labels among `widgets`, in their order. Those inside dropdowns are
/// not among them.
pub open spec fn labels_of(widgets: Seq<WidgetView>) -> Seq<LabelView>
    decreases widgets.len(),
{
    if widgets.len() == 0 {
        Seq::empty()
    } else {
        let before = labels_of(widgets.drop_last());
        match widgets.last() {
            WidgetView::Label(l) => before.push(l),
            _ => before,
        }
    }
}

/// The dropdowns among `widgets`, in their order. Those inside other
/// dropdowns are not among them.
pub open spec fn dropdowns_of(widgets: Seq<WidgetView>) -> Seq<DropdownView>
    decreases widgets.len(),
{
    if widgets.len() == 0 {
        Seq::empty()
    } else {
        let before = dropdowns_of(widgets.drop_last());
        match widgets.last() {
            WidgetView::Dropdown(d) => before.push(d),
            _ => before,
        }
    }
}

/// The place among `widgets` of the dropdown that is the `index`-th of
/// their dropdowns, counted from zero; the length of `widgets` where there
/// are not so many.
pub open spec fn dropdown_place(widgets: Seq<WidgetView>, index: int) -> int
    decreases widgets.len(),
{
    if widgets.len() == 0 {
        0
    } else {
        let before = dropdown_place(widgets.drop_last(), index);
        if before < widgets.len() - 1 {
            before
        } else if widgets.last() is Dropdown && dropdowns_of(widgets.drop_last()).len()
            == index {
            widgets.len() - 1
        } else {
            widgets.len() as int
        }
    }
}

/// What a frame comes to for `widgets`: each is drawn and then told of the
/// click, one after the other in their order.
pub open spec fn seq_frame(widgets: Seq<WidgetView>, pointer: Pointer) -> FrameOutcome
    decreases seq_depth(widgets), 3nat, widgets.len(),
{
    if widgets.len() == 0 {
        FrameOutcome { widgets: Seq::empty(), commands: Seq::empty(), actions: Seq::empty() }
    } else {
        let before = seq_frame(widgets.drop_last(), pointer);
        let last = widgets.last().frame(pointer);
        FrameOutcome {
            widgets: before.widgets + last.widgets,
            commands: before.commands + last.commands,
            actions: before.actions + last.actions,
        }
    }
}

impl WidgetView {
    /// Where the top-left corner is.
    pub open spec fn position(self) -> Point {
        match self {
            WidgetView::Button(b) => b.position,
            WidgetView::Slider(s) => s.position,
            WidgetView::Dropdown(d) => d.position,
            WidgetView::Label(l) => l.position,
        }
    }

    /// The width and the height.
    pub open spec fn dimensions(self) -> Dimensions {
        match self {
            WidgetView::Button(b) => b.dimensions,
            WidgetView::Slider(s) => s.dimensions,
            WidgetView::Dropdown(d) => d.dimensions,
            WidgetView::Label(l) => l.dimensions,
        }
    }

    /// How deep dropdowns are nested in the widget: none in a plain widget.
    pub open spec fn depth(self) -> nat
        decreases self,
    {
        match self {
            WidgetView::Dropdown(d) => 1 + seq_depth(d.components),
            _ => 0,
        }
    }

    /// Whether the widget is a button or a dropdown with a button in it, at
    /// any depth.
    pub open spec fn has_button(self) -> bool
        decreases self,
    {
        match self {
            WidgetView::Button(_) => true,
            WidgetView::Dropdown(d) => any_button(d.components),
            _ => false,
        }
    }

    /// The widget at the size `dimensions`.
    pub open spec fn resized(self, dimensions: Dimensions) -> WidgetView {
        match self {
            WidgetView::Button(b) => WidgetView::Button(b.resized(dimensions)),
            WidgetView::Slider(s) => WidgetView::Slider(s.resized(dimensions)),
            WidgetView::Dropdown(d) => WidgetView::Dropdown(d.resized(dimensions)),
            WidgetView::Label(l) => WidgetView::Label(l.resized(dimensions)),
        }
    }

    /// The widget with its left edge at `x`. What is inside a dropdown stays
    /// where it is.
    pub open spec fn moved_x(self, x: i32) -> WidgetView {
        if self.position().0 == x {
            self
        } else {
            match self {
                WidgetView::Button(b) => WidgetView::Button(b.moved_x(x)),
                WidgetView::Slider(s) => WidgetView::Slider(s.moved_x(x)),
                WidgetView::Dropdown(d) => WidgetView::Dropdown(d.moved_x(x)),
                WidgetView::Label(l) => WidgetView::Label(l.moved_x(x)),
            }
        }
    }

    /// What drawing the widget comes to in a frame in which the pointer
    /// reports `pointer`.
    pub open spec fn draw_outcome(self, pointer: Pointer) -> DrawOutcome
        decreases self.depth(), 1nat,
    {
        match self {
            WidgetView::Button(b) => {
                let after = b.hovered(pointer.position);
                DrawOutcome { widget: WidgetView::Button(after), commands: after.commands() }
            },
            WidgetView::Slider(s) => {
                let after = s.hovered(pointer.position);
                DrawOutcome { widget: WidgetView::Slider(after), commands: after.commands() }
            },
            WidgetView::Dropdown(d) => {
                let inner = d.draw_outcome(pointer);
                DrawOutcome {
                    widget: WidgetView::Dropdown(inner.dropdown),
                    commands: inner.commands,
                }
            },
            WidgetView::Label(l) => DrawOutcome { widget: self, commands: l.commands() },
        }
    }

    /// The widget after it was told of the click: a slider follows the
    /// pointer while the button is held, a dropdown opens or closes when the
    /// button goes down over it and gives up the actions it has collected.
    pub open spec fn clicked(self, pointer: Pointer) -> WidgetView {
        match self {
            WidgetView::Slider(s) => WidgetView::Slider(s.clicked(pointer.position, pointer.held)),
            WidgetView::Dropdown(d) => WidgetView::Dropdown(
                DropdownView {
                    actions: Seq::empty(),
                    ..d.clicked(pointer.position, pointer.pressed)
                },
            ),
            _ => self,
        }
    }

    /// The actions that the widget adds to the queue of the collection that
    /// it is in: a button its token, be it empty, a dropdown what it has
    /// collected from the widgets in it.
    pub open spec fn click_actions(self, pointer: Pointer) -> Seq<Seq<char>> {
        match self {
            WidgetView::Button(b) => seq![b.token(pointer.position, pointer.pressed)],
            WidgetView::Dropdown(d) => d.actions,
            _ => Seq::empty(),
        }
    }

    /// What a frame comes to for the widget: it is drawn, then told of the
    /// click.
    pub open spec fn frame(self, pointer: Pointer) -> FrameOutcome
        decreases self.depth(), 2nat,
    {
        let drawn = self.draw_outcome(pointer);
        FrameOutcome {
            widgets: seq![drawn.widget.clicked(pointer)],
            commands: drawn.commands,
            actions: drawn.widget.click_actions(pointer),
        }
    }
}

impl DropdownView {
    /// The dropdown that `new` makes of a caption that the renderer measures
    /// `text_width` pixels wide: closed and empty.
    pub open spec fn created(text: Seq<char>, font_size: i32, position: Point, text_width: i32)
        -> DropdownView {
        DropdownView {
            actions: Seq::empty(),
            background_colour: state_colour(StateColour::Default),
            components: Seq::empty(),
            components_fixed_widths: false,
            dimensions: (saturate(text_width + 10) as i32, 50),
            font_size,
            position,
            show: false,
            text,
            text_colour: state_colour(StateColour::Text),
        }
    }

    /// How deep dropdowns are nested in this one, itself counted.
    pub open spec fn depth(self) -> nat {
        1 + seq_depth(self.components)
    }

    /// Whether a pointer at `point` is over the header.
    pub open spec fn hovering(self, point: Point) -> bool {
        inside(self.position, self.dimensions, point)
    }

    /// The dropdown after it has looked at a pointer at `point`: the header
    /// is highlighted under the pointer; else it is in the active color
    /// while the dropdown is open, and in the default color while it is
    /// closed.
    pub open spec fn hovered(self, point: Point) -> DropdownView {
        DropdownView {
            background_colour: if self.hovering(point) {
                state_colour(StateColour::Hovered)
            } else if self.show {
                state_colour(StateColour::Active)
            } else {
                state_colour(StateColour::Default)
            },
            ..self
        }
    }

    /// The dropdown after it was told of a click: it opens if it was closed,
    /// and closes if it was open, where the button went down over the header.
    /// A click elsewhere changes nothing.
    pub open spec fn clicked(self, point: Point, pressed: bool) -> DropdownView {
        if self.hovering(point) && pressed {
            DropdownView {
                background_colour: state_colour(StateColour::Active),
                show: !self.show,
                ..self
            }
        } else {
            self
        }
    }

    /// What paints the header: its rectangle, then its caption.
    pub open spec fn header_commands(self) -> Seq<DrawCommandView> {
        seq![
            DrawCommandView::Rectangle {
                x: self.position.0,
                y: self.position.1,
                width: saturate(self.dimensions.0 + 10) as i32,
                height: self.dimensions.1,
                colour: self.background_colour,
            },
            DrawCommandView::Text {
                text: self.text,
                x: saturate(self.position.0 + 10) as i32,
                y: saturate(self.position.1 + self.dimensions.1 - 30) as i32,
                font_size: self.font_size,
                colour: self.text_colour,
            },
        ]
    }

    /// Where the widgets of the dropdown stand: at the right edge of the
    /// header.
    pub open spec fn components_x(self) -> i32 {
        saturate(self.position.0 + self.dimensions.0) as i32
    }

    /// The dropdown at the size `dimensions`, with the widgets in it moved to
    /// the new right edge of the header.
    pub open spec fn resized(self, dimensions: Dimensions) -> DropdownView {
        DropdownView {
            dimensions,
            components: move_all(
                self.components,
                saturate(self.position.0 + dimensions.0) as i32,
            ),
            ..self
        }
    }

    /// The dropdown with the left edge of its header at `x`.
    pub open spec fn moved_x(self, x: i32) -> DropdownView {
        DropdownView { position: (x, self.position.1), ..self }
    }

    /// Where a widget that is added without a position comes to stand: to
    /// the right of the header, the first in the header's row, each other
    /// one below the one before it by the height of the first.
    pub open spec fn next_position(self) -> Point {
        if self.components.len() == 0 {
            (self.components_x(), self.position.1)
        } else {
            (
                self.components_x(),
                saturate(
                    self.components.last().position().1 + self.components.first().dimensions().1,
                ) as i32,
            )
        }
    }

    /// The dropdown with `widget` added behind the widgets in it.
    pub open spec fn with_component(self, widget: WidgetView) -> DropdownView {
        DropdownView { components: self.components.push(widget), ..self }
    }

    /// The widgets of the dropdown as a frame finds them: at one width, where
    /// the dropdown is set to keep them so.
    pub open spec fn normalized(self) -> Seq<WidgetView> {
        if self.components_fixed_widths {
            fix_widths(self.components)
        } else {
            self.components
        }
    }

    /// What drawing the dropdown comes to in a frame in which the pointer
    /// reports `pointer`. The header is painted; the actions of the frame
    /// before are dropped. While the dropdown is open, a frame passes for the
    /// widgets in it, and their actions are collected; while it is closed
    /// they are neither painted nor told of clicks.
    pub open spec fn draw_outcome(self, pointer: Pointer) -> DropdownOutcome
        decreases self.depth(), 0nat,
    {
        let header = self.hovered(pointer.position);
        let components = self.normalized();
        if self.show {
            proof {
                lemma_fix_widths_depth(self.components);
            }
            let inner = seq_frame(components, pointer);
            DropdownOutcome {
                dropdown: DropdownView {
                    components: inner.widgets,
                    actions: inner.actions,
                    ..header
                },
                commands: header.header_commands() + inner.commands,
            }
        } else {
            DropdownOutcome {
                dropdown: DropdownView { components, actions: Seq::empty(), ..header },
                commands: header.header_commands(),
            }
        }
    }
}

/// No widget of a row is deeper than the row.
pub proof fn lemma_depth_of_each(widgets: Seq<WidgetView>, i: int)
    requires
        0 <= i < widgets.len(),
    ensures
        widgets[i].depth() <= seq_depth(widgets),
    decreases widgets.len(),
{
    if i < widgets.len() - 1 {
        lemma_depth_of_each(widgets.drop_last(), i);
    }
}

/// Moving a widget leaves its depth.
pub proof fn lemma_moved_depth(widget: WidgetView, x: i32)
    ensures
        widget.moved_x(x).depth() == widget.depth(),
{
}

/// Moving the widgets of a row leaves the depth of the row.
pub proof fn lemma_move_all_depth(widgets: Seq<WidgetView>, x: i32)
    ensures
        seq_depth(move_all(widgets, x)) == seq_depth(widgets),
    decreases widgets.len(),
{
    if widgets.len() > 0 {
        lemma_move_all_depth(widgets.drop_last(), x);
        assert(move_all(widgets, x).drop_last() =~= move_all(widgets.drop_last(), x));
        assert(move_all(widgets, x).last() == widgets.last().moved_x(x));
        lemma_moved_depth(widgets.last(), x);
    }
}

/// Resizing a widget leaves its depth.
pub proof fn lemma_resized_depth(widget: WidgetView, dimensions: Dimensions)
    ensures
        widget.resized(dimensions).depth() == widget.depth(),
{
    match widget {
        WidgetView::Dropdown(d) => {
            lemma_move_all_depth(d.components, saturate(d.position.0 + dimensions.0) as i32);
        },
        _ => {},
    }
}

/// Resizing the widgets of a row leaves the depth of the row.
pub proof fn lemma_resize_all_depth(widgets: Seq<WidgetView>, width: i32)
    ensures
        seq_depth(resize_all(widgets, width)) == seq_depth(widgets),
    decreases widgets.len(),
{
    if widgets.len() > 0 {
        lemma_resize_all_depth(widgets.drop_last(), width);
        assert(resize_all(widgets, width).drop_last() =~= resize_all(widgets.drop_last(), width));
        assert(resize_all(widgets, width).last() == widgets.last().resized(
            (width, widgets.last().dimensions().1),
        ));
        lemma_resized_depth(widgets.last(), (width, widgets.last().dimensions().1));
    }
}

/// Bringing the widgets of a row to one width leaves the depth of the row.
pub proof fn lemma_fix_widths_depth(widgets: Seq<WidgetView>)
    ensures
        seq_depth(fix_widths(widgets)) == seq_depth(widgets),
{
    lemma_resize_all_depth(widgets, widest(widgets) as i32);
}

/// `dropdown_place` finds the dropdown that `dropdowns_of` counts as the
/// `index`-th, and finds none only where there are not so many.
pub proof fn lemma_dropdown_place(widgets: Seq<WidgetView>, index: int)
    requires
        0 <= index,
    ensures
        0 <= dropdown_place(widgets, index) <= widgets.len(),
        dropdown_place(widgets, index) < widgets.len() <==> index < dropdowns_of(widgets).len(),
        dropdown_place(widgets, index) < widgets.len() ==> widgets[dropdown_place(
            widgets,
            index,
        )] == WidgetView::Dropdown(dropdowns_of(widgets)[index]),
    decreases widgets.len(),
{
    if widgets.len() > 0 {
        lemma_dropdown_place(widgets.drop_last(), index);
    }
}

/// A dropdown is closed when it is made; a click on the header opens a
/// closed dropdown and closes an open one, so that two clicks leave it as
/// open or as closed as it was; a click that is not on the header, or a
/// pointer on the header without a click, leaves it untouched.
pub proof fn lemma_dropdown_toggles(
    d: DropdownView,
    point: Point,
    pressed: bool,
    text: Seq<char>,
    font_size: i32,
    position: Point,
    text_width: i32,
)
    ensures
        !DropdownView::created(text, font_size, position, text_width).show,
        d.hovering(point) && pressed ==> d.clicked(point, pressed).show == !d.show,
        d.hovering(point) && pressed ==> d.clicked(point, pressed).clicked(point, pressed).show
            == d.show,
        !(d.hovering(point) && pressed) ==> d.clicked(point, pressed) == d,
{
}

/// While a dropdown is closed, a frame paints its header alone, collects
/// no action, and leaves the widgets in it as they are, but for their
/// width where the dropdown keeps them at one width.
pub proof fn lemma_closed_dropdown_hides(d: DropdownView, pointer: Pointer)
    requires
        !d.show,
    ensures
        d.draw_outcome(pointer).commands == d.hovered(pointer.position).header_commands(),
        d.draw_outcome(pointer).dropdown.actions == Seq::<Seq<char>>::empty(),
        d.draw_outcome(pointer).dropdown.components == d.normalized(),
        !d.components_fixed_widths ==> d.draw_outcome(pointer).dropdown.components
            == d.components,
{
}

/// The widest of a row is at least as wide as each of them.
pub proof fn lemma_widest_bounds(widgets: Seq<WidgetView>, i: int)
    requires
        0 <= i < widgets.len(),
    ensures
        widgets[i].dimensions().0 <= widest(widgets),
        -1 <= widest(widgets) <= i32::MAX,
    decreases widgets.len(),
{
    if i < widgets.len() - 1 {
        lemma_widest_bounds(widgets.drop_last(), i);
    } else if widgets.len() > 1 {
        lemma_widest_bounds(widgets.drop_last(), 0);
    }
}

/// A widget that is resized has the size asked for.
pub proof fn lemma_resized_dimensions(widget: WidgetView, dimensions: Dimensions)
    ensures
        widget.resized(dimensions).dimensions() == dimensions,
{
}

/// After a row was brought to one width, each widget in it is as wide as
/// the widest was, and as high as it was itself.
pub proof fn lemma_fix_widths_uniform(widgets: Seq<WidgetView>, i: int)
    requires
        0 <= i < widgets.len(),
    ensures
        fix_widths(widgets).len() == widgets.len(),
        fix_widths(widgets)[i].dimensions().0 == widest(widgets),
        fix_widths(widgets)[i].dimensions().1 == widgets[i].dimensions().1,
{
    lemma_widest_bounds(widgets, i);
    lemma_resized_dimensions(widgets[i], (widest(widgets) as i32, widgets[i].dimensions().1));
}

/// A frame leaves a widget where it is and at its size.
pub proof fn lemma_frame_keeps_widget_place(widget: WidgetView, pointer: Pointer)
    ensures
        widget.frame(pointer).widgets.len() == 1,
        widget.frame(pointer).widgets[0].dimensions() == widget.dimensions(),
        widget.frame(pointer).widgets[0].position() == widget.position(),
{
    reveal_with_fuel(WidgetView::draw_outcome, 2);
    reveal_with_fuel(DropdownView::draw_outcome, 2);
    match widget {
        WidgetView::Dropdown(d) => {
            let drawn = d.draw_outcome(pointer).dropdown;
            assert(drawn.dimensions == d.dimensions);
            assert(drawn.position == d.position);
        },
        _ => {},
    }
}

/// A frame leaves each widget of a row where it is and at its size, and
/// leaves as many widgets as there were.
pub proof fn lemma_frame_keeps_place(widgets: Seq<WidgetView>, pointer: Pointer, i: int)
    requires
        0 <= i < widgets.len(),
    ensures
        seq_frame(widgets, pointer).widgets.len() == widgets.len(),
        seq_frame(widgets, pointer).widgets[i] == widgets[i].frame(pointer).widgets[0],
        seq_frame(widgets, pointer).widgets[i].dimensions() == widgets[i].dimensions(),
        seq_frame(widgets, pointer).widgets[i].position() == widgets[i].position(),
    decreases widgets.len(),
{
    lemma_frame_length(widgets, pointer);
    lemma_frame_length(widgets.drop_last(), pointer);
    if i < widgets.len() - 1 {
        lemma_frame_keeps_place(widgets.drop_last(), pointer, i);
    } else {
        lemma_frame_keeps_widget_place(widgets.last(), pointer);
    }
}

/// A frame leaves as many widgets as there were.
pub proof fn lemma_frame_length(widgets: Seq<WidgetView>, pointer: Pointer)
    ensures
        seq_frame(widgets, pointer).widgets.len() == widgets.len(),
    decreases widgets.len(),
{
    if widgets.len() > 0 {
        lemma_frame_length(widgets.drop_last(), pointer);
        assert(widgets.last().frame(pointer).widgets.len() == 1);
    }
}

} // verus!
