use vstd::prelude::*;
use crate::button::{Button, ButtonView};
use crate::draw_handle::{lemma_drawn_nothing, lemma_drawn_twice, DrawHandle};
use crate::dropdown::Dropdown;
use crate::error::GuiError;
use crate::fraction::Fraction;
use crate::gui_component::GuiComponentBehaviour;
use crate::label::{Label, LabelView};
use crate::model::{
    any_button, buttons_of, labels_of, dropdown_place, dropdowns_of, DropdownView, fix_widths, lemma_depth_of_each, resize_all, seq_depth, seq_frame,
    sliders_of, widest, WidgetView,
};
use crate::slider::{Slider, SliderView};
use crate::types::{Dimensions, Point, Pointer};

verus! {

/// Whether `point` lies strictly inside the rectangle whose top-left corner is
/// `position` and whose extent is `dimensions`: a point on an edge is outside.
pub open spec fn inside(position: Point, dimensions: Dimensions, point: Point) -> bool {
    &&& position.0 < point.0 < position.0 + dimensions.0
    &&& position.1 < point.1 < position.1 + dimensions.1
}

/// Computes `inside`: whether `mouse_position` lies strictly inside the
/// rectangle at `position` with the extent `dimensions`.
pub fn is_inside(position: Point, dimensions: Dimensions, mouse_position: Point) -> (r: bool)
    ensures
        r == inside(position, dimensions, mouse_position),
{
    let right: i64 = position.0 as i64 + dimensions.0 as i64;
    let bottom: i64 = position.1 as i64 + dimensions.1 as i64;
    mouse_position.0 > position.0 && (mouse_position.0 as i64) < right && mouse_position.1
        > position.1 && (mouse_position.1 as i64) < bottom
}

/// A point on one of the four edges of a rectangle, or on the lines through
/// them, is not inside it.
pub proof fn lemma_edge_is_outside(position: Point, dimensions: Dimensions, point: Point)
    requires
        point.0 == position.0 || point.0 == position.0 + dimensions.0 || point.1 == position.1
            || point.1 == position.1 + dimensions.1,
    ensures
        !inside(position, dimensions, point),
{
}

/// Neither the top-left corner of a rectangle nor the corner opposite to it
/// is inside the rectangle.
pub proof fn lemma_corners_are_outside(position: Point, dimensions: Dimensions, opposite: Point)
    requires
        opposite.0 == position.0 + dimensions.0,
        opposite.1 == position.1 + dimensions.1,
    ensures
        !inside(position, dimensions, position),
        !inside(position, dimensions, opposite),
{
}

/// A rectangle without a positive extent on both axes has no inside.
pub proof fn lemma_empty_has_no_inside(position: Point, dimensions: Dimensions, point: Point)
    requires
        dimensions.0 <= 1 || dimensions.1 <= 1,
    ensures
        !inside(position, dimensions, point),
{
}

/// Allows for the various widgets to be contained within a single collection
/// rather than having separate collections for each kind of them.
#[derive(PartialEq, Debug)]
pub enum DrawableType {
    Button(Button),
    Slider(Slider),
    Dropdown(Dropdown),
    Label(Label),
}

impl View for DrawableType {
    type V = WidgetView;

    open spec fn view(&self) -> WidgetView
        decreases self,
    {
        match self {
            DrawableType::Button(b) => WidgetView::Button(b@),
            DrawableType::Slider(s) => WidgetView::Slider(s@),
            DrawableType::Dropdown(d) => WidgetView::Dropdown(d@),
            DrawableType::Label(l) => WidgetView::Label(l@),
        }
    }
}

/// The widgets of `s`, each as a mathematical value.
pub open spec fn widget_views(s: Seq<DrawableType>) -> Seq<WidgetView> {
    Seq::new(s.len(), |i: int| s[i]@)
}

/// The action tokens of `s`, each as a sequence of characters.
pub open spec fn token_views(s: Seq<String>) -> Seq<Seq<char>> {
    Seq::new(s.len(), |i: int| s[i]@)
}

/// The pointer that a widget is told of: at `position`, the buttons as
/// `draw_handler` reports them.
pub open spec fn pointer_at(position: Point, draw_handler: &DrawHandle) -> Pointer {
    Pointer {
        position,
        pressed: draw_handler@.pointer.pressed,
        held: draw_handler@.pointer.held,
    }
}

impl DrawableType {
    /// Draws the widget on `draw_handler`, whatever kind it is of.
    pub fn draw(&mut self, draw_handler: &mut DrawHandle)
        ensures
            final(self)@ == old(self)@.draw_outcome(old(draw_handler)@.pointer).widget,
            final(draw_handler)@ == old(draw_handler)@.drawn(
                old(self)@.draw_outcome(old(draw_handler)@.pointer).commands,
            ),
        decreases old(self)@.depth(), 1nat,
    {
        match self {
            DrawableType::Button(b) => b.draw(draw_handler),
            DrawableType::Slider(s) => s.draw(draw_handler),
            DrawableType::Dropdown(d) => d.draw(draw_handler),
            DrawableType::Label(l) => l.draw(draw_handler),
        }
    }

    /// Tells the widget of the click: a button adds its token to `actions`,
    /// a slider follows the pointer while the button is held, and a dropdown
    /// opens or closes and moves the actions it has collected to `actions`.
    pub fn is_clicked(
        &mut self,
        mouse_position: Point,
        actions: &mut Vec<String>,
        draw_handler: &DrawHandle,
    )
        ensures
            final(self)@ == old(self)@.clicked(pointer_at(mouse_position, draw_handler)),
            token_views(final(actions)@) == token_views(old(actions)@) + old(self)@.click_actions(
                pointer_at(mouse_position, draw_handler),
            ),
    {
        match self {
            DrawableType::Button(b) => {
                let token = b.is_clicked(mouse_position, draw_handler.is_mouse_button_pressed());
                actions.push(token);
                assert(token_views(actions@) =~= token_views(old(actions)@) + seq![token@]);
            },
            DrawableType::Slider(s) => {
                s.is_clicked(mouse_position, draw_handler.is_mouse_button_down());
                assert(token_views(actions@) =~= token_views(old(actions)@) + Seq::<
                    Seq<char>,
                >::empty());
            },
            DrawableType::Dropdown(d) => {
                d.is_clicked(mouse_position, draw_handler.is_mouse_button_pressed());
                d.bubble_actions(actions);
            },
            DrawableType::Label(_) => {
                assert(token_views(actions@) =~= token_views(old(actions)@) + Seq::<
                    Seq<char>,
                >::empty());
            },
        }
    }

    /// Where the widget's top-left corner is.
    pub fn get_position(&self) -> (p: Point)
        ensures
            p == self@.position(),
    {
        match self {
            DrawableType::Button(b) => b.get_position(),
            DrawableType::Slider(s) => s.get_position(),
            DrawableType::Dropdown(d) => d.get_position(),
            DrawableType::Label(l) => l.get_position(),
        }
    }

    /// The widget's width and height.
    pub fn get_dimensions(&self) -> (d: Dimensions)
        ensures
            d == self@.dimensions(),
    {
        match self {
            DrawableType::Button(b) => b.get_dimensions(),
            DrawableType::Slider(s) => s.get_dimensions(),
            DrawableType::Dropdown(d) => d.get_dimensions(),
            DrawableType::Label(l) => l.get_dimensions(),
        }
    }

    /// Gives the widget the size `new_dimensions`.
    pub fn resize(&mut self, new_dimensions: Dimensions)
        ensures
            final(self)@ == old(self)@.resized(new_dimensions),
    {
        match self {
            DrawableType::Button(b) => b.resize(new_dimensions),
            DrawableType::Slider(s) => s.resize(new_dimensions),
            DrawableType::Dropdown(d) => d.resize(new_dimensions),
            DrawableType::Label(l) => l.resize(new_dimensions),
        }
    }

    /// Moves the widget's left edge to `new_x_pos`, unless it is there.
    pub fn move_x(&mut self, new_x_pos: i32)
        ensures
            final(self)@ == old(self)@.moved_x(new_x_pos),
    {
        match self {
            DrawableType::Button(b) => if b.get_position().0 != new_x_pos {
                b.move_x(new_x_pos);
            },
            DrawableType::Slider(s) => if s.get_position().0 != new_x_pos {
                s.move_x(new_x_pos);
            },
            DrawableType::Dropdown(d) => if d.get_position().0 != new_x_pos {
                d.move_x(new_x_pos);
            },
            DrawableType::Label(l) => if l.get_position().0 != new_x_pos {
                l.move_x(new_x_pos);
            },
        }
    }

    /// Whether the widget is a button or holds one, at any depth.
    pub fn has_button(&self) -> (r: bool)
        ensures
            r == self@.has_button(),
        decreases self@.depth(), 1nat,
    {
        match self {
            DrawableType::Button(_) => true,
            DrawableType::Dropdown(d) => d.has_button(),
            _ => false,
        }
    }
}

/// Lets a frame pass for `components`: each is drawn on `draw_handler` and
/// then told of the click, in their order; what the clicks yield is added to
/// `actions`.
pub(crate) fn draw_components(
    components: &mut Vec<DrawableType>,
    actions: &mut Vec<String>,
    draw_handler: &mut DrawHandle,
)
    ensures
        widget_views(final(components)@) == seq_frame(
            widget_views(old(components)@),
            old(draw_handler)@.pointer,
        ).widgets,
        token_views(final(actions)@) == token_views(old(actions)@) + seq_frame(
            widget_views(old(components)@),
            old(draw_handler)@.pointer,
        ).actions,
        final(draw_handler)@ == old(draw_handler)@.drawn(
            seq_frame(widget_views(old(components)@), old(draw_handler)@.pointer).commands,
        ),
    decreases seq_depth(widget_views(old(components)@)), 3nat,
{
    let ghost before = widget_views(components@);
    let ghost pointer = draw_handler@.pointer;
    let ghost queued = token_views(actions@);
    let ghost scope = draw_handler@;
    let mouse_position = (draw_handler.get_mouse_x(), draw_handler.get_mouse_y());
    let n = components.len();
    let mut i: usize = 0;
    proof {
        assert(before.take(0) =~= Seq::empty());
        assert(widget_views(components@).take(0) =~= Seq::empty());
        assert(queued + Seq::<Seq<char>>::empty() =~= queued);
        lemma_drawn_nothing(scope);
    }
    while i < n
        invariant
            i <= n,
            components.len() == n,
            before.len() == n,
            mouse_position == pointer.position,
            draw_handler@.pointer == pointer,
            seq_depth(before) == seq_depth(widget_views(old(components)@)),
            widget_views(components@).take(i as int) == seq_frame(
                before.take(i as int),
                pointer,
            ).widgets,
            forall|j: int| i <= j < n ==> components@[j]@ == before[j],
            token_views(actions@) == queued + seq_frame(before.take(i as int), pointer).actions,
            draw_handler@ == scope.drawn(seq_frame(before.take(i as int), pointer).commands),
        decreases n - i,
    {
        let ghost done = seq_frame(before.take(i as int), pointer);
        let ghost views_then = widget_views(components@);
        proof {
            lemma_depth_of_each(before, i as int);
        }
        components[i].draw(draw_handler);
        let ghost drawn = before[i as int].draw_outcome(pointer);
        assert(components@[i as int]@ == drawn.widget);
        assert(pointer_at(mouse_position, draw_handler) == pointer);
        components[i].is_clicked(mouse_position, actions, draw_handler);
        proof {
            let step = before[i as int].frame(pointer);
            let next = before.take(i as int + 1);
            assert(next.drop_last() =~= before.take(i as int));
            assert(next.last() == before[i as int]);
            assert(seq_frame(next, pointer).widgets == done.widgets + step.widgets);
            assert(widget_views(components@).take(i as int + 1) =~= views_then.take(i as int)
                + step.widgets);
            lemma_drawn_twice(scope, done.commands, step.commands);
            assert(queued + done.actions + step.actions =~= queued + (done.actions
                + step.actions));
        }
        i += 1;
    }
    proof {
        assert(before.take(n as int) =~= before);
        assert(widget_views(components@).take(n as int) =~= widget_views(components@));
    }
}

/// Brings `components` to one width, that of the widest of them.
pub(crate) fn fix_component_widths(components: &mut Vec<DrawableType>)
    ensures
        widget_views(final(components)@) == fix_widths(widget_views(old(components)@)),
{
    let ghost before = widget_views(components@);
    let n = components.len();
    let mut widest_so_far: i32 = -1;
    let mut i: usize = 0;
    assert(before.take(0) =~= Seq::empty());
    while i < n
        invariant
            i <= n,
            components.len() == n,
            before == widget_views(components@),
            widest_so_far == widest(before.take(i as int)),
        decreases n - i,
    {
        let width = components[i].get_dimensions().0;
        assert(before.take(i as int + 1).drop_last() =~= before.take(i as int));
        if width > widest_so_far {
            widest_so_far = width;
        }
        i += 1;
    }
    assert(before.take(n as int) =~= before);

    let mut i: usize = 0;
    while i < n
        invariant
            i <= n,
            components.len() == n,
            before.len() == n,
            forall|j: int|
                0 <= j < i ==> components@[j]@ == before[j].resized(
                    (widest_so_far, before[j].dimensions().1),
                ),
            forall|j: int| i <= j < n ==> components@[j]@ == before[j],
        decreases n - i,
    {
        let height = components[i].get_dimensions().1;
        components[i].resize((widest_so_far, height));
        i += 1;
    }
    assert(widget_views(components@) =~= resize_all(before, widest_so_far));
}

/// Whether there is a button among `components`, at any depth.
pub(crate) fn any_button_in(components: &Vec<DrawableType>) -> (r: bool)
    ensures
        r == any_button(widget_views(components@)),
    decreases seq_depth(widget_views(components@)), 3nat,
{
    let ghost views = widget_views(components@);
    let n = components.len();
    let mut found = false;
    let mut i: usize = 0;
    assert(views.take(0) =~= Seq::empty());
    while i < n
        invariant
            i <= n,
            components.len() == n,
            views == widget_views(components@),
            found == any_button(views.take(i as int)),
        decreases n - i,
    {
        proof {
            lemma_depth_of_each(views, i as int);
            assert(views.take(i as int + 1).drop_last() =~= views.take(i as int));
        }
        if components[i].has_button() {
            found = true;
        }
        i += 1;
    }
    assert(views.take(n as int) =~= views);
    found
}

/// The sliders among the first `n` widgets are the first of all the sliders.
pub proof fn lemma_sliders_of_prefix(widgets: Seq<WidgetView>, n: int)
    requires
        0 <= n <= widgets.len(),
    ensures
        sliders_of(widgets.take(n)).len() <= sliders_of(widgets).len(),
        forall|k: int|
            0 <= k < sliders_of(widgets.take(n)).len() ==> sliders_of(widgets.take(n))[k]
                == sliders_of(widgets)[k],
    decreases widgets.len() - n,
{
    if n < widgets.len() {
        lemma_sliders_of_prefix(widgets, n + 1);
        assert(widgets.take(n + 1).drop_last() =~= widgets.take(n));
    } else {
        assert(widgets.take(n) =~= widgets);
    }
}

/// The value of the slider that is the `index`-th among `components`,
/// counted from zero.
pub(crate) fn slider_value_in(components: &Vec<DrawableType>, index: usize) -> (r: Result<
    Fraction,
    GuiError,
>)
    ensures
        match r {
            Ok(v) => index < sliders_of(widget_views(components@)).len() && v == sliders_of(
                widget_views(components@),
            )[index as int].value,
            Err(e) => e == GuiError::Index && index >= sliders_of(
                widget_views(components@),
            ).len(),
        },
{
    let ghost views = widget_views(components@);
    let n = components.len();
    let mut seen: usize = 0;
    let mut i: usize = 0;
    assert(views.take(0) =~= Seq::empty());
    while i < n
        invariant
            i <= n,
            components.len() == n,
            views == widget_views(components@),
            seen == sliders_of(views.take(i as int)).len(),
            seen <= index,
            seen <= i,
        decreases n - i,
    {
        proof {
            assert(views.take(i as int + 1).drop_last() =~= views.take(i as int));
            lemma_sliders_of_prefix(views, i as int + 1);
        }
        if let DrawableType::Slider(s) = &components[i] {
            if seen == index {
                return Ok(s.get_value());
            }
            seen += 1;
        }
        i += 1;
    }
    assert(views.take(n as int) =~= views);
    Err(GuiError::Index)
}

/// The dropdowns of `s`, each as a mathematical value.
pub open spec fn dropdown_views(s: Seq<&Dropdown>) -> Seq<DropdownView> {
    Seq::new(s.len(), |i: int| s[i]@)
}

/// The dropdowns among `components`, in their order.
pub(crate) fn dropdowns_in(components: &Vec<DrawableType>) -> (r: Vec<&Dropdown>)
    ensures
        dropdown_views(r@) == dropdowns_of(widget_views(components@)),
{
    let ghost views = widget_views(components@);
    let mut dropdowns: Vec<&Dropdown> = Vec::new();
    let n = components.len();
    let mut i: usize = 0;
    proof {
        assert(views.take(0) =~= Seq::empty());
        assert(dropdown_views(dropdowns@) =~= Seq::empty());
    }
    while i < n
        invariant
            i <= n,
            components.len() == n,
            views == widget_views(components@),
            dropdown_views(dropdowns@) == dropdowns_of(views.take(i as int)),
        decreases n - i,
    {
        let ghost found = dropdowns@;
        assert(views.take(i as int + 1).drop_last() =~= views.take(i as int));
        if let DrawableType::Dropdown(d) = &components[i] {
            dropdowns.push(d);
            assert(dropdown_views(dropdowns@) =~= dropdown_views(found).push(d@));
        }
        i += 1;
    }
    assert(views.take(n as int) =~= views);
    dropdowns
}

/// The dropdown that is the `index`-th among `components`, counted from
/// zero, to be changed in its place.
pub(crate) fn dropdown_mut_in(components: &mut Vec<DrawableType>, index: usize) -> (r: Result<
    &mut Dropdown,
    GuiError,
>)
    ensures
        match r {
            Ok(d) => {
                let k = dropdown_place(widget_views(old(components)@), index as int);
                0 <= k < old(components)@.len() && old(components)@[k] == DrawableType::Dropdown(
                    *d,
                ) && final(components)@ == old(components)@.update(
                    k,
                    DrawableType::Dropdown(*final(d)),
                )
            },
            Err(e) => e == GuiError::Index && dropdown_place(
                widget_views(old(components)@),
                index as int,
            ) == old(components)@.len() && final(components)@ == old(components)@,
        },
{
    let ghost views = widget_views(components@);
    let n = components.len();
    let mut i: usize = 0;
    let mut seen: usize = 0;
    let mut place: usize = n;
    assert(views.take(0) =~= Seq::empty());
    while i < n && place == n
        invariant
            i <= n,
            components.len() == n,
            components@ == old(components)@,
            views == widget_views(components@),
            place == n || place < i,
            place == n ==> seen == dropdowns_of(views.take(i as int)).len() && seen <= index
                && dropdown_place(views.take(i as int), index as int) == i,
            place < n ==> components@[place as int] is Dropdown && dropdown_place(
                views.take(i as int),
                index as int,
            ) == place,
            seen <= i,
        decreases n - i,
    {
        assert(views.take(i as int + 1).drop_last() =~= views.take(i as int));
        if let DrawableType::Dropdown(_) = &components[i] {
            if seen == index {
                place = i;
            } else {
                seen += 1;
            }
        }
        i += 1;
    }
    proof {
        lemma_place_of_prefix(views, i as int, index as int);
    }
    if place < n {
        match &mut components[place] {
            DrawableType::Dropdown(d) => Ok(d),
            _ => Err(GuiError::Index),
        }
    } else {
        Err(GuiError::Index)
    }
}

/// Where the dropdown asked for is found among the first `n` widgets, it is
/// found at the same place among all of them; where none is found among
/// all `n` of `n`, there is none.
pub proof fn lemma_place_of_prefix(widgets: Seq<WidgetView>, n: int, index: int)
    requires
        0 <= n <= widgets.len(),
    ensures
        dropdown_place(widgets.take(n), index) < n ==> dropdown_place(widgets, index)
            == dropdown_place(widgets.take(n), index),
        n == widgets.len() ==> dropdown_place(widgets, index) == dropdown_place(
            widgets.take(n),
            index,
        ),
    decreases widgets.len() - n,
{
    if n < widgets.len() {
        lemma_place_of_prefix(widgets, n + 1, index);
        assert(widgets.take(n + 1).drop_last() =~= widgets.take(n));
    } else {
        assert(widgets.take(n) =~= widgets);
    }
}

/// The buttons of `s`, each as a mathematical value.
pub open spec fn button_views(s: Seq<Button>) -> Seq<ButtonView> {
    Seq::new(s.len(), |i: int| s[i]@)
}

/// The sliders of `s`, each as a mathematical value.
pub open spec fn slider_views(s: Seq<Slider>) -> Seq<SliderView> {
    Seq::new(s.len(), |i: int| s[i]@)
}

/// The labels of `s`, each as a mathematical value.
pub open spec fn label_views(s: Seq<Label>) -> Seq<LabelView> {
    Seq::new(s.len(), |i: int| s[i]@)
}

impl DrawableType {
    /// Collects the buttons among `widgets`, in their order, and drops the
    /// other widgets.
    pub fn buttons(widgets: Vec<DrawableType>) -> (c: Vec<Button>)
        ensures
            button_views(c@) == buttons_of(widget_views(widgets@)),
    {
        let ghost views = widget_views(widgets@);
        let mut c: Vec<Button> = Vec::new();
        proof {
            assert(views.take(0) =~= Seq::empty());
            assert(button_views(c@) =~= Seq::empty());
        }
        for i in iter: widgets
            invariant
                views == widget_views(widgets@),
                iter.seq() == widgets@,
                button_views(c@) == buttons_of(views.take(iter.index() as int)),
        {
            let ghost found = c@;
            let ghost n = iter.index() as int;
            assert(views.take(n + 1).drop_last() =~= views.take(n));
            if let DrawableType::Button(s) = i {
                c.push(s);
                assert(button_views(c@) =~= button_views(found).push(s@));
            }
        }
        assert(views.take(views.len() as int) =~= views);
        c
    }

    /// Collects the sliders among `widgets`, in their order, and drops the
    /// other widgets.
    pub fn sliders(widgets: Vec<DrawableType>) -> (c: Vec<Slider>)
        ensures
            slider_views(c@) == sliders_of(widget_views(widgets@)),
    {
        let ghost views = widget_views(widgets@);
        let mut c: Vec<Slider> = Vec::new();
        proof {
            assert(views.take(0) =~= Seq::empty());
            assert(slider_views(c@) =~= Seq::empty());
        }
        for i in iter: widgets
            invariant
                views == widget_views(widgets@),
                iter.seq() == widgets@,
                slider_views(c@) == sliders_of(views.take(iter.index() as int)),
        {
            let ghost found = c@;
            let ghost n = iter.index() as int;
            assert(views.take(n + 1).drop_last() =~= views.take(n));
            if let DrawableType::Slider(s) = i {
                c.push(s);
                assert(slider_views(c@) =~= slider_views(found).push(s@));
            }
        }
        assert(views.take(views.len() as int) =~= views);
        c
    }

    /// Collects the labels among `widgets`, in their order, and drops the
    /// other widgets.
    pub fn labels(widgets: Vec<DrawableType>) -> (c: Vec<Label>)
        ensures
            label_views(c@) == labels_of(widget_views(widgets@)),
    {
        let ghost views = widget_views(widgets@);
        let mut c: Vec<Label> = Vec::new();
        proof {
            assert(views.take(0) =~= Seq::empty());
            assert(label_views(c@) =~= Seq::empty());
        }
        for i in iter: widgets
            invariant
                views == widget_views(widgets@),
                iter.seq() == widgets@,
                label_views(c@) == labels_of(views.take(iter.index() as int)),
        {
            let ghost found = c@;
            let ghost n = iter.index() as int;
            assert(views.take(n + 1).drop_last() =~= views.take(n));
            if let DrawableType::Label(s) = i {
                c.push(s);
                assert(label_views(c@) =~= label_views(found).push(s@));
            }
        }
        assert(views.take(views.len() as int) =~= views);
        c
    }
}

} // verus!
