use vstd::prelude::*;
use crate::button::{Button, ButtonView};
use crate::common::{
    any_button_in, draw_components, dropdown_mut_in, dropdown_views, dropdowns_in,
    fix_component_widths, slider_value_in, token_views, widget_views, DrawableType,
};
use crate::draw_handle::{DrawCommandView, DrawHandle};
use crate::dropdown::Dropdown;
use crate::error::GuiError;
use crate::fraction::Fraction;
use crate::label::{Label, LabelView};
use crate::model::{
    any_button, dropdown_place, dropdowns_of, fix_widths, lemma_dropdown_place,
    lemma_fix_widths_uniform, lemma_frame_keeps_place, seq_frame, sliders_of, widest,
    DropdownView, WidgetView,
};
use crate::slider::{Slider, SliderView};
use crate::traits::Drawable;
use crate::types::{saturate, saturate_i64, Colour, Dimensions, Point, Pointer};

verus! {

/// The tokens of `actions` that are handed to the function that receives
/// the actions of buttons: those that are not empty, in their order.
pub open spec fn dispatch_order(actions: Seq<Seq<char>>) -> Seq<Seq<char>>
    decreases actions.len(),
{
    if actions.len() == 0 {
        Seq::empty()
    } else if actions.last().len() == 0 {
        dispatch_order(actions.drop_last())
    } else {
        dispatch_order(actions.drop_last()).push(actions.last())
    }
}

/// Whether `after` is what a draw makes of the commands `before`: they
/// stay in front; the background is cleared next; what paints the widgets
/// comes last; whatever lies between is what the external draws have
/// drawn, and where there are none, nothing lies between.
pub open spec fn painted(
    before: Seq<DrawCommandView>,
    after: Seq<DrawCommandView>,
    clear_colour: Colour,
    widgets: Seq<DrawCommandView>,
    external_draws: nat,
) -> bool {
    &&& after.len() >= before.len() + 1 + widgets.len()
    &&& after.subrange(0, before.len() as int) == before
    &&& after[before.len() as int] == (DrawCommandView::Clear { colour: clear_colour })
    &&& after.subrange(after.len() - widgets.len(), after.len() as int) == widgets
    &&& external_draws == 0 ==> after.len() == before.len() + 1 + widgets.len()
}

/// The function that receives the actions of buttons. It can be called with
/// every state and every token.
struct ActionFunction<T, F: Fn(&mut T, &str)> {
    function: F,
    state: core::marker::PhantomData<T>,
}

impl<T, F: Fn(&mut T, &str)> ActionFunction<T, F> {
    #[verifier::type_invariant]
    spec fn callable(self) -> bool {
        forall|state: &mut T, token: &str| call_requires(self.function, (state, token))
    }

    /// Wraps `function`, which is the function that `call` calls from then
    /// on.
    fn new(function: F) -> (a: Self)
        requires
            forall|state: &mut T, token: &str| call_requires(function, (state, token)),
        ensures
            a.function == function,
    {
        ActionFunction { function, state: core::marker::PhantomData }
    }

    /// Calls the function with `state` and `token`: the state is left as
    /// what the function ensures lets a call with this token make of it.
    fn call(&self, state: &mut T, token: &str)
        ensures
            exists|handed: &mut T|
                *handed == *old(state) && *final(handed) == *final(state) && #[trigger] call_ensures(
                    self.function,
                    (handed, token),
                    (),
                ),
    {
        proof {
            use_type_invariant(self);
        }
        (self.function)(state, token);
    }
}

/// One registered external draw.
struct ExternalDraw {
    drawable: Box<dyn Drawable>,
}

impl ExternalDraw {
    /// Registers `drawable`, which is what draws for this entry from then
    /// on.
    fn new(drawable: Box<dyn Drawable>) -> (e: ExternalDraw)
        ensures
            e == (ExternalDraw { drawable }),
    {
        ExternalDraw { drawable }
    }
}

/// The default `struct` to handle the GUI system: the widgets at the top
/// level, the actions that their clicks have yielded, and what is to happen
/// with them. `T` is the state of the application, `F` the function that
/// receives the actions of buttons.
pub struct GuiHandler<T, F: Fn(&mut T, &str)> {
    actions: Vec<String>,
    additional_draws: Vec<ExternalDraw>,
    button_action: Option<ActionFunction<T, F>>,
    clear_colour: Colour,
    components_fixed_widths: bool,
    components: Vec<DrawableType>,
}

/// A `GuiHandler` as a mathematical value.
#[verifier::ext_equal]
pub struct GuiHandlerView<F> {
    pub actions: Seq<Seq<char>>,
    pub clear_colour: Colour,
    pub components_fixed_widths: bool,
    pub components: Seq<WidgetView>,
    /// The function that receives the actions of buttons, if one was ever
    /// set.
    pub button_action: Option<F>,
    /// How many external draws are registered.
    pub external_draws: nat,
}

impl<F> GuiHandlerView<F> {
    /// The handler that `new` makes.
    pub open spec fn created(clear_colour: Colour) -> GuiHandlerView<F> {
        GuiHandlerView {
            actions: Seq::empty(),
            clear_colour,
            components_fixed_widths: false,
            components: Seq::empty(),
            button_action: None,
            external_draws: 0,
        }
    }

    /// Where a widget that is added without a position comes to stand:
    /// beneath the widget before it, by the height of the first widget.
    /// The first comes to stand at `(0, 50)`.
    pub open spec fn next_position(self) -> Point {
        if self.components.len() == 0 {
            (0, 50)
        } else {
            (
                self.components.last().position().0,
                saturate(
                    self.components.last().position().1 + self.components.first().dimensions().1,
                ) as i32,
            )
        }
    }

    /// The handler with `widget` added behind its widgets.
    pub open spec fn with_component(self, widget: WidgetView) -> GuiHandlerView<F> {
        GuiHandlerView { components: self.components.push(widget), ..self }
    }

    /// Whether a draw is refused for want of a function that receives the
    /// actions of buttons: there is a button, at any depth, and no such
    /// function was ever set.
    pub open spec fn needs_action(self) -> bool {
        any_button(self.components) && self.button_action is None
    }

    /// The widgets as a frame finds them: at one width, where the handler
    /// is set to keep them so.
    pub open spec fn normalized(self) -> Seq<WidgetView> {
        if self.components_fixed_widths {
            fix_widths(self.components)
        } else {
            self.components
        }
    }

    /// The handler after a frame in which the pointer reports `pointer`:
    /// the widgets as the frame leaves them, and in the queue the actions of
    /// this frame and no others.
    pub open spec fn after_draw(self, pointer: Pointer) -> GuiHandlerView<F> {
        GuiHandlerView {
            components: seq_frame(self.normalized(), pointer).widgets,
            actions: seq_frame(self.normalized(), pointer).actions,
            ..self
        }
    }

    /// What paints the widgets in a frame in which the pointer reports
    /// `pointer`.
    pub open spec fn draw_commands(self, pointer: Pointer) -> Seq<DrawCommandView> {
        seq_frame(self.normalized(), pointer).commands
    }
}

impl<T, F: Fn(&mut T, &str)> View for GuiHandler<T, F> {
    type V = GuiHandlerView<F>;

    closed spec fn view(&self) -> GuiHandlerView<F> {
        GuiHandlerView {
            actions: token_views(self.actions@),
            clear_colour: self.clear_colour,
            components_fixed_widths: self.components_fixed_widths,
            components: widget_views(self.components@),
            button_action: match self.button_action {
                Some(action) => Some(action.function),
                None => None,
            },
            external_draws: self.additional_draws@.len(),
        }
    }
}

impl<T, F: Fn(&mut T, &str)> GuiHandler<T, F> {
    /// Creates a new `GuiHandler<T>`: no widgets, no external draws, and no
    /// function that receives the actions of buttons.
    pub fn new(clear_colour: Colour) -> (g: Self)
        ensures
            g@ == GuiHandlerView::<F>::created(clear_colour),
    {
        let g = Self {
            actions: Vec::new(),
            additional_draws: Vec::new(),
            button_action: None,
            clear_colour,
            components: Vec::new(),
            components_fixed_widths: false,
        };
        assert(g@.actions =~= Seq::empty());
        assert(g@.components =~= Seq::empty());
        g
    }

    fn components_fix_widths(&mut self)
        ensures
            final(self)@ == (GuiHandlerView {
                components: fix_widths(old(self)@.components),
                ..old(self)@
            }),
    {
        fix_component_widths(&mut self.components);
    }

    /// Clears the external draw call vector.
    pub fn clear_external_draws(&mut self) -> (r: &mut Self)
        ensures
            r@ == (GuiHandlerView { external_draws: 0, ..old(self)@ }),
            *final(self) == *final(r),
    {
        self.additional_draws.clear();

        self
    }

    /// Adds an external draw call to be executed before the widgets are
    /// drawn, so that what it draws lies beneath them.
    pub fn add_external_draw(&mut self, external_draw: Box<dyn Drawable>) -> (r: &mut Self)
        ensures
            r@ == (GuiHandlerView {
                external_draws: (old(self)@.external_draws + 1) as nat,
                ..old(self)@
            }),
            *final(self) == *final(r),
    {
        self.additional_draws.push(ExternalDraw::new(external_draw));

        self
    }

    /// Sets the function that will be called for every action of a button
    /// when `execute_actions` runs. It must take every state and every
    /// token.
    pub fn set_button_action_function(&mut self, function: F) -> (r: &mut Self)
        requires
            forall|state: &mut T, token: &str| call_requires(function, (state, token)),
        ensures
            r@ == (GuiHandlerView { button_action: Some(function), ..old(self)@ }),
            *final(self) == *final(r),
    {
        self.button_action = Some(ActionFunction::new(function));

        self
    }

    /// Makes it so that when components are drawn, they are all drawn at
    /// the same width so that they are uniform.
    pub fn set_components_fix_widths(&mut self, value: bool) -> (r: &mut Self)
        ensures
            r@ == (GuiHandlerView { components_fixed_widths: value, ..old(self)@ }),
            *final(self) == *final(r),
    {
        self.components_fixed_widths = value;

        self
    }

    /// Adds `component` behind the components to be drawn.
    fn add_component(&mut self, component: DrawableType) -> (r: &mut Self)
        ensures
            r@ == old(self)@.with_component(component@),
            *final(self) == *final(r),
    {
        self.components.push(component);
        assert(self@.components =~= old(self)@.components.push(component@));

        self
    }

    /// Adds a button to the `GuiHandler` with a given `position`.
    /// `text_width` is the width that the renderer measures for `text` at
    /// font size 20.
    pub fn add_button_with_position(
        &mut self,
        text: &str,
        action: &str,
        position: Point,
        text_width: i32,
    ) -> (r: &mut Self)
        ensures
            r@ == old(self)@.with_component(
                WidgetView::Button(ButtonView::created(text@, action@, 20, position, text_width)),
            ),
            *final(self) == *final(r),
    {
        self.add_component(
            DrawableType::Button(Button::new(text, action, 20, position, text_width)),
        )
    }

    /// Adds a `Button` to the `GuiHandler` with automatic positioning:
    /// beneath the component added last, by the height of the first
    /// component; the first at `(0, 50)`. `text_width` is the width that the
    /// renderer measures for `text` at font size 20.
    pub fn add_button(&mut self, text: &str, action: &str, text_width: i32) -> (r: &mut Self)
        ensures
            r@ == old(self)@.with_component(
                WidgetView::Button(
                    ButtonView::created(
                        text@,
                        action@,
                        20,
                        old(self)@.next_position(),
                        text_width,
                    ),
                ),
            ),
            *final(self) == *final(r),
    {
        let position = self.next_position();

        self.add_button_with_position(text, action, position, text_width)
    }

    /// The actions that `execute_actions` hands to the function that
    /// receives them: those in the queue that are not empty, in the order in
    /// which they were collected.
    pub fn pending_actions(&self) -> (pending: Vec<String>)
        ensures
            token_views(pending@) == dispatch_order(self@.actions),
    {
        let ghost queue = token_views(self.actions@);
        let mut pending: Vec<String> = Vec::new();
        let n = self.actions.len();
        let mut i: usize = 0;
        proof {
            assert(queue.take(0) =~= Seq::empty());
            assert(token_views(pending@) =~= Seq::empty());
        }
        while i < n
            invariant
                i <= n,
                self.actions.len() == n,
                queue == token_views(self.actions@),
                token_views(pending@) == dispatch_order(queue.take(i as int)),
            decreases n - i,
        {
            let ghost found = pending@;
            assert(queue.take(i as int + 1).drop_last() =~= queue.take(i as int));
            if !self.actions[i].as_str().is_empty() {
                let token = self.actions[i].clone();
                pending.push(token);
                assert(token_views(pending@) =~= token_views(found).push(token@));
            }
            i += 1;
        }
        assert(queue.take(n as int) =~= queue);
        pending
    }

    /// Executes the actions of the buttons: calls the function that
    /// receives them once for each of `pending_actions`, in their order,
    /// and empties the queue. Each call takes the state as the call before
    /// it has left it, and leaves it as what the function ensures lets a
    /// call with that token make of it. Without such a function the state
    /// stays, and only the queue is emptied.
    pub fn execute_actions(&mut self, state: &mut T) -> (r: &mut Self)
        ensures
            r@ == (GuiHandlerView { actions: Seq::empty(), ..old(self)@ }),
            *final(self) == *final(r),
            old(self)@.button_action is None ==> *final(state) == *old(state),
            old(self)@.button_action is Some ==> exists|states: Seq<T>|
                #![trigger states.len()]
                {
                    let pending = dispatch_order(old(self)@.actions);
                    &&& states.len() == pending.len() + 1
                    &&& states[0] == *old(state)
                    &&& states[pending.len() as int] == *final(state)
                    &&& forall|i: int|
                        #![trigger states[i]]
                        0 <= i < pending.len() ==> exists|handed: &mut T, text: &str|
                            *handed == states[i] && *final(handed) == states[i + 1] && text@
                                == pending[i] && #[trigger] call_ensures(
                                old(self)@.button_action->0,
                                (handed, text),
                                (),
                            )
                },
    {
        let pending = self.pending_actions();
        let n = pending.len();
        let ghost tokens = token_views(pending@);
        let ghost mut states: Seq<T> = seq![*state];
        match &self.button_action {
            Some(action) => {
                let mut i: usize = 0;
                while i < n
                    invariant
                        i <= n,
                        pending.len() == n,
                        tokens == token_views(pending@),
                        *self == *old(self),
                        self.button_action == Some(*action),
                        states.len() == i + 1,
                        states[0] == *old(state),
                        states[i as int] == *state,
                        forall|j: int|
                            #![trigger states[j]]
                            0 <= j < i ==> exists|handed: &mut T, text: &str|
                                *handed == states[j] && *final(handed) == states[j + 1] && text@
                                    == tokens[j] && #[trigger] call_ensures(
                                    action.function,
                                    (handed, text),
                                    (),
                                ),
                    decreases n - i,
                {
                    let ghost before = states;
                    action.call(state, pending[i].as_str());
                    proof {
                        states = states.push(*state);
                        assert forall|j: int|
                            #![trigger states[j]]
                            0 <= j < i + 1 implies exists|handed: &mut T, text: &str|
                            *handed == states[j] && *final(handed) == states[j + 1] && text@
                                == tokens[j] && #[trigger] call_ensures(
                                action.function,
                                (handed, text),
                                (),
                            ) by {
                            if j < i {
                                assert(states[j] == before[j]);
                                assert(states[j + 1] == before[j + 1]);
                            }
                        }
                    }
                    i += 1;
                }
                proof {
                    let pending = dispatch_order(old(self)@.actions);
                    assert(old(self)@.button_action->0 == action.function);
                    assert(states.len() == pending.len() + 1);
                    assert(states[pending.len() as int] == *state);
                    assert(exists|all: Seq<T>|
                        #![trigger all.len()]
                        {
                            &&& all.len() == pending.len() + 1
                            &&& all[0] == *old(state)
                            &&& all[pending.len() as int] == *state
                            &&& forall|i: int|
                                #![trigger all[i]]
                                0 <= i < pending.len() ==> exists|handed: &mut T, text: &str|
                                    *handed == all[i] && *final(handed) == all[i + 1] && text@
                                        == pending[i] && #[trigger] call_ensures(
                                        old(self)@.button_action->0,
                                        (handed, text),
                                        (),
                                    )
                        }) by {
                        assert(states.len() == pending.len() + 1);
                    }
                }
            },
            None => {},
        }
        self.actions.clear();
        assert(self@.actions =~= Seq::empty());

        self
    }

    /// Adds a `Slider` to the `GuiHandler` with a given `position`. Its
    /// track is 100 pixels wide.
    pub fn add_slider_with_position(
        &mut self,
        min: i32,
        max: i32,
        initial_value: Fraction,
        position: Point,
    ) -> (r: &mut Self)
        ensures
            r@ == old(self)@.with_component(
                WidgetView::Slider(SliderView::created(min, max, initial_value, position, 100)),
            ),
            *final(self) == *final(r),
    {
        self.add_component(
            DrawableType::Slider(Slider::new(min, max, initial_value, position, 100)),
        )
    }

    /// Adds a `Slider` to the `GuiHandler` with automatic positioning:
    /// beneath the component added last, by the height of the first
    /// component; the first at `(0, 50)`. Its track is 250 pixels wide.
    pub fn add_slider(&mut self, min: i32, max: i32, initial_value: Fraction) -> (r: &mut Self)
        ensures
            r@ == old(self)@.with_component(
                WidgetView::Slider(
                    SliderView::created(min, max, initial_value, old(self)@.next_position(), 250),
                ),
            ),
            *final(self) == *final(r),
    {
        let position = self.next_position();

        self.add_component(
            DrawableType::Slider(Slider::new(min, max, initial_value, position, 250)),
        )
    }

    /// Gets the value of the `Slider` that is the `index`-th among the
    /// components, counted from zero. Sliders inside dropdowns do not count.
    pub fn get_slider_value(&self, index: usize) -> (r: Result<Fraction, GuiError>)
        ensures
            match r {
                Ok(v) => index < sliders_of(self@.components).len() && v == sliders_of(
                    self@.components,
                )[index as int].value,
                Err(e) => e == GuiError::Index && index >= sliders_of(self@.components).len(),
            },
    {
        slider_value_in(&self.components, index)
    }

    /// Gets the value of a specified `Slider` via an index, rounded toward
    /// zero.
    pub fn get_slider_value_i32(&self, index: usize) -> (r: Result<i32, GuiError>)
        ensures
            match r {
                Ok(v) => index < sliders_of(self@.components).len() && v == sliders_of(
                    self@.components,
                )[index as int].value.truncated(),
                Err(e) => e == GuiError::Index && index >= sliders_of(self@.components).len(),
            },
    {
        match self.get_slider_value(index) {
            Ok(v) => Ok(v.truncate()),
            Err(e) => Err(e),
        }
    }

    fn get_first_dimensions(&self) -> (d: Dimensions)
        ensures
            d == if self@.components.len() == 0 {
                (0i32, 50i32)
            } else {
                self@.components.first().dimensions()
            },
    {
        if self.components.len() == 0 {
            (0, 50)
        } else {
            self.components[0].get_dimensions()
        }
    }

    fn get_previous_position(&self) -> (p: Point)
        ensures
            p == if self@.components.len() == 0 {
                (0i32, 0i32)
            } else {
                self@.components.last().position()
            },
    {
        let n = self.components.len();
        if n == 0 {
            (0, 0)
        } else {
            self.components[n - 1].get_position()
        }
    }

    /// Where a component that is added without a position comes to stand.
    fn next_position(&self) -> (p: Point)
        ensures
            p == self@.next_position(),
    {
        let first_dimensions = self.get_first_dimensions();
        let previous_position = self.get_previous_position();

        (
            previous_position.0,
            saturate_i64(previous_position.1 as i64 + first_dimensions.1 as i64),
        )
    }

    /// Adds a `Dropdown` to the `GuiHandler` with automatic positioning:
    /// beneath the component added last, by the height of the first
    /// component; the first at `(0, 50)`. `text_width` is the width that the
    /// renderer measures for `text` at font size 20.
    pub fn add_dropdown(&mut self, text: &str, text_width: i32) -> (r: &mut Self)
        ensures
            r@ == old(self)@.with_component(
                WidgetView::Dropdown(
                    DropdownView::created(text@, 20, old(self)@.next_position(), text_width),
                ),
            ),
            *final(self) == *final(r),
    {
        let position = self.next_position();

        self.add_dropdown_with_position(text, position, text_width)
    }

    /// Adds a `Dropdown` to the `GuiHandler` with a given `position`.
    /// `text_width` is the width that the renderer measures for `text` at
    /// font size 20.
    pub fn add_dropdown_with_position(&mut self, text: &str, position: Point, text_width: i32)
        -> (r: &mut Self)
        ensures
            r@ == old(self)@.with_component(
                WidgetView::Dropdown(DropdownView::created(text@, 20, position, text_width)),
            ),
            *final(self) == *final(r),
    {
        self.add_component(DrawableType::Dropdown(Dropdown::new(text, 20, position, text_width)))
    }

    /// The `Dropdown` that is the `index`-th among the components, counted
    /// from zero, to be changed in its place. Dropdowns inside dropdowns do
    /// not count.
    pub fn get_dropdowns_mut(&mut self, index: usize) -> (r: Result<&mut Dropdown, GuiError>)
        ensures
            match r {
                Ok(d) => index < dropdowns_of(old(self)@.components).len() && d@ == dropdowns_of(
                    old(self)@.components,
                )[index as int] && final(self)@ == (GuiHandlerView {
                    components: old(self)@.components.update(
                        dropdown_place(old(self)@.components, index as int),
                        WidgetView::Dropdown(final(d)@),
                    ),
                    ..old(self)@
                }),
                Err(e) => e == GuiError::Index && index >= dropdowns_of(
                    old(self)@.components,
                ).len() && final(self)@ == old(self)@,
            },
    {
        proof {
            lemma_dropdown_place(self@.components, index as int);
            let a = self.components@;
            let k = dropdown_place(self@.components, index as int);
            assert forall|d: Dropdown| 0 <= k < a.len() implies widget_views(
                #[trigger] a.update(k, DrawableType::Dropdown(d)),
            ) =~= widget_views(a).update(k, WidgetView::Dropdown(d@)) by {}
        }
        dropdown_mut_in(&mut self.components, index)
    }

    /// Gets a vector of the `Dropdown`s among the components, in their
    /// order. Dropdowns inside them are not among them.
    pub fn get_dropdowns(&self) -> (r: Result<Vec<&Dropdown>, GuiError>)
        ensures
            r is Ok,
            dropdown_views(r->Ok_0@) == dropdowns_of(self@.components),
    {
        Ok(dropdowns_in(&self.components))
    }

    /// Adds a `Label` to the `GuiHandler` with automatic positioning:
    /// beneath the component added last, by the height of the first
    /// component; the first at `(0, 50)`. `text_width` is the width that the
    /// renderer measures for `text` at font size 20.
    pub fn add_label(&mut self, text: &str, text_width: i32) -> (r: &mut Self)
        ensures
            r@ == old(self)@.with_component(
                WidgetView::Label(
                    LabelView::created(text@, 20, old(self)@.next_position(), text_width),
                ),
            ),
            *final(self) == *final(r),
    {
        let position = self.next_position();

        self.add_label_with_position(text, position, text_width)
    }

    /// Adds a `Label` to the `GuiHandler` with a given `position`.
    /// `text_width` is the width that the renderer measures for `text` at
    /// font size 20.
    pub fn add_label_with_position(&mut self, text: &str, position: Point, text_width: i32) -> (r:
        &mut Self)
        ensures
            r@ == old(self)@.with_component(
                WidgetView::Label(LabelView::created(text@, 20, position, text_width)),
            ),
            *final(self) == *final(r),
    {
        self.add_component(DrawableType::Label(Label::new(text, 20, position, text_width)))
    }

    /// The components, in the order in which they are drawn.
    pub fn get_components(&self) -> (c: &Vec<DrawableType>)
        ensures
            widget_views(c@) == self@.components,
    {
        &self.components
    }

    /// The actions collected during the last draw, empty tokens among
    /// them, as far as they have not been executed.
    pub fn get_actions(&self) -> (a: &Vec<String>)
        ensures
            token_views(a@) == self@.actions,
    {
        &self.actions
    }

    /// Lets the external draws draw, each on a layer of its own, and queues
    /// what they have drawn on `draw_handler`, in the order in which they
    /// were registered.
    fn draw_external(&mut self, draw_handler: &mut DrawHandle)
        ensures
            final(self)@ == old(self)@,
            final(draw_handler)@.pointer == old(draw_handler)@.pointer,
            final(draw_handler)@.released == old(draw_handler)@.released,
            final(draw_handler)@.commands.len() >= old(draw_handler)@.commands.len(),
            final(draw_handler)@.commands.subrange(0, old(draw_handler)@.commands.len() as int)
                == old(draw_handler)@.commands,
            old(self)@.external_draws == 0 ==> final(draw_handler)@ == old(draw_handler)@,
    {
        let ghost start = draw_handler@.commands;
        let pointer = draw_handler.pointer();
        let n = self.additional_draws.len();
        let mut i: usize = 0;
        assert(start.subrange(0, start.len() as int) =~= start);
        while i < n
            invariant
                i <= n,
                self.additional_draws.len() == n,
                self@ == old(self)@,
                draw_handler@.pointer == pointer,
                draw_handler@.released == old(draw_handler)@.released,
                draw_handler@.commands.len() >= start.len(),
                draw_handler@.commands.subrange(0, start.len() as int) == start,
                n == 0 ==> draw_handler@ == old(draw_handler)@,
            decreases n - i,
        {
            let ghost queued = draw_handler@.commands;
            let mut layer = DrawHandle::begin(pointer);
            self.additional_draws[i].drawable.draw(&mut layer);
            draw_handler.absorb(layer);
            assert(draw_handler@.commands.subrange(0, start.len() as int) =~= queued.subrange(
                0,
                start.len() as int,
            ));
            i += 1;
        }
    }

    /// Draws the `GuiHandler` on the drawing scope of a frame, and gives the
    /// scope back for the caller to go on drawing.
    ///
    /// The queue of actions is emptied first. A scope that is released is
    /// refused, and so is every draw for as long as there is a button, at
    /// any depth, and no function that receives the actions of buttons was
    /// ever set; nothing is drawn then. Else the background is cleared, the
    /// external draws draw, the components are brought to one width if that
    /// is asked for, and a frame passes for each component in their order:
    /// it is drawn and then told of the click. The actions that the clicks
    /// yield are in the queue afterwards.
    pub fn draw(&mut self, draw_handler: DrawHandle) -> (r: Result<DrawHandle, GuiError>)
        ensures
            match r {
                Ok(h) => !draw_handler@.released && !old(self)@.needs_action() && final(self)@
                    == old(self)@.after_draw(draw_handler@.pointer) && h@.pointer
                    == draw_handler@.pointer && !h@.released && painted(
                    draw_handler@.commands,
                    h@.commands,
                    old(self)@.clear_colour,
                    old(self)@.draw_commands(draw_handler@.pointer),
                    old(self)@.external_draws,
                ),
                Err(e) => final(self)@ == (GuiHandlerView { actions: Seq::empty(), ..old(self)@ })
                    && e == if draw_handler@.released {
                    GuiError::SurfaceReleased
                } else {
                    GuiError::Configuration
                } && (draw_handler@.released || old(self)@.needs_action()),
            },
    {
        let mut draw_handler = draw_handler;
        let ghost scope = draw_handler@;
        let ghost widgets = old(self)@.draw_commands(scope.pointer);

        self.actions.clear();
        assert(self@.actions =~= Seq::empty());

        if draw_handler.is_released() {
            return Err(GuiError::SurfaceReleased);
        }
        if self.button_action.is_none() && any_button_in(&self.components) {
            return Err(GuiError::Configuration);
        }

        draw_handler.clear_background(self.clear_colour);
        let ghost cleared = draw_handler@;

        self.draw_external(&mut draw_handler);
        let ghost layered = draw_handler@;

        if self.components_fixed_widths {
            self.components_fix_widths();
        }

        draw_components(&mut self.components, &mut self.actions, &mut draw_handler);
        proof {
            let after = draw_handler@.commands;
            assert(after =~= layered.commands + widgets);
            assert(cleared.commands =~= scope.commands.push(
                DrawCommandView::Clear { colour: old(self)@.clear_colour },
            ));
            assert(layered.commands.subrange(0, cleared.commands.len() as int)
                == cleared.commands);
            assert(after.subrange(0, scope.commands.len() as int) =~= scope.commands) by {
                assert forall|j: int| 0 <= j < scope.commands.len() implies after[j]
                    == scope.commands[j] by {
                    assert(layered.commands.subrange(0, cleared.commands.len() as int)[j]
                        == cleared.commands[j]);
                }
            }
            assert(after[scope.commands.len() as int] == cleared.commands[scope.commands.len()
                as int]) by {
                assert(layered.commands.subrange(0, cleared.commands.len() as int)[
                    scope.commands.len() as int
                ] == cleared.commands[scope.commands.len() as int]);
            }
            assert(after.subrange(after.len() - widgets.len(), after.len() as int) =~= widgets);
            assert(token_views(self.actions@) =~= seq_frame(
                old(self)@.normalized(),
                scope.pointer,
            ).actions);
        }
        Ok(draw_handler)
    }
}

/// No empty token is handed on, and no other token is held back or moved:
/// the tokens handed on are those of `actions` that are not empty, as many
/// as there are of them.
pub proof fn lemma_dispatch_order(actions: Seq<Seq<char>>)
    ensures
        forall|i: int|
            0 <= i < dispatch_order(actions).len() ==> (#[trigger] dispatch_order(
                actions,
            )[i]).len() > 0,
        dispatch_order(actions).len() <= actions.len(),
        actions.len() > 0 && actions.last().len() > 0 ==> dispatch_order(actions).last()
            == actions.last(),
    decreases actions.len(),
{
    if actions.len() > 0 {
        lemma_dispatch_order(actions.drop_last());
    }
}

/// The tokens of two queues, one after the other, are handed on as the
/// tokens of the first followed by those of the second: the order in which
/// they were collected is the order in which they are handed on.
pub proof fn lemma_dispatch_order_of_both(first: Seq<Seq<char>>, second: Seq<Seq<char>>)
    ensures
        dispatch_order(first + second) == dispatch_order(first) + dispatch_order(second),
    decreases second.len(),
{
    if second.len() == 0 {
        assert(first + second =~= first);
        assert(dispatch_order(first) + dispatch_order(second) =~= dispatch_order(first));
    } else {
        lemma_dispatch_order_of_both(first, second.drop_last());
        assert((first + second).drop_last() =~= first + second.drop_last());
        assert((first + second).last() == second.last());
        if second.last().len() != 0 {
            assert(dispatch_order(first) + dispatch_order(second.drop_last()).push(second.last())
                =~= (dispatch_order(first) + dispatch_order(second.drop_last())).push(
                second.last(),
            ));
        }
    }
}

/// A handler for which a function that receives the actions of buttons was
/// set is not refused a draw for want of one, whatever its widgets are;
/// without buttons none is refused for want of one either.
pub proof fn lemma_configuration_guard<F>(g: GuiHandlerView<F>, function: F)
    ensures
        g.button_action is Some ==> !g.needs_action(),
        (GuiHandlerView { button_action: Some(function), ..g }).needs_action() == false,
        g.components.len() == 0 ==> !g.needs_action(),
{
}

/// After a draw of a handler that keeps its widgets at one width, every
/// widget is as wide as the widest was before the draw.
pub proof fn lemma_draw_makes_uniform<F>(g: GuiHandlerView<F>, pointer: Pointer, i: int)
    requires
        g.components_fixed_widths,
        0 <= i < g.components.len(),
    ensures
        g.after_draw(pointer).components.len() == g.components.len(),
        g.after_draw(pointer).components[i].dimensions().0 == widest(g.components),
{
    lemma_fix_widths_uniform(g.components, i);
    lemma_frame_keeps_place(fix_widths(g.components), pointer, i);
}

} // verus!
