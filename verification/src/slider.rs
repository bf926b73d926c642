use vstd::prelude::*;
use crate::common::{inside, is_inside};
use crate::draw_handle::{lemma_drawn_twice, DrawCommandView, DrawHandle};
use crate::fraction::{
    lemma_product_bound, saturate_wide, trunc_div, trunc_div_wide, Fraction,
};
use crate::gui_component::GuiComponentBehaviour;
use crate::gui_theme::{state_colour, state_get_colour, StateColour};
use crate::types::{light_gray, saturate, saturate_i64, Colour, Dimensions, Point};

verus! {

/// A box that is dragged along a track to choose a value between `min` and
/// `max`.
#[derive(Copy, Clone, PartialEq, Debug)]
pub struct Slider {
    background_colour: Colour,
    max: i32,
    min: i32,
    dimensions: Dimensions,
    position: Point,
    slider_background_colour: Colour,
    slider_box_colour: Colour,
    slider_box_dimensions: Dimensions,
    slider_box_position: Point,
    slider_dimensions: Dimensions,
    slider_position: Point,
    slider_text_colour: Colour,
    value: Fraction,
}

/// A `Slider` as a mathematical value. The fields that begin with `slider_`
/// describe the track, those that begin with `slider_box_` the box on it.
pub struct SliderView {
    pub background_colour: Colour,
    pub max: i32,
    pub min: i32,
    pub dimensions: Dimensions,
    pub position: Point,
    pub slider_background_colour: Colour,
    pub slider_box_colour: Colour,
    pub slider_box_dimensions: Dimensions,
    pub slider_box_position: Point,
    pub slider_dimensions: Dimensions,
    pub slider_position: Point,
    pub slider_text_colour: Colour,
    pub value: Fraction,
}

/// `value` brought into the range from `min` to `max`: `min` where it is
/// below `min` or is no number, else `max` where it is above `max`.
pub open spec fn clamped(min: i32, max: i32, value: Fraction) -> Fraction {
    if !value.valid() || value.below(min as int) {
        Fraction::whole(min as int)
    } else if value.above(max as int) {
        Fraction::whole(max as int)
    } else {
        value
    }
}

/// How far to the right of the track's start the box of `value` stands: as
/// far along the `track_width` as `value` is along the way from `min` to
/// `max`, rounded toward zero. Where `min` and `max` are one number, or
/// `value` is none, it stands at the start.
pub open spec fn box_offset(min: i32, max: i32, value: Fraction, track_width: i32) -> int {
    if max == min || value.denominator <= 0 {
        0
    } else {
        trunc_div(
            (value.numerator - min * value.denominator) * track_width,
            value.denominator * (max - min),
        )
    }
}

/// The value of a box that stands `offset` pixels right of the track's start
/// and can move over `span` pixels: as far from `min` to `max` as `offset` is
/// from zero to `span`. Where the box cannot move, it is `min`.
pub open spec fn value_at(min: i32, max: i32, offset: int, span: int) -> Fraction {
    if span <= 0 {
        Fraction::whole(min as int)
    } else {
        Fraction {
            numerator: (min * span + offset * (max - min)) as i64,
            denominator: span as i64,
        }
    }
}

impl SliderView {
    /// The slider that `new` makes.
    pub open spec fn created(
        min: i32,
        max: i32,
        initial_value: Fraction,
        position: Point,
        width: i32,
    ) -> SliderView {
        SliderView {
            max,
            min,
            value: clamped(min, max, initial_value),
            position,
            dimensions: (saturate(width + 120) as i32, 50),
            slider_position: (saturate(position.0 + 10) as i32, saturate(position.1 + 7) as i32),
            slider_dimensions: (width, 35),
            slider_box_dimensions: (30, 35),
            slider_box_position: (
                saturate(position.0 + 10) as i32,
                saturate(position.1 + 7) as i32,
            ),
            slider_box_colour: state_colour(StateColour::Text),
            slider_text_colour: state_colour(StateColour::Text),
            slider_background_colour: Colour::light_gray(),
            background_colour: state_colour(StateColour::Default),
        }.snapped()
    }

    /// The slider with its box put where its value belongs on the track.
    pub open spec fn snapped(self) -> SliderView {
        SliderView {
            slider_box_position: (
                saturate(
                    self.slider_position.0 + box_offset(
                        self.min,
                        self.max,
                        self.value,
                        self.slider_dimensions.0,
                    ),
                ) as i32,
                self.slider_box_position.1,
            ),
            ..self
        }
    }

    /// Whether a pointer at `point` is over the box.
    pub open spec fn hovering(self, point: Point) -> bool {
        inside(self.slider_box_position, self.slider_box_dimensions, point)
    }

    /// The slider after it has looked at a pointer at `point`.
    pub open spec fn hovered(self, point: Point) -> SliderView {
        SliderView {
            slider_box_colour: if self.hovering(point) {
                state_colour(StateColour::Hovered)
            } else {
                state_colour(StateColour::Text)
            },
            ..self
        }
    }

    /// Whether a pointer at `point` can drag the box: it is over the box or
    /// anywhere over the slider.
    pub open spec fn grabbed(self, point: Point) -> bool {
        self.hovering(point) || inside(self.position, self.dimensions, point)
    }

    /// Where the left edge of the box comes to stand when the box is centred
    /// on `x` and then kept on the track.
    pub open spec fn box_x_for(self, x: i32) -> i32 {
        let centred = saturate(x - trunc_div(self.slider_box_dimensions.0 as int, 2));
        if centred + self.slider_box_dimensions.0 > self.slider_position.0
            + self.slider_dimensions.0 {
            saturate(
                self.slider_position.0 + self.slider_dimensions.0 - self.slider_box_dimensions.0,
            ) as i32
        } else if centred < self.slider_position.0 {
            self.slider_position.0
        } else {
            centred as i32
        }
    }

    /// The slider with its box dragged to a pointer at `x`, and the value
    /// that the box then stands for.
    pub open spec fn dragged_to(self, x: i32) -> SliderView {
        let box_x = self.box_x_for(x);
        SliderView {
            slider_box_position: (box_x, self.slider_box_position.1),
            value: value_at(
                self.min,
                self.max,
                box_x - self.slider_position.0,
                self.slider_dimensions.0 - self.slider_box_dimensions.0,
            ),
            ..self
        }
    }

    /// The slider after a frame in which the pointer is at `point` and the
    /// button is down or not: it follows the pointer for as long as the
    /// button is held.
    pub open spec fn clicked(self, point: Point, held: bool) -> SliderView {
        if self.grabbed(point) && held {
            self.dragged_to(point.0)
        } else {
            self
        }
    }

    /// The slider at another size. The track takes the new width less the
    /// 120 pixels of the value's text, track and box the new height less 15.
    /// Neither the value nor the place of the box follows: the box keeps its
    /// pixel position until it is dragged again.
    pub open spec fn resized(self, dimensions: Dimensions) -> SliderView {
        SliderView {
            dimensions,
            slider_dimensions: (
                saturate(dimensions.0 - 120) as i32,
                saturate(dimensions.1 - 15) as i32,
            ),
            slider_box_dimensions: (
                self.slider_box_dimensions.0,
                saturate(dimensions.1 - 15) as i32,
            ),
            ..self
        }
    }

    /// The slider with its left edge at `x`; track and box go along.
    pub open spec fn moved_x(self, x: i32) -> SliderView {
        SliderView {
            position: (x, self.position.1),
            slider_position: (saturate(x + 10) as i32, self.slider_position.1),
            slider_box_position: (
                saturate(self.slider_box_position.0 + (x - self.position.0)) as i32,
                self.slider_box_position.1,
            ),
            ..self
        }
    }

    /// What paints the slider: its background, its value with two decimals,
    /// the track, then the box.
    pub open spec fn commands(self) -> Seq<DrawCommandView> {
        seq![
            DrawCommandView::Rectangle {
                x: self.position.0,
                y: self.position.1,
                width: self.dimensions.0,
                height: self.dimensions.1,
                colour: self.background_colour,
            },
            DrawCommandView::Number {
                value: self.value,
                decimals: 2,
                x: saturate(self.position.0 + self.dimensions.0 - 105) as i32,
                y: saturate(self.position.1 + 10) as i32,
                font_size: 32,
                colour: self.slider_text_colour,
            },
            DrawCommandView::Rectangle {
                x: self.slider_position.0,
                y: self.slider_position.1,
                width: self.slider_dimensions.0,
                height: self.slider_dimensions.1,
                colour: self.slider_background_colour,
            },
            DrawCommandView::Rectangle {
                x: self.slider_box_position.0,
                y: self.slider_box_position.1,
                width: self.slider_box_dimensions.0,
                height: self.slider_box_dimensions.1,
                colour: self.slider_box_colour,
            },
        ]
    }
}

/// A clamped value is a number. Where `min` is not above `max` it lies
/// between the two: a value above `max` becomes `max`, one below `min`
/// becomes `min`, and one between them stays.
pub proof fn lemma_clamped_in_range(min: i32, max: i32, value: Fraction)
    ensures
        clamped(min, max, value).valid(),
        min <= max ==> !clamped(min, max, value).below(min as int) && !clamped(
            min,
            max,
            value,
        ).above(max as int),
        value.valid() && value.above(max as int) && min <= max ==> clamped(min, max, value)
            == Fraction::whole(max as int),
        value.valid() && value.below(min as int) ==> clamped(min, max, value) == Fraction::whole(
            min as int,
        ),
        value.valid() && !value.below(min as int) && !value.above(max as int) ==> clamped(
            min,
            max,
            value,
        ) == value,
{
    let low = Fraction::whole(min as int);
    let high = Fraction::whole(max as int);
    assert(low.numerator == min && low.denominator == 1);
    assert(high.numerator == max && high.denominator == 1);
    assert(min * low.denominator == min && max * low.denominator == max);
    assert(min * high.denominator == min && max * high.denominator == max);
    if value.valid() && min <= max {
        assert(min * value.denominator <= max * value.denominator) by (nonlinear_arith)
            requires
                min <= max,
                value.denominator > 0,
        ;
    }
}

/// Dragging to a place and dragging to the same place again leaves the
/// slider as the first drag left it: the value does not drift.
pub proof fn lemma_drag_is_idempotent(s: SliderView, point: Point, held: bool)
    ensures
        s.clicked(point, held).clicked(point, held) == s.clicked(point, held),
        s.clicked(point, held).clicked(point, held).value == s.clicked(point, held).value,
{
    let once = s.clicked(point, held);
    if s.grabbed(point) && held {
        assert(once.box_x_for(point.0) == s.box_x_for(point.0));
        assert(once.dragged_to(point.0) == once);
    }
}

/// The value that a drag leaves is a number, and where `min` is not above
/// `max` it lies between the two.
pub proof fn lemma_dragged_value_in_range(s: SliderView, x: i32)
    requires
        s.min <= s.max,
    ensures
        s.dragged_to(x).value.valid(),
        !s.dragged_to(x).value.below(s.min as int),
        !s.dragged_to(x).value.above(s.max as int),
{
    let span = s.slider_dimensions.0 - s.slider_box_dimensions.0;
    let offset = s.box_x_for(x) - s.slider_position.0;
    let low = s.min as int;
    let high = s.max as int;
    if span > 0 {
        assert(0 <= offset <= span);
        let numerator = low * span + offset * (high - low);
        assert(low * span <= numerator <= high * span) by (nonlinear_arith)
            requires
                numerator == low * span + offset * (high - low),
                0 <= offset <= span,
                low <= high,
        ;
        assert(-0x8000_0000 * 0xffff_ffff <= low * span && high * span <= 0x7fff_ffff
            * 0xffff_ffff) by (nonlinear_arith)
            requires
                -0x8000_0000 <= low,
                high <= 0x7fff_ffff,
                0 < span <= 0xffff_ffff,
        ;
        assert(numerator as i64 == numerator);
        assert(span as i64 == span);
    } else {
        assert(low * 1 == low && high * 1 == high);
    }
}

/// A drag leaves the box on the track, where the track is wider than the
/// box and ends within the range of a coordinate: the box does not start
/// before the track and does not end after it.
pub proof fn lemma_box_stays_on_track(s: SliderView, x: i32)
    requires
        s.slider_dimensions.0 >= s.slider_box_dimensions.0,
        s.slider_position.0 + s.slider_dimensions.0 <= i32::MAX,
    ensures
        s.slider_position.0 <= s.box_x_for(x),
        s.box_x_for(x) + s.slider_box_dimensions.0 <= s.slider_position.0 + s.slider_dimensions.0,
{
}

impl View for Slider {
    type V = SliderView;

    closed spec fn view(&self) -> SliderView {
        SliderView {
            background_colour: self.background_colour,
            max: self.max,
            min: self.min,
            dimensions: self.dimensions,
            position: self.position,
            slider_background_colour: self.slider_background_colour,
            slider_box_colour: self.slider_box_colour,
            slider_box_dimensions: self.slider_box_dimensions,
            slider_box_position: self.slider_box_position,
            slider_dimensions: self.slider_dimensions,
            slider_position: self.slider_position,
            slider_text_colour: self.slider_text_colour,
            value: self.value,
        }
    }
}

/// Computes `box_offset`.
fn offset_of(min: i32, max: i32, value: Fraction, track_width: i32) -> (r: i128)
    ensures
        r == box_offset(min, max, value, track_width),
        -0x4000_0000_0000_0000_0000_0000_0000_0000 <= r <= 0x4000_0000_0000_0000_0000_0000_0000_0000,
{
    if max == min || value.denominator <= 0 {
        0
    } else {
        let n: i128 = value.numerator as i128;
        let d: i128 = value.denominator as i128;
        let low: i128 = min as i128;
        let tw: i128 = track_width as i128;
        let range: i128 = max as i128 - min as i128;
        proof {
            lemma_product_bound(low as int, d as int, 0x8000_0000, 0x8000_0000_0000_0000);
        }
        let a: i128 = n - low * d;
        proof {
            lemma_product_bound(
                a as int,
                tw as int,
                0x8000_0000int * 0x8000_0000_0000_0000int + 0x8000_0000_0000_0000int,
                0x8000_0000,
            );
            lemma_product_bound(d as int, range as int, 0x8000_0000_0000_0000, 0x1_0000_0000);
            assert(d * range != 0) by (nonlinear_arith)
                requires
                    d > 0,
                    range != 0,
            ;
        }
        trunc_div_wide(a * tw, d * range)
    }
}

/// Computes `value_at` for a box that is on its track.
fn value_of(min: i32, max: i32, offset: i64, span: i64) -> (r: Fraction)
    requires
        span > 0 ==> 0 <= offset <= span <= 0xffff_ffff,
    ensures
        r == value_at(min, max, offset as int, span as int),
        r.valid(),
{
    if span <= 0 {
        Fraction::from_int(min)
    } else {
        let low: i128 = min as i128;
        let high: i128 = max as i128;
        let o: i128 = offset as i128;
        let s: i128 = span as i128;
        proof {
            lemma_product_bound(low as int, s as int, 0x8000_0000, 0xffff_ffff);
            lemma_product_bound(o as int, (high - low) as int, 0xffff_ffff, 0x1_0000_0000);
            assert(low * s + o * (high - low) == (s - o) * low + o * high) by (nonlinear_arith);
            assert(-0x8000_0000 * (s - o) <= (s - o) * low <= 0x7fff_ffff * (s - o))
                by (nonlinear_arith)
                requires
                    -0x8000_0000 <= low <= 0x7fff_ffff,
                    s - o >= 0,
            ;
            assert(-0x8000_0000 * o <= o * high <= 0x7fff_ffff * o) by (nonlinear_arith)
                requires
                    -0x8000_0000 <= high <= 0x7fff_ffff,
                    o >= 0,
            ;
        }
        let numerator: i128 = low * s + o * (high - low);
        Fraction { numerator: numerator as i64, denominator: span }
    }
}

impl Slider {
    /// Create a new `Slider` with a defined minimum and maximum value. The
    /// initial value is brought into that range first. `width` is the width
    /// of the track; the slider is 120 pixels wider and 50 pixels high.
    pub fn new(min: i32, max: i32, initial_value: Fraction, position: Point, width: i32) -> (s:
        Slider)
        ensures
            s@ == SliderView::created(min, max, initial_value, position, width),
    {
        let value = if initial_value.denominator <= 0 || initial_value.is_below(min) {
            Fraction::from_int(min)
        } else if initial_value.is_above(max) {
            Fraction::from_int(max)
        } else {
            initial_value
        };

        let track_x = saturate_i64(position.0 as i64 + 10);
        let track_y = saturate_i64(position.1 as i64 + 7);
        let mut s = Slider {
            max,
            min,
            value,
            position,
            dimensions: (saturate_i64(width as i64 + 120), 50),
            slider_position: (track_x, track_y),
            slider_dimensions: (width, 35),
            slider_box_dimensions: (30, 35),
            slider_box_position: (track_x, track_y),
            slider_box_colour: state_get_colour(StateColour::Text),
            slider_text_colour: state_get_colour(StateColour::Text),
            slider_background_colour: light_gray(),
            background_colour: state_get_colour(StateColour::Default),
        };

        s.set_position_from_value();

        s
    }

    fn set_position_from_value(&mut self)
        ensures
            final(self)@ == old(self)@.snapped(),
    {
        let offset = offset_of(self.min, self.max, self.value, self.slider_dimensions.0);
        self.slider_box_position = (
            saturate_wide(self.slider_position.0 as i128 + offset),
            self.slider_box_position.1,
        );
    }

    fn update_value(&mut self)
        requires
            old(self)@.slider_dimensions.0 > old(self)@.slider_box_dimensions.0 ==> 0 <= old(
                self,
            )@.slider_box_position.0 - old(self)@.slider_position.0 <= old(
                self,
            )@.slider_dimensions.0 - old(self)@.slider_box_dimensions.0,
        ensures
            final(self)@ == (SliderView {
                value: value_at(
                    old(self)@.min,
                    old(self)@.max,
                    old(self)@.slider_box_position.0 - old(self)@.slider_position.0,
                    old(self)@.slider_dimensions.0 - old(self)@.slider_box_dimensions.0,
                ),
                ..old(self)@
            }),
    {
        let difference: i64 = self.slider_box_position.0 as i64 - self.slider_position.0 as i64;
        let span: i64 = self.slider_dimensions.0 as i64 - self.slider_box_dimensions.0 as i64;

        self.value = value_of(self.min, self.max, difference, span);
    }

    /// Returns the value of the current `Slider`.
    pub fn get_value(&self) -> (v: Fraction)
        ensures
            v == self@.value,
    {
        self.value
    }

    /// Resizes the slider to `new_dimensions` and resizes its track and box
    /// with it. The value stays, and so does the pixel position of the box.
    pub fn resize(&mut self, new_dimensions: Dimensions)
        ensures
            final(self)@ == old(self)@.resized(new_dimensions),
    {
        self.dimensions = new_dimensions;
        self.slider_dimensions = (
            saturate_i64(new_dimensions.0 as i64 - 120),
            saturate_i64(new_dimensions.1 as i64 - 15),
        );
        self.slider_box_dimensions = (
            self.slider_box_dimensions.0,
            saturate_i64(new_dimensions.1 as i64 - 15),
        );
    }

    /// Moves the slider's left edge to `new_x_pos`, and track and box by as
    /// much.
    pub fn move_x(&mut self, new_x_pos: i32)
        ensures
            final(self)@ == old(self)@.moved_x(new_x_pos),
    {
        let shift: i64 = new_x_pos as i64 - self.position.0 as i64;
        self.position = (new_x_pos, self.position.1);
        self.slider_position = (saturate_i64(new_x_pos as i64 + 10), self.slider_position.1);
        self.slider_box_position = (
            saturate_i64(self.slider_box_position.0 as i64 + shift),
            self.slider_box_position.1,
        );
    }

    /// Where the top-left corner is.
    pub fn get_position(&self) -> (p: Point)
        ensures
            p == self@.position,
    {
        self.position
    }

    /// The width and the height.
    pub fn get_dimensions(&self) -> (d: Dimensions)
        ensures
            d == self@.dimensions,
    {
        self.dimensions
    }

    /// Where the box stands.
    pub fn get_box_position(&self) -> (p: Point)
        ensures
            p == self@.slider_box_position,
    {
        self.slider_box_position
    }
}

impl GuiComponentBehaviour<()> for Slider {
    /// Draw `Slider` on the scope, its box in the color that the pointer's
    /// place gives it.
    fn draw(&mut self, draw_handler: &mut DrawHandle)
        ensures
            final(self)@ == old(self)@.hovered(old(draw_handler)@.pointer.position),
            final(draw_handler)@ == old(draw_handler)@.drawn(final(self)@.commands()),
    {
        let mouse_position = (draw_handler.get_mouse_x(), draw_handler.get_mouse_y());
        self.is_hovered(mouse_position);

        draw_handler.draw_rectangle(
            self.position.0,
            self.position.1,
            self.dimensions.0,
            self.dimensions.1,
            self.background_colour,
        );

        draw_handler.draw_number(
            self.value,
            2,
            saturate_i64(self.position.0 as i64 + self.dimensions.0 as i64 - 105),
            saturate_i64(self.position.1 as i64 + 10),
            32,
            self.slider_text_colour,
        );

        draw_handler.draw_rectangle(
            self.slider_position.0,
            self.slider_position.1,
            self.slider_dimensions.0,
            self.slider_dimensions.1,
            self.slider_background_colour,
        );

        draw_handler.draw_rectangle(
            self.slider_box_position.0,
            self.slider_box_position.1,
            self.slider_box_dimensions.0,
            self.slider_box_dimensions.1,
            self.slider_box_colour,
        );
        proof {
            let c = self@.commands();
            let h = old(draw_handler)@;
            lemma_drawn_twice(h, seq![c[0]], seq![c[1]]);
            lemma_drawn_twice(h, seq![c[0]] + seq![c[1]], seq![c[2]]);
            lemma_drawn_twice(h, seq![c[0]] + seq![c[1]] + seq![c[2]], seq![c[3]]);
            assert(seq![c[0]] + seq![c[1]] + seq![c[2]] + seq![c[3]] =~= c);
        }
    }

    /// Checks if the box of the `Slider` is being hovered over.
    fn is_hovered(&mut self, mouse_position: Point) -> (r: bool)
        ensures
            r == old(self)@.hovering(mouse_position),
            final(self)@ == old(self)@.hovered(mouse_position),
    {
        if is_inside(self.slider_box_position, self.slider_box_dimensions, mouse_position) {
            self.slider_box_colour = state_get_colour(StateColour::Hovered);
            true
        } else {
            self.slider_box_colour = state_get_colour(StateColour::Text);
            false
        }
    }

    /// Drags the box to the pointer while `is_clicked`, the button being
    /// held, says so and the pointer is over the slider.
    fn is_clicked(&mut self, mouse_position: Point, is_clicked: bool)
        ensures
            final(self)@ == old(self)@.clicked(mouse_position, is_clicked),
    {
        if (is_inside(self.slider_box_position, self.slider_box_dimensions, mouse_position)
            || is_inside(self.position, self.dimensions, mouse_position)) && is_clicked {
            let half = trunc_div_wide(self.slider_box_dimensions.0 as i128, 2);
            let centred = saturate_wide(mouse_position.0 as i128 - half);
            let track_end: i64 = self.slider_position.0 as i64 + self.slider_dimensions.0 as i64;

            if centred as i64 + self.slider_box_dimensions.0 as i64 > track_end {
                self.slider_box_position = (
                    saturate_i64(track_end - self.slider_box_dimensions.0 as i64),
                    self.slider_box_position.1,
                );
            } else if centred < self.slider_position.0 {
                self.slider_box_position = (self.slider_position.0, self.slider_box_position.1);
            } else {
                self.slider_box_position = (centred, self.slider_box_position.1);
            }

            self.update_value();
        }
    }
}

} // verus!
