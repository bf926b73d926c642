use vstd::prelude::*;
use crate::fraction::Fraction;
use crate::types::{Colour, Point, Pointer};

verus! {

/// One primitive of the renderer, with everything it needs to be carried out.
#[derive(PartialEq, Eq, Debug)]
pub enum DrawCommand {
    /// Fill the whole surface.
    Clear { colour: Colour },
    /// A filled rectangle.
    Rectangle { x: i32, y: i32, width: i32, height: i32, colour: Colour },
    /// A line of text whose top-left corner is at `(x, y)`.
    Text { text: String, x: i32, y: i32, font_size: i32, colour: Colour },
    /// A number, written with `decimals` digits after the point.
    Number { value: Fraction, decimals: u8, x: i32, y: i32, font_size: i32, colour: Colour },
    /// A straight line from `(x1, y1)` to `(x2, y2)`; `thickness_tenths` is ten times its thickness in pixels.
    Line { x1: i32, y1: i32, x2: i32, y2: i32, thickness_tenths: i32, colour: Colour },
    /// Content of the application's own, known to it by `id`.
    External { id: usize },
}

/// A `DrawCommand` as a mathematical value.
pub enum DrawCommandView {
    Clear { colour: Colour },
    Rectangle { x: i32, y: i32, width: i32, height: i32, colour: Colour },
    Text { text: Seq<char>, x: i32, y: i32, font_size: i32, colour: Colour },
    Number { value: Fraction, decimals: u8, x: i32, y: i32, font_size: i32, colour: Colour },
    Line { x1: i32, y1: i32, x2: i32, y2: i32, thickness_tenths: i32, colour: Colour },
    External { id: usize },
}

impl View for DrawCommand {
    type V = DrawCommandView;

    open spec fn view(&self) -> DrawCommandView {
        match *self {
            DrawCommand::Clear { colour } => DrawCommandView::Clear { colour },
            DrawCommand::Rectangle { x, y, width, height, colour } => DrawCommandView::Rectangle {
                x,
                y,
                width,
                height,
                colour,
            },
            DrawCommand::Text { text, x, y, font_size, colour } => DrawCommandView::Text {
                text: text@,
                x,
                y,
                font_size,
                colour,
            },
            DrawCommand::Number { value, decimals, x, y, font_size, colour } =>
                DrawCommandView::Number { value, decimals, x, y, font_size, colour },
            DrawCommand::Line { x1, y1, x2, y2, thickness_tenths, colour } =>
                DrawCommandView::Line { x1, y1, x2, y2, thickness_tenths, colour },
            DrawCommand::External { id } => DrawCommandView::External { id },
        }
    }
}

/// The commands of `s`, each as a mathematical value.
pub open spec fn command_views(s: Seq<DrawCommand>) -> Seq<DrawCommandView> {
    Seq::new(s.len(), |i: int| s[i]@)
}

/// The drawing scope of one frame: what the pointer reports and the
/// commands queued so far, in the order in which they are to be painted.
///
/// A scope is open until `release` hands its commands to the renderer. From
/// then on it is released for good, and whatever is drawn on it is dropped.
pub struct DrawHandle {
    pointer: Pointer,
    commands: Vec<DrawCommand>,
    released: bool,
}

/// A `DrawHandle` as a mathematical value.
#[verifier::ext_equal]
pub struct DrawHandleView {
    pub pointer: Pointer,
    pub commands: Seq<DrawCommandView>,
    pub released: bool,
}

impl DrawHandleView {
    /// The scope after `commands` were drawn on it: they follow what was
    /// queued, unless the scope is released, which then stays as it is.
    pub open spec fn drawn(self, commands: Seq<DrawCommandView>) -> DrawHandleView {
        if self.released {
            self
        } else {
            DrawHandleView { commands: self.commands + commands, ..self }
        }
    }
}

/// Drawing in two steps is drawing all of it in one.
pub proof fn lemma_drawn_twice(h: DrawHandleView, a: Seq<DrawCommandView>, b: Seq<DrawCommandView>)
    ensures
        h.drawn(a).drawn(b) == h.drawn(a + b),
{
    assert((h.commands + a) + b =~= h.commands + (a + b));
}

/// Drawing nothing changes nothing.
pub proof fn lemma_drawn_nothing(h: DrawHandleView)
    ensures
        h.drawn(Seq::empty()) == h,
{
    assert(h.commands + Seq::<DrawCommandView>::empty() =~= h.commands);
}

impl View for DrawHandle {
    type V = DrawHandleView;

    closed spec fn view(&self) -> DrawHandleView {
        DrawHandleView {
            pointer: self.pointer,
            commands: command_views(self.commands@),
            released: self.released,
        }
    }
}

impl DrawHandle {
    /// Opens the scope of a frame in which the pointer reports `pointer`.
    pub fn begin(pointer: Pointer) -> (h: DrawHandle)
        ensures
            h@ == (DrawHandleView { pointer, commands: Seq::empty(), released: false }),
    {
        let h = DrawHandle { pointer, commands: Vec::new(), released: false };
        assert(h@.commands =~= Seq::empty());
        h
    }

    /// What the pointer reports for this frame.
    pub fn pointer(&self) -> (p: Pointer)
        ensures
            p == self@.pointer,
    {
        self.pointer
    }

    /// The pointer's `x`.
    pub fn get_mouse_x(&self) -> (x: i32)
        ensures
            x == self@.pointer.position.0,
    {
        self.pointer.position.0
    }

    /// The pointer's `y`.
    pub fn get_mouse_y(&self) -> (y: i32)
        ensures
            y == self@.pointer.position.1,
    {
        self.pointer.position.1
    }

    /// Whether the primary button went down during this frame.
    pub fn is_mouse_button_pressed(&self) -> (b: bool)
        ensures
            b == self@.pointer.pressed,
    {
        self.pointer.pressed
    }

    /// Whether the primary button is down.
    pub fn is_mouse_button_down(&self) -> (b: bool)
        ensures
            b == self@.pointer.held,
    {
        self.pointer.held
    }

    /// Whether the scope was handed back.
    pub fn is_released(&self) -> (b: bool)
        ensures
            b == self@.released,
    {
        self.released
    }

    /// The commands queued so far.
    pub fn commands(&self) -> (c: &Vec<DrawCommand>)
        ensures
            command_views(c@) == self@.commands,
    {
        &self.commands
    }

    /// Queues `command` behind the others; drops it if the scope is released.
    pub fn push(&mut self, command: DrawCommand)
        ensures
            final(self)@ == old(self)@.drawn(seq![command@]),
    {
        if !self.released {
            self.commands.push(command);
            assert(command_views(self.commands@) =~= command_views(old(self).commands@) + seq![
                command@,
            ]);
        }
    }

    /// Queues the clearing of the whole surface with `colour`.
    pub fn clear_background(&mut self, colour: Colour)
        ensures
            final(self)@ == old(self)@.drawn(seq![DrawCommandView::Clear { colour }]),
    {
        self.push(DrawCommand::Clear { colour });
    }

    /// Queues a filled rectangle.
    pub fn draw_rectangle(&mut self, x: i32, y: i32, width: i32, height: i32, colour: Colour)
        ensures
            final(self)@ == old(self)@.drawn(
                seq![DrawCommandView::Rectangle { x, y, width, height, colour }],
            ),
    {
        self.push(DrawCommand::Rectangle { x, y, width, height, colour });
    }

    /// Queues a line of text.
    pub fn draw_text(&mut self, text: &str, x: i32, y: i32, font_size: i32, colour: Colour)
        ensures
            final(self)@ == old(self)@.drawn(
                seq![DrawCommandView::Text { text: text@, x, y, font_size, colour }],
            ),
    {
        self.push(DrawCommand::Text { text: text.to_string(), x, y, font_size, colour });
    }

    /// Queues a number, to be written with `decimals` digits after the point.
    pub fn draw_number(
        &mut self,
        value: Fraction,
        decimals: u8,
        x: i32,
        y: i32,
        font_size: i32,
        colour: Colour,
    )
        ensures
            final(self)@ == old(self)@.drawn(
                seq![DrawCommandView::Number { value, decimals, x, y, font_size, colour }],
            ),
    {
        self.push(DrawCommand::Number { value, decimals, x, y, font_size, colour });
    }

    /// Queues a straight line whose thickness is a tenth of `thickness_tenths`
    /// pixels.
    pub fn draw_line_ex(&mut self, start: Point, end: Point, thickness_tenths: i32, colour: Colour)
        ensures
            final(self)@ == old(self)@.drawn(
                seq![
                    DrawCommandView::Line {
                        x1: start.0,
                        y1: start.1,
                        x2: end.0,
                        y2: end.1,
                        thickness_tenths,
                        colour,
                    },
                ],
            ),
    {
        self.push(
            DrawCommand::Line {
                x1: start.0,
                y1: start.1,
                x2: end.0,
                y2: end.1,
                thickness_tenths,
                colour,
            },
        );
    }

    /// Queues the content that the application knows by `id`.
    pub fn draw_external(&mut self, id: usize)
        ensures
            final(self)@ == old(self)@.drawn(seq![DrawCommandView::External { id }]),
    {
        self.push(DrawCommand::External { id });
    }

    /// Queues all that was drawn on `layer` behind what is queued here.
    pub fn absorb(&mut self, layer: DrawHandle)
        ensures
            final(self)@ == old(self)@.drawn(layer@.commands),
    {
        if !self.released {
            let mut layer = layer;
            let ghost added = layer.commands@;
            self.commands.append(&mut layer.commands);
            assert(command_views(self.commands@) =~= command_views(old(self).commands@)
                + command_views(added));
        }
    }

    /// Hands the queued commands to the caller and closes the scope for good.
    pub fn release(&mut self) -> (commands: Vec<DrawCommand>)
        ensures
            command_views(commands@) == old(self)@.commands,
            final(self)@ == (DrawHandleView {
                pointer: old(self)@.pointer,
                commands: Seq::empty(),
                released: true,
            }),
    {
        let mut out: Vec<DrawCommand> = Vec::new();
        out.append(&mut self.commands);
        self.released = true;
        assert(out@ =~= old(self).commands@);
        assert(self@.commands =~= Seq::empty());
        out
    }
}

} // verus!
