use vstd::prelude::*;

use crate::canvas::{Canvas, Raster};
use crate::color::{Colour, Rgb};

verus! {

/// Radius of full strength of the blend that a press paints.
pub const BLEND_RADIUS: u32 = 16;

/// Side of the brush square that a drag paints.
pub const BRUSH_SIZE: u32 = 5;

/// What the user did, in canvas-local pixel coordinates.
#[derive(Clone, Copy, Debug, PartialEq, Eq, Structural)]
pub enum Message {
    Quit,
    ImageEvent,
    /// Background set to white.
    WBev,
    /// Background set to black.
    BBev,
    /// Background set to grey.
    GBev,
    /// Background set to light grey.
    LGBev,
    MouseDown(i32, i32),
    MouseDrag(i32, i32),
    MouseMove(i32, i32),
}

/// What the surrounding window has to do after a message.
#[derive(Clone, Copy, Debug, PartialEq, Eq, Structural)]
pub enum Effect {
    /// Leave the event loop.
    Quit,
    /// Show the canvas again: its pixels changed.
    Redraw,
    /// Nothing changed.
    Ignore,
}

impl Message {
    /// The background preset that the message selects, if any.
    pub open spec fn background(self) -> Option<Colour> {
        match self {
            Message::WBev => Some(Colour::White),
            Message::BBev => Some(Colour::Black),
            Message::GBev => Some(Colour::Grey),
            Message::LGBev => Some(Colour::LightGrey),
            _ => None,
        }
    }
}

/// `after` is a raster of the same size as `before` with every pixel `color`.
pub open spec fn refilled(before: Raster, after: Raster, color: Rgb) -> bool {
    &&& after.wf()
    &&& before.same_size(after)
    &&& forall|x: int, y: int| before.in_bounds(x, y) ==> #[trigger] after.pixel(x, y) == color
}

/// The step that message `msg` takes the canvas from `before` to `after`
/// with effect `e`, painting with `brush` where it paints.
pub open spec fn applied(before: Raster, after: Raster, msg: Message, brush: Rgb, e: Effect) -> bool {
    match msg {
        Message::Quit => e == Effect::Quit && after == before,
        Message::ImageEvent | Message::MouseMove(_, _) => e == Effect::Ignore && after == before,
        Message::MouseDown(x, y) => e == Effect::Redraw && before.blended(
            after,
            x as int,
            y as int,
            BLEND_RADIUS as int,
            brush,
        ),
        Message::MouseDrag(x, y) => e == Effect::Redraw && before.stamped(
            after,
            x as int,
            y as int,
            BRUSH_SIZE as int,
            brush,
        ),
        _ => e == Effect::Redraw && refilled(before, after, msg.background().unwrap().spec_rgb()),
    }
}

impl Canvas {
    /// Carries out `msg`, painting with `brush` where it paints: a press
    /// blends, a drag stamps, a background message refills the canvas.
    pub fn apply(&mut self, msg: Message, brush: Rgb) -> (e: Effect)
        requires
            old(self)@.wf(),
        ensures
            final(self)@.wf(),
            applied(old(self)@, final(self)@, msg, brush, e),
    {
        let colour = match msg {
            Message::Quit => {
                return Effect::Quit;
            },
            Message::ImageEvent | Message::MouseMove(_, _) => {
                return Effect::Ignore;
            },
            Message::MouseDown(x, y) => {
                self.radial_blend(x, y, BLEND_RADIUS, brush);
                return Effect::Redraw;
            },
            Message::MouseDrag(x, y) => {
                self.stamp(x, y, BRUSH_SIZE, brush);
                return Effect::Redraw;
            },
            Message::WBev => Colour::White,
            Message::BBev => Colour::Black,
            Message::GBev => Colour::Grey,
            Message::LGBev => Colour::LightGrey,
        };
        match Canvas::fill(self.width(), self.height(), colour.rgb()) {
            Ok(c) => {
                *self = c;
            },
            Err(_) => {
                assert(false);
            },
        }
        Effect::Redraw
    }

    /// Carries out `msg` with a brush color drawn at random.
    pub fn handle(&mut self, msg: Message) -> (e: Effect)
        requires
            old(self)@.wf(),
        ensures
            final(self)@.wf(),
            exists|brush: Rgb| applied(old(self)@, final(self)@, msg, brush, e),
    {
        let brush = Rgb::random();
        self.apply(msg, brush)
    }
}

} // verus!
