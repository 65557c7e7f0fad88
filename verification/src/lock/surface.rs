//! The lock surface of one output.
//!
//! A surface remembers the last event that the compositor sent for it, the
//! size it was told to have, the colour of the session's state and the
//! number of characters typed so far. It paints its frame from these when
//! the display's buffer pool has a free buffer for it.

use vstd::prelude::*;
use vstd::string::StringExecFns;
use crate::lock::canvas::{filled, with_glyphs, with_rect, Canvas, Glyph};

verus! {

/// Colour of the background of every frame.
pub const BACKGROUND: u32 = 0xff00_0000;

/// Colour of the text of every frame.
pub const TEXT_COLOR: u32 = 0xffff_ffff;

/// Distance of the status bar from the left and the right edge.
pub const BAR_INSET: usize = 450;

/// An event that the compositor sent for a surface and that waits to be
/// handled.
#[derive(Clone, Copy, PartialEq, Eq, Structural, Debug)]
pub enum RenderEvent {
    /// The surface is to have this size in pixels.
    Configure { width: u32, height: u32 },
    /// The surface is to be given up.
    Close,
}

/// Why a frame was not painted.
#[derive(Clone, Copy, PartialEq, Eq, Structural, Debug)]
pub enum DrawError {
    /// The display server still holds both buffers of the pool.
    NoFreePool,
    /// The pool's memory could not be brought to the size of the frame.
    Io,
}

impl DrawError {
    /// What the log is told of the error.
    pub open spec fn message_text(self) -> Seq<char> {
        match self {
            DrawError::NoFreePool => "No free shm pool for drawing"@,
            DrawError::Io => "I/O error while drawing"@,
        }
    }

    /// What the log is told of the error.
    pub fn message(&self) -> (out: String)
        ensures
            out@ == self.message_text(),
    {
        match self {
            DrawError::NoFreePool => String::from_str("No free shm pool for drawing"),
            DrawError::Io => String::from_str("I/O error while drawing"),
        }
    }
}

/// What the double-buffered pool answered when a buffer of the frame's
/// size was asked for.
#[derive(Clone, Copy, PartialEq, Eq, Structural, Debug)]
pub enum PoolReply {
    /// The display server still holds both buffers.
    Exhausted,
    /// A buffer is free, but its memory could not be resized.
    ResizeFailed,
    /// A buffer of the size asked for is free.
    Granted,
}

/// What a lock surface holds, as plain values.
pub struct SurfaceState {
    /// The event that waits to be handled, if any.
    pub pending: Option<RenderEvent>,
    /// Width and height in pixels; zero until the first configure.
    pub dimensions: (usize, usize),
    /// The frame no longer shows the surface's state.
    pub redraw: bool,
    /// Colour of the status bar.
    pub color: u32,
    /// Number of password characters entered.
    pub chars_entered: u32,
    /// The frame painted last, row by row.
    pub frame: Seq<u32>,
    /// Width and height of the frame painted last.
    pub frame_dimensions: (usize, usize),
}

/// The slot of pending events after `event` has arrived: a close stays
/// once it is recorded, and anything else gives way to the newer event.
pub open spec fn slot_after(slot: Option<RenderEvent>, event: RenderEvent) -> Option<RenderEvent> {
    if event is Configure && slot == Some(RenderEvent::Close) {
        slot
    } else {
        Some(event)
    }
}

/// The rectangle of the status bar on a frame of the given size, as its
/// top left corner and the corner beyond its bottom right.
pub open spec fn status_bar(width: int, height: int) -> ((int, int), (int, int)) {
    (
        (BAR_INSET as int, height / 2 + 50),
        (
            if width >= BAR_INSET {
                width - BAR_INSET
            } else {
                0
            },
            height / 2 + 60,
        ),
    )
}

/// The frame of a surface: the background, the glyphs of the text
/// composited onto it in the text colour, and over them the status bar in
/// the colour of the session's state.
pub open spec fn rendered(width: int, height: int, glyphs: Seq<Glyph>, color: u32) -> Seq<u32> {
    let bar = status_bar(width, height);
    with_rect(
        with_glyphs(
            filled((width * height) as nat, BACKGROUND),
            width,
            height,
            glyphs,
            TEXT_COLOR,
        ),
        width,
        bar.0,
        bar.1,
        color,
    )
}

/// Number of bytes of a frame of the given size: four for each pixel.
pub open spec fn frame_bytes(width: int, height: int) -> int {
    4 * width * height
}

/// The lock surface of one output.
pub struct LockSurface {
    next_render_event: Option<RenderEvent>,
    dimensions: (usize, usize),
    redraw: bool,
    color: u32,
    chars_entered: u32,
    frame: Vec<u32>,
    frame_dimensions: (usize, usize),
}

impl View for LockSurface {
    type V = SurfaceState;

    closed spec fn view(&self) -> SurfaceState {
        SurfaceState {
            pending: self.next_render_event,
            dimensions: self.dimensions,
            redraw: self.redraw,
            color: self.color,
            chars_entered: self.chars_entered,
            frame: self.frame@,
            frame_dimensions: self.frame_dimensions,
        }
    }
}

impl SurfaceState {
    /// The state of a surface that was just made for a session whose
    /// state has the colour `color`.
    pub open spec fn fresh(color: u32) -> SurfaceState {
        SurfaceState {
            pending: None,
            dimensions: (0, 0),
            redraw: false,
            color,
            chars_entered: 0,
            frame: Seq::empty(),
            frame_dimensions: (0, 0),
        }
    }

    /// The frame has as many pixels as its dimensions say.
    pub open spec fn wf(self) -> bool {
        self.frame.len() == self.frame_dimensions.0 * self.frame_dimensions.1
    }

    /// The state after `handle_events` has taken the pending event.
    pub open spec fn handled(self) -> SurfaceState {
        match self.pending {
            Some(RenderEvent::Configure { width, height }) => SurfaceState {
                pending: None,
                dimensions: (width as usize, height as usize),
                redraw: true,
                ..self
            },
            _ => SurfaceState { pending: None, ..self },
        }
    }

    /// The state after a frame was painted from the glyphs.
    pub open spec fn painted(self, glyphs: Seq<Glyph>) -> SurfaceState {
        SurfaceState {
            redraw: false,
            frame: rendered(
                self.dimensions.0 as int,
                self.dimensions.1 as int,
                glyphs,
                self.color,
            ),
            frame_dimensions: self.dimensions,
            ..self
        }
    }
}

impl LockSurface {
    /// The invariant of a surface: see [`SurfaceState::wf`].
    pub open spec fn wf(&self) -> bool {
        self@.wf()
    }

    /// A surface for a session whose state has the colour `color`. Its
    /// size is unknown until the first configure event is handled.
    pub fn new(color: u32) -> (out: LockSurface)
        ensures
            out@ == SurfaceState::fresh(color),
            out.wf(),
    {
        LockSurface {
            next_render_event: None,
            dimensions: (0, 0),
            redraw: false,
            color,
            chars_entered: 0,
            frame: Vec::new(),
            frame_dimensions: (0, 0),
        }
    }

    /// Records an event of the compositor in the slot of pending events.
    /// A configure event is taken unless a close is pending; the result
    /// says whether it was taken, and so whether it is to be acknowledged.
    /// A close event is always taken.
    pub fn record_event(&mut self, event: RenderEvent) -> (taken: bool)
        ensures
            final(self)@ == (SurfaceState {
                pending: slot_after(old(self)@.pending, event),
                ..old(self)@
            }),
            taken == (slot_after(old(self)@.pending, event) == Some(event)),
    {
        match (event, self.next_render_event) {
            (RenderEvent::Close, _) => {
                self.next_render_event = Some(RenderEvent::Close);
                true
            },
            (RenderEvent::Configure { .. }, Some(RenderEvent::Close)) => false,
            (RenderEvent::Configure { width, height }, _) => {
                self.next_render_event = Some(RenderEvent::Configure { width, height });
                true
            },
        }
    }

    /// Sets the colour of the status bar and asks for a new frame.
    pub fn set_color(&mut self, color: u32)
        ensures
            final(self)@ == (SurfaceState { color, redraw: true, ..old(self)@ }),
    {
        self.color = color;
        self.redraw = true
    }

    /// Sets the number of password characters entered. This alone asks
    /// for no new frame.
    pub fn chars_entered(&mut self, num: u32)
        ensures
            final(self)@ == (SurfaceState { chars_entered: num, ..old(self)@ }),
    {
        self.chars_entered = num;
    }

    /// Asks for a new frame.
    pub fn set_redraw(&mut self)
        ensures
            final(self)@ == (SurfaceState { redraw: true, ..old(self)@ }),
    {
        self.redraw = true
    }

    /// Takes the pending event out of its slot and acts on it. A close
    /// event changes nothing else, and the result is `true`: the surface
    /// is to be destroyed. A configure event sets the dimensions and asks
    /// for a new frame.
    pub fn handle_events(&mut self) -> (destroy: bool)
        ensures
            final(self)@ == old(self)@.handled(),
            destroy == (old(self)@.pending == Some(RenderEvent::Close)),
    {
        match self.next_render_event.take() {
            Some(RenderEvent::Close) => return true,
            Some(RenderEvent::Configure { width, height }) => {
                self.dimensions = (width as usize, height as usize);
                self.redraw = true;
            },
            None => {},
        }
        false
    }

    /// Whether a new frame was asked for and has not been painted yet.
    pub fn needs_redraw(&self) -> (yes: bool)
        ensures
            yes == self@.redraw,
    {
        self.redraw
    }

    /// Width and height in pixels.
    pub fn dimensions(&self) -> (d: (usize, usize))
        ensures
            d == self@.dimensions,
    {
        self.dimensions
    }

    /// Colour of the status bar.
    pub fn color(&self) -> (c: u32)
        ensures
            c == self@.color,
    {
        self.color
    }

    /// The event that waits to be handled, if any.
    pub fn pending(&self) -> (e: Option<RenderEvent>)
        ensures
            e == self@.pending,
    {
        self.next_render_event
    }

    /// Number of password characters entered.
    pub fn entered(&self) -> (n: u32)
        ensures
            n == self@.chars_entered,
    {
        self.chars_entered
    }

    /// The frame painted last, row by row, with its width and height.
    pub fn frame(&self) -> (out: (&Vec<u32>, (usize, usize)))
        ensures
            out.0@ == self@.frame,
            out.1 == self@.frame_dimensions,
    {
        (&self.frame, self.frame_dimensions)
    }

    /// Number of bytes in a row of the frame: four for each pixel. `None`
    /// where the number does not fit the machine word.
    pub fn stride(&self) -> (out: Option<usize>)
        ensures
            out is Some <==> 4 * self@.dimensions.0 <= usize::MAX,
            out is Some ==> out->0 == 4 * self@.dimensions.0,
    {
        self.dimensions.0.checked_mul(4)
    }

    /// Number of bytes that the pool's memory must have for a frame of
    /// the surface's dimensions: stride times height. `None` where the
    /// number does not fit the machine word.
    pub fn frame_size(&self) -> (out: Option<usize>)
        ensures
            out is Some <==> frame_bytes(self@.dimensions.0 as int, self@.dimensions.1 as int)
                <= usize::MAX,
            out is Some ==> out->0 == frame_bytes(
                self@.dimensions.0 as int,
                self@.dimensions.1 as int,
            ),
    {
        let (width, height) = self.dimensions;
        match width.checked_mul(height) {
            Some(pixels) => {
                assert(4 * width * height == 4 * (width * height)) by (nonlinear_arith);
                pixels.checked_mul(4)
            },
            None => {
                assert(4 * width * height >= width * height) by (nonlinear_arith);
                None
            },
        }
    }

    /// Paints a new frame with the glyphs of the text and the status bar
    /// in the surface's colour, given what the pool answered.
    ///
    /// With both buffers held by the display server the result is
    /// `NoFreePool`; where the pool's memory could not be resized, or a
    /// frame of the surface's dimensions has more bytes than fit the
    /// machine word, it is `Io`. In both cases nothing changes: the frame
    /// painted last stays as it is, and a new frame is still asked for.
    pub fn redraw(&mut self, pool: PoolReply, glyphs: &Vec<Glyph>) -> (out: Result<(), DrawError>)
        requires
            old(self).wf(),
        ensures
            final(self).wf(),
            out == redraw_result(old(self)@, pool),
            out is Ok ==> final(self)@ == old(self)@.painted(glyphs@),
            out is Err ==> final(self)@ == old(self)@,
    {
        match pool {
            PoolReply::Exhausted => return Err(DrawError::NoFreePool),
            PoolReply::ResizeFailed => return Err(DrawError::Io),
            PoolReply::Granted => {},
        }
        let (width, height) = self.dimensions;
        let len = match self.frame_size() {
            Some(bytes) => {
                assert(4 * width * height == 4 * (width * height)) by (nonlinear_arith);
                bytes / 4
            },
            None => return Err(DrawError::Io),
        };
        let mut pixels: Vec<u32> = Vec::new();
        pixels.resize(len, BACKGROUND);
        match Canvas::new(pixels, width, height, BACKGROUND) {
            Some(mut canvas) => {
                canvas.fill();
                canvas.set_color(TEXT_COLOR);
                canvas.draw_layout(glyphs);
                canvas.set_color(self.color);
                let to_x = if width >= BAR_INSET { width - BAR_INSET } else { 0 };
                canvas.draw_square((BAR_INSET, height / 2 + 50), (to_x, height / 2 + 60));
                self.frame = canvas.into_pixels();
                self.frame_dimensions = (width, height);
                self.redraw = false;
                Ok(())
            },
            None => Err(DrawError::Io),
        }
    }
}

/// The result of `redraw` on a surface in state `s`, given the pool's
/// answer.
pub open spec fn redraw_result(s: SurfaceState, pool: PoolReply) -> Result<(), DrawError> {
    match pool {
        PoolReply::Exhausted => Err(DrawError::NoFreePool),
        PoolReply::ResizeFailed => Err(DrawError::Io),
        PoolReply::Granted => if frame_bytes(s.dimensions.0 as int, s.dimensions.1 as int)
            <= usize::MAX {
            Ok(())
        } else {
            Err(DrawError::Io)
        },
    }
}

} // verus!
