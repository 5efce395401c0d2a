//! The decisions of the panel's main loop: counting encoder steps, driving
//! the status LED, and deciding when to redraw the screen and what it shows.

use vstd::prelude::*;
use crate::encoder::Rot;
use crate::format::{decimal_text, format_number};

verus! {

/// The screen is redrawn at most about five times a second: only while the
/// time (ms) modulo `REDRAW_PERIOD_MS` is below `REDRAW_WINDOW_MS`.
pub const REDRAW_PERIOD_MS: u64 = 200;

/// See `REDRAW_PERIOD_MS`.
pub const REDRAW_WINDOW_MS: u64 = 20;

/// Horizontal position of the first switch dot on the screen.
pub const FIRST_DOT_X: i32 = 20;

/// Horizontal distance between two switch dots.
pub const DOT_SPACING: i32 = 26;

/// Vertical position of the switch dots.
pub const DOT_Y: i32 = 35;

/// A colour in the 5-6-5 bit RGB format of the LCD.
#[derive(Clone, Copy, PartialEq, Eq, Structural, Debug)]
pub struct Color {
    pub r: u8,
    pub g: u8,
    pub b: u8,
}

impl Color {
    /// The components fit in 5, 6 and 5 bits.
    pub open spec fn wf(self) -> bool {
        self.r < 32 && self.g < 64 && self.b < 32
    }

    /// Black.
    pub fn black() -> (c: Color)
        ensures
            c == (Color { r: 0, g: 0, b: 0 }),
    {
        Color { r: 0, g: 0, b: 0 }
    }

    /// Full green.
    pub fn green() -> (c: Color)
        ensures
            c == (Color { r: 0, g: 63, b: 0 }),
    {
        Color { r: 0, g: 63, b: 0 }
    }

    /// White.
    pub fn white() -> (c: Color)
        ensures
            c == (Color { r: 31, g: 63, b: 31 }),
    {
        Color { r: 31, g: 63, b: 31 }
    }

    /// The dim gray of a released switch's dot.
    pub fn dim_gray() -> (c: Color)
        ensures
            c == (Color { r: 15, g: 30, b: 15 }),
    {
        Color { r: 15, g: 30, b: 15 }
    }
}

/// The colour of a switch's dot: green while pressed, dim gray otherwise.
pub open spec fn dot_color_spec(pressed: bool) -> Color {
    if pressed {
        Color { r: 0, g: 63, b: 0 }
    } else {
        Color { r: 15, g: 30, b: 15 }
    }
}

/// The colour of a switch's dot: green while pressed, dim gray otherwise.
pub fn dot_color(pressed: bool) -> (c: Color)
    ensures
        c == dot_color_spec(pressed),
        c.wf(),
{
    if pressed {
        Color::green()
    } else {
        Color::dim_gray()
    }
}

/// Horizontal position of the dot of the switch at panel position `index`.
pub fn dot_x(index: usize) -> (x: i32)
    requires
        index < 8,
    ensures
        x == FIRST_DOT_X + DOT_SPACING * index,
{
    FIRST_DOT_X + DOT_SPACING * (index as i32)
}

/// One drawing operation on the LCD.
pub enum DrawOp<'a> {
    /// Fill the whole screen.
    Clear { color: Color },
    /// Text in the 6x10 font, starting at (`x`, `y`): the left end of its
    /// baseline.
    Text { text: &'a str, x: i32, y: i32, color: Color },
    /// A filled circle of diameter 12 with its bounding box at (`x`, `y`).
    Dot { x: i32, y: i32, color: Color },
}

/// `op` draws `text` at (`x`, `y`) in `color`.
pub open spec fn is_text_op(op: DrawOp, text: Seq<char>, x: int, y: int, color: Color) -> bool {
    &&& op matches DrawOp::Text { text: t, x: tx, y: ty, color: c }
    &&& t@ == text
    &&& tx == x
    &&& ty == y
    &&& c == color
}

/// Everything the status screen shows, in drawing order: a black background,
/// the green title, one dot per switch (green while pressed), the "ENC:"
/// label and the encoder count in white. The count's text is written at the
/// end of `buffer`, and the bytes in front of it are left as they were.
pub fn screen<'a>(count: i32, pressed: [bool; 8], buffer: &'a mut [u8; 8]) -> (ops: Vec<DrawOp<'a>>)
    requires
        -9_999_999 <= count <= 99_999_999,
    ensures
        ops.len() == 12,
        ops[0] == (DrawOp::Clear { color: Color { r: 0, g: 0, b: 0 } }),
        is_text_op(ops[1], "RP2040 PANEL"@, 10, 10, Color { r: 0, g: 63, b: 0 }),
        forall|i: int|
            0 <= i < 8 ==> ops[2 + i] == (DrawOp::Dot {
                x: (FIRST_DOT_X + DOT_SPACING * i) as i32,
                y: DOT_Y,
                color: dot_color_spec(pressed[i]),
            }),
        is_text_op(ops[10], "ENC:"@, 10, 65, Color { r: 31, g: 63, b: 31 }),
        is_text_op(ops[11], decimal_text(count as int), 55, 65, Color { r: 31, g: 63, b: 31 }),
        forall|k: int|
            0 <= k < decimal_text(count as int).len() ==> final(buffer)@[8 - decimal_text(
                count as int,
            ).len() + k] == decimal_text(count as int)[k] as u8,
        forall|k: int|
            0 <= k < 8 - decimal_text(count as int).len() ==> final(buffer)@[k] == old(buffer)@[k],
{
    let mut ops: Vec<DrawOp<'a>> = Vec::new();
    ops.push(DrawOp::Clear { color: Color::black() });
    ops.push(DrawOp::Text { text: "RP2040 PANEL", x: 10, y: 10, color: Color::green() });
    let mut i: usize = 0;
    while i < 8
        invariant
            0 <= i <= 8,
            ops.len() == 2 + i,
            ops[0] == (DrawOp::Clear { color: Color { r: 0, g: 0, b: 0 } }),
            is_text_op(ops[1], "RP2040 PANEL"@, 10, 10, Color { r: 0, g: 63, b: 0 }),
            forall|k: int|
                0 <= k < i ==> ops[2 + k] == (DrawOp::Dot {
                    x: (FIRST_DOT_X + DOT_SPACING * k) as i32,
                    y: DOT_Y,
                    color: dot_color_spec(pressed[k]),
                }),
        decreases 8 - i,
    {
        ops.push(DrawOp::Dot { x: dot_x(i), y: DOT_Y, color: dot_color(pressed[i]) });
        i = i + 1;
    }
    ops.push(DrawOp::Text { text: "ENC:", x: 10, y: 65, color: Color::white() });
    let number = format_number(count, buffer);
    ops.push(DrawOp::Text { text: number, x: 55, y: 65, color: Color::white() });
    ops
}

/// Milliseconds from the microsecond ticks of the hardware timer.
pub fn millis_from_ticks(ticks_us: u64) -> (ms: u64)
    ensures
        ms == ticks_us / 1000,
{
    ticks_us / 1000
}

/// Whether any of the eight switches is pressed.
pub open spec fn any_pressed_spec(pressed: [bool; 8]) -> bool {
    exists|i: int| 0 <= i < 8 && pressed[i]
}

/// Whether any of the eight switches is pressed.
pub fn any_pressed(pressed: [bool; 8]) -> (any: bool)
    ensures
        any == any_pressed_spec(pressed),
{
    let mut any = false;
    let mut i: usize = 0;
    while i < 8
        invariant
            0 <= i <= 8,
            any == (exists|j: int| 0 <= j < i && pressed[j]),
        decreases 8 - i,
    {
        if pressed[i] {
            any = true;
        }
        i = i + 1;
    }
    any
}

/// The state the main loop keeps between iterations: the encoder count, and
/// the count and "any switch pressed" flag that the screen currently shows.
#[derive(Clone, Copy, PartialEq, Eq, Structural, Debug)]
pub struct Panel {
    pub encoder_count: i32,
    pub displayed_count: i32,
    pub displayed_any_pressed: bool,
}

/// What the main loop does after one update.
#[derive(Clone, Copy, PartialEq, Eq, Structural, Debug)]
pub struct Tick {
    /// The status LED is lit.
    pub led_on: bool,
    /// The screen is redrawn with the new count and switch states.
    pub redraw: bool,
}

/// An encoder movement that keeps the count within `i32`.
pub open spec fn rotation_in_range(count: i32, rot: Rot) -> bool {
    i32::MIN <= count + rot.delta() <= i32::MAX
}

/// Whether the screen is redrawn: only when the count or the "any pressed"
/// flag differs from what it shows, and only inside the redraw window.
pub open spec fn redraw_due(p: Panel, now_ms: u64, count: int, any: bool) -> bool {
    (count != p.displayed_count || any != p.displayed_any_pressed) && now_ms % REDRAW_PERIOD_MS
        < REDRAW_WINDOW_MS
}

/// The loop state after one update at `now_ms` with encoder movement `rot`
/// and debounced switch states `pressed`.
pub open spec fn next_panel(p: Panel, now_ms: u64, rot: Rot, pressed: [bool; 8]) -> Panel {
    let count = p.encoder_count + rot.delta();
    let any = any_pressed_spec(pressed);
    if redraw_due(p, now_ms, count, any) {
        Panel { encoder_count: count as i32, displayed_count: count as i32, displayed_any_pressed: any }
    } else {
        Panel { encoder_count: count as i32, ..p }
    }
}

impl Panel {
    /// Count 0, and a screen that shows nothing yet (so the first update in a
    /// redraw window draws it).
    pub fn new() -> (p: Panel)
        ensures
            p == (Panel { encoder_count: 0, displayed_count: i32::MIN, displayed_any_pressed: false }),
    {
        Panel { encoder_count: 0, displayed_count: i32::MIN, displayed_any_pressed: false }
    }

    /// One iteration of the main loop at time `now_ms`, after the encoder
    /// reported `rot` and the switches were debounced to `pressed`
    /// (in panel order).
    pub fn step(&mut self, now_ms: u64, rot: Rot, pressed: [bool; 8]) -> (t: Tick)
        requires
            rotation_in_range(old(self).encoder_count, rot),
        ensures
            *final(self) == next_panel(*old(self), now_ms, rot, pressed),
            t.led_on == any_pressed_spec(pressed),
            t.redraw == redraw_due(
                *old(self),
                now_ms,
                old(self).encoder_count + rot.delta(),
                any_pressed_spec(pressed),
            ),
            final(self).encoder_count == old(self).encoder_count + rot.delta(),
            !t.redraw ==> final(self).displayed_count == old(self).displayed_count
                && final(self).displayed_any_pressed == old(self).displayed_any_pressed,
            t.redraw ==> final(self).displayed_count == final(self).encoder_count
                && final(self).displayed_any_pressed == t.led_on,
    {
        match rot {
            Rot::Cw => self.encoder_count = self.encoder_count + 1,
            Rot::Ccw => self.encoder_count = self.encoder_count - 1,
            Rot::Idle => {},
        }

        let any = any_pressed(pressed);

        // only redraw about 5 times a second, and only if something changed
        let display_changed = self.encoder_count != self.displayed_count || any
            != self.displayed_any_pressed;
        let redraw = display_changed && now_ms % REDRAW_PERIOD_MS < REDRAW_WINDOW_MS;
        if redraw {
            self.displayed_count = self.encoder_count;
            self.displayed_any_pressed = any;
        }
        Tick { led_on: any, redraw }
    }
}

/// The screen's record of what it shows changes only when it is redrawn: an
/// update that does not redraw leaves the shown count and switch flag as they
/// were, and an update that redraws records exactly the new count and flag.
/// The count itself always moves by the encoder step.
pub proof fn lemma_screen_changes_only_on_redraw(
    p: Panel,
    now_ms: u64,
    rot: Rot,
    pressed: [bool; 8],
)
    requires
        rotation_in_range(p.encoder_count, rot),
    ensures
        next_panel(p, now_ms, rot, pressed).encoder_count == p.encoder_count + rot.delta(),
        !redraw_due(p, now_ms, p.encoder_count + rot.delta(), any_pressed_spec(pressed)) ==> {
            &&& next_panel(p, now_ms, rot, pressed).displayed_count == p.displayed_count
            &&& next_panel(p, now_ms, rot, pressed).displayed_any_pressed
                == p.displayed_any_pressed
        },
        redraw_due(p, now_ms, p.encoder_count + rot.delta(), any_pressed_spec(pressed)) ==> {
            &&& next_panel(p, now_ms, rot, pressed).displayed_count == p.encoder_count
                + rot.delta()
            &&& next_panel(p, now_ms, rot, pressed).displayed_any_pressed == any_pressed_spec(
                pressed,
            )
        },
        next_panel(p, now_ms, rot, pressed).displayed_count == p.displayed_count
            || next_panel(p, now_ms, rot, pressed).displayed_count == p.encoder_count
            + rot.delta(),
{
}

/// A clockwise step followed by a counter-clockwise one (or the other way
/// round) leaves the encoder count where it was.
pub proof fn lemma_rotation_undone(
    p: Panel,
    t1: u64,
    t2: u64,
    pressed1: [bool; 8],
    pressed2: [bool; 8],
    first: Rot,
    second: Rot,
)
    requires
        rotation_in_range(p.encoder_count, first),
        first.delta() + second.delta() == 0,
    ensures
        rotation_in_range(next_panel(p, t1, first, pressed1).encoder_count, second),
        next_panel(next_panel(p, t1, first, pressed1), t2, second, pressed2).encoder_count
            == p.encoder_count,
{
}

/// After a redraw the screen shows the current count and switch flag.
pub proof fn lemma_redraw_shows_current(p: Panel, now_ms: u64, rot: Rot, pressed: [bool; 8])
    requires
        rotation_in_range(p.encoder_count, rot),
        redraw_due(p, now_ms, p.encoder_count + rot.delta(), any_pressed_spec(pressed)),
    ensures
        next_panel(p, now_ms, rot, pressed).displayed_count == next_panel(
            p,
            now_ms,
            rot,
            pressed,
        ).encoder_count,
        next_panel(p, now_ms, rot, pressed).displayed_any_pressed == any_pressed_spec(pressed),
{
}

/// While nothing changes, the screen is never redrawn: once it shows the
/// current count and switch flag, an update without encoder movement and with
/// the same switch flag leaves the loop state as it is and draws nothing.
pub proof fn lemma_unchanged_not_redrawn(p: Panel, now_ms: u64, pressed: [bool; 8])
    requires
        p.displayed_count == p.encoder_count,
        p.displayed_any_pressed == any_pressed_spec(pressed),
    ensures
        !redraw_due(p, now_ms, p.encoder_count + Rot::Idle.delta(), any_pressed_spec(pressed)),
        next_panel(p, now_ms, Rot::Idle, pressed) == p,
{
}

/// A change that the screen does not show yet is drawn by the first update
/// that falls into a redraw window.
pub proof fn lemma_change_drawn_in_window(p: Panel, now_ms: u64, rot: Rot, pressed: [bool; 8])
    requires
        rotation_in_range(p.encoder_count, rot),
        p.encoder_count + rot.delta() != p.displayed_count || any_pressed_spec(pressed)
            != p.displayed_any_pressed,
        now_ms % REDRAW_PERIOD_MS < REDRAW_WINDOW_MS,
    ensures
        redraw_due(p, now_ms, p.encoder_count + rot.delta(), any_pressed_spec(pressed)),
        next_panel(p, now_ms, rot, pressed).displayed_count == p.encoder_count + rot.delta(),
{
}

/// Outside the redraw windows the screen is never redrawn, and what it shows
/// stays as it was.
pub proof fn lemma_no_redraw_outside_window(p: Panel, now_ms: u64, rot: Rot, pressed: [bool; 8])
    requires
        rotation_in_range(p.encoder_count, rot),
        now_ms % REDRAW_PERIOD_MS >= REDRAW_WINDOW_MS,
    ensures
        !redraw_due(p, now_ms, p.encoder_count + rot.delta(), any_pressed_spec(pressed)),
        next_panel(p, now_ms, rot, pressed).displayed_count == p.displayed_count,
        next_panel(p, now_ms, rot, pressed).displayed_any_pressed == p.displayed_any_pressed,
{
}

} // verus!
