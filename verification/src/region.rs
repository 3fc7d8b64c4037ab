//! Interactive screen regions: a rectangle with display text, an
//! enabled/disabled flag, and a per-region debounce stopwatch that
//! absorbs duplicate or jittery contact events.

use vstd::prelude::*;

use crate::draw::{clear_canvas_partly, draw_text, is_clear_part, is_text, DrawCmd};
use crate::elapsed::Elapsed;
use crate::pointer::Coords;

verus! {

/// Milliseconds a region ignores further gestures after an accepted
/// collision check.
pub const DEBOUNCE_MS: u64 = 200;

/// A rectangular, debounced, hit-testable control.
pub struct BoundingBoxTextInteractive {
    pub x_start: u32,
    pub x_end: u32,
    pub y_start: u32,
    pub y_end: u32,
    pub x_display_pad: u32,
    pub y_display_pad: u32,
    pub content: String,
    pub font_size: u32,
    pub bg_color: String,
    pub fg_color: String,
    pub elapsed: Elapsed,
    pub disabled: bool,
}

/// A disabled region never reports a collision.
pub open spec fn spec_colliding(r: BoundingBoxTextInteractive, x: u32, y: u32) -> bool {
    !r.disabled && r.x_start <= x <= r.x_end && r.y_start <= y <= r.y_end
}

/// Is a collision check at `now_ms` accepted (not debounced)?
pub open spec fn debounce_passes(r: BoundingBoxTextInteractive, now_ms: u64) -> bool {
    now_ms >= r.elapsed@ + DEBOUNCE_MS
}

/// The region's geometry fits the screen arithmetic.
pub open spec fn region_wf(r: BoundingBoxTextInteractive) -> bool {
    &&& r.x_start <= r.x_end <= 0x10_0000
    &&& r.y_start <= r.y_end <= 0x10_0000
    &&& r.x_display_pad <= 0x10_0000
    &&& r.y_display_pad <= 0x10_0000
}

impl BoundingBoxTextInteractive {
    pub fn new(
        x_start: u32,
        x_end: u32,
        y_start: u32,
        y_end: u32,
        x_display_pad: u32,
        y_display_pad: u32,
        content: String,
        font_size: u32,
        bg_color: String,
        fg_color: String,
        elapsed: Elapsed,
    ) -> (r: BoundingBoxTextInteractive)
        ensures
            r.x_start == x_start && r.x_end == x_end && r.y_start == y_start && r.y_end == y_end,
            r.x_display_pad == x_display_pad && r.y_display_pad == y_display_pad,
            r.content@ == content@ && r.font_size == font_size,
            r.bg_color@ == bg_color@ && r.fg_color@ == fg_color@,
            r.elapsed@ == elapsed@,
            !r.disabled,
    {
        BoundingBoxTextInteractive {
            x_start,
            x_end,
            y_start,
            y_end,
            x_display_pad,
            y_display_pad,
            content,
            font_size,
            bg_color,
            fg_color,
            elapsed,
            disabled: false,
        }
    }

    /// Remove the region from the hit-test surface.
    pub fn disable(&mut self)
        ensures
            final(self).disabled,
            final(self).x_start == old(self).x_start && final(self).x_end == old(self).x_end,
            final(self).y_start == old(self).y_start && final(self).y_end == old(self).y_end,
            final(self).x_display_pad == old(self).x_display_pad && final(self).y_display_pad
                == old(self).y_display_pad,
            final(self).font_size == old(self).font_size,
            final(self).bg_color@ == old(self).bg_color@ && final(self).fg_color@ == old(self).fg_color@,
            final(self).elapsed@ == old(self).elapsed@,
            final(self).content@ == old(self).content@,
    {
        self.disabled = true;
    }

    /// The command drawing the region's text, when enabled.
    pub fn draw(&self) -> (c: Option<DrawCmd>)
        requires
            region_wf(*self),
        ensures
            self.disabled ==> c is None,
            !self.disabled ==> (c matches Option::Some(cmd) && is_text(
                cmd,
                self.content@,
                self.font_size,
                (self.y_start + self.y_display_pad) as u32,
                (self.x_start + self.x_display_pad) as u32,
                "regular"@,
                self.bg_color@,
                self.fg_color@,
            )),
    {
        if self.disabled {
            Option::None
        } else {
            Option::Some(
                draw_text(
                    self.content.as_str(),
                    self.font_size,
                    self.y_start + self.y_display_pad,
                    self.x_start + self.x_display_pad,
                    "regular",
                    self.bg_color.as_str(),
                    self.fg_color.as_str(),
                ),
            )
        }
    }

    /// The command blanking the region's rectangle.
    pub fn draw_over(&self) -> (c: DrawCmd)
        requires
            region_wf(*self),
        ensures
            is_clear_part(
                c,
                "black"@,
                self.y_start,
                self.x_start,
                (self.x_end - self.x_start) as u32,
                (self.y_end - self.y_start) as u32,
            ),
    {
        clear_canvas_partly(
            "black",
            self.y_start,
            self.x_start,
            self.x_end - self.x_start,
            self.y_end - self.y_start,
        )
    }

    /// The command flashing the region's rectangle, for inspection.
    pub fn draw_dbg(&self) -> (c: DrawCmd)
        requires
            region_wf(*self),
        ensures
            is_clear_part(
                c,
                "WHITE"@,
                self.y_start,
                self.x_start,
                (self.x_end - self.x_start) as u32,
                (self.y_end - self.y_start) as u32,
            ),
    {
        clear_canvas_partly(
            "WHITE",
            self.y_start,
            self.x_start,
            self.x_end - self.x_start,
            self.y_end - self.y_start,
        )
    }

    /// Does the point hit the enabled region?
    pub fn colliding(&self, x: u32, y: u32) -> (r: bool)
        ensures
            r == spec_colliding(*self, x, y),
    {
        if self.disabled {
            false
        } else {
            x >= self.x_start && x <= self.x_end && y >= self.y_start && y <= self.y_end
        }
    }

    /// The debounced collision check: within `DEBOUNCE_MS` of the last
    /// accepted check the gesture is ignored and the stopwatch is left
    /// alone; otherwise the stopwatch restarts and the point is tested.
    pub fn colliding_coords(&mut self, coords: &Coords, now_ms: u64) -> (r: bool)
        ensures
            !debounce_passes(*old(self), now_ms) ==> r == false && *final(self) == *old(self),
            debounce_passes(*old(self), now_ms) ==> r == spec_colliding(
                *old(self),
                coords.x,
                coords.y,
            ) && final(self).elapsed@ == now_ms && final(self).x_start == old(self).x_start
                && final(self).x_end == old(self).x_end && final(self).y_start == old(self).y_start && final(self).y_end == old(self).y_end && final(self).disabled == old(self).disabled && final(self).content@ == old(self).content@ && final(self).x_display_pad
                == old(self).x_display_pad && final(self).y_display_pad == old(self).y_display_pad && final(self).font_size == old(self).font_size && final(self).bg_color@ == old(self).bg_color@ && final(self).fg_color@ == old(self).fg_color@,
    {
        if self.elapsed.elapsed(now_ms) < DEBOUNCE_MS {
            false
        } else {
            self.elapsed.update(now_ms);
            self.colliding(coords.x, coords.y)
        }
    }

    /// The point translated into the region's own coordinates.
    pub fn local_coords(&self, x: u32, y: u32) -> (c: Coords)
        requires
            x >= self.x_start,
            y >= self.y_start,
        ensures
            c.x == x - self.x_start,
            c.y == y - self.y_start,
    {
        Coords { x: x - self.x_start, y: y - self.y_start }
    }
}

/// Debounce, stated over two taps: a second `PointerOn` at the same spot
/// within `DEBOUNCE_MS` of an accepted first one registers no hit; from
/// `DEBOUNCE_MS` on it registers again.
pub proof fn lemma_debounce_two_taps(
    r1: BoundingBoxTextInteractive,
    r2: BoundingBoxTextInteractive,
    t1: u64,
    t2: u64,
    x: u32,
    y: u32,
)
    requires
        debounce_passes(r1, t1),
        spec_colliding(r1, x, y),
        // `r2` is `r1` after the first accepted check
        r2.elapsed@ == t1,
        r2.disabled == r1.disabled,
        r2.x_start == r1.x_start && r2.x_end == r1.x_end,
        r2.y_start == r1.y_start && r2.y_end == r1.y_end,
        t1 <= t2,
    ensures
        // the first tap hits
        spec_colliding(r1, x, y) && debounce_passes(r1, t1),
        // a second tap within the window is ignored
        t2 < t1 + DEBOUNCE_MS ==> !debounce_passes(r2, t2),
        // from the window's edge on, it hits again
        t2 >= t1 + DEBOUNCE_MS ==> debounce_passes(r2, t2) && spec_colliding(r2, x, y),
{
}

} // verus!
