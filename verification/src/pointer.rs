//! Pointer gesture decoding: low-level axis and contact events become
//! viewport coordinates and discrete press/release gestures.

use vstd::prelude::*;

verus! {

/// A viewport position in pixels.
#[derive(Clone, Copy)]
pub struct Coords {
    pub x: u32,
    pub y: u32,
}

/// A discrete touch contact transition with resolved coordinates.
#[derive(Clone, Copy)]
pub enum CapturedPointerEvent {
    PointerOn(Coords),
    PointerOff(Coords),
}

/// What one low-level event decoded to.
pub enum DecodeOutcome {
    /// an axis update; the decoder's coordinates moved
    Axis,
    /// a contact transition with its coordinates
    Gesture(CapturedPointerEvent),
    /// an event code the decoder does not know; to be logged and dropped
    Unknown,
}

/// Device axis range: raw axis values run over `0..=axis_max` and are
/// rescaled to the viewport; zero means the device already reports
/// viewport pixels, with its axes transposed.
pub struct PointerDecoder {
    axis_max: u32,
    viewport_width: u32,
    viewport_height: u32,
    x: u32,
    y: u32,
}

/// A raw axis value rescaled to `0..=extent` by rounding.
pub open spec fn rescaled(value: u32, extent: u32, axis_max: u32) -> int
    recommends
        axis_max > 0,
{
    (value as int * extent as int + axis_max as int / 2) / axis_max as int
}

pub const AXIS_X: u16 = 53;

pub const AXIS_Y: u16 = 54;

pub const CONTACT: u16 = 57;

impl PointerDecoder {
    pub closed spec fn x(&self) -> u32 {
        self.x
    }

    pub closed spec fn y(&self) -> u32 {
        self.y
    }

    pub closed spec fn axis_max(&self) -> u32 {
        self.axis_max
    }

    pub closed spec fn viewport_width(&self) -> u32 {
        self.viewport_width
    }

    pub closed spec fn viewport_height(&self) -> u32 {
        self.viewport_height
    }

    pub open spec fn wf(&self) -> bool {
        self.viewport_width() <= 100000 && self.viewport_height() <= 100000
    }

    pub fn new(axis_max: u32, viewport_width: u32, viewport_height: u32) -> (d: PointerDecoder)
        requires
            viewport_width <= 100000,
            viewport_height <= 100000,
        ensures
            d.wf(),
            d.axis_max() == axis_max,
            d.viewport_width() == viewport_width,
            d.viewport_height() == viewport_height,
            d.x() == 0 && d.y() == 0,
    {
        PointerDecoder { axis_max, viewport_width, viewport_height, x: 0, y: 0 }
    }

    /// The last-known coordinates.
    pub fn coords(&self) -> (c: Coords)
        ensures
            c.x == self.x() && c.y == self.y(),
    {
        Coords { x: self.x, y: self.y }
    }

    /// Decode one low-level event. Axis events move the last-known
    /// position — rescaled from the device range, or taken raw with the
    /// axes transposed when no range is set; negative axis values clamp
    /// to zero. A contact event with value -1 is a press, with value 0 a
    /// release, at the last-known position.
    pub fn decode(&mut self, code: u16, value: i32) -> (r: DecodeOutcome)
        requires
            old(self).wf(),
        ensures
            final(self).wf(),
            final(self).axis_max() == old(self).axis_max(),
            final(self).viewport_width() == old(self).viewport_width(),
            final(self).viewport_height() == old(self).viewport_height(),
            ({
                let raw: int = if value < 0 {
                    0
                } else {
                    value as int
                };
                &&& (code == AXIS_X && old(self).axis_max() > 0 ==> final(self).x() as int == (
                if rescaled(raw as u32, old(self).viewport_width(), old(self).axis_max()) > old(
                    self,
                ).viewport_width() as int {
                    old(self).viewport_width() as int
                } else {
                    rescaled(raw as u32, old(self).viewport_width(), old(self).axis_max())
                }) && final(self).y() == old(self).y() && r is Axis)
                &&& (code == AXIS_X && old(self).axis_max() == 0 ==> final(self).y() as int == raw
                    && final(self).x() == old(self).x() && r is Axis)
                &&& (code == AXIS_Y && old(self).axis_max() > 0 ==> final(self).y() as int == (
                if rescaled(raw as u32, old(self).viewport_height(), old(self).axis_max()) > old(
                    self,
                ).viewport_height() as int {
                    old(self).viewport_height() as int
                } else {
                    rescaled(raw as u32, old(self).viewport_height(), old(self).axis_max())
                }) && final(self).x() == old(self).x() && r is Axis)
                &&& (code == AXIS_Y && old(self).axis_max() == 0 ==> final(self).x() as int == raw
                    && final(self).y() == old(self).y() && r is Axis)
                &&& (code == CONTACT ==> *final(self) == *old(self) && (if value == -1 {
                    r == DecodeOutcome::Gesture(
                        CapturedPointerEvent::PointerOn(
                            Coords { x: old(self).x(), y: old(self).y() },
                        ),
                    )
                } else if value == 0 {
                    r == DecodeOutcome::Gesture(
                        CapturedPointerEvent::PointerOff(
                            Coords { x: old(self).x(), y: old(self).y() },
                        ),
                    )
                } else {
                    r is Unknown
                }))
                &&& (code != AXIS_X && code != AXIS_Y && code != CONTACT ==> *final(self) == *old(
                    self,
                ) && r is Unknown)
            }),
    {
        let raw: u32 = if value < 0 {
            0
        } else {
            value as u32
        };
        if code == AXIS_X {
            if self.axis_max > 0 {
                proof {
                    let vw = old(self).viewport_width() as int;
                    assert(raw as int * vw <= 0xffffffffint * 100000) by (nonlinear_arith)
                        requires
                            0 <= raw as int <= 0xffffffffint,
                            0 <= vw <= 100000,
                    ;
                }
                let scaled: u64 = ((raw as u64) * (self.viewport_width as u64) + (self.axis_max
                    / 2) as u64) / (self.axis_max as u64);
                proof {
                    assert(scaled as int == rescaled(raw, old(self).viewport_width(), old(self).axis_max()));
                }
                self.x = if scaled > self.viewport_width as u64 {
                    self.viewport_width
                } else {
                    scaled as u32
                };
            } else {
                self.y = raw;
            }
            DecodeOutcome::Axis
        } else if code == AXIS_Y {
            if self.axis_max > 0 {
                proof {
                    let vh = old(self).viewport_height() as int;
                    assert(raw as int * vh <= 0xffffffffint * 100000) by (nonlinear_arith)
                        requires
                            0 <= raw as int <= 0xffffffffint,
                            0 <= vh <= 100000,
                    ;
                }
                let scaled: u64 = ((raw as u64) * (self.viewport_height as u64) + (self.axis_max
                    / 2) as u64) / (self.axis_max as u64);
                proof {
                    assert(scaled as int == rescaled(raw, old(self).viewport_height(), old(self).axis_max()));
                }
                self.y = if scaled > self.viewport_height as u64 {
                    self.viewport_height
                } else {
                    scaled as u32
                };
            } else {
                self.x = raw;
            }
            DecodeOutcome::Axis
        } else if code == CONTACT {
            if value == -1 {
                DecodeOutcome::Gesture(
                    CapturedPointerEvent::PointerOn(Coords { x: self.x, y: self.y }),
                )
            } else if value == 0 {
                DecodeOutcome::Gesture(
                    CapturedPointerEvent::PointerOff(Coords { x: self.x, y: self.y }),
                )
            } else {
                DecodeOutcome::Unknown
            }
        } else {
            DecodeOutcome::Unknown
        }
    }
}

} // verus!
