//! The progress-bar cursor: position updates accumulate movement, and
//! only once the accumulated movement crosses one chunk of the bar is a
//! redraw span issued — exactly the pixel span between the old and the
//! new quantized cursor. The display is slow to refresh, so the bar moves
//! in large, infrequent steps.

use vstd::prelude::*;

use vstd::arithmetic::div_mod::{
    lemma_div_is_ordered, lemma_fundamental_div_mod, lemma_fundamental_div_mod_converse,
};

verus! {

/// Width of one progress chunk, in pixels.
pub const CHUNK_PX: u32 = 12;

/// Positions and lengths beyond this many milliseconds are out of the
/// model and ignored.
pub const MAX_TRACK_MS: u64 = 0x100_0000_0000;

/// Widest supported progress bar, in pixels.
pub const MAX_BAR_PX: u32 = 20000;

/// One redraw span of the progress bar: pixels `start` (inclusive) to
/// `end` (exclusive). A backward span repaints ground the cursor has
/// retreated over; a forward span paints newly elapsed ground.
#[derive(Debug, PartialEq, Clone, Copy)]
pub struct Span {
    pub start: u32,
    pub end: u32,
    pub backward: bool,
}

/// The mathematical image of a progress tracker.
pub struct ProgressModel {
    pub width: u32,
    pub length_ms: u64,
    pub cursor_px: u32,
    pub current_ms: u64,
    pub accum: int,
}

/// The progress cursor of a playback bar `width` pixels wide.
pub struct ProgressTracker {
    width: u32,
    length_ms: u64,
    cursor_px: u32,
    current_ms: u64,
    accum: i128,
}

impl View for ProgressTracker {
    type V = ProgressModel;

    closed spec fn view(&self) -> ProgressModel {
        ProgressModel {
            width: self.width,
            length_ms: self.length_ms,
            cursor_px: self.cursor_px,
            current_ms: self.current_ms,
            accum: self.accum as int,
        }
    }
}

/// The number of whole chunks across the bar.
pub open spec fn chunks_of(width: u32) -> int {
    width as int / CHUNK_PX as int
}

/// The quantized cursor for a position: whole elapsed chunks, in pixels.
pub open spec fn quant_px(pos: u64, length: u64, width: u32) -> int
    recommends
        length > 0,
{
    let c = pos as int * chunks_of(width) / length as int;
    if c > chunks_of(width) {
        chunks_of(width) * CHUNK_PX as int
    } else {
        c * CHUNK_PX as int
    }
}

/// A model within the tracked ranges.
pub open spec fn model_wf(m: ProgressModel) -> bool {
    &&& CHUNK_PX <= m.width <= MAX_BAR_PX
    &&& m.length_ms == 0 || 0 < m.length_ms < MAX_TRACK_MS
    &&& m.current_ms < MAX_TRACK_MS
    &&& m.cursor_px as int <= chunks_of(m.width) * CHUNK_PX as int
    &&& m.cursor_px as int % CHUNK_PX as int == 0
    &&& -(MAX_TRACK_MS as int) < m.accum < MAX_TRACK_MS as int
}

/// One position update of the model: accumulate the movement, scaled to
/// chunks; once it reaches a full track-length's worth per chunk, rebase
/// the cursor to the quantized position, keep the remainder, and issue
/// the span between the old and the new cursor. Unknown lengths and
/// out-of-model values change nothing.
pub open spec fn prog_step(m: ProgressModel, pos: u64) -> (ProgressModel, Option<Span>) {
    if m.length_ms == 0 || pos >= MAX_TRACK_MS {
        (m, Option::<Span>::None)
    } else {
        let ch = chunks_of(m.width);
        let a2 = m.accum + (pos as int - m.current_ms as int) * ch;
        let below = if a2 < 0 {
            -a2 < m.length_ms as int
        } else {
            a2 < m.length_ms as int
        };
        if below {
            (
                ProgressModel {
                    current_ms: pos,
                    accum: a2,
                    ..m
                },
                Option::<Span>::None,
            )
        } else {
            let mag = if a2 < 0 {
                -a2
            } else {
                a2
            };
            let rem = mag % m.length_ms as int;
            let nc = quant_px(pos, m.length_ms, m.width);
            let sp = if nc >= m.cursor_px as int {
                Span { start: m.cursor_px, end: nc as u32, backward: false }
            } else {
                Span { start: nc as u32, end: (m.cursor_px + 1) as u32, backward: true }
            };
            (
                ProgressModel {
                    current_ms: pos,
                    accum: if a2 < 0 {
                        -rem
                    } else {
                        rem
                    },
                    cursor_px: nc as u32,
                    ..m
                },
                Option::<Span>::Some(sp),
            )
        }
    }
}

impl ProgressTracker {
    /// A fresh tracker: no length known, cursor at the left edge.
    pub fn new(width: u32) -> (t: ProgressTracker)
        requires
            CHUNK_PX <= width <= MAX_BAR_PX,
        ensures
            model_wf(t@),
            t@ == (ProgressModel {
                width,
                length_ms: 0,
                cursor_px: 0,
                current_ms: 0,
                accum: 0,
            }),
    {
        ProgressTracker { width, length_ms: 0, cursor_px: 0, current_ms: 0, accum: 0 }
    }

    /// Learn the track length; values out of the model count as unknown.
    pub fn set_length(&mut self, length_ms: u64)
        requires
            model_wf(old(self)@),
        ensures
            model_wf(final(self)@),
            final(self)@ == (ProgressModel {
                length_ms: if 0 < length_ms < MAX_TRACK_MS {
                    length_ms
                } else {
                    0
                },
                ..old(self)@
            }),
    {
        self.length_ms = if 0 < length_ms && length_ms < MAX_TRACK_MS {
            length_ms
        } else {
            0
        };
    }

    /// The cursor's pixel offset.
    pub fn cursor_px(&self) -> (r: u32)
        ensures
            r == self@.cursor_px,
    {
        self.cursor_px
    }

    /// Take one position update; the returned span, if any, is the bar
    /// area to repaint.
    pub fn on_position(&mut self, pos_ms: u64) -> (sp: Option<Span>)
        requires
            model_wf(old(self)@),
        ensures
            model_wf(final(self)@),
            (final(self)@, sp) == prog_step(old(self)@, pos_ms),
    {
        if self.length_ms == 0 || pos_ms >= MAX_TRACK_MS {
            return Option::None;
        }
        let ch: i128 = (self.width / CHUNK_PX) as i128;
        proof {
            let d: int = pos_ms as int - old(self)@.current_ms as int;
            let c: int = ch as int;
            assert(-0x20000000000000int < d * c < 0x20000000000000int) by (nonlinear_arith)
                requires
                    -0x10000000000int < d < 0x10000000000int,
                    0 <= c <= 1666,
            ;
        }
        let a2: i128 = self.accum + (pos_ms as i128 - self.current_ms as i128) * ch;
        let mag: i128 = if a2 < 0 {
            -a2
        } else {
            a2
        };
        if mag < self.length_ms as i128 {
            self.current_ms = pos_ms;
            self.accum = a2;
            proof {
                assert(final(self)@ == prog_step(old(self)@, pos_ms).0);
            }
            return Option::None;
        }
        let rem: i128 = mag % self.length_ms as i128;
        proof {
            let c: int = (old(self)@.width / CHUNK_PX) as int;
            let p: int = pos_ms as int;
            assert(p * c <= 0x10000000000int * 1666) by (nonlinear_arith)
                requires
                    0 <= p < 0x10000000000int,
                    0 <= c <= 1666,
            ;
        }
        let qraw: u64 = pos_ms * ((self.width / CHUNK_PX) as u64) / self.length_ms;
        let chu: u64 = (self.width / CHUNK_PX) as u64;
        let nc: u32 = if qraw > chu {
            (self.width / CHUNK_PX) * CHUNK_PX
        } else {
            (qraw as u32) * CHUNK_PX
        };
        proof {
            let chg: int = (old(self)@.width / CHUNK_PX) as int;
            assert(pos_ms * chg < 0x8000_0000_0000_0000) by {
                assert(pos_ms < MAX_TRACK_MS);
                assert(chg <= 1666);
                assert(pos_ms * chg <= pos_ms * 1666) by (nonlinear_arith)
                    requires
                        0 <= chg <= 1666,
                        pos_ms >= 0,
                ;
            }
            assert(nc as int == quant_px(pos_ms, old(self)@.length_ms, old(self)@.width)) by {
                assert(qraw as int == pos_ms as int * chunks_of(old(self)@.width)
                    / old(self)@.length_ms as int);
                if qraw <= chu {
                    let q: int = qraw as int;
                    let c2: int = chunks_of(old(self)@.width);
                    assert(q * CHUNK_PX as int <= c2 * CHUNK_PX as int) by (nonlinear_arith)
                        requires
                            q <= c2,
                            CHUNK_PX as int > 0,
                    ;
                }
            }
        }
        let sp = if nc >= self.cursor_px {
            Span { start: self.cursor_px, end: nc, backward: false }
        } else {
            Span { start: nc, end: self.cursor_px + 1, backward: true }
        };
        self.current_ms = pos_ms;
        self.accum = if a2 < 0 {
            -rem
        } else {
            rem
        };
        self.cursor_px = nc;
        proof {
            assert((final(self)@, Option::Some(sp)) == prog_step(old(self)@, pos_ms));
        }
        Option::Some(sp)
    }
}

/// A model in step with forward playback: the cursor is the quantized
/// position, and the accumulator holds exactly the sub-chunk remainder.
pub open spec fn monotone_sync(m: ProgressModel) -> bool {
    &&& model_wf(m)
    &&& m.length_ms > 0
    &&& m.current_ms <= m.length_ms
    &&& m.accum == m.current_ms as int * chunks_of(m.width) - (m.cursor_px as int
        / CHUNK_PX as int) * m.length_ms as int
    &&& 0 <= m.accum < m.length_ms as int
}

/// A fresh cursor at the left edge is in step.
pub proof fn lemma_progress_start(m: ProgressModel)
    requires
        model_wf(m),
        m.length_ms > 0,
        m.cursor_px == 0,
        m.current_ms == 0,
        m.accum == 0,
    ensures
        monotone_sync(m),
{
    lemma_fundamental_div_mod_converse(0, CHUNK_PX as int, 0, 0);
}

/// Feeding a position at or past the current one into a model in step:
/// the update stays in step; a span is issued exactly when the quantized
/// cursor moves, and then the span is exactly the ground gained — it
/// starts where the previous span ended (at the old cursor) and ends at
/// the new one. Consecutive spans therefore abut left to right and their
/// union paints each part of the bar once; sub-chunk movement issues
/// nothing.
pub proof fn lemma_progress_spans(m: ProgressModel, pos: u64)
    requires
        monotone_sync(m),
        m.current_ms <= pos <= m.length_ms,
    ensures
        ({
            let (m2, sp) = prog_step(m, pos);
            &&& monotone_sync(m2)
            &&& m2.length_ms == m.length_ms && m2.width == m.width && m2.current_ms == pos
            &&& (sp is Some <==> quant_px(pos, m.length_ms, m.width) != m.cursor_px as int)
            &&& (sp matches Option::Some(s) ==> !s.backward && s.start == m.cursor_px && s.end
                as int == quant_px(pos, m.length_ms, m.width) && s.start < s.end && m2.cursor_px
                == s.end)
            &&& (sp is None ==> m2.cursor_px == m.cursor_px)
        }),
{
    let ch = chunks_of(m.width);
    let len = m.length_ms as int;
    let cc = m.cursor_px as int / CHUNK_PX as int;
    let p = pos as int;
    let cur = m.current_ms as int;
    assert(ch >= 1);
    assert(cc * CHUNK_PX as int == m.cursor_px as int) by {
        lemma_fundamental_div_mod(m.cursor_px as int, CHUNK_PX as int);
    }
    let a2 = m.accum + (p - cur) * ch;
    assert((p - cur) * ch >= 0) by (nonlinear_arith)
        requires
            p >= cur,
            ch >= 0,
    ;
    assert(a2 == p * ch - cc * len) by (nonlinear_arith)
        requires
            m.accum == cur * ch - cc * len,
            a2 == m.accum + (p - cur) * ch,
    ;
    // the quantized position never passes the bar's end
    assert(p * ch <= len * ch) by (nonlinear_arith)
        requires
            p <= len,
            ch >= 0,
    ;
    assert(len * ch / len == ch) by {
        lemma_fundamental_div_mod_converse(len * ch, len, ch, 0);
    }
    lemma_div_is_ordered(p * ch, len * ch, len);
    assert(p * ch / len <= ch);
    if a2 < len {
        // below the threshold: the quantized cursor has not moved
        lemma_fundamental_div_mod_converse(p * ch, len, cc, a2);
        assert(p * ch / len == cc);
        assert(quant_px(pos, m.length_ms, m.width) == m.cursor_px as int);
        let m2 = prog_step(m, pos).0;
        assert(m2.accum == a2);
        assert(monotone_sync(m2));
    } else {
        // the threshold is crossed: rebase to the quantized position
        lemma_fundamental_div_mod(a2, len);
        let steps = a2 / len;
        let rem = a2 % len;
        assert(a2 == len * steps + rem);
        assert(steps >= 1) by {
            lemma_div_is_ordered(len, a2, len);
            lemma_fundamental_div_mod_converse(len, len, 1, 0);
        }
        let q = cc + steps;
        assert(p * ch == q * len + rem) by (nonlinear_arith)
            requires
                p * ch == cc * len + a2,
                a2 == len * steps + rem,
                q == cc + steps,
        ;
        lemma_fundamental_div_mod_converse(p * ch, len, q, rem);
        assert(p * ch / len == q);
        assert(q <= ch);
        let nc = quant_px(pos, m.length_ms, m.width);
        assert(nc == q * CHUNK_PX as int);
        assert(nc > m.cursor_px as int) by (nonlinear_arith)
            requires
                nc == q * CHUNK_PX as int,
                m.cursor_px as int == cc * CHUNK_PX as int,
                q >= cc + 1,
                CHUNK_PX as int > 0,
        ;
        assert(nc <= ch * CHUNK_PX as int) by (nonlinear_arith)
            requires
                nc == q * CHUNK_PX as int,
                q <= ch,
                CHUNK_PX as int > 0,
        ;
        let m2 = prog_step(m, pos).0;
        assert(m2.accum == rem && m2.cursor_px as int == nc);
        assert(m2.cursor_px as int / CHUNK_PX as int == q) by {
            lemma_fundamental_div_mod_converse(nc, CHUNK_PX as int, q, 0);
        }
        assert(m2.cursor_px as int % CHUNK_PX as int == 0) by {
            lemma_fundamental_div_mod_converse(nc, CHUNK_PX as int, q, 0);
        }
        assert(m2.accum == p * ch - q * len) by (nonlinear_arith)
            requires
                p * ch == q * len + rem,
                m2.accum == rem,
        ;
        assert(monotone_sync(m2));
    }
}

} // verus!
