//! The UI coordinator: a state machine over hidden, main-player and
//! track-selector visibility. It dispatches pointer gestures against the
//! current hit-test surface, folds player replies into display state, and
//! interprets remote commands — emitting player commands, input-session
//! actions and draw intents for the surrounding loop to perform.

use vstd::prelude::*;

use crate::catalog::Track;
use crate::draw::{scale_calc, DrawCmd};
use crate::elapsed::Elapsed;
use crate::messages::{Command, Reply};
use crate::pointer::{CapturedPointerEvent, Coords};
use crate::progress::{model_wf, ProgressTracker, Span};
use crate::protocol::dec_rep;
use crate::protocol::u64_to_string;
use crate::region::{debounce_passes, region_wf, spec_colliding, BoundingBoxTextInteractive};

verus! {

/// An action on the pointer-input session.
#[derive(Debug, PartialEq, Clone, Copy)]
pub enum SessionAction {
    EndThread,
    StartThread,
    Grab,
    Ungrab,
}

/// A draw intent; the surrounding loop renders each through the drawing
/// plan functions and hands the commands to the sink.
#[derive(Debug, PartialEq, Clone, Copy)]
pub enum UiDraw {
    /// the full song redraw (album art unless `skip_album_art`, chrome,
    /// region texts)
    Song { skip_album_art: bool },
    /// the play/pause two-state control
    TwoState { paused: bool },
    /// the volume readout
    VolumeText { volume: u32 },
    /// one progress-bar span
    Progress { span: Span },
    /// the selector's numeral entry display
    SelectorDisplay { first_run: bool },
    /// the selector's background area
    SelectorChrome,
    /// repaint the elapsed part of the progress bar up to `upto` pixels
    ProgressRestore { upto: u32 },
}

/// What one coordinator step asks its surroundings to do.
pub struct UiEffects {
    pub commands: Vec<Command>,
    pub session: Vec<SessionAction>,
    pub draws: Vec<UiDraw>,
}

/// Indices of the main-player controls in their hit-test order.
pub const CTRL_PLAY: usize = 0;

pub const CTRL_PAUSE: usize = 1;

pub const CTRL_BACK5S: usize = 2;

pub const CTRL_FORWARD5S: usize = 3;

pub const CTRL_PREV: usize = 4;

pub const CTRL_NEXT: usize = 5;

pub const CTRL_CLOSE: usize = 6;

pub const CTRL_VOLUME: usize = 7;

/// Number of main-player controls.
pub const CTRL_COUNT: usize = 8;

/// Number of selector controls: ten digits, backspace, confirm.
pub const SEL_COUNT: usize = 12;

pub const SEL_BACKSPACE: usize = 10;

pub const SEL_CONFIRM: usize = 11;

/// The UI coordinator's state.
pub struct UiState {
    pub width: u32,
    pub height: u32,
    pub scale_pm: u32,
    pub disable_scrub: bool,
    pub player_visible: bool,
    pub selector_visible: bool,
    /// the main-player hit-test surface, in priority order
    pub controls: Vec<BoundingBoxTextInteractive>,
    /// the selector hit-test surface: digits 1–9 and 0, backspace, confirm
    pub numerals: Vec<BoundingBoxTextInteractive>,
    pub current_track: Option<Track>,
    pub current_album: String,
    pub current_album_is_new: bool,
    pub currently_paused: bool,
    /// the selector's entered digits, each 0–9
    pub selection: Vec<u8>,
    pub progress: ProgressTracker,
}

/// Viewport and scale values the geometry arithmetic accepts.
pub open spec fn geometry_ok(width: u32, height: u32, scale_pm: u32) -> bool {
    &&& 100 <= width <= 20000
    &&& width <= height <= 100000
    &&& 100 <= scale_pm <= 4000
    &&& width as int / 2 >= 9 + (52 * scale_pm + 500) / 1000 + (30 * scale_pm + 500) / 1000
    &&& width as int >= 24 + (40 * scale_pm + 500) / 1000
    &&& height as int >= 24 + (50 * scale_pm + 500) / 1000
    &&& width as int >= (60 * scale_pm + 500) / 1000
    &&& height as int / 8 * 3 / 5 + (8 * scale_pm + 500) / 1000 <= height as int / 8
}

impl UiState {
    /// A well-formed coordinator: the two surfaces are complete and every
    /// region's geometry is sane.
    pub open spec fn wf(&self) -> bool {
        &&& geometry_ok(self.width, self.height, self.scale_pm)
        &&& self.controls@.len() == CTRL_COUNT
        &&& self.numerals@.len() == SEL_COUNT
        &&& forall|i: int|
            0 <= i < self.controls@.len() ==> region_wf(#[trigger] self.controls@[i])
        &&& forall|i: int|
            0 <= i < self.numerals@.len() ==> region_wf(#[trigger] self.numerals@[i])
        &&& forall|i: int| 0 <= i < self.selection@.len() ==> (#[trigger] self.selection@[i]) < 10
        &&& model_wf(self.progress@)
        &&& self.progress@.width == self.width
        &&& self.controls@[CTRL_BACK5S as int].disabled == self.disable_scrub
        &&& self.controls@[CTRL_FORWARD5S as int].disabled == self.disable_scrub
        &&& forall|i: int|
            0 <= i < CTRL_COUNT as int && i != CTRL_BACK5S as int && i != CTRL_FORWARD5S as int
                ==> !(#[trigger] self.controls@[i]).disabled
        &&& forall|i: int| 0 <= i < SEL_COUNT as int ==> !(#[trigger] self.numerals@[i]).disabled
    }
}

/// The first region of the surface that accepts and reports a hit, in
/// order: the least index whose debounce window has passed and whose
/// rectangle holds the point.
pub open spec fn first_hit(
    rs: Seq<BoundingBoxTextInteractive>,
    x: u32,
    y: u32,
    now_ms: u64,
) -> Option<int>
    decreases rs.len(),
{
    if rs.len() == 0 {
        Option::None
    } else if debounce_passes(rs[0], now_ms) && spec_colliding(rs[0], x, y) {
        Option::Some(0int)
    } else {
        match first_hit(rs.drop_first(), x, y, now_ms) {
            Option::Some(i) => Option::Some(i + 1),
            Option::None => Option::None,
        }
    }
}

/// All fields equal except possibly the debounce stopwatch.
pub open spec fn same_but_elapsed(
    a: BoundingBoxTextInteractive,
    b: BoundingBoxTextInteractive,
) -> bool {
    &&& a.x_start == b.x_start && a.x_end == b.x_end
    &&& a.y_start == b.y_start && a.y_end == b.y_end
    &&& a.x_display_pad == b.x_display_pad && a.y_display_pad == b.y_display_pad
    &&& a.content@ == b.content@ && a.font_size == b.font_size
    &&& a.bg_color@ == b.bg_color@ && a.fg_color@ == b.fg_color@
    &&& a.disabled == b.disabled
}

/// The stopwatch value after a region was checked at `now_ms`.
pub open spec fn elapsed_after(r: BoundingBoxTextInteractive, now_ms: u64) -> u64 {
    if debounce_passes(r, now_ms) {
        now_ms
    } else {
        r.elapsed@
    }
}

/// Run the ordered, debounced hit test over a surface: regions are
/// checked in order until the first hit; every checked region that was
/// past its debounce window restarts its stopwatch.
fn hit_surface(rs: &mut Vec<BoundingBoxTextInteractive>, c: &Coords, now_ms: u64) -> (r: Option<
    usize,
>)
    ensures
        final(rs)@.len() == old(rs)@.len(),
        forall|j: int|
            0 <= j < old(rs)@.len() ==> same_but_elapsed(
                #[trigger] final(rs)@[j],
                old(rs)@[j],
            ),
        r matches Option::Some(i) ==> Option::Some(i as int) == first_hit(
            old(rs)@,
            c.x,
            c.y,
            now_ms,
        ) && (forall|j: int|
            0 <= j <= i ==> (#[trigger] final(rs)@[j]).elapsed@ == elapsed_after(
                old(rs)@[j],
                now_ms,
            )) && (forall|j: int|
            i < j < old(rs)@.len() ==> (#[trigger] final(rs)@[j]).elapsed@ == old(
                rs,
            )@[j].elapsed@),
        r is None ==> first_hit(old(rs)@, c.x, c.y, now_ms) is None && (forall|j: int|
            0 <= j < old(rs)@.len() ==> (#[trigger] final(rs)@[j]).elapsed@ == elapsed_after(
                old(rs)@[j],
                now_ms,
            )),
{
    let n = rs.len();
    let mut k: usize = 0;
    while k < n
        invariant
            0 <= k <= n,
            n == rs@.len(),
            n == old(rs)@.len(),
            forall|j: int|
                0 <= j < n ==> same_but_elapsed(#[trigger] rs@[j], old(rs)@[j]),
            forall|j: int|
                0 <= j < k ==> (#[trigger] rs@[j]).elapsed@ == elapsed_after(
                    old(rs)@[j],
                    now_ms,
                ),
            forall|j: int| k <= j < n ==> (#[trigger] rs@[j]).elapsed@ == old(rs)@[j].elapsed@,
            forall|j: int|
                0 <= j < k ==> !(debounce_passes(old(rs)@[j], now_ms) && spec_colliding(
                    #[trigger] old(rs)@[j],
                    c.x,
                    c.y,
                )),
        decreases n - k,
    {
        let region = vstd::std_specs::vec::vec_index_mut(rs, k);
        let hit = region.colliding_coords(c, now_ms);
        if hit {
            proof {
                lemma_first_hit_at(old(rs)@, c.x, c.y, now_ms, k as int);
            }
            return Option::Some(k);
        }
        k = k + 1;
    }
    proof {
        lemma_first_hit_none(old(rs)@, c.x, c.y, now_ms);
    }
    Option::None
}

/// When everything before `i` misses and `i` hits, `i` is the first hit.
proof fn lemma_first_hit_at(
    rs: Seq<BoundingBoxTextInteractive>,
    x: u32,
    y: u32,
    now_ms: u64,
    i: int,
)
    requires
        0 <= i < rs.len(),
        debounce_passes(rs[i], now_ms) && spec_colliding(rs[i], x, y),
        forall|j: int|
            0 <= j < i ==> !(debounce_passes(rs[j], now_ms) && spec_colliding(
                #[trigger] rs[j],
                x,
                y,
            )),
    ensures
        first_hit(rs, x, y, now_ms) == Option::Some(i),
    decreases rs.len(),
{
    if i == 0 {
    } else {
        assert(forall|j: int| 0 <= j < rs.drop_first().len() ==> rs.drop_first()[j] == rs[j + 1]);
        lemma_first_hit_at(rs.drop_first(), x, y, now_ms, i - 1);
    }
}

/// When every region misses, there is no hit.
proof fn lemma_first_hit_none(rs: Seq<BoundingBoxTextInteractive>, x: u32, y: u32, now_ms: u64)
    requires
        forall|j: int|
            0 <= j < rs.len() ==> !(debounce_passes(rs[j], now_ms) && spec_colliding(
                #[trigger] rs[j],
                x,
                y,
            )),
    ensures
        first_hit(rs, x, y, now_ms) is None,
    decreases rs.len(),
{
    if rs.len() > 0 {
        assert(forall|j: int| 0 <= j < rs.drop_first().len() ==> rs.drop_first()[j] == rs[j + 1]);
        lemma_first_hit_none(rs.drop_first(), x, y, now_ms);
    }
}

/// A reported first hit passed its debounce window and holds the point.
pub proof fn lemma_first_hit_props(rs: Seq<BoundingBoxTextInteractive>, x: u32, y: u32, now_ms: u64)
    ensures
        first_hit(rs, x, y, now_ms) matches Option::Some(i) ==> 0 <= i < rs.len()
            && debounce_passes(rs[i], now_ms) && spec_colliding(rs[i], x, y),
    decreases rs.len(),
{
    if rs.len() > 0 {
        assert(forall|j: int| 0 <= j < rs.drop_first().len() ==> rs.drop_first()[j] == rs[j + 1]);
        lemma_first_hit_props(rs.drop_first(), x, y, now_ms);
    }
}

/// The volume chosen by a tap at `local_x` within the volume strip: the
/// left sixth of the width is pinned to zero, the next four sixths run
/// linearly to one hundred, rounding.
pub open spec fn volume_from_x(width: u32, local_x: u32) -> int
    recommends
        width >= 6,
{
    let lo = width as int / 6;
    let var = 4 * lo;
    let xx = if local_x < lo {
        lo
    } else if local_x > lo + var {
        lo + var
    } else {
        local_x as int
    };
    ((xx - lo) * 100 + var / 2) / var
}

/// Decide the volume for a tap at `local_x` of the strip.
fn volume_at(width: u32, local_x: u32) -> (v: u32)
    requires
        100 <= width <= 20000,
    ensures
        v == volume_from_x(width, local_x),
        v <= 100,
{
    let lo: u32 = width / 6;
    let var: u32 = 4 * lo;
    let xx: u32 = if local_x < lo {
        lo
    } else if local_x > lo + var {
        lo + var
    } else {
        local_x
    };
    let num: u64 = ((xx - lo) as u64) * 100 + (var / 2) as u64;
    let v64: u64 = num / (var as u64);
    proof {
        let xi = xx as int;
        let loi = lo as int;
        let vi = var as int;
        assert((xi - loi) * 100 + vi / 2 <= vi * 100 + vi / 2) by (nonlinear_arith)
            requires
                xi - loi <= vi,
                vi >= 0,
        ;
        assert((vi * 100 + vi / 2) / vi <= 100) by {
            assert(vi * 100 + vi / 2 < vi * 101) by (nonlinear_arith)
                requires
                    vi >= 1,
            ;
            assert(vi * 101 / vi == 101) by {
                vstd::arithmetic::div_mod::lemma_fundamental_div_mod_converse(vi * 101, vi, 101, 0);
            }
            vstd::arithmetic::div_mod::lemma_div_is_ordered(vi * 100 + vi / 2, vi * 101 - 1, vi);
            assert((vi * 101 - 1) / vi == 100) by {
                vstd::arithmetic::div_mod::lemma_fundamental_div_mod_converse(
                    vi * 101 - 1,
                    vi,
                    100,
                    vi - 1,
                );
            }
        }
        vstd::arithmetic::div_mod::lemma_div_is_ordered(
            (xi - loi) * 100 + vi / 2,
            vi * 100 + vi / 2,
            vi,
        );
    }
    v64 as u32
}

/// The value of an entered digit sequence.
pub open spec fn digits_value(s: Seq<u8>) -> nat
    decreases s.len(),
{
    if s.len() == 0 {
        0
    } else {
        digits_value(s.drop_last()) * 10 + s.last() as nat
    }
}

proof fn lemma_digits_value_prefix_le(s: Seq<u8>, k: int)
    requires
        0 <= k <= s.len(),
    ensures
        digits_value(s.subrange(0, k)) <= digits_value(s),
    decreases s.len() - k,
{
    if k < s.len() {
        lemma_digits_value_prefix_le(s, k + 1);
        assert(s.subrange(0, k + 1).drop_last() =~= s.subrange(0, k));
    } else {
        assert(s.subrange(0, k) =~= s);
    }
}

/// The number the selector buffer names; `None` when empty or beyond the
/// type.
pub fn selection_value(sel: &Vec<u8>) -> (r: Option<u32>)
    ensures
        match r {
            Option::Some(v) => sel@.len() > 0 && digits_value(sel@) == v,
            Option::None => sel@.len() == 0 || digits_value(sel@) > u32::MAX,
        },
{
    if sel.len() == 0 {
        return Option::None;
    }
    let mut acc: u32 = 0;
    let mut i: usize = 0;
    while i < sel.len()
        invariant
            0 <= i <= sel@.len(),
            acc == digits_value(sel@.subrange(0, i as int)),
        decreases sel@.len() - i,
    {
        proof {
            assert(sel@.subrange(0, i + 1).drop_last() =~= sel@.subrange(0, i as int));
            assert(sel@.subrange(0, i + 1).last() == sel@[i as int]);
        }
        let acc10 = match acc.checked_mul(10) {
            Option::Some(v) => v,
            Option::None => {
                proof {
                    lemma_digits_value_prefix_le(sel@, i + 1);
                }
                return Option::None;
            },
        };
        let acc2 = match acc10.checked_add(sel[i] as u32) {
            Option::Some(v) => v,
            Option::None => {
                proof {
                    lemma_digits_value_prefix_le(sel@, i + 1);
                }
                return Option::None;
            },
        };
        acc = acc2;
        i = i + 1;
    }
    proof {
        assert(sel@.subrange(0, sel@.len() as int) =~= sel@);
    }
    Option::Some(acc)
}

impl UiState {
    /// Build the coordinator: both hit-test surfaces from the viewport
    /// and scale, everything hidden, playback shown paused.
    pub fn new(width: u32, height: u32, scale_pm: u32, disable_scrub: bool) -> (ui: UiState)
        requires
            geometry_ok(width, height, scale_pm),
        ensures
            ui.wf(),
            ui.width == width && ui.height == height && ui.scale_pm == scale_pm,
            ui.disable_scrub == disable_scrub,
            !ui.player_visible && !ui.selector_visible,
            ui.current_track is None,
            ui.current_album_is_new,
            ui.currently_paused,
            ui.selection@.len() == 0,
            ui.progress@.length_ms == 0 && ui.progress@.cursor_px == 0 && ui.progress@.current_ms
                == 0 && ui.progress@.accum == 0,
            // scrubbing controls obey the switch; everything else is live
            ui.controls@[CTRL_BACK5S as int].disabled == disable_scrub,
            ui.controls@[CTRL_FORWARD5S as int].disabled == disable_scrub,
            forall|i: int|
                0 <= i < CTRL_COUNT as int && i != CTRL_BACK5S as int && i != CTRL_FORWARD5S as int
                    ==> !(#[trigger] ui.controls@[i]).disabled,
            forall|i: int| 0 <= i < SEL_COUNT as int ==> !(#[trigger] ui.numerals@[i]).disabled,
            // the digit keys carry the labels 1–9 and 0
            forall|i: int|
                0 <= i < 10 ==> (#[trigger] ui.numerals@[i]).content@ == dec_rep(
                    (((i + 1) % 10) as nat),
                ),
    {
        let fb_pad = scale_calc(30, scale_pm);
        let pn_pad = scale_calc(10, scale_pm);
        let pad_from_cover_abs = scale_calc(35, scale_pm) + width;
        let sc40 = scale_calc(40, scale_pm);
        let sc12 = scale_calc(12, scale_pm);
        let mut controls: Vec<BoundingBoxTextInteractive> = Vec::new();
        let playleft = width / 2 - scale_calc(9, scale_pm);
        controls.push(
            BoundingBoxTextInteractive::new(
                playleft,
                playleft + sc40,
                pad_from_cover_abs - scale_calc(6, scale_pm),
                pad_from_cover_abs + sc40,
                0,
                0,
                String::from_str("\u{25b6}"),
                scale_calc(16, scale_pm),
                String::from_str("BLACK"),
                String::from_str("WHITE"),
                Elapsed::new(0),
            ),
        );
        controls.push(
            BoundingBoxTextInteractive::new(
                playleft,
                playleft + sc40,
                pad_from_cover_abs,
                pad_from_cover_abs + sc40,
                0,
                0,
                String::from_str("| |"),
                sc12,
                String::from_str("BLACK"),
                String::from_str("WHITE"),
                Elapsed::new(0),
            ),
        );
        let back5sleft = width / 2 - 9 - scale_calc(52, scale_pm) - fb_pad;
        let mut back5s = BoundingBoxTextInteractive::new(
            back5sleft,
            back5sleft + sc40,
            pad_from_cover_abs,
            pad_from_cover_abs + sc40,
            0,
            0,
            String::from_str("< 5s"),
            sc12,
            String::from_str("BLACK"),
            String::from_str("WHITE"),
            Elapsed::new(0),
        );
        let forward5sleft = width / 2 - 9 + 20 + fb_pad;
        let mut forward5s = BoundingBoxTextInteractive::new(
            forward5sleft,
            forward5sleft + sc40,
            pad_from_cover_abs,
            pad_from_cover_abs + sc40,
            0,
            0,
            String::from_str("5s >"),
            sc12,
            String::from_str("BLACK"),
            String::from_str("WHITE"),
            Elapsed::new(0),
        );
        if disable_scrub {
            back5s.disable();
            forward5s.disable();
        }
        controls.push(back5s);
        controls.push(forward5s);
        controls.push(
            BoundingBoxTextInteractive::new(
                pn_pad,
                pn_pad + scale_calc(100, scale_pm),
                pad_from_cover_abs,
                pad_from_cover_abs + sc40,
                0,
                0,
                String::from_str("Previous"),
                sc12,
                String::from_str("BLACK"),
                String::from_str("WHITE"),
                Elapsed::new(0),
            ),
        );
        let nextleft = width - scale_calc(60, scale_pm);
        controls.push(
            BoundingBoxTextInteractive::new(
                nextleft,
                nextleft + scale_calc(100, scale_pm),
                pad_from_cover_abs,
                pad_from_cover_abs + sc40,
                0,
                0,
                String::from_str("Next"),
                sc12,
                String::from_str("BLACK"),
                String::from_str("WHITE"),
                Elapsed::new(0),
            ),
        );
        let closeleft = width - 10 - 14 - sc40;
        let closetop = height - 10 - 14 - scale_calc(50, scale_pm);
        controls.push(
            BoundingBoxTextInteractive::new(
                closeleft,
                width,
                closetop,
                height,
                0,
                0,
                String::from_str("\u{2715}"),
                scale_calc(20, scale_pm),
                String::from_str("BLACK"),
                String::from_str("WHITE"),
                Elapsed::new(0),
            ),
        );
        controls.push(
            BoundingBoxTextInteractive::new(
                0,
                width,
                0,
                height / 2,
                0,
                0,
                String::new(),
                1,
                String::from_str("BLACK"),
                String::from_str("WHITE"),
                Elapsed::new(0),
            ),
        );
        // the selector's keypad
        let h8 = height / 8;
        let box_y_start = height - h8 - h8 * 3 / 5 - h8;
        let box_y_end = box_y_start + h8;
        let numerals_y_start = box_y_start + h8 * 3 / 5 + scale_calc(8, scale_pm);
        let letter_width = width / 14;
        proof {
            assert(numerals_y_start <= box_y_end);
            assert(box_y_end <= height);
        }
        let mut numerals: Vec<BoundingBoxTextInteractive> = Vec::new();
        let mut i: usize = 1;
        while i < 11
            invariant
                1 <= i <= 11,
                numerals@.len() == i - 1,
                letter_width == width / 14,
                width <= 20000,
                height <= 100000,
                numerals_y_start <= 0x10_0000,
                box_y_end <= 0x10_0000,
                numerals_y_start <= box_y_end,
                forall|j: int| 0 <= j < i - 1 ==> region_wf(#[trigger] numerals@[j]),
                forall|j: int| 0 <= j < i - 1 ==> !(#[trigger] numerals@[j]).disabled,
                forall|j: int|
                    0 <= j < i - 1 ==> (#[trigger] numerals@[j]).content@ == dec_rep(
                        (((j + 1) % 10) as nat),
                    ),
            decreases 11 - i,
        {
            let value: u64 = (i as u64) % 10;
            let label = u64_to_string(value);
            proof {
                let lw: int = letter_width as int;
                let ii: int = i as int;
                assert(lw * 14 <= width) by {
                    vstd::arithmetic::div_mod::lemma_fundamental_div_mod(width as int, 14int);
                }
                assert(lw * ii <= lw * 14 && lw * (ii + 1) <= lw * 14 && lw * ii <= lw * (ii + 1))
                    by (nonlinear_arith)
                    requires
                        0 <= ii,
                        ii + 1 <= 14,
                        lw >= 0,
                ;
            }
            numerals.push(
                BoundingBoxTextInteractive::new(
                    letter_width * (i as u32),
                    letter_width * ((i + 1) as u32),
                    numerals_y_start,
                    box_y_end,
                    20,
                    0,
                    label,
                    20,
                    String::from_str("WHITE"),
                    String::from_str("BLACK"),
                    Elapsed::new(0),
                ),
            );
            i = i + 1;
        }
        proof {
            let lw: int = letter_width as int;
            assert(lw * 14 <= width) by {
                vstd::arithmetic::div_mod::lemma_fundamental_div_mod(width as int, 14int);
            }
            assert(lw * 11 <= lw * 14 && lw * 12 <= lw * 14 && lw * 11 <= lw * 12)
                by (nonlinear_arith)
                requires
                    lw >= 0,
            ;
        }
        numerals.push(
            BoundingBoxTextInteractive::new(
                letter_width * 11,
                letter_width * 12,
                numerals_y_start,
                box_y_end,
                20,
                0,
                String::from_str("\u{2190}"),
                20,
                String::from_str("WHITE"),
                String::from_str("BLACK"),
                Elapsed::new(0),
            ),
        );
        numerals.push(
            BoundingBoxTextInteractive::new(
                letter_width * 12,
                width,
                numerals_y_start,
                box_y_end,
                20,
                0,
                String::from_str("OK"),
                20,
                String::from_str("WHITE"),
                String::from_str("BLACK"),
                Elapsed::new(0),
            ),
        );
        proof {
            assert(region_wf(controls@[0]));
            assert(region_wf(controls@[1]));
            assert(region_wf(controls@[2]));
            assert(region_wf(controls@[3]));
            assert(region_wf(controls@[4]));
            assert(region_wf(controls@[5]));
            assert(region_wf(controls@[6]));
            assert(region_wf(controls@[7]));
            assert(region_wf(numerals@[10]));
            assert(region_wf(numerals@[11]));
            assert(forall|j: int| 0 <= j < 10 ==> region_wf(#[trigger] numerals@[j]));
        }
        UiState {
            width,
            height,
            scale_pm,
            disable_scrub,
            player_visible: false,
            selector_visible: false,
            controls,
            numerals,
            current_track: Option::None,
            current_album: String::new(),
            current_album_is_new: true,
            currently_paused: true,
            selection: Vec::new(),
            progress: ProgressTracker::new(width),
        }
    }
}

/// The view of an optional track.
pub open spec fn opt_track_view(o: Option<Track>) -> Option<crate::catalog::TrackView> {
    match o {
        Option::Some(t) => Option::Some(t@),
        Option::None => Option::None,
    }
}

/// The parts of the coordinator that gestures never touch.
pub open spec fn gesture_frozen(a: UiState, b: UiState) -> bool {
    &&& a.width == b.width && a.height == b.height && a.scale_pm == b.scale_pm
    &&& a.disable_scrub == b.disable_scrub
    &&& a.progress@ == b.progress@
    &&& a.currently_paused == b.currently_paused
    &&& a.current_album@ == b.current_album@
    &&& a.current_album_is_new == b.current_album_is_new
    &&& opt_track_view(a.current_track) == opt_track_view(b.current_track)
}

/// Surfaces equal up to stopwatches.
pub open spec fn surface_same(
    a: Seq<BoundingBoxTextInteractive>,
    b: Seq<BoundingBoxTextInteractive>,
) -> bool {
    a.len() == b.len() && forall|j: int| 0 <= j < a.len() ==> same_but_elapsed(#[trigger] a[j], b[j])
}

/// Surfaces equal including stopwatches.
pub open spec fn surface_eq(
    a: Seq<BoundingBoxTextInteractive>,
    b: Seq<BoundingBoxTextInteractive>,
) -> bool {
    surface_same(a, b) && forall|j: int|
        0 <= j < a.len() ==> (#[trigger] a[j]).elapsed@ == b[j].elapsed@
}

impl UiState {
    /// The queries sent once at startup, before the first loop pass.
    pub fn initial_commands(&self) -> (cs: Vec<Command>)
        ensures
            cs@ =~= seq![
                Command::GetCurrentTrack,
                Command::GetCurrentTrackLength,
                Command::GetVol,
            ],
    {
        let mut cs: Vec<Command> = Vec::new();
        cs.push(Command::GetCurrentTrack);
        cs.push(Command::GetCurrentTrackLength);
        cs.push(Command::GetVol);
        cs
    }

    /// Dispatch one pointer gesture against the hit-test surface of the
    /// current visibility state. While hidden, gestures are ignored
    /// entirely; a release (`PointerOff`) carries no action.
    ///
    /// In the selector, the first colliding numeral wins: a digit key
    /// appends its value (key label i entering i modulo 10), backspace
    /// removes the last digit, and confirm leaves the selector and — only
    /// for a non-empty buffer naming a number at least one — issues
    /// `SetTrack` of that number less one.
    ///
    /// In the main player, the controls are tested in their priority
    /// order; close hides the player and releases the input session, and
    /// the volume strip maps the tap's horizontal position to a volume.
    pub fn on_gesture(&mut self, evt: CapturedPointerEvent, now_ms: u64) -> (fx: UiEffects)
        requires
            old(self).wf(),
        ensures
            final(self).wf(),
            gesture_frozen(*final(self), *old(self)),
            surface_same(final(self).controls@, old(self).controls@),
            surface_same(final(self).numerals@, old(self).numerals@),
            ({
                match evt {
                    CapturedPointerEvent::PointerOff(_) => *final(self) == *old(self)
                        && fx.commands@ =~= Seq::<Command>::empty() && fx.session@ =~= Seq::<
                        SessionAction,
                    >::empty() && fx.draws@ =~= Seq::<UiDraw>::empty(),
                    CapturedPointerEvent::PointerOn(c) => {
                        if old(self).selector_visible {
                            &&& surface_eq(final(self).controls@, old(self).controls@)
                            &&& fx.commands@ =~= (match first_hit(
                                old(self).numerals@,
                                c.x,
                                c.y,
                                now_ms,
                            ) {
                                Option::Some(i) => {
                                    if i == SEL_CONFIRM as int {
                                        if old(self).selection@.len() > 0 && digits_value(
                                            old(self).selection@,
                                        ) <= u32::MAX && digits_value(old(self).selection@) >= 1 {
                                            seq![
                                                Command::SetTrack(
                                                    (digits_value(old(self).selection@) - 1) as u32,
                                                ),
                                            ]
                                        } else {
                                            Seq::<Command>::empty()
                                        }
                                    } else {
                                        Seq::<Command>::empty()
                                    }
                                },
                                Option::None => Seq::<Command>::empty(),
                            })
                            &&& (match first_hit(old(self).numerals@, c.x, c.y, now_ms) {
                                Option::Some(i) => {
                                    if i < 10 {
                                        &&& final(self).selection@ =~= old(self).selection@.push(
                                            (((i + 1) % 10) as u8),
                                        )
                                        &&& final(self).selector_visible == old(
                                            self,
                                        ).selector_visible
                                        &&& final(self).player_visible == old(self).player_visible
                                        &&& fx.session@ =~= Seq::<SessionAction>::empty()
                                        &&& fx.draws@ =~= seq![
                                            UiDraw::SelectorDisplay { first_run: false },
                                        ]
                                    } else if i == SEL_BACKSPACE as int {
                                        &&& final(self).selection@ =~= (if old(
                                            self,
                                        ).selection@.len() > 0 {
                                            old(self).selection@.drop_last()
                                        } else {
                                            old(self).selection@
                                        })
                                        &&& final(self).selector_visible == old(
                                            self,
                                        ).selector_visible
                                        &&& final(self).player_visible == old(self).player_visible
                                        &&& fx.session@ =~= Seq::<SessionAction>::empty()
                                        &&& fx.draws@ =~= seq![
                                            UiDraw::SelectorDisplay { first_run: false },
                                        ]
                                    } else {
                                        &&& final(self).selection@ =~= old(self).selection@
                                        &&& !final(self).selector_visible
                                        &&& final(self).player_visible == old(self).player_visible
                                        &&& fx.session@ =~= seq![
                                            SessionAction::EndThread,
                                            SessionAction::Ungrab,
                                            SessionAction::StartThread,
                                        ]
                                        &&& fx.draws@ =~= Seq::<UiDraw>::empty()
                                    }
                                },
                                Option::None => {
                                    &&& final(self).selection@ =~= old(self).selection@
                                    &&& final(self).selector_visible == old(self).selector_visible
                                    &&& final(self).player_visible == old(self).player_visible
                                    &&& fx.session@ =~= Seq::<SessionAction>::empty()
                                    &&& fx.draws@ =~= Seq::<UiDraw>::empty()
                                },
                            })
                        } else if old(self).player_visible {
                            &&& surface_eq(final(self).numerals@, old(self).numerals@)
                            &&& final(self).selection@ =~= old(self).selection@
                            &&& final(self).selector_visible == old(self).selector_visible
                            &&& fx.draws@ =~= Seq::<UiDraw>::empty()
                            &&& (match first_hit(old(self).controls@, c.x, c.y, now_ms) {
                                Option::Some(i) => {
                                    &&& (i == CTRL_PLAY as int || i == CTRL_PAUSE as int
                                        ==> fx.commands@ =~= seq![Command::Pause] && keeps_player(
                                        *final(self),
                                        *old(self),
                                        fx,
                                    ))
                                    &&& (i == CTRL_BACK5S as int ==> fx.commands@ =~= seq![
                                        Command::SeekBackward,
                                    ] && keeps_player(*final(self), *old(self), fx))
                                    &&& (i == CTRL_FORWARD5S as int ==> fx.commands@ =~= seq![
                                        Command::SeekForward,
                                    ] && keeps_player(*final(self), *old(self), fx))
                                    &&& (i == CTRL_PREV as int ==> fx.commands@ =~= seq![
                                        Command::Prev,
                                    ] && keeps_player(*final(self), *old(self), fx))
                                    &&& (i == CTRL_NEXT as int ==> fx.commands@ =~= seq![
                                        Command::Next,
                                    ] && keeps_player(*final(self), *old(self), fx))
                                    &&& (i == CTRL_CLOSE as int ==> fx.commands@ =~= seq![
                                        Command::UiHidden,
                                    ] && !final(self).player_visible && fx.session@ =~= seq![
                                        SessionAction::EndThread,
                                        SessionAction::Ungrab,
                                        SessionAction::StartThread,
                                    ])
                                    &&& (i == CTRL_VOLUME as int ==> fx.commands@ =~= seq![
                                        Command::SetVol(
                                            volume_from_x(
                                                old(self).width,
                                                (c.x - old(self).controls@[
                                                    CTRL_VOLUME as int
                                                ].x_start) as u32,
                                            ) as u32,
                                        ),
                                    ] && keeps_player(*final(self), *old(self), fx))
                                },
                                Option::None => fx.commands@ =~= Seq::<Command>::empty()
                                    && keeps_player(*final(self), *old(self), fx),
                            })
                        } else {
                            &&& *final(self) == *old(self)
                            &&& fx.commands@ =~= Seq::<Command>::empty()
                            &&& fx.session@ =~= Seq::<SessionAction>::empty()
                            &&& fx.draws@ =~= Seq::<UiDraw>::empty()
                        }
                    },
                }
            }),
    {
        let mut fx = UiEffects { commands: Vec::new(), session: Vec::new(), draws: Vec::new() };
        let c: Coords = match evt {
            CapturedPointerEvent::PointerOn(c) => c,
            CapturedPointerEvent::PointerOff(_) => {
                return fx;
            },
        };
        if self.selector_visible {
            let hit = hit_surface(&mut self.numerals, &c, now_ms);
            proof {
                lemma_first_hit_props(old(self).numerals@, c.x, c.y, now_ms);
            }
            match hit {
                Option::Some(i) => {
                    if i < 10 {
                        let digit: u8 = (((i + 1) % 10) as u8);
                        self.selection.push(digit);
                        fx.draws.push(UiDraw::SelectorDisplay { first_run: false });
                    } else if i == SEL_BACKSPACE {
                        if self.selection.len() > 0 {
                            self.selection.pop();
                        }
                        fx.draws.push(UiDraw::SelectorDisplay { first_run: false });
                    } else {
                        self.selector_visible = false;
                        fx.session.push(SessionAction::EndThread);
                        fx.session.push(SessionAction::Ungrab);
                        fx.session.push(SessionAction::StartThread);
                        match selection_value(&self.selection) {
                            Option::Some(n) => {
                                if n >= 1 {
                                    fx.commands.push(Command::SetTrack(n - 1));
                                }
                            },
                            Option::None => {},
                        }
                    }
                },
                Option::None => {},
            }
        } else if self.player_visible {
            let hit = hit_surface(&mut self.controls, &c, now_ms);
            proof {
                lemma_first_hit_props(old(self).controls@, c.x, c.y, now_ms);
            }
            match hit {
                Option::Some(i) => {
                    if i == CTRL_PLAY || i == CTRL_PAUSE {
                        fx.commands.push(Command::Pause);
                    } else if i == CTRL_BACK5S {
                        fx.commands.push(Command::SeekBackward);
                    } else if i == CTRL_FORWARD5S {
                        fx.commands.push(Command::SeekForward);
                    } else if i == CTRL_PREV {
                        fx.commands.push(Command::Prev);
                    } else if i == CTRL_NEXT {
                        fx.commands.push(Command::Next);
                    } else if i == CTRL_CLOSE {
                        fx.commands.push(Command::UiHidden);
                        self.player_visible = false;
                        fx.session.push(SessionAction::EndThread);
                        fx.session.push(SessionAction::Ungrab);
                        fx.session.push(SessionAction::StartThread);
                    } else {
                        proof {
                            lemma_first_hit_props(old(self).controls@, c.x, c.y, now_ms);
                            assert(same_but_elapsed(
                                self.controls@[CTRL_VOLUME as int],
                                old(self).controls@[CTRL_VOLUME as int],
                            ));
                        }
                        let local_x = c.x - self.controls[CTRL_VOLUME].x_start;
                        let v = volume_at(self.width, local_x);
                        fx.commands.push(Command::SetVol(v));
                    }
                },
                Option::None => {},
            }
        }
        proof {
            assert forall|j: int| 0 <= j < self.controls@.len() implies region_wf(
                #[trigger] self.controls@[j],
            ) by {
                assert(same_but_elapsed(self.controls@[j], old(self).controls@[j]));
                assert(region_wf(old(self).controls@[j]));
            }
            assert forall|j: int| 0 <= j < self.numerals@.len() implies region_wf(
                #[trigger] self.numerals@[j],
            ) by {
                assert(same_but_elapsed(self.numerals@[j], old(self).numerals@[j]));
                assert(region_wf(old(self).numerals@[j]));
            }
            assert forall|j: int| 0 <= j < self.controls@.len() implies (
            #[trigger] self.controls@[j]).disabled == old(self).controls@[j].disabled by {
                assert(same_but_elapsed(self.controls@[j], old(self).controls@[j]));
            }
            assert forall|j: int| 0 <= j < self.numerals@.len() implies (
            #[trigger] self.numerals@[j]).disabled == old(self).numerals@[j].disabled by {
                assert(same_but_elapsed(self.numerals@[j], old(self).numerals@[j]));
            }
        }
        fx
    }
}

/// The player stays visible and the session is left alone.
pub open spec fn keeps_player(a: UiState, b: UiState, fx: UiEffects) -> bool {
    &&& a.player_visible == b.player_visible
    &&& fx.session@ =~= Seq::<SessionAction>::empty()
}

/// Does `s` begin with `p`?
pub open spec fn has_prefix(s: Seq<char>, p: Seq<char>) -> bool {
    p.len() <= s.len() && s.subrange(0, p.len() as int) == p
}

/// The parts of the coordinator that replies never touch.
pub open spec fn reply_frozen(a: UiState, b: UiState) -> bool {
    &&& a.width == b.width && a.height == b.height && a.scale_pm == b.scale_pm
    &&& a.disable_scrub == b.disable_scrub
    &&& a.player_visible == b.player_visible && a.selector_visible == b.selector_visible
    &&& a.selection@ =~= b.selection@
    &&& surface_eq(a.controls@, b.controls@)
    &&& surface_eq(a.numerals@, b.numerals@)
}

impl UiState {
    /// Fold one player reply into the display state. Track identity asks
    /// for the track's tags; tags set the displayed track and ask for a
    /// full redraw while the player shows (with the album art only when
    /// the album changed); lengths feed the progress tracker; positions
    /// move the cursor and repaint a span only while visible; pause and
    /// volume repaint their readouts while visible.
    pub fn on_reply(&mut self, msg: Reply) -> (fx: UiEffects)
        requires
            old(self).wf(),
        ensures
            final(self).wf(),
            reply_frozen(*final(self), *old(self)),
            fx.session@ =~= Seq::<SessionAction>::empty(),
            ({
                match msg {
                    Reply::CurrentTrack(i) => *final(self) == *old(self) && fx.commands@ =~= seq![
                        Command::GetTrackInfo(i),
                    ] && fx.draws@ =~= Seq::<UiDraw>::empty(),
                    Reply::NewTrack(i) => *final(self) == *old(self) && fx.commands@ =~= seq![
                        Command::GetTrackInfo(i),
                    ] && fx.draws@ =~= Seq::<UiDraw>::empty(),
                    Reply::TrackInfo(t) => {
                        let album_new = old(self).current_album_is_new || t@.album != old(
                            self,
                        ).current_album@;
                        &&& opt_track_view(final(self).current_track) == Option::Some(t@)
                        &&& final(self).current_album@ == t@.album
                        &&& final(self).currently_paused == old(self).currently_paused
                        &&& final(self).progress@ == old(self).progress@
                        &&& fx.commands@ =~= Seq::<Command>::empty()
                        &&& (if old(self).player_visible {
                            final(self).current_album_is_new == false && fx.draws@ =~= seq![
                                UiDraw::Song { skip_album_art: !album_new },
                            ]
                        } else {
                            final(self).current_album_is_new == album_new && fx.draws@ =~= Seq::<
                                UiDraw,
                            >::empty()
                        })
                    },
                    Reply::Length(l) => {
                        &&& final(self).progress@ == (crate::progress::ProgressModel {
                            length_ms: if 0 < l < crate::progress::MAX_TRACK_MS {
                                l
                            } else {
                                0
                            },
                            ..old(self).progress@
                        })
                        &&& unchanged_but_progress(*final(self), *old(self))
                        &&& fx.commands@ =~= Seq::<Command>::empty()
                        &&& fx.draws@ =~= Seq::<UiDraw>::empty()
                    },
                    Reply::Pos(p) => {
                        let st = crate::progress::prog_step(old(self).progress@, p);
                        &&& final(self).progress@ == st.0
                        &&& unchanged_but_progress(*final(self), *old(self))
                        &&& fx.commands@ =~= Seq::<Command>::empty()
                        &&& (match st.1 {
                            Option::Some(sp) => fx.draws@ =~= (if old(self).player_visible {
                                seq![UiDraw::Progress { span: sp }]
                            } else {
                                Seq::<UiDraw>::empty()
                            }),
                            Option::None => fx.draws@ =~= Seq::<UiDraw>::empty(),
                        })
                    },
                    Reply::Paused(b) => {
                        &&& final(self).currently_paused == b
                        &&& final(self).progress@ == old(self).progress@
                        &&& opt_track_view(final(self).current_track) == opt_track_view(
                            old(self).current_track,
                        )
                        &&& final(self).current_album@ == old(self).current_album@
                        &&& final(self).current_album_is_new == old(self).current_album_is_new
                        &&& fx.commands@ =~= Seq::<Command>::empty()
                        &&& fx.draws@ =~= (if old(self).player_visible {
                            seq![UiDraw::TwoState { paused: b }]
                        } else {
                            Seq::<UiDraw>::empty()
                        })
                    },
                    Reply::Vol(v) => {
                        &&& *final(self) == *old(self)
                        &&& fx.commands@ =~= Seq::<Command>::empty()
                        &&& fx.draws@ =~= (if old(self).player_visible {
                            seq![UiDraw::VolumeText { volume: v }]
                        } else {
                            Seq::<UiDraw>::empty()
                        })
                    },
                }
            }),
    {
        let mut fx = UiEffects { commands: Vec::new(), session: Vec::new(), draws: Vec::new() };
        match msg {
            Reply::CurrentTrack(i) => {
                fx.commands.push(Command::GetTrackInfo(i));
            },
            Reply::NewTrack(i) => {
                fx.commands.push(Command::GetTrackInfo(i));
            },
            Reply::TrackInfo(t) => {
                if !self.current_album_is_new {
                    if !t.album.eq(&self.current_album) {
                        self.current_album_is_new = true;
                    }
                }
                self.current_album = t.album.clone();
                self.current_track = Option::Some(t);
                if self.player_visible {
                    let skip = !self.current_album_is_new;
                    fx.draws.push(UiDraw::Song { skip_album_art: skip });
                    self.current_album_is_new = false;
                }
            },
            Reply::Length(l) => {
                self.progress.set_length(l);
            },
            Reply::Pos(p) => {
                let sp = self.progress.on_position(p);
                if let Option::Some(span) = sp {
                    if self.player_visible {
                        fx.draws.push(UiDraw::Progress { span });
                    }
                }
            },
            Reply::Paused(b) => {
                self.currently_paused = b;
                if self.player_visible {
                    fx.draws.push(UiDraw::TwoState { paused: b });
                }
            },
            Reply::Vol(v) => {
                if self.player_visible {
                    fx.draws.push(UiDraw::VolumeText { volume: v });
                }
            },
        }
        fx
    }

    /// Interpret one remote-command payload: "select" opens the selector
    /// with a cleared numeral buffer, "ui" opens the main player — each
    /// only once a current track is known, and each taking exclusive hold
    /// of the input session. Anything else is ignored without reply.
    pub fn on_socket(&mut self, payload: &str) -> (fx: UiEffects)
        requires
            old(self).wf(),
        ensures
            final(self).wf(),
            final(self).width == old(self).width && final(self).height == old(self).height
                && final(self).scale_pm == old(self).scale_pm && final(self).disable_scrub == old(
                self,
            ).disable_scrub,
            surface_eq(final(self).controls@, old(self).controls@),
            surface_eq(final(self).numerals@, old(self).numerals@),
            final(self).progress@ == old(self).progress@,
            final(self).currently_paused == old(self).currently_paused,
            final(self).current_album@ == old(self).current_album@,
            final(self).current_album_is_new == old(self).current_album_is_new,
            opt_track_view(final(self).current_track) == opt_track_view(old(self).current_track),
            ({
                if has_prefix(payload@, "select"@) {
                    if old(self).current_track is Some {
                        &&& final(self).selector_visible
                        &&& final(self).player_visible == old(self).player_visible
                        &&& final(self).selection@ =~= Seq::<u8>::empty()
                        &&& fx.commands@ =~= Seq::<Command>::empty()
                        &&& fx.session@ =~= seq![
                            SessionAction::EndThread,
                            SessionAction::Grab,
                            SessionAction::StartThread,
                        ]
                        &&& fx.draws@ =~= seq![
                            UiDraw::SelectorChrome,
                            UiDraw::SelectorDisplay { first_run: true },
                        ]
                    } else {
                        no_op(*final(self), *old(self), fx)
                    }
                } else if has_prefix(payload@, "ui"@) {
                    if old(self).current_track is Some {
                        &&& final(self).player_visible
                        &&& final(self).selector_visible == old(self).selector_visible
                        &&& final(self).selection@ =~= old(self).selection@
                        &&& fx.commands@ =~= seq![Command::UiOpened]
                        &&& fx.session@ =~= seq![
                            SessionAction::EndThread,
                            SessionAction::Grab,
                            SessionAction::StartThread,
                        ]
                        &&& fx.draws@ =~= seq![
                            UiDraw::Song { skip_album_art: false },
                            UiDraw::TwoState { paused: old(self).currently_paused },
                            UiDraw::ProgressRestore { upto: old(self).progress@.cursor_px },
                        ]
                    } else {
                        no_op(*final(self), *old(self), fx)
                    }
                } else {
                    no_op(*final(self), *old(self), fx)
                }
            }),
    {
        let mut fx = UiEffects { commands: Vec::new(), session: Vec::new(), draws: Vec::new() };
        if crate::strings::str_starts_with(payload, "select") {
            if self.current_track.is_some() {
                self.selector_visible = true;
                self.selection = Vec::new();
                fx.session.push(SessionAction::EndThread);
                fx.session.push(SessionAction::Grab);
                fx.session.push(SessionAction::StartThread);
                fx.draws.push(UiDraw::SelectorChrome);
                fx.draws.push(UiDraw::SelectorDisplay { first_run: true });
            }
        } else if crate::strings::str_starts_with(payload, "ui") {
            if self.current_track.is_some() {
                fx.commands.push(Command::UiOpened);
                self.player_visible = true;
                fx.session.push(SessionAction::EndThread);
                fx.session.push(SessionAction::Grab);
                fx.session.push(SessionAction::StartThread);
                fx.draws.push(UiDraw::Song { skip_album_art: false });
                fx.draws.push(UiDraw::TwoState { paused: self.currently_paused });
                fx.draws.push(UiDraw::ProgressRestore { upto: self.progress.cursor_px() });
            }
        }
        fx
    }
}

/// Everything but the progress tracker stands still.
pub open spec fn unchanged_but_progress(a: UiState, b: UiState) -> bool {
    &&& a.currently_paused == b.currently_paused
    &&& a.current_album@ == b.current_album@
    &&& a.current_album_is_new == b.current_album_is_new
    &&& opt_track_view(a.current_track) == opt_track_view(b.current_track)
}

/// The state stands still and the step asks for nothing.
pub open spec fn no_op(a: UiState, b: UiState, fx: UiEffects) -> bool {
    &&& a == b
    &&& fx.commands@ =~= Seq::<Command>::empty()
    &&& fx.session@ =~= Seq::<SessionAction>::empty()
    &&& fx.draws@ =~= Seq::<UiDraw>::empty()
}

/// The two-state play/pause control: blank the hidden face, draw the
/// shown one.
pub fn draw_two_state(
    b: &bool,
    on: &BoundingBoxTextInteractive,
    off: &BoundingBoxTextInteractive,
) -> (cmds: Vec<DrawCmd>)
    requires
        region_wf(*on),
        region_wf(*off),
        !on.disabled,
        !off.disabled,
    ensures
        cmds@.len() == 2,
        ({
            let hidden = if *b {
                *off
            } else {
                *on
            };
            let shown = if *b {
                *on
            } else {
                *off
            };
            &&& crate::draw::is_clear_part(
                cmds@[0],
                "black"@,
                hidden.y_start,
                hidden.x_start,
                (hidden.x_end - hidden.x_start) as u32,
                (hidden.y_end - hidden.y_start) as u32,
            )
            &&& crate::draw::is_text(
                cmds@[1],
                shown.content@,
                shown.font_size,
                (shown.y_start + shown.y_display_pad) as u32,
                (shown.x_start + shown.x_display_pad) as u32,
                "regular"@,
                shown.bg_color@,
                shown.fg_color@,
            )
        }),
{
    let mut cmds: Vec<DrawCmd> = Vec::new();
    if *b {
        cmds.push(off.draw_over());
        match on.draw() {
            Option::Some(c) => cmds.push(c),
            Option::None => {},
        }
    } else {
        cmds.push(on.draw_over());
        match off.draw() {
            Option::Some(c) => cmds.push(c),
            Option::None => {},
        }
    }
    cmds
}

/// The characters of the entered digits.
pub open spec fn sel_chars(s: Seq<u8>) -> Seq<char> {
    Seq::new(s.len(), |i: int| ((48 + s[i]) as u32) as char)
}

impl UiState {
    /// The entered digits as text.
    pub fn selection_text(&self) -> (r: String)
        requires
            self.wf(),
        ensures
            r@ =~= sel_chars(self.selection@),
    {
        let mut out = String::new();
        let mut i: usize = 0;
        while i < self.selection.len()
            invariant
                0 <= i <= self.selection@.len(),
                self.wf(),
                out@ =~= sel_chars(self.selection@).subrange(0, i as int),
            decreases self.selection@.len() - i,
        {
            let d = self.selection[i];
            let ds: &str = match d {
                0 => {
                    proof {
                        reveal_strlit("0");
                    }
                    "0"
                },
                1 => {
                    proof {
                        reveal_strlit("1");
                    }
                    "1"
                },
                2 => {
                    proof {
                        reveal_strlit("2");
                    }
                    "2"
                },
                3 => {
                    proof {
                        reveal_strlit("3");
                    }
                    "3"
                },
                4 => {
                    proof {
                        reveal_strlit("4");
                    }
                    "4"
                },
                5 => {
                    proof {
                        reveal_strlit("5");
                    }
                    "5"
                },
                6 => {
                    proof {
                        reveal_strlit("6");
                    }
                    "6"
                },
                7 => {
                    proof {
                        reveal_strlit("7");
                    }
                    "7"
                },
                8 => {
                    proof {
                        reveal_strlit("8");
                    }
                    "8"
                },
                _ => {
                    proof {
                        reveal_strlit("9");
                    }
                    "9"
                },
            };
            proof {
                assert(ds@ =~= seq![((48 + self.selection@[i as int]) as u32) as char]);
            }
            out.append(ds);
            proof {
                assert(out@ =~= sel_chars(self.selection@).subrange(0, i + 1));
            }
            i = i + 1;
        }
        proof {
            assert(sel_chars(self.selection@).subrange(0, self.selection@.len() as int)
                =~= sel_chars(self.selection@));
        }
        out
    }

    /// The selector's numeral display: blank the entry line and draw the
    /// entered digits; on the first run also the ruling and the whole
    /// keypad.
    pub fn set_numeral_display(&self, first_run: bool) -> (cmds: Vec<DrawCmd>)
        requires
            self.wf(),
        ensures
            cmds@.len() == (if first_run {
                15int
            } else {
                2int
            }),
            ({
                let h8 = self.height as int / 8;
                let box_y_start = self.height as int - h8 - h8 * 3 / 5 - h8;
                let lw = self.width as int / 14;
                &&& crate::draw::is_clear_part(
                    cmds@[0],
                    "WHITE"@,
                    box_y_start as u32,
                    lw as u32,
                    (self.width - lw) as u32,
                    (h8 * 3 / 5 + (8 * self.scale_pm + 500) / 1000 - 5) as u32,
                )
                &&& crate::draw::is_text(
                    cmds@[1],
                    sel_chars(self.selection@),
                    34,
                    (box_y_start + h8 / 4 + (2 * self.scale_pm + 500) / 1000) as u32,
                    (lw + 20) as u32,
                    "bold"@,
                    "WHITE"@,
                    "BLACK"@,
                )
                &&& (first_run ==> crate::draw::is_text(
                    cmds@[2],
                    "_____________________________________________________________"@,
                    20,
                    (box_y_start + h8 - 40) as u32,
                    (lw + 20) as u32,
                    "regular"@,
                    "WHITE"@,
                    "BLACK"@,
                ) && forall|j: int|
                    0 <= j < 12 ==> crate::draw::is_text(
                        #[trigger] cmds@[3 + j],
                        self.numerals@[j].content@,
                        self.numerals@[j].font_size,
                        (self.numerals@[j].y_start + self.numerals@[j].y_display_pad) as u32,
                        (self.numerals@[j].x_start + self.numerals@[j].x_display_pad) as u32,
                        "regular"@,
                        self.numerals@[j].bg_color@,
                        self.numerals@[j].fg_color@,
                    ))
            }),
    {
        proof {
            vstd::arithmetic::div_mod::lemma_fundamental_div_mod(self.height as int, 8int);
            vstd::arithmetic::div_mod::lemma_fundamental_div_mod(self.width as int, 14int);
            let h8i = self.height as int / 8;
            vstd::arithmetic::div_mod::lemma_fundamental_div_mod(3 * h8i, 5int);
        }
        let h8 = self.height / 8;
        let d35 = h8 * 3 / 5;
        proof {
            vstd::arithmetic::div_mod::lemma_fundamental_div_mod((h8 * 3) as int, 5int);
            assert(d35 <= h8 * 3);
        }
        let box_y_start = self.height - h8 - d35 - h8;
        let lw = self.width / 14;
        let sc8 = scale_calc(8, self.scale_pm);
        let mut cmds: Vec<DrawCmd> = Vec::new();
        cmds.push(
            crate::draw::clear_canvas_partly(
                "WHITE",
                box_y_start,
                lw,
                self.width - lw,
                d35 + sc8 - 5,
            ),
        );
        let text = self.selection_text();
        cmds.push(
            crate::draw::draw_text(
                text.as_str(),
                34,
                box_y_start + h8 / 4 + scale_calc(2, self.scale_pm),
                lw + 20,
                "bold",
                "WHITE",
                "BLACK",
            ),
        );
        if first_run {
            cmds.push(
                crate::draw::draw_text(
                    "_____________________________________________________________",
                    20,
                    box_y_start + h8 - 40,
                    lw + 20,
                    "regular",
                    "WHITE",
                    "BLACK",
                ),
            );
            let mut j: usize = 0;
            while j < 12
                invariant
                    0 <= j <= 12,
                    self.wf(),
                    cmds@.len() == 3 + j,
                    forall|k: int|
                        0 <= k < j ==> crate::draw::is_text(
                            #[trigger] cmds@[3 + k],
                            self.numerals@[k].content@,
                            self.numerals@[k].font_size,
                            (self.numerals@[k].y_start + self.numerals@[k].y_display_pad) as u32,
                            (self.numerals@[k].x_start + self.numerals@[k].x_display_pad) as u32,
                            "regular"@,
                            self.numerals@[k].bg_color@,
                            self.numerals@[k].fg_color@,
                        ),
                    cmds@.len() >= 3,
                    crate::draw::is_clear_part(
                        cmds@[0],
                        "WHITE"@,
                        (self.height as int - self.height as int / 8 - self.height as int / 8 * 3
                            / 5 - self.height as int / 8) as u32,
                        (self.width as int / 14) as u32,
                        (self.width - self.width as int / 14) as u32,
                        (self.height as int / 8 * 3 / 5 + (8 * self.scale_pm + 500) / 1000
                            - 5) as u32,
                    ),
                    crate::draw::is_text(
                        cmds@[1],
                        sel_chars(self.selection@),
                        34,
                        (self.height as int - self.height as int / 8 - self.height as int / 8 * 3
                            / 5 - self.height as int / 8 + self.height as int / 8 / 4 + (2
                            * self.scale_pm + 500) / 1000) as u32,
                        (self.width as int / 14 + 20) as u32,
                        "bold"@,
                        "WHITE"@,
                        "BLACK"@,
                    ),
                    crate::draw::is_text(
                        cmds@[2],
                        "_____________________________________________________________"@,
                        20,
                        (self.height as int - self.height as int / 8 - self.height as int / 8 * 3
                            / 5 - self.height as int / 8 + self.height as int / 8 - 40) as u32,
                        (self.width as int / 14 + 20) as u32,
                        "regular"@,
                        "WHITE"@,
                        "BLACK"@,
                    ),
                decreases 12 - j,
            {
                let region = &self.numerals[j];
                match region.draw() {
                    Option::Some(c) => cmds.push(c),
                    Option::None => {
                        proof {
                            assert(false);
                        }
                    },
                }
                j = j + 1;
            }
        }
        cmds
    }
}

impl UiState {
    /// The full main-player redraw: the song plan, then the transport,
    /// close and (when scrubbing is on) seek controls.
    pub fn draw_all(&self, skip_album_art: bool) -> (cmds: Vec<DrawCmd>)
        requires
            self.wf(),
            self.current_track is Some,
        ensures
            ({
                let base: int = if skip_album_art {
                    4
                } else {
                    5
                };
                let o: int = if self.disable_scrub {
                    0
                } else {
                    1
                };
                &&& cmds@.len() == base + 4 + 2 * o
                &&& (if skip_album_art {
                    crate::draw::is_clear_part(
                        cmds@[0],
                        "BLACK"@,
                        self.width,
                        0,
                        self.width,
                        (self.height - self.width) as u32,
                    )
                } else {
                    crate::draw::is_clear_full(cmds@[0], "BLACK"@) && cmds@[1] == (
                    DrawCmd::AlbumArt {
                        embedded: opt_track_view(self.current_track)->Some_0.cover is Some,
                    })
                })
                &&& crate::draw::is_clear_part(
                    cmds@[1 + base - 4],
                    "GRAY6"@,
                    self.width,
                    0,
                    self.width,
                    10,
                )
                &&& crate::draw::is_text(
                    cmds@[base - 2],
                    opt_track_view(self.current_track)->Some_0.title,
                    ((17 * self.scale_pm + 500) / 1000) as u32,
                    (self.width + (110 * self.scale_pm + 500) / 1000 - (5 * self.scale_pm + 500)
                        / 1000) as u32,
                    10,
                    "regular"@,
                    "black"@,
                    "white"@,
                )
                &&& crate::draw::is_text(
                    cmds@[base - 1],
                    opt_track_view(self.current_track)->Some_0.artist,
                    ((12 * self.scale_pm + 500) / 1000) as u32,
                    (self.width + (156 * self.scale_pm + 500) / 1000 - (5 * self.scale_pm + 500)
                        / 1000) as u32,
                    10,
                    "italic"@,
                    "black"@,
                    "white"@,
                )
                &&& is_region_text(cmds@[base], self.controls@[CTRL_PREV as int])
                &&& (!self.disable_scrub ==> is_region_text(
                    cmds@[base + 1],
                    self.controls@[CTRL_BACK5S as int],
                ))
                &&& is_region_text(cmds@[base + 1 + o], self.controls@[CTRL_PAUSE as int])
                &&& (!self.disable_scrub ==> is_region_text(
                    cmds@[base + 3],
                    self.controls@[CTRL_FORWARD5S as int],
                ))
                &&& is_region_text(cmds@[base + 2 + 2 * o], self.controls@[CTRL_NEXT as int])
                &&& is_region_text(cmds@[base + 3 + 2 * o], self.controls@[CTRL_CLOSE as int])
            }),
    {
        let t = match &self.current_track {
            Option::Some(t) => t,
            Option::None => {
                proof {
                    assert(false);
                }
                return Vec::new();
            },
        };
        let mut cmds = crate::draw::draw_song(
            t,
            skip_album_art,
            self.width,
            self.height,
            self.scale_pm,
        );
        let order: [usize; 6] = [
            CTRL_PREV,
            CTRL_BACK5S,
            CTRL_PAUSE,
            CTRL_FORWARD5S,
            CTRL_NEXT,
            CTRL_CLOSE,
        ];
        let ghost plan0 = cmds@;
        let mut k: usize = 0;
        let ghost base: int = if skip_album_art {
            4
        } else {
            5
        };
        let ghost o: int = if self.disable_scrub {
            0
        } else {
            1
        };
        while k < 6
            invariant
                0 <= k <= 6,
                self.wf(),
                order@ =~= seq![
                    CTRL_PREV,
                    CTRL_BACK5S,
                    CTRL_PAUSE,
                    CTRL_FORWARD5S,
                    CTRL_NEXT,
                    CTRL_CLOSE,
                ],
                base == if skip_album_art {
                    4int
                } else {
                    5int
                },
                o == if self.disable_scrub {
                    0int
                } else {
                    1int
                },
                cmds@.len() == base + emitted(k as int, o),
                plan0.len() == base,
                forall|i: int| 0 <= i < base ==> #[trigger] cmds@[i] == plan0[i],
                k >= 1 ==> is_region_text(cmds@[base], self.controls@[CTRL_PREV as int]),
                k >= 2 && !self.disable_scrub ==> is_region_text(
                    cmds@[base + 1],
                    self.controls@[CTRL_BACK5S as int],
                ),
                k >= 3 ==> is_region_text(cmds@[base + 1 + o], self.controls@[CTRL_PAUSE as int]),
                k >= 4 && !self.disable_scrub ==> is_region_text(
                    cmds@[base + 3],
                    self.controls@[CTRL_FORWARD5S as int],
                ),
                k >= 5 ==> is_region_text(cmds@[base + 2 + 2 * o], self.controls@[CTRL_NEXT as int]),
                k >= 6 ==> is_region_text(
                    cmds@[base + 3 + 2 * o],
                    self.controls@[CTRL_CLOSE as int],
                ),
            decreases 6 - k,
        {
            let idx = order[k];
            match self.controls[idx].draw() {
                Option::Some(c) => cmds.push(c),
                Option::None => {},
            }
            k = k + 1;
        }
        cmds
    }
}

/// The number of control commands emitted after `k` of the six controls
/// were visited, with the two seek controls only counted when scrubbing
/// is on (`o == 1`).
pub open spec fn emitted(k: int, o: int) -> int {
    if k <= 1 {
        k
    } else if k <= 3 {
        1 + o + (k - 2)
    } else if k == 4 {
        2 + 2 * o
    } else {
        k - 2 + 2 * o
    }
}

/// The command drawing a region's text.
pub open spec fn is_region_text(c: DrawCmd, r: BoundingBoxTextInteractive) -> bool {
    crate::draw::is_text(
        c,
        r.content@,
        r.font_size,
        (r.y_start + r.y_display_pad) as u32,
        (r.x_start + r.x_display_pad) as u32,
        "regular"@,
        r.bg_color@,
        r.fg_color@,
    )
}

impl UiState {
    /// The repaint for one progress span: newly elapsed ground in the
    /// light shade, ground given back in the dark one.
    pub fn render_progress_span(&self, sp: &Span) -> (c: DrawCmd)
        requires
            self.wf(),
            sp.start <= sp.end,
        ensures
            crate::draw::is_clear_part(
                c,
                if sp.backward {
                    "GRAY6"@
                } else {
                    "GRAYD"@
                },
                self.width,
                sp.start,
                (sp.end - sp.start) as u32,
                10,
            ),
    {
        let color: &str = if sp.backward {
            "GRAY6"
        } else {
            "GRAYD"
        };
        crate::draw::clear_canvas_partly(color, self.width, sp.start, sp.end - sp.start, 10)
    }

    /// Repaint the elapsed part of the bar after the player reopens.
    pub fn render_progress_restore(&self, upto: u32) -> (c: DrawCmd)
        requires
            self.wf(),
        ensures
            crate::draw::is_clear_part(c, "GRAYD"@, self.width, 0, upto, 10),
    {
        crate::draw::clear_canvas_partly("GRAYD", self.width, 0, upto, 10)
    }

    /// Blank the selector's keypad area.
    pub fn render_selector_chrome(&self) -> (c: DrawCmd)
        requires
            self.wf(),
        ensures
            ({
                let h8 = self.height as int / 8;
                let box_y_start = self.height as int - h8 - h8 * 3 / 5 - h8;
                let lw = self.width as int / 14;
                crate::draw::is_clear_part(
                    c,
                    "WHITE"@,
                    box_y_start as u32,
                    lw as u32,
                    (self.width - lw) as u32,
                    h8 as u32,
                )
            }),
    {
        proof {
            vstd::arithmetic::div_mod::lemma_fundamental_div_mod(self.height as int, 8int);
            vstd::arithmetic::div_mod::lemma_fundamental_div_mod(self.width as int, 14int);
            let h8i = self.height as int / 8;
            vstd::arithmetic::div_mod::lemma_fundamental_div_mod(3 * h8i, 5int);
        }
        let h8 = self.height / 8;
        let d35 = h8 * 3 / 5;
        proof {
            vstd::arithmetic::div_mod::lemma_fundamental_div_mod((h8 * 3) as int, 5int);
            assert(d35 <= h8 * 3);
        }
        let box_y_start = self.height - h8 - d35 - h8;
        let lw = self.width / 14;
        crate::draw::clear_canvas_partly("WHITE", box_y_start, lw, self.width - lw, h8)
    }

    /// The volume readout, right-aligned to three digits.
    pub fn render_volume_cmd(&self, volume: u32, font: &str) -> (c: DrawCmd)
        requires
            self.wf(),
        ensures
            c matches DrawCmd::TextWithFont { text, size, top, left, font: f, bg, fg } && text@
                =~= vol_text(volume) && size == 9 && top == self.width - 50 && left == 2 && f@
                == font@ && bg@ == "BLACK"@ && fg@ == "WHITE"@,
    {
        let digits = u64_to_string(volume as u64);
        let pad: &str = if volume < 10 {
            "  "
        } else if volume < 100 {
            " "
        } else {
            ""
        };
        proof {
            reveal_strlit("  ");
            reveal_strlit(" ");
            reveal_strlit("");
            lemma_dec_rep_len(volume as nat);
        }
        let text = String::from_str(" Volume ").concat(pad).concat(digits.as_str()).concat(" ");
        proof {
            assert(text@ =~= vol_text(volume));
        }
        crate::draw::draw_text_with_bg(text.as_str(), 9, self.width - 50, 2, font, "BLACK", "WHITE")
    }
}

/// The volume readout's text: the number right-aligned to three places
/// between single spaces after the label.
pub open spec fn vol_text(v: u32) -> Seq<char> {
    " Volume "@ + (if v < 10 {
        seq![' ', ' ']
    } else if v < 100 {
        seq![' ']
    } else {
        Seq::<char>::empty()
    }) + dec_rep(v as nat) + " "@
}

/// How many digits a number prints with.
proof fn lemma_dec_rep_len(n: nat)
    ensures
        dec_rep(n).len() >= 1,
        n < 10 ==> dec_rep(n).len() == 1,
        10 <= n < 100 ==> dec_rep(n).len() == 2,
        100 <= n < 1000 ==> dec_rep(n).len() == 3,
    decreases n,
{
    if n >= 10 {
        lemma_dec_rep_len(n / 10);
    }
}

} // verus!
