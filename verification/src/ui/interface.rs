//! The parts of the interface drawn inside the window, the options that
//! shape it, and how its lines are put together each frame.
use vstd::prelude::*;

use crate::args::Args;
use crate::ui::Error;

pub mod components;
pub mod titlebar;
pub mod window;

verus! {

/// Options of the interface.
#[derive(Copy, Clone, Debug)]
pub struct Params {
    /// Whether to leave out the borders.
    pub borderless: bool,
    /// Whether to leave out the bottom control bar.
    pub minimalist: bool,
    /// Whether the interface is drawn at all.
    pub enabled: bool,
    /// Whether the title bar shows a clock.
    pub clock: bool,
    /// The inner width of the window.
    pub width: usize,
    /// The time between frames.
    pub delta: std::time::Duration,
}

/// The inner width of the window for the width option: 21 places, and two
/// more for each step of the option, up to 32 steps.
pub open spec fn inner_width(width: nat) -> nat {
    21 + 2 * if width < 32 {
        width
    } else {
        32
    }
}

/// The lines of a frame: the action bar, the middle bar, and the control
/// bar unless the interface is minimalist.
pub open spec fn menu_lines(action: Seq<char>, middle: Seq<char>, controls: Seq<char>, minimalist: bool) -> Seq<
    Seq<char>,
> {
    if minimalist {
        seq![action, middle]
    } else {
        seq![action, middle, controls]
    }
}

impl Params {
    /// The inner width of the window for the width option.
    pub fn window_width(width: usize) -> (r: usize)
        ensures
            r == inner_width(width as nat),
    {
        let w = if width < 32 {
            width
        } else {
            32
        };
        21 + w * 2
    }

    /// The options of the interface from the command line, given the time
    /// between frames and whether the interface was turned off; it can only
    /// be turned off when media controls can stand in for it.
    pub fn from_args(args: &Args, delta: std::time::Duration, disabled: bool, media_controls: bool) -> (r:
        Result<Self, Error>)
        ensures
            (disabled && !media_controls) <==> r is Err,
            r matches Err(e) ==> e is RejectedDisable,
            r matches Ok(p) ==> p.delta == delta && p.enabled == !disabled && p.clock == args.clock
                && p.width == inner_width(args.width as nat) && p.minimalist == args.minimalist
                && p.borderless == args.borderless,
    {
        if disabled && !media_controls {
            return Err(Error::RejectedDisable);
        }
        Ok(
            Params {
                delta,
                enabled: !disabled,
                clock: args.clock,
                width: Self::window_width(args.width),
                minimalist: args.minimalist,
                borderless: args.borderless,
            },
        )
    }

    /// The widths of the progress bar and of the volume bar in a window of
    /// this width.
    pub fn bar_widths(&self) -> (r: (usize, usize))
        requires
            self.width >= 17,
        ensures
            r.0 == self.width - 16,
            r.1 == self.width - 17,
    {
        (self.width - 16, self.width - 17)
    }
}

/// The lines of a frame.
pub fn menu(action: String, middle: String, controls: String, minimalist: bool) -> (r: Vec<String>)
    ensures
        r@.map_values(|s: String| s@) == menu_lines(action@, middle@, controls@, minimalist),
{
    let ghost (a, m, c) = (action@, middle@, controls@);
    let mut v: Vec<String> = Vec::new();
    v.push(action);
    v.push(middle);
    if !minimalist {
        v.push(controls);
    }
    assert(v@.map_values(|s: String| s@) =~= menu_lines(a, m, c, minimalist));
    v
}

/// How many frames the volume bar stays after the volume changes.
pub open spec fn volume_frames() -> nat {
    10
}

/// One frame of the volume timer: the volume bar shows while the timer is
/// not 0; a running timer counts up until it has counted the frames, then
/// goes back to 0.
pub open spec fn volume_step(timer: nat) -> (bool, nat) {
    (timer != 0, if 0 < timer <= volume_frames() {
        timer + 1
    } else {
        0
    })
}

/// One frame of the volume timer: whether the volume bar shows, and the
/// timer's next value.
pub fn volume_timer_step(timer: usize) -> (r: (bool, usize))
    ensures
        (r.0, r.1 as nat) == volume_step(timer as nat),
{
    if timer > 0 && timer <= 10 {
        (true, timer + 1)
    } else {
        (timer != 0, 0)
    }
}

/// How long the volume bar stays after the volume changes, in milliseconds.
pub open spec fn volume_bar_millis() -> nat {
    1000
}

/// The volume bar with its timer started `elapsed` milliseconds ago (`None`
/// when no timer runs): whether the bar shows in this frame, and whether
/// the timer keeps running, which it does until more than a second passed.
pub open spec fn volume_bar(elapsed: Option<u64>) -> (bool, bool) {
    match elapsed {
        Some(ms) => (true, ms <= volume_bar_millis()),
        None => (false, false),
    }
}

/// One frame of the timed volume bar: whether it shows, and whether its
/// timer keeps running.
pub fn volume_bar_step(elapsed: Option<u64>) -> (r: (bool, bool))
    ensures
        r == volume_bar(elapsed),
{
    match elapsed {
        Some(ms) => (true, ms <= 1000),
        None => (false, false),
    }
}

/// The timed volume bar shows in every frame while its timer runs, and the
/// timer stops once more than a second has passed, never before.
pub proof fn law_volume_bar_lasts_a_second(elapsed: u64)
    ensures
        volume_bar(Some(elapsed)).0,
        volume_bar(Some(elapsed)).1 <==> elapsed <= volume_bar_millis(),
        !volume_bar(None).0,
{
}

/// A flash of the volume bar lasts as many frames as the timer counts,
/// then ends: started at 1, the timer shows the bar and returns to 0.
pub proof fn law_volume_flash_ends(timer: nat)
    requires
        1 <= timer <= volume_frames() + 1,
    ensures
        volume_step(timer).0,
        volume_step(timer).1 == 0 || volume_step(timer).1 == timer + 1,
        timer == volume_frames() + 1 ==> volume_step(timer).1 == 0,
{
}

} // verus!
