//! The terminal environment: what is done to the terminal when the player
//! starts, and undone when it stops.
use vstd::prelude::*;

verus! {

/// What was done to the terminal at start, so that it can be undone.
#[derive(Debug, Clone, Copy)]
pub struct Environment {
    /// Whether keyboard enhancements were turned on.
    pub enhancement: bool,
    /// Whether the terminal was switched to its alternate screen.
    pub alternate: bool,
}

/// A command sent to the terminal.
#[derive(PartialEq, Eq, Structural, Debug, Clone, Copy)]
pub enum Step {
    /// Hide the cursor.
    HideCursor,
    /// Switch to the alternate screen, and put the cursor at its top left.
    EnterAlternateScreen,
    /// Turn raw mode on.
    EnableRawMode,
    /// Ask the terminal to tell escape codes apart.
    PushKeyboardEnhancement,
    /// Leave the alternate screen.
    LeaveAlternateScreen,
    /// Clear below the cursor and show the cursor.
    ClearAndShowCursor,
    /// Undo the keyboard enhancement.
    PopKeyboardEnhancement,
    /// Turn raw mode off.
    DisableRawMode,
    /// Say goodbye on the standard error.
    SayBye,
}

/// The commands that prepare the terminal, before it is asked whether it
/// supports keyboard enhancements.
pub open spec fn ready_spec(alternate: bool) -> Seq<Step> {
    if alternate {
        seq![Step::HideCursor, Step::EnterAlternateScreen, Step::EnableRawMode]
    } else {
        seq![Step::HideCursor, Step::EnableRawMode]
    }
}

/// The commands that restore the terminal.
pub open spec fn cleanup_spec(env: Environment, elegant: bool) -> Seq<Step> {
    (if env.alternate {
        seq![Step::LeaveAlternateScreen]
    } else {
        Seq::empty()
    }) + seq![Step::ClearAndShowCursor] + (if env.enhancement {
        seq![Step::PopKeyboardEnhancement]
    } else {
        Seq::empty()
    }) + seq![Step::DisableRawMode] + (if elegant {
        seq![Step::SayBye]
    } else {
        Seq::empty()
    })
}

impl Environment {
    /// The commands that prepare the terminal, before it is asked whether
    /// it supports keyboard enhancements.
    pub fn ready_steps(alternate: bool) -> (r: Vec<Step>)
        ensures
            r@ == ready_spec(alternate),
    {
        let mut v: Vec<Step> = Vec::new();
        v.push(Step::HideCursor);
        if alternate {
            v.push(Step::EnterAlternateScreen);
        }
        v.push(Step::EnableRawMode);
        assert(v@ =~= ready_spec(alternate));
        v
    }

    /// The environment once the terminal has said whether it supports
    /// keyboard enhancements, with the command that turns them on when it
    /// does.
    pub fn enhance(alternate: bool, supported: bool) -> (r: (Self, Vec<Step>))
        ensures
            r.0.alternate == alternate,
            r.0.enhancement == supported,
            r.1@ == if supported {
                seq![Step::PushKeyboardEnhancement]
            } else {
                Seq::empty()
            },
    {
        let mut v: Vec<Step> = Vec::new();
        if supported {
            v.push(Step::PushKeyboardEnhancement);
        }
        assert(v@ =~= if supported {
            seq![Step::PushKeyboardEnhancement]
        } else {
            Seq::<Step>::empty()
        });
        (Environment { enhancement: supported, alternate }, v)
    }

    /// The commands that restore the terminal: leave the alternate screen
    /// if it was entered, clear and show the cursor, undo the keyboard
    /// enhancement if it was made, turn raw mode off, and say goodbye when
    /// `elegant`.
    pub fn cleanup_steps(&self, elegant: bool) -> (r: Vec<Step>)
        ensures
            r@ == cleanup_spec(*self, elegant),
    {
        let mut v: Vec<Step> = Vec::new();
        if self.alternate {
            v.push(Step::LeaveAlternateScreen);
        }
        v.push(Step::ClearAndShowCursor);
        if self.enhancement {
            v.push(Step::PopKeyboardEnhancement);
        }
        v.push(Step::DisableRawMode);
        if elegant {
            v.push(Step::SayBye);
        }
        assert(v@ =~= cleanup_spec(*self, elegant));
        v
    }
}

/// Cleaning up undoes what preparing did: the alternate screen is left
/// exactly when it was entered, the keyboard enhancement is undone exactly
/// when it was made, and raw mode is turned off.
pub proof fn law_cleanup_undoes_ready(alternate: bool, supported: bool, elegant: bool)
    ensures
        ready_spec(alternate).contains(Step::EnterAlternateScreen) == cleanup_spec(
            Environment { enhancement: supported, alternate },
            elegant,
        ).contains(Step::LeaveAlternateScreen),
        cleanup_spec(Environment { enhancement: supported, alternate }, elegant).contains(
            Step::PopKeyboardEnhancement,
        ) == supported,
        cleanup_spec(Environment { enhancement: supported, alternate }, elegant).contains(
            Step::DisableRawMode,
        ),
{
    let c = cleanup_spec(Environment { enhancement: supported, alternate }, elegant);
    let r = ready_spec(alternate);
    if alternate {
        assert(r[1] == Step::EnterAlternateScreen);
        assert(c[0] == Step::LeaveAlternateScreen);
    } else {
        assert(c[0] == Step::ClearAndShowCursor);
        assert(!r.contains(Step::EnterAlternateScreen)) by {
            if r.contains(Step::EnterAlternateScreen) {
                let k = choose|k: int| 0 <= k < r.len() && r[k] == Step::EnterAlternateScreen;
                assert(k == 0 || k == 1);
            }
        }
        assert(!c.contains(Step::LeaveAlternateScreen)) by {
            if c.contains(Step::LeaveAlternateScreen) {
                let k = choose|k: int| 0 <= k < c.len() && c[k] == Step::LeaveAlternateScreen;
            }
        }
    }
    let a: int = if alternate {
        1
    } else {
        0
    };
    if supported {
        assert(c[a + 1] == Step::PopKeyboardEnhancement);
        assert(c[a + 2] == Step::DisableRawMode);
    } else {
        assert(c[a + 1] == Step::DisableRawMode);
        assert(!c.contains(Step::PopKeyboardEnhancement)) by {
            if c.contains(Step::PopKeyboardEnhancement) {
                let k = choose|k: int| 0 <= k < c.len() && c[k] == Step::PopKeyboardEnhancement;
            }
        }
    }
}

} // verus!
