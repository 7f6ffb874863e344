//! The flicker scheduler: between two turns, an overlay of the last frame
//! is drawn again and again, each time for as long as its script asks,
//! until input arrives or the script declines to go on.
//!
//! The scheduler is a state machine. Whoever owns the terminal runs it: in
//! `Rendering` they draw an overlay and report what its script returned, in
//! `Waiting` they wait for input for the given time and report how the wait
//! ended. `Delivering` and `Finished` are final.

use crate::frontend::Frontend;
use crate::frontend::Screen;
use vstd::prelude::*;

verus! {

/// Where the scheduler stands. Times are in nanoseconds.
#[derive(Clone, Copy, Debug, PartialEq, Eq, Structural)]
pub enum Flicker {
    /// An overlay is due.
    Rendering,
    /// The overlay is on the screen; input is awaited for `timeout`.
    Waiting { timeout: u128 },
    /// Input arrived with `remaining` of the timeout left: it is to be read
    /// and returned.
    Delivering { remaining: u128 },
    /// The script declined to go on: there is no input to return.
    Finished,
}

/// What the owner of the terminal reports back.
#[derive(Clone, Copy, Debug, PartialEq, Eq, Structural)]
pub enum Signal {
    /// An overlay was drawn; its script asked for this timeout, or for none.
    Frame(Option<u128>),
    /// The wait ended without input.
    Quiet,
    /// Input arrived after `elapsed` of the wait.
    Input { elapsed: u128 },
}

/// The smaller of two times.
pub open spec fn least(a: u128, b: u128) -> u128 {
    if a <= b {
        a
    } else {
        b
    }
}

impl Flicker {
    /// The state after a report. A report that does not belong to the state
    /// leaves it as it is.
    pub open spec fn after(self, signal: Signal) -> Flicker {
        match (self, signal) {
            (Flicker::Rendering, Signal::Frame(Some(timeout))) => Flicker::Waiting { timeout },
            (Flicker::Rendering, Signal::Frame(None)) => Flicker::Finished,
            (Flicker::Waiting { timeout }, Signal::Quiet) => Flicker::Rendering,
            (Flicker::Waiting { timeout }, Signal::Input { elapsed }) => Flicker::Delivering {
                remaining: (timeout - least(elapsed, timeout)) as u128,
            },
            _ => self,
        }
    }

    /// Whether the scheduler has come to an end.
    pub open spec fn is_final(self) -> bool {
        self is Delivering || self is Finished
    }

    /// The scheduler starts by drawing an overlay.
    pub fn start() -> (state: Flicker)
        ensures
            state == Flicker::Rendering,
    {
        Flicker::Rendering
    }

    pub fn next(self, signal: Signal) -> (state: Flicker)
        ensures
            state == self.after(signal),
    {
        match self {
            Flicker::Rendering => match signal {
                Signal::Frame(Some(timeout)) => Flicker::Waiting { timeout },
                Signal::Frame(None) => Flicker::Finished,
                _ => self,
            },
            Flicker::Waiting { timeout } => match signal {
                Signal::Quiet => Flicker::Rendering,
                Signal::Input { elapsed } => {
                    let spent = if elapsed <= timeout {
                        elapsed
                    } else {
                        timeout
                    };
                    Flicker::Delivering { remaining: timeout - spent }
                },
                _ => self,
            },
            _ => self,
        }
    }

    pub fn finished(&self) -> (done: bool)
        ensures
            done == self.is_final(),
    {
        match self {
            Flicker::Delivering { .. } => true,
            Flicker::Finished => true,
            _ => false,
        }
    }
}

impl Frontend {
    /// Draws one overlay: runs `script` on a copy of the last frame's
    /// buffer, appends the flush of the copy, and returns the timeout that
    /// the script asks for. The frontend's own buffer is not touched.
    pub fn flicker<F: FnMut(&mut Screen) -> Option<u128>>(
        &self,
        script: &mut F,
        writer: &mut String,
    ) -> (timeout: Option<u128>)
        requires
            self@.buffer.size.cells() > 0,
            forall|screen: &mut Screen|
                (*screen)@ == self@.buffer ==> #[trigger] (*old(script)).requires((screen,)),
            forall|screen: &mut Screen, timeout: Option<u128>| #[trigger]
                (*old(script)).ensures((screen,), timeout) ==> (*final(screen))@.size == (
                *screen)@.size,
        ensures
            *final(script) == *old(script),
            exists|screen: &mut Screen|
                (*screen)@ == self@.buffer && #[trigger] (*old(script)).ensures(
                    (screen,),
                    timeout,
                ) && final(writer)@ == old(writer)@ + (*final(screen))@.rendered(),
    {
        let mut overlay = self.buffer.clone();
        let mut screen = Screen::new(&mut overlay);
        let timeout = script(&mut screen);
        let _ = screen.size();
        screen.buffer.flush(writer);
        timeout
    }
}

impl Flicker {
    /// The state after a run of reports, the first of them first.
    pub open spec fn after_all(self, signals: Seq<Signal>) -> Flicker
        decreases signals.len(),
    {
        if signals.len() == 0 {
            self
        } else {
            self.after_all(signals.drop_last()).after(signals.last())
        }
    }
}

/// The number of overlays that a run of reports tells of.
pub open spec fn frames(signals: Seq<Signal>) -> nat
    decreases signals.len(),
{
    if signals.len() == 0 {
        0
    } else if signals.last() is Frame {
        frames(signals.drop_last()) + 1
    } else {
        frames(signals.drop_last())
    }
}

/// The reports of `rounds` overlays whose script asks for `timeout` each
/// time, every one followed by a wait that ends without input.
pub open spec fn quiet_rounds(timeout: u128, rounds: nat) -> Seq<Signal>
    decreases rounds,
{
    if rounds == 0 {
        Seq::empty()
    } else {
        quiet_rounds(timeout, (rounds - 1) as nat).push(Signal::Frame(Some(timeout))).push(
            Signal::Quiet,
        )
    }
}

/// One more report takes the scheduler one step on, and counts as an
/// overlay if it tells of one.
proof fn lemma_one_more(state: Flicker, signals: Seq<Signal>, signal: Signal)
    ensures
        state.after_all(signals.push(signal)) == state.after_all(signals).after(signal),
        frames(signals.push(signal)) == frames(signals) + if signal is Frame {
            1nat
        } else {
            0nat
        },
{
    assert(signals.push(signal).drop_last() =~= signals);
}

/// While no input arrives, a script that keeps asking for a timeout is
/// drawn again after every wait: after any number of quiet rounds the
/// scheduler is about to draw, and it has drawn one overlay for each round.
pub proof fn lemma_quiet_rounds(timeout: u128, rounds: nat)
    ensures
        Flicker::Rendering.after_all(quiet_rounds(timeout, rounds)) == Flicker::Rendering,
        frames(quiet_rounds(timeout, rounds)) == rounds,
    decreases rounds,
{
    if rounds > 0 {
        lemma_quiet_rounds(timeout, (rounds - 1) as nat);
        let before = quiet_rounds(timeout, (rounds - 1) as nat);
        lemma_one_more(Flicker::Rendering, before, Signal::Frame(Some(timeout)));
        lemma_one_more(
            Flicker::Rendering,
            before.push(Signal::Frame(Some(timeout))),
            Signal::Quiet,
        );
    }
}

/// Input that arrives in the wait after any number of quiet rounds is
/// delivered with the time that was left of that wait: how many overlays
/// were drawn before does not count. By then an overlay was drawn for every
/// timeout that has begun, which is at least one for every timeout that
/// has passed.
pub proof fn lemma_input_after_rounds(timeout: u128, rounds: nat, elapsed: u128)
    ensures
        Flicker::Rendering.after_all(
            quiet_rounds(timeout, rounds).push(Signal::Frame(Some(timeout))).push(
                Signal::Input { elapsed },
            ),
        ) == (Flicker::Delivering { remaining: (timeout - least(elapsed, timeout)) as u128 }),
        frames(
            quiet_rounds(timeout, rounds).push(Signal::Frame(Some(timeout))).push(
                Signal::Input { elapsed },
            ),
        ) == rounds + 1,
        timeout > 0 ==> (rounds * timeout + least(elapsed, timeout)) / (timeout as int) <= rounds
            + 1,
        timeout - least(elapsed, timeout) <= timeout,
        elapsed >= timeout ==> timeout - least(elapsed, timeout) == 0,
{
    lemma_quiet_rounds(timeout, rounds);
    let before = quiet_rounds(timeout, rounds);
    lemma_one_more(Flicker::Rendering, before, Signal::Frame(Some(timeout)));
    lemma_one_more(
        Flicker::Rendering,
        before.push(Signal::Frame(Some(timeout))),
        Signal::Input { elapsed },
    );
    if timeout > 0 {
        let spent = least(elapsed, timeout) as int;
        let whole = timeout as int;
        let count = rounds as int;
        assert((count * whole + spent) / whole <= count + 1) by (nonlinear_arith)
            requires
                whole > 0,
                0 <= spent <= whole,
                count >= 0,
        ;
    }
}

} // verus!
