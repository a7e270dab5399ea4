//! The pointer synchronizer: moves a DMA pointer register by a delta while
//! the DMA engine keeps advancing it on its own clock.
//!
//! Each attempt loads the register, captures the pacing timer and stores
//! `loaded + delta` only when the timer is inside the safe window, where no
//! transaction edge (and so no hardware advance of the pointer) can fall
//! before the store. An attempt outside the window, or whose exclusive store
//! fails, is discarded and the loop starts over.
use vstd::prelude::*;
use vstd::wrapping::u32_specs::wrapping_add;

verus! {

/// Timer values between which a pointer may be written.
#[derive(PartialEq, Eq, Structural, Clone, Copy, Debug)]
pub struct SafeWindow {
    /// Smallest safe timer value.
    pub lower: u32,
    /// Largest safe timer value.
    pub upper: u32,
}

/// Timer ticks after a transaction edge before a write is safe.
pub const WINDOW_LEAD: u32 = 25;

/// Timer ticks before the next edge after which a write is unsafe.
pub const WINDOW_TAIL: u32 = 20;

/// Whether timer value `t` lies in the window.
pub open spec fn in_window(w: SafeWindow, t: u32) -> bool {
    w.lower <= t <= w.upper
}

impl SafeWindow {
    /// The window for a pacing timer that fires every `interval` ticks.
    pub fn for_interval(interval: u32) -> (r: SafeWindow)
        requires
            interval >= WINDOW_LEAD + WINDOW_TAIL,
        ensures
            r.lower == WINDOW_LEAD,
            r.upper == interval - WINDOW_TAIL,
    {
        SafeWindow { lower: WINDOW_LEAD, upper: interval - WINDOW_TAIL }
    }
}

/// The decision of one attempt.
#[derive(PartialEq, Eq, Structural, Clone, Copy, Debug)]
pub enum AdjustStep {
    /// Too close to an edge: discard and start over.
    Retry,
    /// Store this value with an exclusive store.
    Store(u32),
}

/// Decides one attempt from the loaded register value and the captured
/// timer value.
pub fn adjust_step(w: SafeWindow, loaded: u32, timer: u32, delta: u32) -> (r: AdjustStep)
    ensures
        r == (if in_window(w, timer) {
            AdjustStep::Store(wrapping_add(loaded, delta))
        } else {
            AdjustStep::Retry
        }),
{
    if w.lower <= timer && timer <= w.upper {
        AdjustStep::Store(loaded.wrapping_add(delta))
    } else {
        AdjustStep::Retry
    }
}

/// What happens around one attempt, as a simulated DMA engine sees it.
#[derive(PartialEq, Eq, Structural, Clone, Copy, Debug)]
pub struct AttemptEvents {
    /// Timer value captured by the attempt.
    pub timer: u32,
    /// Whether a transaction edge (a hardware advance of the pointer) falls
    /// between the load and the store.
    pub edge: bool,
    /// Whether the exclusive store fails (the exclusive monitor was cleared).
    pub store_fails: bool,
}

/// One write to the register during a simulation.
#[derive(PartialEq, Eq, Structural, Clone, Copy, Debug)]
pub struct RegisterWrite {
    /// Written by the synchronizer (else by the DMA engine).
    pub by_software: bool,
    /// Value before the write.
    pub before: u32,
    /// Value after the write.
    pub after: u32,
}

/// The writes chain from `start` to `end`: each starts where the previous
/// one ended.
pub open spec fn chained(t: Seq<RegisterWrite>, start: u32, end: u32) -> bool {
    &&& (forall|i: int| 0 <= i < t.len() - 1 ==> (#[trigger] t[i]).after == t[i + 1].before)
    &&& t.len() == 0 ==> start == end
    &&& t.len() > 0 ==> t[0].before == start && t.last().after == end
}

/// Whether an attempt's exclusive store takes effect: the timer is in the
/// window, the reservation was not cleared, and no transaction edge wrote the
/// register between the load and the store (such a write clears the
/// reservation, so the store fails and the attempt is retried).
pub open spec fn stores(w: SafeWindow, e: AttemptEvents) -> bool {
    in_window(w, e.timer) && !e.store_fails && !e.edge
}

/// The run of the synchronizer from attempt `i` on, with the register at
/// `reg`: the value stored (if an attempt stores), every write to the
/// register in order, and the register's final value. Attempts before the
/// first storing one only see hardware writes, one per edge; the storing
/// attempt writes the value it loaded plus `delta`, and nothing follows.
pub open spec fn adjust_run(reg: u32, delta: u32, step: u32, w: SafeWindow, ev: Seq<AttemptEvents>, i: int) -> (
    Option<u32>,
    Seq<RegisterWrite>,
    u32,
)
    decreases ev.len() - i,
{
    if i < 0 || i >= ev.len() {
        (None, Seq::empty(), reg)
    } else if stores(w, ev[i]) {
        let v = wrapping_add(reg, delta);
        (Some(v), seq![RegisterWrite { by_software: true, before: reg, after: v }], v)
    } else if ev[i].edge {
        let reg1 = wrapping_add(reg, step);
        let rest = adjust_run(reg1, delta, step, w, ev, i + 1);
        (rest.0, seq![RegisterWrite { by_software: false, before: reg, after: reg1 }] + rest.1, rest.2)
    } else {
        adjust_run(reg, delta, step, w, ev, i + 1)
    }
}

/// Runs the synchronizer against a simulated DMA engine that advances the
/// register by `step` at each transaction edge. Returns the value stored, or
/// `None` when the events run out first, together with every write to the
/// register in order; the result is exactly `adjust_run`.
///
/// It stores at the first attempt that can store, and at no other. Every
/// write of the synchronizer turns the value it finds into that value plus
/// `delta`, there is at most one such write and it is the last: an observer
/// never sees a value other than the pre-adjustment value (as the hardware
/// left it) or that value plus `delta`.
pub fn simulate_adjust(
    reg: &mut u32,
    delta: u32,
    step: u32,
    w: SafeWindow,
    events: &Vec<AttemptEvents>,
) -> (r: (Option<u32>, Vec<RegisterWrite>))
    ensures
        ({
            let run = adjust_run(*old(reg), delta, step, w, events@, 0);
            r.0 == run.0 && r.1@ == run.1 && *final(reg) == run.2
        }),
        r.0 is Some <==> exists|i: int| 0 <= i < events@.len() && #[trigger] stores(w, events@[i]),
        chained(r.1@, *old(reg), *final(reg)),
        forall|i: int| 0 <= i < r.1@.len() ==> {
            let x = #[trigger] r.1@[i];
            if x.by_software {
                x.after == wrapping_add(x.before, delta) && i == r.1@.len() - 1
            } else {
                x.after == wrapping_add(x.before, step)
            }
        },
        r.0 is Some <==> (r.1@.len() > 0 && r.1@.last().by_software),
        r.0 is Some ==> r.0->Some_0 == *final(reg),
{
    let ghost ev = events@;
    let ghost run0 = adjust_run(*reg, delta, step, w, ev, 0);
    let mut trace: Vec<RegisterWrite> = Vec::new();
    let mut i: usize = 0;
    while i < events.len()
        invariant
            i <= events@.len(),
            ev == events@,
            run0 == adjust_run(*old(reg), delta, step, w, ev, 0),
            run0.0 == adjust_run(*reg, delta, step, w, ev, i as int).0,
            run0.1 == trace@ + adjust_run(*reg, delta, step, w, ev, i as int).1,
            run0.2 == adjust_run(*reg, delta, step, w, ev, i as int).2,
            forall|j: int| 0 <= j < i ==> !#[trigger] stores(w, ev[j]),
            chained(trace@, *old(reg), *reg),
            forall|j: int| 0 <= j < trace@.len() ==> !(#[trigger] trace@[j]).by_software && trace@[j].after
                == wrapping_add(trace@[j].before, step),
        decreases events@.len() - i,
    {
        let e = events[i];
        let loaded = *reg;
        let ghost tr0 = trace@;
        if e.edge {
            let before = *reg;
            *reg = reg.wrapping_add(step);
            trace.push(RegisterWrite { by_software: false, before, after: *reg });
            assert(trace@ + adjust_run(*reg, delta, step, w, ev, i + 1).1 =~= tr0 + (seq![
                RegisterWrite { by_software: false, before, after: *reg },
            ] + adjust_run(*reg, delta, step, w, ev, i + 1).1));
        }
        match adjust_step(w, loaded, e.timer, delta) {
            AdjustStep::Retry => {},
            AdjustStep::Store(v) => {
                if !e.store_fails && !e.edge {
                    let before = *reg;
                    *reg = v;
                    trace.push(RegisterWrite { by_software: true, before, after: v });
                    assert(trace@ =~= tr0 + adjust_run(loaded, delta, step, w, ev, i as int).1);
                    assert(trace@ =~= run0.1);
                    return (Some(v), trace);
                }
            },
        }
        i = i + 1;
    }
    assert(trace@ =~= run0.1);
    (None, trace)
}

} // verus!
