use vstd::prelude::*;

verus! {

/// Ticks for which the boost ability stays on once activated.
pub const BOOST_ACTIVE_TICKS: usize = 120;

/// Tick count after which a spent boost is ready to be activated again.
pub const BOOST_CYCLE_TICKS: usize = 600;

/// What the caller must do to the boost ability on this tick.
#[derive(Debug, Clone, Copy, PartialEq, Eq, Structural)]
pub enum BoostAction {
    /// Leave the ability as it is.
    Hold,
    /// Switch the ability on.
    Activate,
    /// Switch the ability off (repeated every tick while cooling down).
    Deactivate,
}

/// Next timer value: a ready timer starts on request, a running one counts
/// up and returns to ready once past the cycle length.
pub open spec fn boost_next_ticks(cond: bool, ticks: Option<usize>) -> Option<usize> {
    match ticks {
        None => if cond { Some(0usize) } else { None },
        Some(n) => if n > BOOST_CYCLE_TICKS { None } else { Some((n + 1) as usize) },
    }
}

/// Action that goes with one step of the timer.
pub open spec fn boost_action(cond: bool, ticks: Option<usize>) -> BoostAction {
    match ticks {
        None => if cond { BoostAction::Activate } else { BoostAction::Hold },
        Some(n) => if n >= BOOST_ACTIVE_TICKS { BoostAction::Deactivate } else { BoostAction::Hold },
    }
}

/// One tick of the boost timer: `cond` asks for a boost, `boost_ticks` is the
/// number of ticks since the last activation (`None` when ready).
pub fn boost(cond: bool, boost_ticks: &mut Option<usize>) -> (r: BoostAction)
    ensures
        *final(boost_ticks) == boost_next_ticks(cond, *old(boost_ticks)),
        r == boost_action(cond, *old(boost_ticks)),
{
    match *boost_ticks {
        None => {
            if cond {
                *boost_ticks = Some(0);
                BoostAction::Activate
            } else {
                BoostAction::Hold
            }
        },
        Some(ticks) => {
            if ticks > BOOST_CYCLE_TICKS {
                *boost_ticks = None;
            } else {
                *boost_ticks = Some(ticks + 1);
            }
            if ticks >= BOOST_ACTIVE_TICKS {
                BoostAction::Deactivate
            } else {
                BoostAction::Hold
            }
        },
    }
}

/// Owner of the boost timer.
#[derive(Debug, Clone, Copy, PartialEq, Eq, Structural)]
pub struct BoostController {
    pub ticks: Option<usize>,
}

/// Whether the ability is on for a given timer value.
pub open spec fn boost_active_spec(ticks: Option<usize>) -> bool {
    match ticks {
        None => false,
        Some(n) => n <= BOOST_ACTIVE_TICKS,
    }
}

impl BoostController {
    pub fn new() -> (r: BoostController)
        ensures
            r.ticks is None,
    {
        BoostController { ticks: None }
    }

    /// Advances the timer by one tick; see [`boost`].
    pub fn update(&mut self, cond: bool) -> (r: BoostAction)
        ensures
            final(self).ticks == boost_next_ticks(cond, old(self).ticks),
            r == boost_action(cond, old(self).ticks),
    {
        boost(cond, &mut self.ticks)
    }

    /// True while the ability is switched on.
    pub fn is_active(&self) -> (r: bool)
        ensures
            r == boost_active_spec(self.ticks),
    {
        match self.ticks {
            None => false,
            Some(n) => n <= BOOST_ACTIVE_TICKS,
        }
    }

    /// True when a request would activate the ability.
    pub fn is_ready(&self) -> (r: bool)
        ensures
            r == (self.ticks is None),
    {
        self.ticks.is_none()
    }
}

/// Timer value after `k` ticks starting from `ticks` (requests do not matter
/// once the timer runs).
pub open spec fn boost_after(ticks: Option<usize>, k: nat) -> Option<usize>
    decreases k,
{
    if k == 0 {
        ticks
    } else {
        boost_next_ticks(false, boost_after(ticks, (k - 1) as nat))
    }
}

/// A boost that has just been activated stays on for the next
/// `BOOST_ACTIVE_TICKS` ticks, is off after that, and is ready again exactly
/// `BOOST_CYCLE_TICKS + 2` ticks after activation.
pub proof fn lemma_boost_cycle(k: nat)
    requires
        k <= BOOST_CYCLE_TICKS + 2,
    ensures
        k <= BOOST_CYCLE_TICKS + 1 ==> boost_after(Some(0usize), k) == Some(k as usize),
        boost_active_spec(boost_after(Some(0usize), k)) <==> k <= BOOST_ACTIVE_TICKS,
        boost_after(Some(0usize), k) is None <==> k == BOOST_CYCLE_TICKS + 2,
    decreases k,
{
    if k > 0 {
        lemma_boost_cycle((k - 1) as nat);
    }
}

} // verus!
