use vstd::prelude::*;
use vstd::arithmetic::div_mod::{lemma_add_mod_noop_right, lemma_mod_self_0, lemma_small_mod};

verus! {

/// A full turn in binary angle units.
pub const FULL_TURN: u64 = 4294967296;

/// Heading of a fresh scheduler: a quarter turn.
pub const INITIAL_HEADING: u64 = 1073741824;

/// Beam width of a fresh scheduler: a quarter turn.
pub const INITIAL_WIDTH: u64 = 1073741824;

/// Number of beam positions in the first search revolution.
pub const INITIAL_SECTORS: u64 = 4;

/// Range gate that excludes nothing.
pub const UNLIMITED_DISTANCE: u64 = 18446744073709551615;

/// Where the sensor points: heading and width in binary angle units, range
/// gate in metres.
#[derive(Debug, Clone, Copy, PartialEq, Eq, Structural)]
pub struct RadarAim {
    pub heading: u64,
    pub width: u64,
    pub min_distance: u64,
    pub max_distance: u64,
}

/// Search-sweep scheduler with a saved aim that a tracker can return to.
///
/// Each revolution is split into `sectors` beam positions of `width` each;
/// after `sectors` steps the beam has come round, and the next revolution
/// uses half the width and twice as many sectors.
#[derive(Debug, Clone, Copy, PartialEq, Eq, Structural)]
pub struct RadarState {
    pub heading: u64,
    pub width: u64,
    pub min_distance: u64,
    pub max_distance: u64,
    pub sectors: u64,
    pub rotations: u64,
}

impl RadarState {
    pub open spec fn wf(self) -> bool {
        &&& self.heading < FULL_TURN
        &&& 0 < self.width
        &&& self.width * self.sectors == FULL_TURN
        &&& self.rotations < self.sectors
    }

    /// The state after one search step.
    pub open spec fn rotate_spec(self) -> RadarState {
        let heading = ((self.heading + self.width) % (FULL_TURN as int)) as u64;
        let rotations = self.rotations + 1;
        if rotations < self.sectors {
            RadarState { heading, rotations: rotations as u64, ..self }
        } else if self.width % 2 == 0 {
            RadarState {
                heading,
                rotations: 0,
                width: self.width / 2,
                sectors: (self.sectors * 2) as u64,
                ..self
            }
        } else {
            RadarState { heading, rotations: 0, ..self }
        }
    }

    /// The state after `n` search steps.
    pub open spec fn rotated(self, n: nat) -> RadarState
        decreases n,
    {
        if n == 0 {
            self
        } else {
            self.rotated((n - 1) as nat).rotate_spec()
        }
    }

    pub open spec fn aim_spec(self) -> RadarAim {
        RadarAim {
            heading: self.heading,
            width: self.width,
            min_distance: self.min_distance,
            max_distance: self.max_distance,
        }
    }

    /// A full-circle search posture: a quarter-turn beam, no range gate.
    pub fn new() -> (r: RadarState)
        ensures
            r.wf(),
            r.heading == INITIAL_HEADING,
            r.width == INITIAL_WIDTH,
            r.sectors == INITIAL_SECTORS,
            r.rotations == 0,
            r.min_distance == 0,
            r.max_distance == UNLIMITED_DISTANCE,
    {
        RadarState {
            heading: INITIAL_HEADING,
            width: INITIAL_WIDTH,
            min_distance: 0,
            max_distance: UNLIMITED_DISTANCE,
            sectors: INITIAL_SECTORS,
            rotations: 0,
        }
    }

    /// Advances the search beam by one width; after a full revolution the
    /// width is halved (while it can be halved exactly). Returns the aim to
    /// apply: the new heading and width, with the near range gate opened.
    pub fn rotate(&mut self) -> (r: RadarAim)
        requires
            old(self).wf(),
        ensures
            *final(self) == old(self).rotate_spec(),
            final(self).wf(),
            r == (RadarAim { min_distance: 0, ..final(self).aim_spec() }),
    {
        proof {
            lemma_rotate_wf(*self);
        }
        self.heading = (self.heading + self.width) % FULL_TURN;
        self.rotations = self.rotations + 1;
        if self.rotations >= self.sectors {
            self.rotations = 0;
            if self.width % 2 == 0 {
                self.width = self.width / 2;
                self.sectors = self.sectors * 2;
            }
        }
        RadarAim {
            heading: self.heading,
            width: self.width,
            min_distance: 0,
            max_distance: self.max_distance,
        }
    }

    /// Records the sensor's current heading and range gate, keeping the
    /// sweep width and progress.
    pub fn save(&mut self, current: RadarAim)
        requires
            old(self).wf(),
        ensures
            final(self).wf(),
            final(self).heading == current.heading % FULL_TURN,
            final(self).min_distance == current.min_distance,
            final(self).max_distance == current.max_distance,
            final(self).width == old(self).width,
            final(self).sectors == old(self).sectors,
            final(self).rotations == old(self).rotations,
    {
        self.heading = current.heading % FULL_TURN;
        self.min_distance = current.min_distance;
        self.max_distance = current.max_distance;
    }

    /// The saved aim, to point the sensor back at.
    pub fn restore(&self) -> (r: RadarAim)
        ensures
            r == self.aim_spec(),
    {
        RadarAim {
            heading: self.heading,
            width: self.width,
            min_distance: self.min_distance,
            max_distance: self.max_distance,
        }
    }
}

proof fn lemma_rotate_wf(s: RadarState)
    requires
        s.wf(),
    ensures
        s.rotate_spec().wf(),
        s.heading + s.width <= 2 * FULL_TURN,
        s.width % 2 == 0 ==> s.sectors * 2 <= 2 * FULL_TURN,
{
    assert(s.width <= FULL_TURN) by (nonlinear_arith)
        requires
            0 < s.width,
            s.width * s.sectors == FULL_TURN,
    ;
    assert(s.sectors <= FULL_TURN) by (nonlinear_arith)
        requires
            0 < s.width,
            s.width * s.sectors == FULL_TURN,
    ;
    if s.width % 2 == 0 {
        let h = s.width / 2;
        assert(h * (s.sectors * 2) == s.width * s.sectors) by (nonlinear_arith)
            requires
                s.width == 2 * h,
        ;
    }
}

/// The beam is at `heading + k * width` after `k` steps of a revolution.
proof fn lemma_within_revolution(s: RadarState, k: nat)
    requires
        s.wf(),
        s.rotations == 0,
        k < s.sectors,
    ensures
        s.rotated(k) == (RadarState {
            heading: ((s.heading + k * s.width) % (FULL_TURN as int)) as u64,
            rotations: k as u64,
            ..s
        }),
    decreases k,
{
    if k == 0 {
        lemma_small_mod(s.heading as nat, FULL_TURN as nat);
    } else {
        lemma_within_revolution(s, (k - 1) as nat);
        let prev = s.rotated((k - 1) as nat);
        lemma_add_mod_noop_right(s.width as int, s.heading + (k - 1) * s.width, FULL_TURN as int);
        assert(s.width <= FULL_TURN) by (nonlinear_arith)
            requires
                0 < s.width,
                s.width * s.sectors == FULL_TURN,
        ;
        assert(s.heading + (k - 1) * s.width + s.width == s.heading + k * s.width) by (nonlinear_arith);
        assert(prev.rotate_spec() == s.rotated(k));
    }
}

/// Search-sweep coverage: a revolution that starts at the beginning of a
/// pass brings the beam back to exactly the heading it started from, and the
/// beam width afterwards is exactly half the width before (whenever that
/// width can be halved exactly).
pub proof fn lemma_sweep_revolution(s: RadarState)
    requires
        s.wf(),
        s.rotations == 0,
        s.width % 2 == 0,
    ensures
        s.rotated(s.sectors as nat).heading == s.heading,
        s.rotated(s.sectors as nat).width * 2 == s.width,
        s.rotated(s.sectors as nat).rotations == 0,
        s.rotated(s.sectors as nat).wf(),
{
    let n = s.sectors as nat;
    lemma_within_revolution(s, (n - 1) as nat);
    let prev = s.rotated((n - 1) as nat);
    lemma_rotate_wf(prev);
    lemma_add_mod_noop_right(s.width as int, s.heading + (n - 1) * s.width, FULL_TURN as int);
    assert(s.heading + (n - 1) * s.width + s.width == s.heading + FULL_TURN) by (nonlinear_arith)
        requires
            s.width * s.sectors == FULL_TURN,
            n == s.sectors,
    ;
    lemma_add_mod_noop_right(s.heading as int, FULL_TURN as int, FULL_TURN as int);
    lemma_mod_self_0(FULL_TURN as int);
    lemma_small_mod(s.heading as nat, FULL_TURN as nat);
}

/// From a fresh scheduler, four steps complete the first revolution: the
/// beam is back at its starting heading with half the starting width.
pub proof fn lemma_first_revolution()
    ensures
        ({
            let s = RadarState {
                heading: INITIAL_HEADING,
                width: INITIAL_WIDTH,
                min_distance: 0,
                max_distance: UNLIMITED_DISTANCE,
                sectors: INITIAL_SECTORS,
                rotations: 0,
            };
            s.rotated(4).heading == INITIAL_HEADING && s.rotated(4).width == INITIAL_WIDTH / 2
        }),
{
    let s = RadarState {
        heading: INITIAL_HEADING,
        width: INITIAL_WIDTH,
        min_distance: 0,
        max_distance: UNLIMITED_DISTANCE,
        sectors: INITIAL_SECTORS,
        rotations: 0,
    };
    lemma_sweep_revolution(s);
}

} // verus!
