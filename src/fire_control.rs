use vstd::prelude::*;

verus! {

/// What a frigate's sensor is doing this tick.
#[derive(Debug, Clone, Copy, PartialEq, Eq, Structural)]
pub enum FrigateRadarMode {
    /// Sweeping for objects not yet tracked.
    FindNewTargets,
    /// Revisiting the tracked objects one per tick.
    UpdateTargets,
}

/// Smallest element of a non-empty sequence.
pub open spec fn seq_min(s: Seq<u32>) -> u32
    recommends
        s.len() > 0,
    decreases s.len(),
{
    if s.len() <= 1 {
        s[0]
    } else {
        let m = seq_min(s.drop_last());
        if s.last() < m {
            s.last()
        } else {
            m
        }
    }
}

/// Indices below `n` at which `s` holds `v`, in increasing order.
pub open spec fn indices_with(s: Seq<u32>, v: u32, n: nat) -> Seq<usize>
    decreases n,
{
    if n == 0 {
        Seq::empty()
    } else {
        let p = indices_with(s, v, (n - 1) as nat);
        if s[n - 1] == v {
            p.push((n - 1) as usize)
        } else {
            p
        }
    }
}

proof fn lemma_seq_min(s: Seq<u32>)
    requires
        s.len() > 0,
    ensures
        forall|i: int| 0 <= i < s.len() ==> seq_min(s) <= s[i],
        exists|i: int| 0 <= i < s.len() && seq_min(s) == s[i],
    decreases s.len(),
{
    if s.len() > 1 {
        lemma_seq_min(s.drop_last());
        let i = choose|i: int| 0 <= i < s.len() - 1 && seq_min(s.drop_last()) == s.drop_last()[i];
        assert forall|j: int| 0 <= j < s.len() implies seq_min(s) <= s[j] by {
            if j < s.len() - 1 {
                assert(s.drop_last()[j] == s[j]);
            }
        }
        if seq_min(s) == s.last() {
            assert(seq_min(s) == s[s.len() - 1]);
        } else {
            assert(seq_min(s) == s[i]);
        }
    } else {
        assert(seq_min(s) == s[0]);
    }
}

proof fn lemma_indices_with(s: Seq<u32>, v: u32, n: nat)
    requires
        n <= s.len(),
        s.len() <= usize::MAX,
    ensures
        forall|k: int|
            0 <= k < indices_with(s, v, n).len() ==> {
                let i = #[trigger] indices_with(s, v, n)[k];
                i < n && s[i as int] == v
            },
        forall|i: int| 0 <= i < n && s[i] == v ==> indices_with(s, v, n).contains(i as usize),
    decreases n,
{
    if n > 0 {
        lemma_indices_with(s, v, (n - 1) as nat);
        let p = indices_with(s, v, (n - 1) as nat);
        let q = indices_with(s, v, n);
        assert forall|k: int| 0 <= k < q.len() implies {
            let i = #[trigger] q[k];
            i < n && s[i as int] == v
        } by {
            if k < p.len() {
                assert(q[k] == p[k]);
            }
        }
        if s[n - 1] == v {
            assert(p.push((n - 1) as usize)[p.len() as int] == (n - 1) as usize);
            assert forall|i: int| 0 <= i < n && s[i] == v implies indices_with(
                s,
                v,
                n,
            ).contains(i as usize) by {
                if i < n - 1 {
                    let k = choose|k: int| 0 <= k < p.len() && p[k] == i as usize;
                    assert(indices_with(s, v, n)[k] == i as usize);
                } else {
                    assert(indices_with(s, v, n)[p.len() as int] == i as usize);
                }
            }
        }
    }
}

/// The smallest shot count over the tracked targets.
pub fn min_shots(shots: &[u32]) -> (r: u32)
    requires
        shots@.len() > 0,
    ensures
        r == seq_min(shots@),
        forall|i: int| 0 <= i < shots@.len() ==> r <= shots@[i],
        exists|i: int| 0 <= i < shots@.len() && r == shots@[i],
{
    let mut m = shots[0];
    let mut i: usize = 1;
    proof {
        assert(shots@.subrange(0, 1).len() == 1);
    }
    while i < shots.len()
        invariant
            1 <= i <= shots@.len(),
            m == seq_min(shots@.subrange(0, i as int)),
        decreases shots@.len() - i,
    {
        proof {
            assert(shots@.subrange(0, i + 1).drop_last() =~= shots@.subrange(0, i as int));
        }
        if shots[i] < m {
            m = shots[i];
        }
        i = i + 1;
    }
    proof {
        assert(shots@.subrange(0, shots@.len() as int) =~= shots@);
        lemma_seq_min(shots@);
    }
    m
}

/// Indices of the targets that have drawn the fewest shots, in increasing
/// order: the ones the turrets share out next.
pub fn least_fired_targets(shots: &[u32]) -> (r: Vec<usize>)
    requires
        shots@.len() > 0,
    ensures
        r@ == indices_with(shots@, seq_min(shots@), shots@.len()),
        r@.len() > 0,
        forall|k: int|
            0 <= k < r@.len() ==> #[trigger] r@[k] < shots@.len() && shots@[r@[k] as int]
                == seq_min(shots@),
        forall|i: int|
            0 <= i < shots@.len() && shots@[i] == seq_min(shots@) ==> r@.contains(i as usize),
{
    let m = min_shots(shots);
    let len = shots.len();
    let mut r: Vec<usize> = Vec::new();
    let mut i: usize = 0;
    while i < shots.len()
        invariant
            i <= shots@.len(),
            len == shots@.len(),
            m == seq_min(shots@),
            r@ == indices_with(shots@, m, i as nat),
        decreases shots@.len() - i,
    {
        if shots[i] == m {
            r.push(i);
        }
        i = i + 1;
    }
    proof {
        lemma_indices_with(shots@, m, shots@.len());
        let j = choose|j: int| 0 <= j < shots@.len() && m == shots@[j];
        assert(r@.contains(j as usize));
    }
    r
}

/// The target a secondary weapon takes: weapons are dealt out over the
/// candidates in turn.
pub fn turret_assignment(candidates: &[usize], weapon: usize) -> (r: usize)
    requires
        candidates@.len() > 0,
    ensures
        r == candidates@[(weapon as int) % (candidates@.len() as int)],
{
    candidates[weapon % candidates.len()]
}

/// Which tracked target to revisit after `index`: the next one, wrapping to
/// the first; `None` when nothing is tracked.
pub fn next_track_index(index: usize, count: usize) -> (r: Option<usize>)
    ensures
        index + 1 < count ==> r == Some((index + 1) as usize),
        index + 1 >= count && count > 0 ==> r == Some(0usize),
        count == 0 ==> r is None,
        index < count ==> r == Some(next_track_spec(index as nat, count as nat) as usize),
{
    if index < count && index + 1 < count {
        Some(index + 1)
    } else if count > 0 {
        Some(0)
    } else {
        None
    }
}

/// Which target to revisit after the one at `index` was lost and removed,
/// leaving `count` targets: the one that moved into its place, wrapping to
/// the first; `None` when nothing is left.
pub fn track_index_after_loss(index: usize, count: usize) -> (r: Option<usize>)
    ensures
        index < count ==> r == Some(index),
        index >= count && count > 0 ==> r == Some(0usize),
        count == 0 ==> r is None,
{
    if index < count {
        Some(index)
    } else if count > 0 {
        Some(0)
    } else {
        None
    }
}

/// The index that follows `index` among `count` tracked targets.
pub open spec fn next_track_spec(index: nat, count: nat) -> nat {
    if index + 1 < count {
        index + 1
    } else {
        0
    }
}

pub open spec fn track_after(index: nat, count: nat, k: nat) -> nat
    decreases k,
{
    if k == 0 {
        index
    } else {
        next_track_spec(track_after(index, count, (k - 1) as nat), count)
    }
}

/// Stepping through the tracked targets visits them in order, wrapping
/// round, so that after `count` steps the cycle is back where it started.
pub proof fn lemma_track_cycle(index: nat, count: nat, k: nat)
    requires
        index < count,
        k <= count,
    ensures
        track_after(index, count, k) as int == ((index + k) as int) % (count as int),
    decreases k,
{
    if k > 0 {
        lemma_track_cycle(index, count, (k - 1) as nat);
        let prev = track_after(index, count, (k - 1) as nat);
        vstd::arithmetic::div_mod::lemma_add_mod_noop_right(1, index + k - 1, count as int);
        if prev + 1 < count {
            vstd::arithmetic::div_mod::lemma_small_mod(prev + 1, count);
        } else {
            vstd::arithmetic::div_mod::lemma_mod_self_0(count as int);
        }
    } else {
        vstd::arithmetic::div_mod::lemma_small_mod(index, count);
    }
}

/// Number of tracked objects after which a frigate stops searching.
pub const FRIGATE_TARGET_QUOTA: usize = 5;

/// Where the sensor goes next.
#[derive(Debug, Clone, Copy, PartialEq, Eq, Structural)]
pub enum RadarTask {
    /// Back to the saved search sweep.
    Search,
    /// Onto the tracked object with this index.
    Track(usize),
}

/// What the track-mode scan of this tick found.
#[derive(Debug, Clone, Copy, PartialEq, Eq, Structural)]
pub enum TrackEvent {
    /// The beam caught ordnance rather than the tracked object.
    Ordnance,
    /// The tracked object (or one re-associated with it) was observed.
    Observed,
    /// Nothing was in the beam; the caller has removed the lost object.
    Lost,
}

/// Search/track decisions of a frigate: it searches until it tracks enough
/// objects, then revisits them one per tick, and searches again when none
/// is left.
#[derive(Debug, Clone, Copy, PartialEq, Eq, Structural)]
pub struct TrackScheduler {
    pub mode: FrigateRadarMode,
    pub index: usize,
    pub found_all_targets: bool,
}

impl TrackScheduler {
    pub fn new() -> (r: TrackScheduler)
        ensures
            r.mode == FrigateRadarMode::FindNewTargets,
            r.index == 0,
            !r.found_all_targets,
    {
        TrackScheduler { mode: FrigateRadarMode::FindNewTargets, index: 0, found_all_targets: false }
    }

    /// Decision after a search tick that left `count` tracked objects.
    pub fn after_search(&mut self, count: usize) -> (r: RadarTask)
        ensures
            final(self).found_all_targets == (old(self).found_all_targets
                || count >= FRIGATE_TARGET_QUOTA),
            final(self).found_all_targets ==> r == RadarTask::Track(0) && final(self).index == 0
                && final(self).mode == FrigateRadarMode::UpdateTargets,
            !final(self).found_all_targets ==> r == RadarTask::Search && final(self).index
                == old(self).index && final(self).mode == FrigateRadarMode::FindNewTargets,
    {
        if count >= FRIGATE_TARGET_QUOTA {
            self.found_all_targets = true;
        }
        if self.found_all_targets {
            self.index = 0;
            self.mode = FrigateRadarMode::UpdateTargets;
            RadarTask::Track(0)
        } else {
            self.mode = FrigateRadarMode::FindNewTargets;
            RadarTask::Search
        }
    }

    /// Decision after a track tick; `count` is the number of tracked objects
    /// after the caller handled `event` (one fewer after a loss).
    pub fn after_track(&mut self, event: TrackEvent, count: usize) -> (r: RadarTask)
        ensures
            event == TrackEvent::Ordnance ==> if old(self).index + 1 < count {
                r == RadarTask::Track((old(self).index + 1) as usize) && final(self).mode
                    == FrigateRadarMode::UpdateTargets && final(self).found_all_targets
                    == old(self).found_all_targets
            } else {
                r == RadarTask::Search && final(self).mode == FrigateRadarMode::FindNewTargets
                    && final(self).found_all_targets == old(self).found_all_targets
            },
            event == TrackEvent::Observed ==> if count > 0 {
                r == RadarTask::Track(
                    if old(self).index + 1 < count {
                        (old(self).index + 1) as usize
                    } else {
                        0usize
                    },
                ) && final(self).mode == FrigateRadarMode::UpdateTargets
                    && final(self).found_all_targets == old(self).found_all_targets
            } else {
                r == RadarTask::Search && final(self).mode == FrigateRadarMode::FindNewTargets
                    && !final(self).found_all_targets
            },
            event == TrackEvent::Lost ==> if count > 0 {
                r == RadarTask::Track(
                    if old(self).index < count {
                        old(self).index
                    } else {
                        0usize
                    },
                ) && final(self).mode == FrigateRadarMode::UpdateTargets
                    && final(self).found_all_targets == old(self).found_all_targets
            } else {
                r == RadarTask::Search && final(self).mode == FrigateRadarMode::FindNewTargets
                    && !final(self).found_all_targets
            },
            r matches RadarTask::Track(i) ==> i < count && final(self).index == i,
    {
        let next = match event {
            TrackEvent::Ordnance => {
                if self.index < count && self.index + 1 < count {
                    self.index = self.index + 1;
                    self.mode = FrigateRadarMode::UpdateTargets;
                    return RadarTask::Track(self.index);
                } else {
                    self.mode = FrigateRadarMode::FindNewTargets;
                    return RadarTask::Search;
                }
            },
            TrackEvent::Observed => next_track_index(self.index, count),
            TrackEvent::Lost => track_index_after_loss(self.index, count),
        };
        match next {
            Some(i) => {
                self.index = i;
                self.mode = FrigateRadarMode::UpdateTargets;
                RadarTask::Track(i)
            },
            None => {
                self.found_all_targets = false;
                self.mode = FrigateRadarMode::FindNewTargets;
                RadarTask::Search
            },
        }
    }
}

} // verus!
