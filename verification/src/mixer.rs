//! The participants of a room, the topology that their number calls for,
//! and the election of the mixer.

use crate::score::{
    bandwidth_score, duration_score, resource_score, spec_bandwidth_score, spec_duration_score,
    spec_resource_score, spec_stability_score, spec_total_score, stability_score, total_score,
    ScoreWeights, SCORE_ONE,
};
use crate::string_map::StringMap;
use crate::text::str_eq;
use crate::text::{chars_of, lemma_lex_lt_total, lemma_lex_lt_transitive, lex_less, lex_lt};
use crate::time::wall_clock_ms;
use vstd::prelude::*;

verus! {

/// Largest room that is still connected as a full mesh.
pub const FULL_MESH_MAX_PARTICIPANTS: usize = 5;

/// Time after which the mixer is to be elected anew: thirty minutes, in milliseconds.
pub const MIXER_ROTATION_INTERVAL_MS: u64 = 1_800_000;

/// Two scores tie when they differ by less than one part in this many of the
/// higher one: five percent.
pub const SCORE_TIE_DIVISOR: u64 = 20;

/// The least score that the tie margin is taken of, in millionths.
pub const SCORE_TIE_FLOOR: u64 = 1_000;

/// What a participant does in the room.
#[derive(Debug, Clone, Copy, PartialEq, Eq, Structural)]
pub enum MixerRole {
    Peer,
    Mixer,
}

/// How the participants are connected: each with each, or all through one
/// mixer.
#[derive(Debug, Clone, Copy, PartialEq, Eq, Structural)]
pub enum TopologyMode {
    FullMesh,
    SFU,
}

/// What is known of a participant's link and machine. Usages are in whole
/// percent, the variance in square milliseconds, durations and instants in
/// milliseconds.
#[derive(Debug, Clone, Copy, PartialEq, Eq, Structural)]
pub struct ParticipantStats {
    pub bandwidth_bps: u64,
    pub latency_ms: u32,
    pub latency_variance: u64,
    pub cpu_usage_percent: u32,
    pub memory_usage_percent: u32,
    pub session_duration: u64,
    pub packet_loss_percent: u32,
    pub last_updated: u64,
}

/// The stats of a participant of whom nothing is known yet, as of `now`.
pub open spec fn blank_stats(now: u64) -> ParticipantStats {
    ParticipantStats {
        bandwidth_bps: 0,
        latency_ms: 0,
        latency_variance: 0,
        cpu_usage_percent: 0,
        memory_usage_percent: 0,
        session_duration: 0,
        packet_loss_percent: 0,
        last_updated: now,
    }
}

/// The square of the distance between two latencies.
pub open spec fn squared_change(before: u32, after: u32) -> int {
    (after - before) * (after - before)
}

impl ParticipantStats {
    /// Blank stats, last updated at `now`.
    pub fn new_at(now: u64) -> (s: Self)
        ensures
            s == blank_stats(now),
    {
        Self {
            bandwidth_bps: 0,
            latency_ms: 0,
            latency_variance: 0,
            cpu_usage_percent: 0,
            memory_usage_percent: 0,
            session_duration: 0,
            packet_loss_percent: 0,
            last_updated: now,
        }
    }

    /// Blank stats, last updated at the current clock reading.
    pub fn new() -> (s: Self)
        ensures
            s == blank_stats(s.last_updated),
    {
        Self::new_at(wall_clock_ms())
    }

    /// The stats after a latency sample taken at `now`: the variance grows
    /// by the square of the change, up to the largest value it can hold.
    pub open spec fn sampled(self, latency_ms: u32, now: u64) -> Self {
        ParticipantStats {
            latency_ms,
            latency_variance: if self.latency_variance + squared_change(self.latency_ms, latency_ms)
                > u64::MAX {
                u64::MAX
            } else {
                (self.latency_variance + squared_change(self.latency_ms, latency_ms)) as u64
            },
            last_updated: now,
            ..self
        }
    }

    /// Takes a latency sample at `now`.
    pub fn update_latency_at(&mut self, latency_ms: u32, now: u64)
        ensures
            *final(self) == old(self).sampled(latency_ms, now),
    {
        let delta: u64 = if latency_ms >= self.latency_ms {
            (latency_ms - self.latency_ms) as u64
        } else {
            (self.latency_ms - latency_ms) as u64
        };
        assert(delta * delta == squared_change(self.latency_ms, latency_ms) && delta * delta
            <= u64::MAX) by (nonlinear_arith)
            requires
                delta == latency_ms - self.latency_ms || delta == self.latency_ms - latency_ms,
                delta <= 0xffff_ffff,
        ;
        self.latency_variance = self.latency_variance.saturating_add(delta * delta);
        self.latency_ms = latency_ms;
        self.last_updated = now;
    }

    /// Takes a latency sample at the current clock reading.
    pub fn update_latency(&mut self, latency_ms: u32)
        ensures
            exists|now: u64| *final(self) == #[trigger] old(self).sampled(latency_ms, now),
    {
        let now = wall_clock_ms();
        self.update_latency_at(latency_ms, now);
        assert(*self == old(self).sampled(latency_ms, now));
    }

    /// Stability score in millionths.
    pub fn get_stability_score(&self) -> (s: u64)
        ensures
            s == spec_stability_score(self.latency_variance),
            s <= SCORE_ONE,
    {
        stability_score(self.latency_variance)
    }

    /// The total score of these stats under `weights`, in millionths.
    pub open spec fn score(&self, weights: ScoreWeights) -> u64 {
        spec_total_score(
            weights,
            spec_bandwidth_score(self.bandwidth_bps),
            spec_stability_score(self.latency_variance),
            spec_resource_score(self.cpu_usage_percent, self.memory_usage_percent),
            spec_duration_score(self.session_duration),
        ) as u64
    }

    /// Computes the total score of these stats under `weights`.
    pub fn compute_score(&self, weights: &ScoreWeights) -> (s: u64)
        ensures
            s == self.score(*weights),
    {
        total_score(
            weights,
            bandwidth_score(self.bandwidth_bps),
            stability_score(self.latency_variance),
            resource_score(self.cpu_usage_percent, self.memory_usage_percent),
            duration_score(self.session_duration),
        )
    }
}

/// A remote member of the room.
#[derive(Debug, Clone)]
pub struct Participant {
    pub peer_id: String,
    pub display_name: Option<String>,
    pub role: MixerRole,
    pub stats: ParticipantStats,
    pub mixer_start_time: Option<u64>,
    pub score: u64,
}

impl Participant {
    /// A participant that has just joined at `now`: a peer with blank stats.
    pub fn new_at(peer_id: String, now: u64) -> (p: Self)
        ensures
            p == (Participant {
                peer_id,
                display_name: None,
                role: MixerRole::Peer,
                stats: blank_stats(now),
                mixer_start_time: None,
                score: 0,
            }),
    {
        Self {
            peer_id,
            display_name: None,
            role: MixerRole::Peer,
            stats: ParticipantStats::new_at(now),
            mixer_start_time: None,
            score: 0,
        }
    }

    /// A peer with blank stats, last updated at the current clock reading.
    pub fn new(peer_id: String) -> (p: Self)
        ensures
            p.peer_id == peer_id,
            p.display_name is None,
            p.role == MixerRole::Peer,
            p.stats == blank_stats(p.stats.last_updated),
            p.mixer_start_time is None,
            p.score == 0,
    {
        Self::new_at(peer_id, wall_clock_ms())
    }

    /// Computes the score under `weights` and remembers it.
    pub fn calculate_score(&mut self, weights: &ScoreWeights) -> (s: u64)
        ensures
            s == old(self).stats.score(*weights),
            *final(self) == (Participant { score: s, ..*old(self) }),
    {
        self.score = self.stats.compute_score(weights);
        self.score
    }

    /// Bandwidth score in millionths.
    pub fn calculate_bandwidth_score(&self) -> (s: u64)
        ensures
            s == spec_bandwidth_score(self.stats.bandwidth_bps),
    {
        bandwidth_score(self.stats.bandwidth_bps)
    }

    /// Resource score in millionths.
    pub fn calculate_resource_score(&self) -> (s: u64)
        ensures
            s == spec_resource_score(self.stats.cpu_usage_percent, self.stats.memory_usage_percent),
    {
        resource_score(self.stats.cpu_usage_percent, self.stats.memory_usage_percent)
    }

    /// Duration score in millionths.
    pub fn calculate_duration_score(&self) -> (s: u64)
        ensures
            s == spec_duration_score(self.stats.session_duration),
    {
        duration_score(self.stats.session_duration)
    }
}

/// What a mixer manager is configured with. The interval is in milliseconds.
#[derive(Debug, Clone)]
pub struct MixerConfig {
    pub max_participants: usize,
    pub full_mesh_threshold: usize,
    pub rotation_interval: u64,
    pub score_weights: ScoreWeights,
    pub mixing_sample_rate: u32,
}

impl Default for MixerConfig {
    fn default() -> (c: Self)
        ensures
            c == (MixerConfig {
                max_participants: 20,
                full_mesh_threshold: FULL_MESH_MAX_PARTICIPANTS,
                rotation_interval: MIXER_ROTATION_INTERVAL_MS,
                score_weights: ScoreWeights {
                    bandwidth: 400_000,
                    stability: 250_000,
                    resources: 200_000,
                    duration: 150_000,
                },
                mixing_sample_rate: 48000,
            }),
    {
        Self {
            max_participants: 20,
            full_mesh_threshold: FULL_MESH_MAX_PARTICIPANTS,
            rotation_interval: MIXER_ROTATION_INTERVAL_MS,
            score_weights: ScoreWeights::default(),
            mixing_sample_rate: 48000,
        }
    }
}

/// A candidate for the mixer role: a peer id and a score in millionths.
pub type Scored = (Seq<char>, u64);

/// Position of the first highest score among the first `n` candidates.
pub open spec fn best_index(c: Seq<Scored>, n: nat) -> int
    decreases n,
{
    if n <= 1 {
        0
    } else {
        let before = best_index(c, (n - 1) as nat);
        if c[n - 1].1 > c[before].1 {
            n - 1
        } else {
            before
        }
    }
}

/// The highest score among the first `n` candidates once the one at
/// `best_index` is set aside; nothing where there is no other candidate.
pub open spec fn second_score(c: Seq<Scored>, n: nat) -> Option<u64>
    decreases n,
{
    if n <= 1 {
        None
    } else {
        let before = best_index(c, (n - 1) as nat);
        let second = second_score(c, (n - 1) as nat);
        if c[n - 1].1 > c[before].1 {
            Some(c[before].1)
        } else {
            match second {
                Some(s) => if c[n - 1].1 > s {
                    Some(c[n - 1].1)
                } else {
                    Some(s)
                },
                None => Some(c[n - 1].1),
            }
        }
    }
}

/// Position of the first candidate among the first `n` whose peer id comes
/// first in dictionary order.
pub open spec fn least_index(c: Seq<Scored>, n: nat) -> int
    decreases n,
{
    if n <= 1 {
        0
    } else {
        let before = least_index(c, (n - 1) as nat);
        if lex_lt(c[n - 1].0, c[before].0) {
            n - 1
        } else {
            before
        }
    }
}

/// Whether a best and a second score tie: their difference is less than
/// five percent of the best score, or of a thousandth where the best score
/// is less.
pub open spec fn scores_tie(best: u64, second: u64) -> bool {
    (best - second) * SCORE_TIE_DIVISOR < if best > SCORE_TIE_FLOOR {
        best
    } else {
        SCORE_TIE_FLOOR
    }
}

/// Whether the two highest scores of the candidates tie.
pub open spec fn is_tie(c: Seq<Scored>) -> bool {
    match second_score(c, c.len()) {
        Some(second) => scores_tie(c[best_index(c, c.len())].1, second),
        None => false,
    }
}

/// Position of the elected candidate: in a tie the one whose peer id comes
/// first in dictionary order, else the one with the highest score.
pub open spec fn elected_index(c: Seq<Scored>) -> int {
    if is_tie(c) {
        least_index(c, c.len())
    } else {
        best_index(c, c.len())
    }
}

/// What `best_index` finds: a position that holds a highest score, and the
/// first that does.
pub proof fn lemma_best_index(c: Seq<Scored>, n: nat)
    requires
        1 <= n <= c.len(),
    ensures
        0 <= best_index(c, n) < n,
        forall|j: int| 0 <= j < n ==> (#[trigger] c[j]).1 <= c[best_index(c, n)].1,
        forall|j: int| 0 <= j < best_index(c, n) ==> (#[trigger] c[j]).1 < c[best_index(c, n)].1,
    decreases n,
{
    if n > 1 {
        lemma_best_index(c, (n - 1) as nat);
    }
}

/// What `second_score` finds: the score of some candidate other than the
/// best one, and no other candidate scores higher.
pub proof fn lemma_second_score(c: Seq<Scored>, n: nat)
    requires
        2 <= n <= c.len(),
    ensures
        second_score(c, n) is Some,
        exists|j: int| 0 <= j < n && j != best_index(c, n) && (#[trigger] c[j]).1 == second_score(c, n)->0,
        forall|j: int| 0 <= j < n && j != best_index(c, n) ==> (#[trigger] c[j]).1 <= second_score(c, n)->0,
        second_score(c, n)->0 <= c[best_index(c, n)].1,
    decreases n,
{
    lemma_best_index(c, (n - 1) as nat);
    lemma_best_index(c, n);
    let before = best_index(c, (n - 1) as nat);
    if n > 2 {
        lemma_second_score(c, (n - 1) as nat);
        let s = second_score(c, (n - 1) as nat)->0;
        let w = choose|j: int| 0 <= j < n - 1 && j != before && (#[trigger] c[j]).1 == s;
        if c[n - 1].1 > c[before].1 {
            assert(c[before].1 == second_score(c, n)->0);
        } else if c[n - 1].1 > s {
            assert(c[n - 1].1 == second_score(c, n)->0);
        } else {
            assert(c[w].1 == second_score(c, n)->0);
        }
    } else {
        assert(before == 0);
        if c[1].1 > c[0].1 {
            assert(c[0].1 == second_score(c, n)->0);
        } else {
            assert(c[1].1 == second_score(c, n)->0);
        }
    }
}

/// What `least_index` finds: a position whose peer id no other peer id
/// comes before.
pub proof fn lemma_least_index(c: Seq<Scored>, n: nat)
    requires
        1 <= n <= c.len(),
    ensures
        0 <= least_index(c, n) < n,
        forall|j: int| 0 <= j < n ==> !lex_lt((#[trigger] c[j]).0, c[least_index(c, n)].0),
    decreases n,
{
    if n > 1 {
        lemma_least_index(c, (n - 1) as nat);
        let before = least_index(c, (n - 1) as nat);
        if lex_lt(c[n - 1].0, c[before].0) {
            assert forall|j: int| 0 <= j < n implies !lex_lt((#[trigger] c[j]).0, c[n - 1].0) by {
                if lex_lt(c[j].0, c[n - 1].0) {
                    lemma_lex_lt_transitive(c[j].0, c[n - 1].0, c[before].0);
                }
                lemma_lex_lt_total(c[n - 1].0, c[n - 1].0);
            }
        }
    } else {
        lemma_lex_lt_total(c[0].0, c[0].0);
    }
}

/// The elected candidate is either the one with the highest score or the
/// one whose peer id comes first.
pub proof fn lemma_elected_is_best_or_least(c: Seq<Scored>)
    requires
        c.len() >= 1,
    ensures
        0 <= elected_index(c) < c.len(),
        elected_index(c) == best_index(c, c.len()) || elected_index(c) == least_index(c, c.len()),
{
    lemma_best_index(c, c.len());
    lemma_least_index(c, c.len());
}

/// Whether some candidate has peer id `id`.
pub open spec fn has_id(c: Seq<Scored>, id: Seq<char>) -> bool {
    exists|j: int| 0 <= j < c.len() && (#[trigger] c[j]).0 == id
}

/// At least two candidates that all have the score `score` tie.
pub proof fn lemma_equal_scores_tie(c: Seq<Scored>, score: u64)
    requires
        c.len() >= 2,
        forall|i: int| 0 <= i < c.len() ==> (#[trigger] c[i]).1 == score,
    ensures
        is_tie(c),
        elected_index(c) == least_index(c, c.len()),
{
    lemma_best_index(c, c.len());
    lemma_second_score(c, c.len());
}

/// Two lists of candidates with the same peer ids have the same first peer
/// id in dictionary order.
pub proof fn lemma_least_id_ignores_order(a: Seq<Scored>, b: Seq<Scored>)
    requires
        a.len() >= 1,
        b.len() >= 1,
        forall|id: Seq<char>| #[trigger] has_id(a, id) == has_id(b, id),
    ensures
        a[least_index(a, a.len())].0 == b[least_index(b, b.len())].0,
{
    lemma_least_index(a, a.len());
    lemma_least_index(b, b.len());
    let ia = least_index(a, a.len());
    let ib = least_index(b, b.len());
    assert(has_id(a, a[ia].0));
    assert(has_id(b, b[ib].0));
    assert(has_id(b, a[ia].0));
    assert(has_id(a, b[ib].0));
    let ja = choose|j: int| 0 <= j < b.len() && (#[trigger] b[j]).0 == a[ia].0;
    let jb = choose|i: int| 0 <= i < a.len() && (#[trigger] a[i]).0 == b[ib].0;
    assert(!lex_lt(b[ja].0, b[ib].0));
    assert(!lex_lt(a[jb].0, a[ia].0));
    lemma_lex_lt_total(a[ia].0, b[ib].0);
}

/// Deterministic tie resolution: where all candidates have the same score
/// and there are at least two, the elected peer id is the one that comes
/// first in dictionary order, whatever the order of the candidates. Two
/// nodes that see the same peer ids elect the same one.
pub proof fn lemma_tie_resolution_is_deterministic(a: Seq<Scored>, b: Seq<Scored>, score: u64)
    requires
        a.len() >= 2,
        b.len() >= 2,
        forall|i: int| 0 <= i < a.len() ==> (#[trigger] a[i]).1 == score,
        forall|i: int| 0 <= i < b.len() ==> (#[trigger] b[i]).1 == score,
        forall|id: Seq<char>| #[trigger] has_id(a, id) == has_id(b, id),
    ensures
        forall|j: int| 0 <= j < a.len() ==> !lex_lt((#[trigger] a[j]).0, a[elected_index(a)].0),
        a[elected_index(a)].0 == b[elected_index(b)].0,
{
    lemma_equal_scores_tie(a, score);
    lemma_equal_scores_tie(b, score);
    lemma_least_index(a, a.len());
    lemma_least_id_ignores_order(a, b);
}

/// What a participant is after an election at `now`: the elected one, unless
/// it is the local peer, becomes the mixer from `now` on; the previous mixer
/// becomes a peer again; any other stays as it is.
pub open spec fn installed(
    p: Participant,
    id: Seq<char>,
    chosen: Seq<char>,
    previous: Option<Seq<char>>,
    local_id: Seq<char>,
    now: u64,
) -> Participant {
    if id == chosen && chosen != local_id {
        Participant { role: MixerRole::Mixer, mixer_start_time: Some(now), ..p }
    } else if previous == Some(id) {
        Participant { role: MixerRole::Peer, mixer_start_time: None, ..p }
    } else {
        p
    }
}

/// A mixer manager as plain values.
pub struct MixerView {
    pub config: MixerConfig,
    pub ids: Seq<Seq<char>>,
    pub members: Seq<Participant>,
    pub local_id: Seq<char>,
    pub local_role: MixerRole,
    pub local_stats: ParticipantStats,
    pub current_mixer: Option<Seq<char>>,
    pub mixer_start_time: Option<u64>,
    pub topology: TopologyMode,
    pub pending_rotation: bool,
}

impl MixerView {
    /// Number of participants, the local peer included.
    pub open spec fn count(&self) -> int {
        if self.ids.len() + 1 > usize::MAX {
            usize::MAX as int
        } else {
            self.ids.len() as int + 1
        }
    }

    /// The topology that a room of this size calls for: a full mesh up to the
    /// threshold, a forwarding unit beyond.
    pub open spec fn called_for(&self) -> TopologyMode {
        if self.count() <= self.config.full_mesh_threshold {
            TopologyMode::FullMesh
        } else {
            TopologyMode::SFU
        }
    }

    /// The candidates for the mixer role: every remote participant with the
    /// score of its stats, then the local peer with the score of its own.
    pub open spec fn candidates(&self) -> Seq<Scored> {
        Seq::new(
            self.ids.len() + 1,
            |i: int|
                if i < self.ids.len() {
                    (self.ids[i], self.members[i].stats.score(self.config.score_weights))
                } else {
                    (self.local_id, self.local_stats.score(self.config.score_weights))
                },
        )
    }

    /// The peer id that an election elects.
    pub open spec fn elected(&self) -> Seq<char> {
        self.candidates()[elected_index(self.candidates())].0
    }

    /// The manager after an election at `now`.
    ///
    /// Outside the forwarding topology there is no mixer. Within it, every
    /// participant's score is brought up to date, the elected candidate
    /// becomes the mixer from `now` on and the previous mixer a peer.
    pub open spec fn after_election(&self, now: u64) -> MixerView {
        if self.topology != TopologyMode::SFU {
            MixerView { current_mixer: None, ..*self }
        } else {
            let c = self.candidates();
            let chosen = self.elected();
            MixerView {
                members: Seq::new(
                    self.members.len(),
                    |i: int|
                        installed(
                            Participant { score: c[i].1, ..self.members[i] },
                            self.ids[i],
                            chosen,
                            self.current_mixer,
                            self.local_id,
                            now,
                        ),
                ),
                local_role: if chosen == self.local_id {
                    MixerRole::Mixer
                } else if self.current_mixer == Some(self.local_id) {
                    MixerRole::Peer
                } else {
                    self.local_role
                },
                current_mixer: Some(chosen),
                mixer_start_time: Some(now),
                ..*self
            }
        }
    }

    /// The manager after the topology was brought in line with the size of
    /// the room at `now`: a change of topology is recorded, and a change to
    /// the forwarding topology without a mixer is followed by an election.
    pub open spec fn after_topology_update(&self, now: u64) -> MixerView {
        let mode = self.called_for();
        if mode == self.topology {
            *self
        } else {
            let switched = MixerView { topology: mode, ..*self };
            if mode == TopologyMode::SFU && self.current_mixer is None {
                switched.after_election(now)
            } else {
                switched
            }
        }
    }

    /// What the manager keeps true of itself: no peer id is held twice, and
    /// every peer id has its participant.
    pub open spec fn wf(&self) -> bool {
        &&& self.ids.no_duplicates()
        &&& self.ids.len() == self.members.len()
    }
}

/// Where an election stands after the first candidates were looked at.
struct Standing {
    seen: Ghost<nat>,
    best: usize,
    best_score: u64,
    second: Option<u64>,
    least: usize,
    least_chars: Vec<char>,
}

impl Standing {
    /// Whether the standing is that of the first `seen` of the candidates `c`.
    spec fn ranks(&self, c: Seq<Scored>) -> bool {
        self.seen@ > 0 ==> {
            &&& self.best == best_index(c, self.seen@)
            &&& self.best < self.seen@
            &&& self.best_score == c[self.best as int].1
            &&& self.second == second_score(c, self.seen@)
            &&& self.least == least_index(c, self.seen@)
            &&& self.least < self.seen@
            &&& self.least_chars@ == c[self.least as int].0
        }
    }

    /// Looks at the next candidate, the one at position `index`.
    fn consider(
        &mut self,
        index: usize,
        id_chars: Vec<char>,
        score: u64,
        Ghost(c): Ghost<Seq<Scored>>,
    )
        requires
            old(self).ranks(c),
            old(self).seen@ == index,
            index < c.len(),
            c[index as int] == (id_chars@, score),
        ensures
            final(self).seen@ == index + 1,
            final(self).ranks(c),
    {
        if index == 0 {
            self.best = 0;
            self.best_score = score;
            self.second = None;
            self.least = 0;
            self.least_chars = id_chars;
        } else {
            if score > self.best_score {
                self.second = Some(self.best_score);
                self.best = index;
                self.best_score = score;
            } else {
                self.second = match self.second {
                    Some(s) => if score > s {
                        Some(score)
                    } else {
                        Some(s)
                    },
                    None => Some(score),
                };
            }
            if lex_less(id_chars.as_slice(), self.least_chars.as_slice()) {
                self.least = index;
                self.least_chars = id_chars;
            }
        }
        self.seen = Ghost((index + 1) as nat);
    }
}

/// Chooses between full mesh and a forwarding mixer, and elects the mixer.
pub struct MixerManager {
    config: MixerConfig,
    participants: StringMap<Participant>,
    local_peer_id: String,
    local_role: MixerRole,
    local_stats: ParticipantStats,
    current_mixer: Option<String>,
    mixer_start_time: Option<u64>,
    topology_mode: TopologyMode,
    pending_rotation: bool,
}

impl View for MixerManager {
    type V = MixerView;

    closed spec fn view(&self) -> MixerView {
        MixerView {
            config: self.config,
            ids: self.participants.keys(),
            members: self.participants.values(),
            local_id: self.local_peer_id@,
            local_role: self.local_role,
            local_stats: self.local_stats,
            current_mixer: match self.current_mixer {
                Some(m) => Some(m@),
                None => None,
            },
            mixer_start_time: self.mixer_start_time,
            topology: self.topology_mode,
            pending_rotation: self.pending_rotation,
        }
    }
}

/// A summary of the manager. The uptime of the mixer is in milliseconds.
#[derive(Debug, Clone)]
pub struct MixerStatus {
    pub topology: TopologyMode,
    pub participant_count: usize,
    pub current_mixer: Option<String>,
    pub is_local_mixer: bool,
    pub uptime: Option<u64>,
}

impl MixerManager {
    /// The participants by peer id.
    pub closed spec fn participants(&self) -> Map<Seq<char>, Participant> {
        self.participants@
    }

    /// A manager for the local peer alone, in full mesh, without mixer, with
    /// the given configuration or the default one.
    pub fn new(local_peer_id: String, config: Option<MixerConfig>) -> (m: Self)
        ensures
            m@.wf(),
            m@.ids.len() == 0,
            m@.local_id == local_peer_id@,
            m@.local_role == MixerRole::Peer,
            m@.local_stats == blank_stats(m@.local_stats.last_updated),
            m@.current_mixer is None,
            m@.mixer_start_time is None,
            m@.topology == TopologyMode::FullMesh,
            !m@.pending_rotation,
            match config {
                Some(c) => m@.config == c,
                None => m@.config == (MixerConfig {
                    max_participants: 20,
                    full_mesh_threshold: FULL_MESH_MAX_PARTICIPANTS,
                    rotation_interval: MIXER_ROTATION_INTERVAL_MS,
                    score_weights: ScoreWeights {
                        bandwidth: 400_000,
                        stability: 250_000,
                        resources: 200_000,
                        duration: 150_000,
                    },
                    mixing_sample_rate: 48000,
                }),
            },
    {
        let config = match config {
            Some(c) => c,
            None => MixerConfig::default(),
        };
        Self {
            config,
            participants: StringMap::new(),
            local_peer_id,
            local_role: MixerRole::Peer,
            local_stats: ParticipantStats::new(),
            current_mixer: None,
            mixer_start_time: None,
            topology_mode: TopologyMode::FullMesh,
            pending_rotation: false,
        }
    }

    /// Whether the local peer is the mixer.
    pub fn is_mixer(&self) -> (b: bool)
        ensures
            b == (self@.local_role == MixerRole::Mixer),
    {
        self.local_role == MixerRole::Mixer
    }

    /// The topology in use.
    pub fn get_topology_mode(&self) -> (t: TopologyMode)
        ensures
            t == self@.topology,
    {
        self.topology_mode
    }

    /// The peer id of the mixer, if there is one.
    pub fn get_current_mixer(&self) -> (m: Option<&str>)
        ensures
            match m {
                Some(id) => self@.current_mixer == Some(id@),
                None => self@.current_mixer is None,
            },
    {
        match &self.current_mixer {
            Some(m) => Some(m.as_str()),
            None => None,
        }
    }

    /// Number of participants, the local peer included.
    pub fn get_participant_count(&self) -> (n: usize)
        ensures
            n == self@.count(),
    {
        self.participants.len().saturating_add(1)
    }

    /// The remote participants.
    pub fn get_participants(&self) -> (p: &StringMap<Participant>)
        ensures
            p.keys() == self@.ids,
            p.values() == self@.members,
    {
        &self.participants
    }

    /// What is known of the participant `peer_id`.
    pub fn get_participant_info(&self, peer_id: &str) -> (p: Option<&Participant>)
        requires
            self@.wf(),
        ensures
            match p {
                Some(x) => self.participants().contains_key(peer_id@) && *x
                    == self.participants()[peer_id@],
                None => !self.participants().contains_key(peer_id@),
            },
    {
        self.participants.get(peer_id)
    }

    /// Replaces the stats of the participant `peer_id`; an unknown peer id
    /// changes nothing.
    pub fn update_participant_stats(&mut self, peer_id: &str, stats: ParticipantStats)
        requires
            old(self)@.wf(),
        ensures
            final(self)@.wf(),
            final(self)@ == (MixerView { members: final(self)@.members, ..old(self)@ }),
            final(self)@.members.len() == old(self)@.members.len(),
            forall|i: int|
                0 <= i < old(self)@.ids.len() ==> #[trigger] final(self)@.members[i] == if old(self)@.ids[i] == peer_id@ {
                    Participant { stats, ..old(self)@.members[i] }
                } else {
                    old(self)@.members[i]
                },
    {
        match self.participants.position(peer_id) {
            Some(i) => {
                let p = self.participants.value_mut(i);
                p.stats = stats;
            },
            None => {},
        }
    }

    /// Records what is known of the local peer at `now`: its bandwidth, its
    /// processor and memory usage, and as session duration the time since
    /// the mixer took over, if there is one.
    pub fn update_local_stats_at(
        &mut self,
        bandwidth_bps: u64,
        cpu_usage: u32,
        memory_usage: u32,
        now: u64,
    )
        ensures
            final(self)@ == local_stats_taken(old(self)@, bandwidth_bps, cpu_usage, memory_usage, now),
    {
        let session_duration = match self.mixer_start_time {
            Some(t) => now.saturating_sub(t),
            None => 0,
        };
        let mut stats = ParticipantStats::new_at(now);
        stats.bandwidth_bps = bandwidth_bps;
        stats.cpu_usage_percent = cpu_usage;
        stats.memory_usage_percent = memory_usage;
        stats.session_duration = session_duration;
        self.local_stats = stats;
    }

    /// Records what is known of the local peer at the current clock reading.
    pub fn update_local_stats(&mut self, bandwidth_bps: u64, cpu_usage: u32, memory_usage: u32)
        ensures
            exists|now: u64|
                final(self)@ == #[trigger] local_stats_taken(
                    old(self)@,
                    bandwidth_bps,
                    cpu_usage,
                    memory_usage,
                    now,
                ),
    {
        let now = wall_clock_ms();
        self.update_local_stats_at(bandwidth_bps, cpu_usage, memory_usage, now);
        assert(self@ == local_stats_taken(old(self)@, bandwidth_bps, cpu_usage, memory_usage, now));
    }

    /// Elects the mixer at `now`, as [`MixerView::after_election`] says, and
    /// returns the peer id of the mixer, if there is one.
    pub fn select_mixer_at(&mut self, now: u64) -> (mixer: Option<String>)
        requires
            old(self)@.wf(),
        ensures
            final(self)@.wf(),
            final(self)@ == old(self)@.after_election(now),
            match mixer {
                Some(id) => final(self)@.current_mixer == Some(id@),
                None => final(self)@.current_mixer is None,
            },
    {
        if self.topology_mode != TopologyMode::SFU {
            self.current_mixer = None;
            return None;
        }
        let ghost c = self@.candidates();
        let n = self.participants.len();
        let weights = self.config.score_weights;
        let mut standing = Standing {
            seen: Ghost(0),
            best: 0,
            best_score: 0,
            second: None,
            least: 0,
            least_chars: Vec::new(),
        };
        let mut i: usize = 0;
        while i < n
            invariant
                i <= n,
                n == old(self)@.ids.len(),
                n == self.participants.keys().len(),
                weights == old(self)@.config.score_weights,
                c == old(self)@.candidates(),
                c.len() == n + 1,
                self@ == (MixerView { members: self@.members, ..old(self)@ }),
                self@.members.len() == n,
                forall|j: int|
                    0 <= j < n ==> #[trigger] self@.members[j] == if j < i {
                        Participant { score: c[j].1, ..old(self)@.members[j] }
                    } else {
                        old(self)@.members[j]
                    },
                standing.seen@ == i,
                standing.ranks(c),
            decreases n - i,
        {
            let id_chars = chars_of(self.participants.key_at(i).as_str());
            let p = self.participants.value_mut(i);
            let score = p.calculate_score(&weights);
            standing.consider(i, id_chars, score, Ghost(c));
            i += 1;
        }
        let local_chars = chars_of(self.local_peer_id.as_str());
        let local_score = self.local_stats.compute_score(&weights);
        standing.consider(n, local_chars, local_score, Ghost(c));
        let best = standing.best;
        let best_score = standing.best_score;
        let second = standing.second;
        let least = standing.least;
        let tie = match second {
            Some(s) => {
                proof {
                    lemma_second_score(c, c.len());
                }
                let floor = if best_score > SCORE_TIE_FLOOR {
                    best_score
                } else {
                    SCORE_TIE_FLOOR
                };
                (best_score - s) <= u64::MAX / SCORE_TIE_DIVISOR && (best_score - s) * SCORE_TIE_DIVISOR
                    < floor
            },
            None => false,
        };
        assert(tie == is_tie(c));
        let elected = if tie {
            least
        } else {
            best
        };
        assert(elected == elected_index(c));
        let chosen = if elected < n {
            self.participants.key_at(elected).clone()
        } else {
            self.local_peer_id.clone()
        };
        assert(chosen@ == old(self)@.elected());
        self.set_mixer_at(chosen, now);
        assert(self@.members =~= old(self)@.after_election(now).members);
        match &self.current_mixer {
            Some(m) => Some(m.clone()),
            None => None,
        }
    }

    /// Elects the mixer at the current clock reading.
    pub fn select_mixer(&mut self) -> (mixer: Option<String>)
        requires
            old(self)@.wf(),
        ensures
            final(self)@.wf(),
            exists|now: u64| final(self)@ == #[trigger] old(self)@.after_election(now),
            match mixer {
                Some(id) => final(self)@.current_mixer == Some(id@),
                None => final(self)@.current_mixer is None,
            },
            mixer is Some <==> old(self)@.topology == TopologyMode::SFU,
    {
        let now = wall_clock_ms();
        let mixer = self.select_mixer_at(now);
        assert(self@ == old(self)@.after_election(now));
        mixer
    }

    /// Makes `peer_id` the mixer from `now` on and the previous mixer a peer.
    fn set_mixer_at(&mut self, peer_id: String, now: u64)
        requires
            old(self)@.wf(),
        ensures
            final(self)@.wf(),
            final(self)@ == (MixerView {
                members: final(self)@.members,
                local_role: if peer_id@ == old(self)@.local_id {
                    MixerRole::Mixer
                } else if old(self)@.current_mixer == Some(old(self)@.local_id) {
                    MixerRole::Peer
                } else {
                    old(self)@.local_role
                },
                current_mixer: Some(peer_id@),
                mixer_start_time: Some(now),
                ..old(self)@
            }),
            final(self)@.members.len() == old(self)@.members.len(),
            forall|j: int|
                0 <= j < old(self)@.members.len() ==> #[trigger] final(self)@.members[j] == installed(
                    old(self)@.members[j],
                    old(self)@.ids[j],
                    peer_id@,
                    old(self)@.current_mixer,
                    old(self)@.local_id,
                    now,
                ),
    {
        let is_local = peer_id == self.local_peer_id;
        let was_local = match &self.current_mixer {
            Some(m) => *m == self.local_peer_id,
            None => false,
        };
        let n = self.participants.len();
        let mut i: usize = 0;
        while i < n
            invariant
                i <= n,
                n == old(self)@.members.len(),
                old(self)@.wf(),
                is_local == (peer_id@ == old(self)@.local_id),
                self@ == (MixerView { members: self@.members, ..old(self)@ }),
                self@.members.len() == n,
                forall|j: int|
                    0 <= j < n ==> #[trigger] self@.members[j] == if j < i {
                        installed(
                            old(self)@.members[j],
                            old(self)@.ids[j],
                            peer_id@,
                            old(self)@.current_mixer,
                            old(self)@.local_id,
                            now,
                        )
                    } else {
                        old(self)@.members[j]
                    },
            decreases n - i,
        {
            let is_chosen = !is_local && *self.participants.key_at(i) == peer_id;
            let was_mixer = match &self.current_mixer {
                Some(m) => *m == *self.participants.key_at(i),
                None => false,
            };
            let p = self.participants.value_mut(i);
            if is_chosen {
                p.role = MixerRole::Mixer;
                p.mixer_start_time = Some(now);
            } else if was_mixer {
                p.role = MixerRole::Peer;
                p.mixer_start_time = None;
            }
            i += 1;
        }
        if is_local {
            self.local_role = MixerRole::Mixer;
        } else if was_local {
            self.local_role = MixerRole::Peer;
        }
        self.current_mixer = Some(peer_id);
        self.mixer_start_time = Some(now);
    }

    /// Brings the topology in line with the size of the room at `now`.
    fn update_topology_mode_at(&mut self, now: u64)
        requires
            old(self)@.wf(),
        ensures
            final(self)@.wf(),
            final(self)@ == old(self)@.after_topology_update(now),
    {
        let count = self.get_participant_count();
        let new_mode = if count <= self.config.full_mesh_threshold {
            TopologyMode::FullMesh
        } else {
            TopologyMode::SFU
        };
        if new_mode != self.topology_mode {
            self.topology_mode = new_mode;
            if new_mode == TopologyMode::SFU && self.current_mixer.is_none() {
                let _ = self.select_mixer_at(now);
            }
        }
    }

    /// Takes `peer_id` into the room at `now` as a peer with blank stats, in
    /// place of a participant of that peer id if there is one, and brings the
    /// topology in line.
    pub fn add_participant_at(&mut self, peer_id: String, now: u64)
        requires
            old(self)@.wf(),
        ensures
            final(self)@.wf(),
            final(self)@ == joined(old(self)@, peer_id, now).after_topology_update(now),
            final(self)@.topology == final(self)@.called_for(),
    {
        let participant = Participant::new_at(peer_id.clone(), now);
        self.participants.insert(peer_id, participant);
        self.update_topology_mode_at(now);
    }

    /// Takes `peer_id` into the room at the current clock reading.
    pub fn add_participant(&mut self, peer_id: String)
        requires
            old(self)@.wf(),
        ensures
            final(self)@.wf(),
            exists|now: u64|
                final(self)@ == #[trigger] joined(old(self)@, peer_id, now).after_topology_update(now),
            final(self)@.topology == final(self)@.called_for(),
            final(self)@.ids == if old(self)@.ids.contains(peer_id@) {
                old(self)@.ids
            } else {
                old(self)@.ids.push(peer_id@)
            },
    {
        let now = wall_clock_ms();
        self.add_participant_at(peer_id, now);
        assert(self@ == joined(old(self)@, peer_id, now).after_topology_update(now));
    }

    /// Takes `peer_id` out of the room at `now`. If it was the mixer, a new
    /// one is elected. Then the topology is brought in line.
    pub fn remove_participant_at(&mut self, peer_id: &str, now: u64)
        requires
            old(self)@.wf(),
        ensures
            final(self)@.wf(),
            final(self)@ == left(old(self)@, peer_id@, now).after_topology_update(now),
            final(self)@.topology == final(self)@.called_for(),
    {
        let _ = self.participants.remove(peer_id);
        let was_mixer = match &self.current_mixer {
            Some(m) => str_eq(m.as_str(), peer_id),
            None => false,
        };
        if was_mixer {
            self.current_mixer = None;
            let _ = self.select_mixer_at(now);
        }
        self.update_topology_mode_at(now);
    }

    /// Takes `peer_id` out of the room at the current clock reading.
    pub fn remove_participant(&mut self, peer_id: &str)
        requires
            old(self)@.wf(),
        ensures
            final(self)@.wf(),
            exists|now: u64|
                final(self)@ == #[trigger] left(old(self)@, peer_id@, now).after_topology_update(now),
            final(self)@.topology == final(self)@.called_for(),
            !final(self)@.ids.contains(peer_id@),
    {
        let now = wall_clock_ms();
        self.remove_participant_at(peer_id, now);
        assert(self@ == left(old(self)@, peer_id@, now).after_topology_update(now));
    }

    /// Elects anew at `now` after setting the session duration of the
    /// current mixer to zero, so that its duration no longer counts for it.
    pub fn rotate_mixer_at(&mut self, now: u64) -> (mixer: Option<String>)
        requires
            old(self)@.wf(),
        ensures
            final(self)@.wf(),
            final(self)@ == stepped_down(old(self)@).after_election(now),
            match mixer {
                Some(id) => final(self)@.current_mixer == Some(id@),
                None => final(self)@.current_mixer is None,
            },
    {
        let position = match &self.current_mixer {
            Some(m) => self.participants.position(m.as_str()),
            None => None,
        };
        match position {
            Some(i) => {
                let p = self.participants.value_mut(i);
                p.stats.session_duration = 0;
            },
            None => {},
        }
        self.pending_rotation = false;
        assert(self@.members =~= stepped_down(old(self)@).members);
        self.select_mixer_at(now)
    }

    /// Elects anew at the current clock reading.
    pub fn rotate_mixer(&mut self) -> (mixer: Option<String>)
        requires
            old(self)@.wf(),
        ensures
            final(self)@.wf(),
            exists|now: u64| final(self)@ == #[trigger] stepped_down(old(self)@).after_election(now),
            match mixer {
                Some(id) => final(self)@.current_mixer == Some(id@),
                None => final(self)@.current_mixer is None,
            },
    {
        let now = wall_clock_ms();
        let mixer = self.rotate_mixer_at(now);
        assert(self@ == stepped_down(old(self)@).after_election(now));
        mixer
    }

    /// The peer id that comes first in dictionary order.
    pub fn resolve_tie(&self, candidates: &[(String, u64)]) -> (id: String)
        requires
            candidates@.len() > 0,
        ensures
            id@ == scored_view(candidates@)[least_index(
                scored_view(candidates@),
                candidates@.len(),
            )].0,
            forall|j: int|
                0 <= j < candidates@.len() ==> !lex_lt((#[trigger] candidates@[j]).0@, id@),
    {
        let ghost c = scored_view(candidates@);
        let mut least: usize = 0;
        let mut least_chars = chars_of(candidates[0].0.as_str());
        let mut i: usize = 1;
        while i < candidates.len()
            invariant
                1 <= i <= candidates@.len(),
                c == scored_view(candidates@),
                least == least_index(c, i as nat),
                least < i,
                least_chars@ == c[least as int].0,
            decreases candidates@.len() - i,
        {
            let id_chars = chars_of(candidates[i].0.as_str());
            if lex_less(id_chars.as_slice(), least_chars.as_slice()) {
                least = i;
                least_chars = id_chars;
            }
            i += 1;
        }
        proof {
            lemma_least_index(c, c.len());
            assert forall|j: int| 0 <= j < candidates@.len() implies !lex_lt(
                (#[trigger] candidates@[j]).0@,
                c[least as int].0,
            ) by {
                assert(c[j].0 == candidates@[j].0@);
            }
        }
        candidates[least].0.clone()
    }

    /// Whom to connect to: every remote participant in full mesh; in the
    /// forwarding topology the mixer alone, and nobody where the local peer
    /// is the mixer or there is none.
    pub fn get_connection_targets(&self) -> (targets: Vec<String>)
        ensures
            targets@.len() == connection_targets(self@).len(),
            forall|i: int| 0 <= i < targets@.len() ==> (#[trigger] targets@[i])@ == connection_targets(self@)[i],
    {
        let mut targets: Vec<String> = Vec::new();
        match self.topology_mode {
            TopologyMode::FullMesh => {
                let mut i: usize = 0;
                while i < self.participants.len()
                    invariant
                        i <= self.participants.keys().len(),
                        targets@.len() == i,
                        forall|j: int| 0 <= j < i ==> (#[trigger] targets@[j])@ == self.participants.keys()[j],
                    decreases self.participants.keys().len() - i,
                {
                    targets.push(self.participants.key_at(i).clone());
                    i += 1;
                }
            },
            TopologyMode::SFU => {
                match &self.current_mixer {
                    Some(m) => {
                        if *m != self.local_peer_id {
                            targets.push(m.clone());
                        }
                    },
                    None => {},
                }
            },
        }
        targets
    }

    /// Whether `status` sums the manager up at `now`: the uptime is the
    /// time since the mixer took office.
    pub open spec fn summed_up(&self, now: u64, status: MixerStatus) -> bool {
        &&& status.topology == self@.topology
        &&& status.participant_count == self@.count()
        &&& match status.current_mixer {
            Some(m) => self@.current_mixer == Some(m@),
            None => self@.current_mixer is None,
        }
        &&& status.is_local_mixer == (self@.local_role == MixerRole::Mixer)
        &&& status.uptime == match self@.mixer_start_time {
            Some(t) => Some(
                if now >= t {
                    (now - t) as u64
                } else {
                    0
                },
            ),
            None => None,
        }
    }

    /// A summary of the manager at `now`.
    pub fn get_status_at(&self, now: u64) -> (status: MixerStatus)
        ensures
            self.summed_up(now, status),
    {
        MixerStatus {
            topology: self.topology_mode,
            participant_count: self.get_participant_count(),
            current_mixer: match &self.current_mixer {
                Some(m) => Some(m.clone()),
                None => None,
            },
            is_local_mixer: self.is_mixer(),
            uptime: match self.mixer_start_time {
                Some(t) => Some(now.saturating_sub(t)),
                None => None,
            },
        }
    }

    /// A summary of the manager at the current clock reading.
    pub fn get_status(&self) -> (status: MixerStatus)
        ensures
            exists|now: u64| #[trigger] self.summed_up(now, status),
    {
        let now = wall_clock_ms();
        let status = self.get_status_at(now);
        assert(self.summed_up(now, status));
        status
    }

    /// Whether the mixer is due for rotation at `now`: in the forwarding
    /// topology, once a mixer has served for the rotation interval. A due
    /// rotation is remembered as pending.
    pub fn check_rotation_at(&mut self, now: u64) -> (due: bool)
        ensures
            due == rotation_due(old(self)@, now),
            final(self)@ == (MixerView {
                pending_rotation: due || old(self)@.pending_rotation,
                ..old(self)@
            }),
    {
        if self.topology_mode != TopologyMode::SFU {
            return false;
        }
        match self.mixer_start_time {
            None => false,
            Some(start) => {
                if now.saturating_sub(start) >= self.config.rotation_interval {
                    self.pending_rotation = true;
                    true
                } else {
                    false
                }
            },
        }
    }

    /// Whether the mixer is due for rotation at the current clock reading.
    pub fn check_rotation(&mut self) -> (due: bool)
        ensures
            exists|now: u64| due == #[trigger] rotation_due(old(self)@, now),
            final(self)@ == (MixerView {
                pending_rotation: due || old(self)@.pending_rotation,
                ..old(self)@
            }),
    {
        let now = wall_clock_ms();
        let due = self.check_rotation_at(now);
        assert(due == rotation_due(old(self)@, now));
        due
    }
}

/// The manager after it took down what is known of the local peer at `now`:
/// its bandwidth, its processor and memory usage, and as session duration
/// the time since the mixer took over, if there is one.
pub open spec fn local_stats_taken(
    v: MixerView,
    bandwidth_bps: u64,
    cpu_usage: u32,
    memory_usage: u32,
    now: u64,
) -> MixerView {
    MixerView {
        local_stats: ParticipantStats {
            bandwidth_bps,
            cpu_usage_percent: cpu_usage,
            memory_usage_percent: memory_usage,
            session_duration: match v.mixer_start_time {
                Some(t) => if now >= t {
                    (now - t) as u64
                } else {
                    0
                },
                None => 0,
            },
            ..blank_stats(now)
        },
        ..v
    }
}

/// Candidates as plain values.
pub open spec fn scored_view(candidates: Seq<(String, u64)>) -> Seq<Scored> {
    Seq::new(candidates.len(), |i: int| (candidates[i].0@, candidates[i].1))
}

/// Whom to connect to.
pub open spec fn connection_targets(v: MixerView) -> Seq<Seq<char>> {
    match v.topology {
        TopologyMode::FullMesh => v.ids,
        TopologyMode::SFU => match v.current_mixer {
            Some(m) => if m != v.local_id {
                seq![m]
            } else {
                Seq::empty()
            },
            None => Seq::empty(),
        }
    }
}

/// The room after `peer_id` joined at `now`: a peer with blank stats, at the
/// place of the participant of that peer id if there was one, at the end
/// otherwise.
pub open spec fn joined(v: MixerView, peer_id: String, now: u64) -> MixerView {
    let fresh = Participant {
        peer_id,
        display_name: None,
        role: MixerRole::Peer,
        stats: blank_stats(now),
        mixer_start_time: None,
        score: 0,
    };
    if v.ids.contains(peer_id@) {
        MixerView { members: v.members.update(v.ids.index_of(peer_id@), fresh), ..v }
    } else {
        MixerView { ids: v.ids.push(peer_id@), members: v.members.push(fresh), ..v }
    }
}

/// The room after `peer_id` left at `now`: without that participant, and
/// with a new mixer elected if it was the mixer.
pub open spec fn left(v: MixerView, peer_id: Seq<char>, now: u64) -> MixerView {
    let without = if v.ids.contains(peer_id) {
        MixerView {
            ids: v.ids.remove(v.ids.index_of(peer_id)),
            members: v.members.remove(v.ids.index_of(peer_id)),
            ..v
        }
    } else {
        v
    };
    if v.current_mixer == Some(peer_id) {
        (MixerView { current_mixer: None, ..without }).after_election(now)
    } else {
        without
    }
}

/// The room once the current mixer, if it is a remote participant, has its
/// session duration set to zero, and no rotation is pending.
pub open spec fn stepped_down(v: MixerView) -> MixerView {
    MixerView {
        members: Seq::new(
            v.members.len(),
            |i: int|
                if v.current_mixer == Some(v.ids[i]) {
                    Participant {
                        stats: ParticipantStats { session_duration: 0, ..v.members[i].stats },
                        ..v.members[i]
                    }
                } else {
                    v.members[i]
                },
        ),
        pending_rotation: false,
        ..v
    }
}

/// Whether the mixer is due for rotation at `now`.
pub open spec fn rotation_due(v: MixerView, now: u64) -> bool {
    &&& v.topology == TopologyMode::SFU
    &&& v.mixer_start_time matches Some(start)
    &&& (if now >= start {
        now - start
    } else {
        0
    }) >= v.config.rotation_interval
}

/// Rotation changes the mixer: in the forwarding topology, once the session
/// duration of the mixer is set to zero, the election at `now` makes another
/// peer the mixer, provided that some candidate of another peer id then has
/// a score that is as high as the mixer's or ties with it. The one case left
/// out is that of a tie between the two highest scores in which the mixer's
/// peer id comes first of all in dictionary order: the tie then goes to the
/// old mixer again.
pub proof fn lemma_rotation_changes_mixer(v: MixerView, mixer: Seq<char>, other: int, now: u64)
    requires
        v.wf(),
        v.topology == TopologyMode::SFU,
        v.current_mixer == Some(mixer),
        0 <= other < stepped_down(v).candidates().len(),
        stepped_down(v).candidates()[other].0 != mixer,
        forall|k: int|
            0 <= k < stepped_down(v).candidates().len() && (#[trigger] stepped_down(
                v,
            ).candidates()[k]).0 == mixer ==> stepped_down(v).candidates()[other].1
                >= stepped_down(v).candidates()[k].1 || scores_tie(
                stepped_down(v).candidates()[k].1,
                stepped_down(v).candidates()[other].1,
            ),
        !(is_tie(stepped_down(v).candidates()) && stepped_down(v).candidates()[least_index(
            stepped_down(v).candidates(),
            stepped_down(v).candidates().len(),
        )].0 == mixer),
    ensures
        stepped_down(v).after_election(now).current_mixer is Some,
        stepped_down(v).after_election(now).current_mixer != Some(mixer),
{
    let c = stepped_down(v).candidates();
    lemma_best_index(c, c.len());
    lemma_least_index(c, c.len());
    let best = best_index(c, c.len());
    if !is_tie(c) && c[best].0 == mixer {
        assert(other != best);
        lemma_second_score(c, c.len());
        let second = second_score(c, c.len())->0;
        assert(c[other].1 <= second <= c[best].1);
        assert((c[best].1 - second) * SCORE_TIE_DIVISOR <= (c[best].1 - c[other].1)
            * SCORE_TIE_DIVISOR) by (nonlinear_arith)
            requires
                c[other].1 <= second <= c[best].1,
                SCORE_TIE_DIVISOR > 0,
        ;
        assert(scores_tie(c[best].1, second));
        assert(false);
    }
}

/// The topology crosses at the threshold: once a peer that is new to the
/// room has joined, the room counts the remote participants and the local
/// peer, its topology is a full mesh if it counts no more than the threshold
/// and the forwarding topology if it counts more, and where it has just
/// become the forwarding topology without a mixer, a mixer is elected.
pub proof fn lemma_topology_crosses_at_threshold(v: MixerView, peer_id: String, now: u64)
    requires
        v.wf(),
        !v.ids.contains(peer_id@),
    ensures
        ({
            let after = joined(v, peer_id, now).after_topology_update(now);
            &&& after.wf()
            &&& after.ids.len() == v.ids.len() + 1
            &&& v.ids.len() + 2 <= usize::MAX ==> after.count() == v.ids.len() + 2
            &&& after.topology == if after.count() <= v.config.full_mesh_threshold {
                TopologyMode::FullMesh
            } else {
                TopologyMode::SFU
            }
            &&& after.topology == TopologyMode::SFU && v.topology != TopologyMode::SFU
                && v.current_mixer is None ==> after.current_mixer is Some
        }),
{
    let room = joined(v, peer_id, now);
    assert(room.ids =~= v.ids.push(peer_id@));
    assert(room.ids.no_duplicates()) by {
        assert forall|i: int, j: int|
            0 <= i < room.ids.len() && 0 <= j < room.ids.len() && i != j implies room.ids[i]
            != room.ids[j] by {
            if i < v.ids.len() && j < v.ids.len() {
            } else if i < v.ids.len() {
                assert(v.ids.contains(v.ids[i]));
            } else if j < v.ids.len() {
                assert(v.ids.contains(v.ids[j]));
            }
        }
    }
}

} // verus!
