//! Tempo clusters and the beat timeline of a track.
//!
//! Tempo is counted in thousandths of a beat per minute, confidence in
//! millionths, time in milliseconds: all arithmetic is on integers and exact.

use vstd::prelude::*;

verus! {

/// Two tempo estimates belong to one cluster when they lie less than this far
/// apart: 8 beats per minute.
pub const BPM_CLUSTER_THRESHOLD: u32 = 8_000;

/// A change of tempo: from `time_ms` on the track runs at `bpm_milli`
/// thousandths of a beat per minute.
#[derive(Debug, Clone, Copy, PartialEq, Eq, Structural)]
pub struct BeatEvent {
    pub time_ms: u64,
    pub bpm_milli: u32,
}

/// The values stand in ascending order.
pub open spec fn ascending(s: Seq<u32>) -> bool {
    forall|i: int, j: int| 0 <= i <= j < s.len() ==> s[i] <= s[j]
}

/// The sum of the values.
pub open spec fn sum_of(s: Seq<u32>) -> nat
    decreases s.len(),
{
    if s.len() == 0 {
        0
    } else {
        sum_of(s.drop_last()) + s.last() as nat
    }
}

/// `s` with `v` put behind the last value that is not greater than it.
pub open spec fn insert_ascending(s: Seq<u32>, v: u32) -> Seq<u32>
    decreases s.len(),
{
    if s.len() == 0 || s.last() <= v {
        s.push(v)
    } else {
        insert_ascending(s.drop_last(), v).push(s.last())
    }
}

/// The median of values in ascending order: the middle one, or the mean of the
/// two middle ones, rounded down. Of no values it is 0.
pub open spec fn median_of(s: Seq<u32>) -> u32 {
    let mid = s.len() as int / 2;
    if s.len() == 0 {
        0
    } else if s.len() % 2 == 0 {
        ((s[mid] + s[mid - 1]) / 2) as u32
    } else {
        s[mid]
    }
}

/// Whether `bpm` lies within the cluster threshold of the mean of `count`
/// values whose sum is `sum`. The mean is not rounded: the distance is measured
/// on the sum.
pub open spec fn near_mean(sum: nat, count: nat, bpm: u32) -> bool {
    let scaled = bpm * count;
    let bound = BPM_CLUSTER_THRESHOLD * count;
    sum - scaled < bound && scaled - sum < bound
}

proof fn lemma_insert_ascending_at(s: Seq<u32>, v: u32, i: int)
    requires
        0 <= i <= s.len(),
        forall|j: int| i <= j < s.len() ==> s[j] > v,
        i > 0 ==> s[i - 1] <= v,
    ensures
        insert_ascending(s, v) == s.insert(i, v),
    decreases s.len(),
{
    if i < s.len() {
        lemma_insert_ascending_at(s.drop_last(), v, i);
    }
}

proof fn lemma_sum_of_bound(s: Seq<u32>)
    ensures
        sum_of(s) <= s.len() * u32::MAX,
    decreases s.len(),
{
    if s.len() > 0 {
        lemma_sum_of_bound(s.drop_last());
    }
}

/// Putting a value into ascending values keeps them ascending, adds the value
/// to their sum and one to their number.
pub proof fn lemma_insert_ascending(s: Seq<u32>, v: u32)
    requires
        ascending(s),
    ensures
        ascending(insert_ascending(s, v)),
        insert_ascending(s, v).len() == s.len() + 1,
        sum_of(insert_ascending(s, v)) == sum_of(s) + v,
        insert_ascending(s, v).to_multiset() == s.to_multiset().insert(v),
    decreases s.len(),
{
    broadcast use vstd::seq_lib::to_multiset_build;

    if s.len() == 0 || s.last() <= v {
        assert(s.push(v).drop_last() =~= s);
    } else {
        let rest = s.drop_last();
        lemma_insert_ascending(rest, v);
        let head = insert_ascending(rest, v);
        let out = head.push(s.last());
        assert(out.drop_last() =~= head);
        assert(s =~= rest.push(s.last()));
        assert forall|i: int, j: int| 0 <= i <= j < out.len() implies out[i] <= out[j] by {
            if j == out.len() - 1 && i < j && head[i] != v {
                // a value of `head` other than `v` is a value of `rest`
                vstd::seq_lib::to_multiset_contains(head, head[i]);
                vstd::seq_lib::to_multiset_contains(rest, head[i]);
            }
        }
    }
}

/// Tempo estimates that lie close together, kept in ascending order.
#[derive(Debug)]
pub struct BPMCluster {
    values: Vec<u32>,
    total: u128,
}

impl View for BPMCluster {
    type V = Seq<u32>;

    /// The members of the cluster in ascending order.
    closed spec fn view(&self) -> Seq<u32> {
        self.values@
    }
}

impl BPMCluster {
    /// The members stand in ascending order and their sum is at hand.
    pub closed spec fn wf(&self) -> bool {
        &&& ascending(self.values@)
        &&& self.total == sum_of(self.values@)
    }

    /// A cluster without members.
    pub fn new() -> (r: BPMCluster)
        ensures
            r.wf(),
            r@ == Seq::<u32>::empty(),
    {
        BPMCluster { values: Vec::new(), total: 0 }
    }

    /// Adds an estimate to the cluster.
    pub fn add(&mut self, bpm: u32)
        requires
            old(self).wf(),
        ensures
            final(self).wf(),
            final(self)@ == insert_ascending(old(self)@, bpm),
    {
        let mut i: usize = self.values.len();
        while i > 0 && self.values[i - 1] > bpm
            invariant
                i <= self.values.len(),
                forall|j: int| i <= j < self.values.len() ==> self.values[j] > bpm,
            decreases i,
        {
            i -= 1;
        }
        proof {
            lemma_insert_ascending_at(self.values@, bpm, i as int);
            lemma_insert_ascending(self.values@, bpm);
            lemma_sum_of_bound(self.values@);
            assert(self.values@.len() * u32::MAX <= usize::MAX * u32::MAX) by (nonlinear_arith)
                requires
                    self.values@.len() <= usize::MAX,
            ;
        }
        self.values.insert(i, bpm);
        self.total = self.total + bpm as u128;
    }

    /// The number of members.
    pub fn len(&self) -> (r: usize)
        ensures
            r == self@.len(),
    {
        self.values.len()
    }

    /// The median of the members, `None` if there are none.
    pub fn median(&self) -> (r: Option<u32>)
        ensures
            r == if self@.len() == 0 {
                None
            } else {
                Some(median_of(self@))
            },
    {
        let n = self.values.len();
        if n == 0 {
            return None;
        }
        let mid = n / 2;
        if n % 2 == 0 {
            let sum: u64 = self.values[mid] as u64 + self.values[mid - 1] as u64;
            Some((sum / 2) as u32)
        } else {
            Some(self.values[mid])
        }
    }

    /// Whether `bpm` lies within the cluster threshold of the mean of the
    /// members. Nothing lies near a cluster without members.
    pub fn is_near(&self, bpm: u32) -> (r: bool)
        requires
            self.wf(),
        ensures
            r == near_mean(sum_of(self@), self@.len(), bpm),
    {
        let count = self.values.len() as u128;
        proof {
            lemma_sum_of_bound(self.values@);
            assert(self.values@.len() * u32::MAX <= usize::MAX * u32::MAX) by (nonlinear_arith)
                requires
                    self.values@.len() <= usize::MAX,
            ;
            assert(bpm * count <= u32::MAX * usize::MAX) by (nonlinear_arith)
                requires
                    bpm <= u32::MAX,
                    count <= usize::MAX,
            ;
            assert(BPM_CLUSTER_THRESHOLD * count <= 8000 * usize::MAX) by (nonlinear_arith)
                requires
                    BPM_CLUSTER_THRESHOLD == 8000,
                    count <= usize::MAX,
            ;
        }
        let scaled: u128 = bpm as u128 * count;
        let bound: u128 = BPM_CLUSTER_THRESHOLD as u128 * count;
        if self.total >= scaled {
            self.total - scaled < bound
        } else {
            scaled - self.total < bound
        }
    }
}

/// An estimate whose confidence is below this, 0.05, is discarded; one at
/// this confidence or above counts.
pub const CONFIDENCE_FLOOR: u32 = 50_000;

/// A timeline is taken for half-tempo material when every tempo in it is under
/// this, 200 beats per minute,
pub const HALF_TEMPO_LIMIT: u32 = 200_000;

/// and its double is under this, 300 beats per minute.
pub const DOUBLED_TEMPO_LIMIT: u32 = 300_000;

/// Milliseconds in a minute, times the thousand that tempo is scaled by.
pub const MILLI_BEAT_MS: u64 = 60_000_000;

/// What the tempo estimator says of one analysis window: the tempo, how sure
/// it is of it, and when the latest onset was heard.
#[derive(Debug, Clone, Copy, PartialEq, Eq, Structural)]
pub struct TempoEstimate {
    pub bpm_milli: u32,
    pub confidence_micro: u32,
    pub onset_ms: u64,
}

/// The tempo moved to the cluster `cluster` at `time_ms`.
#[derive(Debug, Clone, Copy, PartialEq, Eq, Structural)]
pub struct TempoChange {
    pub time_ms: u64,
    pub cluster: usize,
}

/// Mathematical model of a tracker: each cluster's members in ascending
/// order, the changes of tempo seen so far, and the cluster that the latest
/// counted estimate fell into.
pub struct TrackerModel {
    pub clusters: Seq<Seq<u32>>,
    pub changes: Seq<TempoChange>,
    pub current: usize,
}

/// Whether `bpm` lies near the mean of the cluster `members`.
pub open spec fn near_cluster(members: Seq<u32>, bpm: u32) -> bool {
    near_mean(sum_of(members), members.len(), bpm)
}

/// The first cluster from `from` on that `bpm` lies near.
pub open spec fn first_near_from(clusters: Seq<Seq<u32>>, bpm: u32, from: int) -> Option<int>
    decreases clusters.len() - from,
{
    if from < 0 || from >= clusters.len() {
        None
    } else if near_cluster(clusters[from], bpm) {
        Some(from)
    } else {
        first_near_from(clusters, bpm, from + 1)
    }
}

/// The first cluster that `bpm` lies near.
pub open spec fn first_near(clusters: Seq<Seq<u32>>, bpm: u32) -> Option<int> {
    first_near_from(clusters, bpm, 0)
}

impl TrackerModel {
    /// A tracker that has seen nothing.
    pub open spec fn start() -> TrackerModel {
        TrackerModel { clusters: Seq::empty(), changes: Seq::empty(), current: 0 }
    }

    /// The tracker after one more estimate. An estimate below the confidence
    /// floor changes nothing. Another one joins the first cluster
    /// it lies near, or founds a cluster; a change of tempo is recorded when
    /// that cluster is not the current one, and whenever a cluster is founded.
    pub open spec fn observe(self, estimate: TempoEstimate) -> TrackerModel {
        if estimate.confidence_micro < CONFIDENCE_FLOOR {
            self
        } else {
            match first_near(self.clusters, estimate.bpm_milli) {
                Some(i) => TrackerModel {
                    clusters: self.clusters.update(
                        i,
                        insert_ascending(self.clusters[i], estimate.bpm_milli),
                    ),
                    changes: if self.current == i {
                        self.changes
                    } else {
                        self.changes.push(
                            TempoChange { time_ms: estimate.onset_ms, cluster: i as usize },
                        )
                    },
                    current: i as usize,
                },
                None => TrackerModel {
                    clusters: self.clusters.push(seq![estimate.bpm_milli]),
                    changes: self.changes.push(
                        TempoChange {
                            time_ms: estimate.onset_ms,
                            cluster: self.clusters.len() as usize,
                        },
                    ),
                    current: self.clusters.len() as usize,
                },
            }
        }
    }

    /// The tracker after all of `estimates`, in their order.
    pub open spec fn observe_all(self, estimates: Seq<TempoEstimate>) -> TrackerModel
        decreases estimates.len(),
    {
        if estimates.len() == 0 {
            self
        } else {
            self.observe_all(estimates.drop_last()).observe(estimates.last())
        }
    }

    /// Every change of tempo names a cluster that exists.
    pub open spec fn changes_in_range(self) -> bool {
        forall|i: int| 0 <= i < self.changes.len() ==> self.changes[i].cluster < self.clusters.len()
    }

    /// The changes of tempo as beat events: each with the median of its
    /// cluster, the first one moved back to the first beat of the track.
    pub open spec fn tempo_events(self) -> Seq<BeatEvent> {
        Seq::new(
            self.changes.len(),
            |i: int|
                {
                    let bpm = median_of(self.clusters[self.changes[i].cluster as int]);
                    BeatEvent {
                        time_ms: if i == 0 {
                            first_beat(self.changes[i].time_ms, bpm)
                        } else {
                            self.changes[i].time_ms
                        },
                        bpm_milli: bpm,
                    }
                },
        )
    }

    /// The finished beat timeline.
    pub open spec fn timeline(self) -> Seq<BeatEvent> {
        correct_half_tempo(self.tempo_events())
    }
}

/// Where the first beat of a track falls when an onset at `onset_ms` lies on a
/// beat and the tempo is `bpm_milli`: the onset time modulo the length of a
/// beat, rounded down to a millisecond. At tempo 0 there is no beat to go
/// back by.
pub open spec fn first_beat(onset_ms: u64, bpm_milli: u32) -> u64 {
    if bpm_milli == 0 {
        onset_ms
    } else {
        (((onset_ms * bpm_milli) % (MILLI_BEAT_MS as int)) / (bpm_milli as int)) as u64
    }
}

/// Slow enough that twice the tempo is still plausible.
pub open spec fn is_slow(e: BeatEvent) -> bool {
    e.bpm_milli < HALF_TEMPO_LIMIT && 2 * e.bpm_milli < DOUBLED_TEMPO_LIMIT
}

/// Every event of the timeline is slow.
pub open spec fn all_slow(s: Seq<BeatEvent>) -> bool {
    forall|i: int| 0 <= i < s.len() ==> is_slow(#[trigger] s[i])
}

/// The event at twice the tempo.
pub open spec fn doubled(e: BeatEvent) -> BeatEvent {
    BeatEvent { time_ms: e.time_ms, bpm_milli: (2 * e.bpm_milli) as u32 }
}

/// The timeline with every tempo doubled if all of them are slow, else as it
/// is.
pub open spec fn correct_half_tempo(s: Seq<BeatEvent>) -> Seq<BeatEvent> {
    if all_slow(s) {
        Seq::new(s.len(), |i: int| doubled(s[i]))
    } else {
        s
    }
}

/// The time of the sample at position `sample` of a stream of `sample_rate`
/// samples per second, to the nearest millisecond, halves rounded up.
pub open spec fn sample_time_ms(sample: u64, sample_rate: u32) -> int {
    (2000 * sample + sample_rate) / (2 * sample_rate)
}

/// Computes `first_beat`.
pub fn first_beat_ms(onset_ms: u64, bpm_milli: u32) -> (r: u64)
    ensures
        r == first_beat(onset_ms, bpm_milli),
{
    if bpm_milli == 0 {
        return onset_ms;
    }
    assert(onset_ms * bpm_milli <= u64::MAX * u32::MAX) by (nonlinear_arith)
        requires
            onset_ms <= u64::MAX,
            bpm_milli <= u32::MAX,
    ;
    let product: u128 = onset_ms as u128 * bpm_milli as u128;
    let rest: u128 = product % (MILLI_BEAT_MS as u128);
    (rest / bpm_milli as u128) as u64
}

/// Computes `sample_time_ms`; `None` when the stream has no sample rate or
/// the time does not fit.
pub fn onset_time_ms(sample: u64, sample_rate: u32) -> (r: Option<u64>)
    ensures
        r == if sample_rate > 0 && sample_time_ms(sample, sample_rate) <= u64::MAX {
            Some(sample_time_ms(sample, sample_rate) as u64)
        } else {
            None
        },
{
    if sample_rate == 0 {
        return None;
    }
    let scaled: u128 = 2000 * (sample as u128) + sample_rate as u128;
    let time: u128 = scaled / (2 * (sample_rate as u128));
    if time <= u64::MAX as u128 {
        Some(time as u64)
    } else {
        None
    }
}

/// Doubles every tempo of a timeline in which all tempos are slow, and leaves
/// any other timeline as it is. The estimator tends to report slow material
/// at half its tempo.
pub fn double_if_slow(events: Vec<BeatEvent>) -> (r: Vec<BeatEvent>)
    ensures
        r@ == correct_half_tempo(events@),
{
    let mut slow = true;
    let mut i: usize = 0;
    while i < events.len()
        invariant
            i <= events.len(),
            slow == all_slow(events@.take(i as int)),
        decreases events.len() - i,
    {
        let e = events[i];
        let e_slow = e.bpm_milli < HALF_TEMPO_LIMIT && 2 * (e.bpm_milli as u64)
            < DOUBLED_TEMPO_LIMIT as u64;
        proof {
            let before = events@.take(i as int);
            let after = events@.take(i as int + 1);
            if !e_slow {
                assert(!is_slow(after[i as int]));
            } else if !slow {
                let k = choose|k: int| 0 <= k < before.len() && !is_slow(#[trigger] before[k]);
                assert(!is_slow(after[k]));
            }
        }
        slow = slow && e_slow;
        i += 1;
    }
    assert(events@.take(events.len() as int) =~= events@);
    if !slow {
        return events;
    }
    let mut out: Vec<BeatEvent> = Vec::new();
    let mut j: usize = 0;
    while j < events.len()
        invariant
            j <= events.len(),
            all_slow(events@),
            out@.len() == j,
            forall|k: int| 0 <= k < j ==> out@[k] == doubled(events@[k]),
        decreases events.len() - j,
    {
        let e = events[j];
        out.push(BeatEvent { time_ms: e.time_ms, bpm_milli: 2 * e.bpm_milli });
        j += 1;
    }
    out
}

/// Follows the tempo of a track through the estimates of its analysis
/// windows.
#[derive(Debug)]
pub struct BeatTracker {
    clusters: Vec<BPMCluster>,
    changes: Vec<TempoChange>,
    current_cluster: usize,
}

impl View for BeatTracker {
    type V = TrackerModel;

    closed spec fn view(&self) -> TrackerModel {
        TrackerModel {
            clusters: Seq::new(self.clusters@.len(), |i: int| self.clusters@[i]@),
            changes: self.changes@,
            current: self.current_cluster,
        }
    }
}

impl BeatTracker {
    /// Every cluster is well formed and every change names a cluster.
    pub closed spec fn wf(&self) -> bool {
        &&& forall|i: int| 0 <= i < self.clusters@.len() ==> (#[trigger] self.clusters@[i]).wf()
        &&& self@.changes_in_range()
    }

    /// A tracker that has seen nothing.
    pub fn new() -> (r: BeatTracker)
        ensures
            r.wf(),
            r@ == TrackerModel::start(),
    {
        let r = BeatTracker { clusters: Vec::new(), changes: Vec::new(), current_cluster: 0 };
        assert(r@.clusters =~= Seq::<Seq<u32>>::empty());
        r
    }

    /// The first cluster that `bpm` lies near.
    fn find_near(&self, bpm: u32) -> (r: Option<usize>)
        requires
            self.wf(),
        ensures
            match r {
                Some(i) => first_near(self@.clusters, bpm) == Some(i as int) && i
                    < self.clusters@.len(),
                None => first_near(self@.clusters, bpm) is None,
            },
    {
        let mut i: usize = 0;
        while i < self.clusters.len()
            invariant
                i <= self.clusters@.len(),
                self.wf(),
                first_near(self@.clusters, bpm) == first_near_from(self@.clusters, bpm, i as int),
            decreases self.clusters@.len() - i,
        {
            if self.clusters[i].is_near(bpm) {
                return Some(i);
            }
            i += 1;
        }
        None
    }

    /// Takes in the estimate of one analysis window.
    pub fn observe(&mut self, estimate: TempoEstimate)
        requires
            old(self).wf(),
        ensures
            final(self).wf(),
            final(self)@ == old(self)@.observe(estimate),
    {
        if estimate.confidence_micro < CONFIDENCE_FLOOR {
            return ;
        }
        let found = self.find_near(estimate.bpm_milli);
        match found {
            Some(i) => {
                self.clusters[i].add(estimate.bpm_milli);
                if self.current_cluster != i {
                    self.current_cluster = i;
                    self.changes.push(TempoChange { time_ms: estimate.onset_ms, cluster: i });
                }
                assert(self@.clusters =~= old(self)@.clusters.update(
                    i as int,
                    insert_ascending(old(self)@.clusters[i as int], estimate.bpm_milli),
                ));
            },
            None => {
                let mut cluster = BPMCluster::new();
                cluster.add(estimate.bpm_milli);
                let index = self.clusters.len();
                self.clusters.push(cluster);
                self.current_cluster = index;
                self.changes.push(TempoChange { time_ms: estimate.onset_ms, cluster: index });
                assert(self@.clusters =~= old(self)@.clusters.push(seq![estimate.bpm_milli]));
            },
        }
        assert forall|k: int| 0 <= k < self@.changes.len() implies self@.changes[k].cluster
            < self@.clusters.len() by {
            if k < old(self)@.changes.len() {
                assert(old(self)@.changes[k].cluster < old(self)@.clusters.len());
            }
        }
    }

    /// The number of clusters founded so far.
    pub fn cluster_count(&self) -> (r: usize)
        ensures
            r == self@.clusters.len(),
    {
        self.clusters.len()
    }

    /// The changes of tempo recorded so far.
    pub fn changes(&self) -> (r: Vec<TempoChange>)
        ensures
            r@ == self@.changes,
    {
        self.changes.clone()
    }

    /// The beat timeline of what was seen: empty if no estimate counted.
    pub fn timeline(&self) -> (r: Vec<BeatEvent>)
        requires
            self.wf(),
        ensures
            r@ == self@.timeline(),
    {
        let mut events: Vec<BeatEvent> = Vec::new();
        let mut i: usize = 0;
        while i < self.changes.len()
            invariant
                i <= self.changes@.len(),
                self.wf(),
                events@.len() == i,
                forall|k: int| 0 <= k < i ==> events@[k] == self@.tempo_events()[k],
            decreases self.changes@.len() - i,
        {
            let change = self.changes[i];
            assert(self@.changes[i as int].cluster < self@.clusters.len());
            let bpm = match self.clusters[change.cluster].median() {
                Some(m) => m,
                None => 0,
            };
            let time_ms = if i == 0 {
                first_beat_ms(change.time_ms, bpm)
            } else {
                change.time_ms
            };
            events.push(BeatEvent { time_ms, bpm_milli: bpm });
            i += 1;
        }
        assert(events@ =~= self@.tempo_events());
        double_if_slow(events)
    }
}

/// What the analysis of an audio file gives: the audio encoded for
/// distribution and its beat timeline.
#[derive(Debug, PartialEq, Eq)]
pub struct ProcessedAudio {
    pub mp3_data: Vec<u8>,
    pub beat_data: Vec<BeatEvent>,
}

/// In a timeline of slow events every tempo comes out exactly doubled, at
/// the time it had.
pub proof fn lemma_slow_timeline_doubles(s: Seq<BeatEvent>)
    requires
        all_slow(s),
    ensures
        correct_half_tempo(s).len() == s.len(),
        forall|i: int|
            0 <= i < s.len() ==> (#[trigger] correct_half_tempo(s)[i]).bpm_milli == 2
                * s[i].bpm_milli && correct_half_tempo(s)[i].time_ms == s[i].time_ms,
{
}

/// One event at or above the half-tempo limit leaves the whole timeline as
/// it is.
pub proof fn lemma_fast_event_keeps_timeline(s: Seq<BeatEvent>, i: int)
    requires
        0 <= i < s.len(),
        s[i].bpm_milli >= HALF_TEMPO_LIMIT,
    ensures
        correct_half_tempo(s) == s,
{
}

/// All values lie between `lo` and `hi`.
pub open spec fn all_within(s: Seq<u32>, lo: u32, hi: u32) -> bool {
    forall|i: int| 0 <= i < s.len() ==> lo <= #[trigger] s[i] <= hi
}

proof fn lemma_sum_within(s: Seq<u32>, lo: u32, hi: u32)
    requires
        all_within(s, lo, hi),
    ensures
        lo * s.len() <= sum_of(s) <= hi * s.len(),
    decreases s.len(),
{
    if s.len() > 0 {
        lemma_sum_within(s.drop_last(), lo, hi);
        let n = s.len() as int;
        assert(lo * (n - 1) + lo == lo * n) by (nonlinear_arith);
        assert(hi * (n - 1) + hi == hi * n) by (nonlinear_arith);
    } else {
        assert(lo * 0 == 0 && hi * 0 == 0) by (nonlinear_arith);
    }
}

proof fn lemma_insert_within(s: Seq<u32>, v: u32, lo: u32, hi: u32)
    requires
        all_within(s, lo, hi),
        lo <= v <= hi,
    ensures
        all_within(insert_ascending(s, v), lo, hi),
    decreases s.len(),
{
    if !(s.len() == 0 || s.last() <= v) {
        lemma_insert_within(s.drop_last(), v, lo, hi);
    }
}

proof fn lemma_near_within(s: Seq<u32>, v: u32, lo: u32, hi: u32)
    requires
        s.len() > 0,
        all_within(s, lo, hi),
        lo <= v <= hi,
        hi - lo < BPM_CLUSTER_THRESHOLD,
    ensures
        near_cluster(s, v),
{
    lemma_sum_within(s, lo, hi);
    let n = s.len() as int;
    let sum = sum_of(s) as int;
    assert(sum - v * n < BPM_CLUSTER_THRESHOLD * n && v * n - sum < BPM_CLUSTER_THRESHOLD * n)
        by (nonlinear_arith)
        requires
            n > 0,
            lo * n <= sum <= hi * n,
            lo <= v <= hi,
            hi - lo < BPM_CLUSTER_THRESHOLD,
    ;
}

/// A steady tempo makes one cluster and one change. If every estimate counts
/// and all tempos lie in a band narrower than the cluster threshold, a
/// tracker that starts afresh ends with a single cluster that holds every
/// estimate, and with a single change of tempo, at the onset of the first
/// estimate.
pub proof fn lemma_steady_tempo_single_cluster(estimates: Seq<TempoEstimate>, lo: u32, hi: u32)
    requires
        estimates.len() > 0,
        hi - lo < BPM_CLUSTER_THRESHOLD,
        forall|i: int|
            0 <= i < estimates.len() ==> (#[trigger] estimates[i]).confidence_micro
                >= CONFIDENCE_FLOOR && lo <= estimates[i].bpm_milli <= hi,
    ensures
        ({
            let end = TrackerModel::start().observe_all(estimates);
            &&& end.clusters.len() == 1
            &&& end.clusters[0].len() == estimates.len()
            &&& all_within(end.clusters[0], lo, hi)
            &&& end.current == 0
            &&& end.changes == seq![TempoChange { time_ms: estimates[0].onset_ms, cluster: 0 }]
        }),
    decreases estimates.len(),
{
    let start = TrackerModel::start();
    let last = estimates.last();
    let before = estimates.drop_last();
    if estimates.len() == 1 {
        // the first estimate founds the cluster
        assert(start.observe_all(before) == start);
    } else {
        // the estimates before the last have made one cluster; the last
        // lies near its mean and joins it
        lemma_steady_tempo_single_cluster(before, lo, hi);
        let mid = start.observe_all(before);
        lemma_near_within(mid.clusters[0], last.bpm_milli, lo, hi);
        lemma_insert_within(mid.clusters[0], last.bpm_milli, lo, hi);
        lemma_insert_ascending_len(mid.clusters[0], last.bpm_milli);
        assert(first_near(mid.clusters, last.bpm_milli) == Some(0int));
    }
}

proof fn lemma_insert_ascending_len(s: Seq<u32>, v: u32)
    ensures
        insert_ascending(s, v).len() == s.len() + 1,
    decreases s.len(),
{
    if !(s.len() == 0 || s.last() <= v) {
        lemma_insert_ascending_len(s.drop_last(), v);
    }
}

/// A step of tempo makes exactly one more change. An estimate that counts and
/// lies near no cluster founds a cluster and adds one change of tempo, at the
/// onset of that estimate; what was recorded before stays.
pub proof fn lemma_tempo_step_records_change(before: TrackerModel, estimate: TempoEstimate)
    requires
        estimate.confidence_micro >= CONFIDENCE_FLOOR,
        forall|i: int|
            0 <= i < before.clusters.len() ==> !near_cluster(
                #[trigger] before.clusters[i],
                estimate.bpm_milli,
            ),
    ensures
        ({
            let after = before.observe(estimate);
            &&& after.clusters.len() == before.clusters.len() + 1
            &&& after.changes == before.changes.push(
                TempoChange {
                    time_ms: estimate.onset_ms,
                    cluster: before.clusters.len() as usize,
                },
            )
        }),
{
    lemma_none_near(before.clusters, estimate.bpm_milli, 0);
}

/// A tempo that stays makes no change. An estimate that counts and joins
/// the current cluster, the first that it lies near, leaves the changes of
/// tempo and the number of clusters as they were.
pub proof fn lemma_same_cluster_no_change(before: TrackerModel, estimate: TempoEstimate)
    requires
        estimate.confidence_micro >= CONFIDENCE_FLOOR,
        first_near(before.clusters, estimate.bpm_milli) == Some(before.current as int),
    ensures
        before.observe(estimate).changes == before.changes,
        before.observe(estimate).clusters.len() == before.clusters.len(),
        before.observe(estimate).current == before.current,
{
    lemma_first_near(before.clusters, estimate.bpm_milli);
}

/// An estimate below the confidence floor leaves the tracker as it was.
pub proof fn lemma_unsure_estimate_discarded(before: TrackerModel, estimate: TempoEstimate)
    requires
        estimate.confidence_micro < CONFIDENCE_FLOOR,
    ensures
        before.observe(estimate) == before,
{
}

proof fn lemma_none_near(clusters: Seq<Seq<u32>>, bpm: u32, from: int)
    requires
        0 <= from,
        forall|i: int| from <= i < clusters.len() ==> !near_cluster(#[trigger] clusters[i], bpm),
    ensures
        first_near_from(clusters, bpm, from) is None,
    decreases clusters.len() - from,
{
    if from < clusters.len() {
        lemma_none_near(clusters, bpm, from + 1);
    }
}

/// What `first_near` finds is near, and no cluster before it is.
pub proof fn lemma_first_near(clusters: Seq<Seq<u32>>, bpm: u32)
    ensures
        match first_near(clusters, bpm) {
            Some(i) => 0 <= i < clusters.len() && near_cluster(clusters[i], bpm) && forall|j: int|
                0 <= j < i ==> !near_cluster(#[trigger] clusters[j], bpm),
            None => forall|j: int|
                0 <= j < clusters.len() ==> !near_cluster(#[trigger] clusters[j], bpm),
        },
{
    lemma_first_near_from(clusters, bpm, 0);
}

proof fn lemma_first_near_from(clusters: Seq<Seq<u32>>, bpm: u32, from: int)
    requires
        0 <= from,
    ensures
        match first_near_from(clusters, bpm, from) {
            Some(i) => from <= i < clusters.len() && near_cluster(clusters[i], bpm) && forall|
                j: int,
            |
                from <= j < i ==> !near_cluster(#[trigger] clusters[j], bpm),
            None => forall|j: int|
                from <= j < clusters.len() ==> !near_cluster(#[trigger] clusters[j], bpm),
        },
    decreases clusters.len() - from,
{
    if from < clusters.len() && !near_cluster(clusters[from], bpm) {
        lemma_first_near_from(clusters, bpm, from + 1);
    }
}

/// The number of samples that the tempo estimator looks at at a time.
pub const TEMPO_BUFFER_SIZE: usize = 1024;

/// The number of samples by which the tempo estimator moves on.
pub const TEMPO_HOP_SIZE: usize = 512;

/// Why an audio file was not analysed.
#[derive(Debug, Clone, Copy, PartialEq, Eq, Structural)]
pub enum AnalysisError {
    /// The file holds no stream of one or two channels that can be decoded.
    NoSuitableTrack,
    /// The stream does not say how many frames it holds.
    NoFrames,
    /// The stream does not say at which rate it was sampled.
    NoSampleRate,
    /// The file could not be read or decoded.
    DecodeFailure,
}

/// What the container says of one of its streams.
#[derive(Debug, Clone, Copy, PartialEq, Eq, Structural)]
pub struct StreamInfo {
    /// Whether the stream names a codec.
    pub has_codec: bool,
    /// The number of channels, if the stream says it.
    pub channels: Option<usize>,
    /// The number of frames, if the stream says it.
    pub frames: Option<u64>,
    /// The number of samples per second, if the stream says it.
    pub sample_rate: Option<u32>,
}

/// What is to be analysed: the stream at `stream` of the container.
#[derive(Debug, Clone, Copy, PartialEq, Eq, Structural)]
pub struct AnalysisPlan {
    pub stream: usize,
    pub channels: usize,
    pub frames: u64,
    pub sample_rate: u32,
}

/// A stream can be analysed if it names a codec and has one channel or two.
pub open spec fn is_suitable(stream: StreamInfo) -> bool {
    stream.has_codec && (stream.channels == Some(1usize) || stream.channels == Some(2usize))
}

/// The first stream from `from` on that can be analysed.
pub open spec fn first_suitable_from(streams: Seq<StreamInfo>, from: int) -> Option<int>
    decreases streams.len() - from,
{
    if from < 0 || from >= streams.len() {
        None
    } else if is_suitable(streams[from]) {
        Some(from)
    } else {
        first_suitable_from(streams, from + 1)
    }
}

/// The plan for the analysis of a container with the streams `streams`: the
/// first stream that can be analysed is taken, and it has to say how many
/// frames it holds and at which rate it was sampled.
pub open spec fn plan_for(streams: Seq<StreamInfo>) -> Result<AnalysisPlan, AnalysisError> {
    match first_suitable_from(streams, 0) {
        None => Err(AnalysisError::NoSuitableTrack),
        Some(i) => match (streams[i].frames, streams[i].sample_rate) {
            (None, _) => Err(AnalysisError::NoFrames),
            (Some(_), None) => Err(AnalysisError::NoSampleRate),
            (Some(frames), Some(sample_rate)) => Ok(
                AnalysisPlan {
                    stream: i as usize,
                    channels: streams[i].channels->0,
                    frames,
                    sample_rate,
                },
            ),
        },
    }
}

/// Picks the stream to analyse.
pub fn plan_analysis(streams: &Vec<StreamInfo>) -> (r: Result<AnalysisPlan, AnalysisError>)
    ensures
        r == plan_for(streams@),
{
    let mut i: usize = 0;
    while i < streams.len()
        invariant
            i <= streams@.len(),
            first_suitable_from(streams@, 0) == first_suitable_from(streams@, i as int),
        decreases streams@.len() - i,
    {
        let stream = streams[i];
        let channels = match stream.channels {
            Some(c) => c,
            None => 0,
        };
        if stream.has_codec && (channels == 1 || channels == 2) {
            let frames = match stream.frames {
                Some(f) => f,
                None => {
                    return Err(AnalysisError::NoFrames);
                },
            };
            let sample_rate = match stream.sample_rate {
                Some(s) => s,
                None => {
                    return Err(AnalysisError::NoSampleRate);
                },
            };
            return Ok(AnalysisPlan { stream: i, channels, frames, sample_rate });
        }
        i += 1;
    }
    Err(AnalysisError::NoSuitableTrack)
}

/// Gathers decoded samples into the windows that the tempo estimator looks
/// at.
#[derive(Debug)]
pub struct SampleWindow {
    block: Vec<i16>,
}

impl View for SampleWindow {
    type V = Seq<i16>;

    /// The samples that wait for a window to fill.
    closed spec fn view(&self) -> Seq<i16> {
        self.block@
    }
}

/// The `k`th window of `samples`.
pub open spec fn window_at(samples: Seq<i16>, k: int) -> Seq<i16> {
    samples.subrange(k * TEMPO_BUFFER_SIZE as int, (k + 1) * TEMPO_BUFFER_SIZE as int)
}

/// The samples of `samples` that are left when all full windows are taken.
pub open spec fn window_rest(samples: Seq<i16>) -> Seq<i16> {
    samples.subrange(
        (samples.len() as int / TEMPO_BUFFER_SIZE as int) * TEMPO_BUFFER_SIZE as int,
        samples.len() as int,
    )
}

impl SampleWindow {
    /// Fewer samples wait than fill a window.
    pub closed spec fn wf(&self) -> bool {
        self.block@.len() < TEMPO_BUFFER_SIZE
    }

    /// No samples wait.
    pub fn new() -> (r: SampleWindow)
        ensures
            r.wf(),
            r@ == Seq::<i16>::empty(),
    {
        SampleWindow { block: Vec::new() }
    }

    /// Takes in decoded samples and hands out the windows that they fill, in
    /// their order: the samples that waited and the new ones are cut into
    /// windows, and what does not fill a window waits on.
    pub fn push(&mut self, samples: &Vec<i16>) -> (windows: Vec<Vec<i16>>)
        requires
            old(self).wf(),
        ensures
            final(self).wf(),
            windows@.len() == (old(self)@ + samples@).len() / TEMPO_BUFFER_SIZE as nat,
            forall|k: int|
                0 <= k < windows@.len() ==> (#[trigger] windows@[k])@ == window_at(
                    old(self)@ + samples@,
                    k,
                ),
            final(self)@ == window_rest(old(self)@ + samples@),
    {
        let ghost all = self.block@ + samples@;
        let ghost waiting = self.block@.len();
        let mut windows: Vec<Vec<i16>> = Vec::new();
        let mut i: usize = 0;
        while i < samples.len()
            invariant
                i <= samples@.len(),
                all == old(self).block@ + samples@,
                waiting == old(self).block@.len(),
                self.block@.len() < TEMPO_BUFFER_SIZE,
                windows@.len() * TEMPO_BUFFER_SIZE + self.block@.len() == waiting + i,
                forall|k: int|
                    0 <= k < windows@.len() ==> (#[trigger] windows@[k])@ == window_at(all, k),
                self.block@ == all.subrange(
                    windows@.len() * TEMPO_BUFFER_SIZE as int,
                    waiting + i,
                ),
            decreases samples@.len() - i,
        {
            self.block.push(samples[i]);
            if self.block.len() == TEMPO_BUFFER_SIZE {
                let mut full: Vec<i16> = Vec::new();
                core::mem::swap(&mut full, &mut self.block);
                windows.push(full);
            }
            i += 1;
        }
        windows
    }
}

/// The events stand in the order of their times.
pub open spec fn ordered_by_time(s: Seq<BeatEvent>) -> bool {
    forall|i: int, j: int| 0 <= i <= j < s.len() ==> s[i].time_ms <= s[j].time_ms
}

/// The changes stand in the order of their times, none later than `bound`.
pub open spec fn changes_ordered(changes: Seq<TempoChange>, bound: u64) -> bool {
    &&& forall|i: int, j: int| 0 <= i <= j < changes.len() ==> changes[i].time_ms <= changes[j].time_ms
    &&& forall|i: int| 0 <= i < changes.len() ==> (#[trigger] changes[i]).time_ms <= bound
}

/// The onset of the last estimate, 0 where there is none.
pub open spec fn last_onset(estimates: Seq<TempoEstimate>) -> u64 {
    if estimates.len() == 0 {
        0
    } else {
        estimates.last().onset_ms
    }
}

/// The first beat does not lie behind the onset it is reckoned from.
pub proof fn lemma_first_beat_not_later(onset_ms: u64, bpm_milli: u32)
    ensures
        first_beat(onset_ms, bpm_milli) <= onset_ms,
{
    if bpm_milli != 0 {
        let product = onset_ms * bpm_milli;
        let rest = product % (MILLI_BEAT_MS as int);
        assert(rest / (bpm_milli as int) <= onset_ms) by (nonlinear_arith)
            requires
                0 <= rest <= product,
                product == onset_ms * bpm_milli,
                bpm_milli > 0,
        ;
    }
}

proof fn lemma_changes_ordered(estimates: Seq<TempoEstimate>)
    requires
        forall|i: int, j: int|
            0 <= i <= j < estimates.len() ==> estimates[i].onset_ms <= estimates[j].onset_ms,
    ensures
        changes_ordered(TrackerModel::start().observe_all(estimates).changes, last_onset(estimates)),
    decreases estimates.len(),
{
    if estimates.len() > 0 {
        let before = estimates.drop_last();
        assert forall|i: int, j: int| 0 <= i <= j < before.len() implies before[i].onset_ms
            <= before[j].onset_ms by {
            assert(before[i] == estimates[i] && before[j] == estimates[j]);
        }
        lemma_changes_ordered(before);
        if before.len() > 0 {
            assert(before.last() == estimates[estimates.len() - 2]);
        }
    }
}

/// A timeline is ordered by time. If the onsets of the estimates do not go
/// back, the events of the finished timeline stand in the order of their
/// times.
pub proof fn lemma_timeline_ordered(estimates: Seq<TempoEstimate>)
    requires
        forall|i: int, j: int|
            0 <= i <= j < estimates.len() ==> estimates[i].onset_ms <= estimates[j].onset_ms,
    ensures
        ordered_by_time(TrackerModel::start().observe_all(estimates).timeline()),
{
    lemma_changes_ordered(estimates);
    let end = TrackerModel::start().observe_all(estimates);
    let events = end.tempo_events();
    if end.changes.len() > 0 {
        lemma_first_beat_not_later(
            end.changes[0].time_ms,
            median_of(end.clusters[end.changes[0].cluster as int]),
        );
    }
    assert forall|i: int, j: int| 0 <= i <= j < events.len() implies events[i].time_ms
        <= events[j].time_ms by {
        assert(end.changes[0].time_ms <= end.changes[j].time_ms);
        assert(end.changes[i].time_ms <= end.changes[j].time_ms);
    }
}

} // verus!
