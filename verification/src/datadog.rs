//! The state of a monitor, and the one status that a badge shows for it.

use std::cmp::Ordering;
use vstd::prelude::*;
use vstd::std_specs::cmp::PartialOrdSpecImpl;
use crate::filter::active_patterns;
use crate::filter::compile;
use crate::filter::filter_text;
use crate::filter::keeps;
use crate::filter::keeps_group;
use crate::filter::set_patterns;
use crate::string_map::StringMap;
use crate::timestamp::latest;
use crate::timestamp::Timestamp;

verus! {

/// The status of a monitor or of one of its groups, least severe first.
#[derive(Clone, Copy, Debug, PartialEq, Eq, Structural, Hash, Ord)]
pub enum MonitorStatus {
    Ignored,
    Skipped,
    OK,
    NoData,
    Warn,
    Alert,
    Unknown,
}

/// The statuses in ascending order of severity.
pub open spec fn severity_table() -> Seq<MonitorStatus> {
    seq![
        MonitorStatus::Ignored,
        MonitorStatus::Skipped,
        MonitorStatus::OK,
        MonitorStatus::NoData,
        MonitorStatus::Warn,
        MonitorStatus::Alert,
        MonitorStatus::Unknown,
    ]
}

impl MonitorStatus {
    /// The place of the status in the severity table.
    pub open spec fn severity(self) -> int {
        match self {
            MonitorStatus::Ignored => 0,
            MonitorStatus::Skipped => 1,
            MonitorStatus::OK => 2,
            MonitorStatus::NoData => 3,
            MonitorStatus::Warn => 4,
            MonitorStatus::Alert => 5,
            MonitorStatus::Unknown => 6,
        }
    }

    /// How `self` stands to `other` in severity.
    pub open spec fn compared(self, other: MonitorStatus) -> Ordering {
        if self.severity() < other.severity() {
            Ordering::Less
        } else if self.severity() == other.severity() {
            Ordering::Equal
        } else {
            Ordering::Greater
        }
    }

    /// The place of the status in the severity table.
    pub fn rank(&self) -> (r: u8)
        ensures
            r == self.severity(),
    {
        match self {
            MonitorStatus::Ignored => 0,
            MonitorStatus::Skipped => 1,
            MonitorStatus::OK => 2,
            MonitorStatus::NoData => 3,
            MonitorStatus::Warn => 4,
            MonitorStatus::Alert => 5,
            MonitorStatus::Unknown => 6,
        }
    }

    /// How `self` stands to `other` in severity.
    pub fn cmp(&self, other: &MonitorStatus) -> (o: Ordering)
        ensures
            o == self.compared(*other),
    {
        let mine = self.rank();
        let theirs = other.rank();
        if mine < theirs {
            Ordering::Less
        } else if mine == theirs {
            Ordering::Equal
        } else {
            Ordering::Greater
        }
    }
}

impl PartialOrd for MonitorStatus {
    fn partial_cmp(&self, other: &MonitorStatus) -> (r: Option<Ordering>) {
        Some(self.cmp(other))
    }
}

impl PartialOrdSpecImpl for MonitorStatus {
    open spec fn obeys_partial_cmp_spec() -> bool {
        true
    }

    open spec fn partial_cmp_spec(&self, other: &MonitorStatus) -> Option<Ordering> {
        Some(self.compared(*other))
    }
}

impl Default for MonitorStatus {
    fn default() -> (s: MonitorStatus)
        ensures
            s == MonitorStatus::OK,
    {
        MonitorStatus::OK
    }
}

/// Of two statuses exactly one of less, equal and greater holds, each as the
/// severity table has it: a status is less than those that stand after it in
/// the table, and equal to itself alone.
pub proof fn lemma_status_order_total(a: MonitorStatus, b: MonitorStatus)
    ensures
        0 <= a.severity() < severity_table().len(),
        severity_table()[a.severity()] == a,
        a.compared(b) == Ordering::Less <==> a.severity() < b.severity(),
        a.compared(b) == Ordering::Equal <==> a == b,
        a.compared(b) == Ordering::Greater <==> b.severity() < a.severity(),
        a.compared(b) == Ordering::Less <==> b.compared(a) == Ordering::Greater,
{
}

/// The order of the statuses is transitive.
pub proof fn lemma_status_order_transitive(a: MonitorStatus, b: MonitorStatus, c: MonitorStatus)
    requires
        a.compared(b) == Ordering::Less || a.compared(b) == Ordering::Equal,
        b.compared(c) == Ordering::Less || b.compared(c) == Ordering::Equal,
    ensures
        a.compared(c) == Ordering::Less || a.compared(c) == Ordering::Equal,
        a.compared(b) == Ordering::Less || b.compared(c) == Ordering::Less ==> a.compared(c)
            == Ordering::Less,
{
}

/// What a monitor has been silenced for.
#[derive(Clone, Debug, PartialEq, Eq)]
pub struct MonitorOptions {
    /// The scopes for which the monitor is silenced.
    pub silenced: Vec<String>,
}

impl MonitorOptions {
    /// A monitor is muted when it is silenced for some scope.
    pub open spec fn muted(&self) -> bool {
        self.silenced@.len() > 0
    }

    /// Whether the monitor is muted.
    pub fn is_muted(&self) -> (b: bool)
        ensures
            b == self.muted(),
    {
        self.silenced.len() > 0
    }
}

impl Default for MonitorOptions {
    fn default() -> (o: MonitorOptions)
        ensures
            o.silenced@.len() == 0,
    {
        MonitorOptions { silenced: Vec::new() }
    }
}

/// The state of one group of a monitor.
#[derive(Clone, Copy, Debug, PartialEq, Eq, Structural)]
pub struct MonitorGroupState {
    pub status: MonitorStatus,
    pub last_triggered_ts: Option<Timestamp>,
    pub last_nodata_ts: Option<Timestamp>,
    pub last_notified_ts: Option<Timestamp>,
    pub last_resolved_ts: Option<Timestamp>,
}

/// The status of a group and the instant since which it has held, for a
/// monitor that was last modified at `modified`.  The instant is the latest
/// that is present: for a group that is fine, of its last resolution and
/// `modified`; for a group without data, of the last time it had none, of
/// its last triggering and `modified`; for every other group, of its last
/// triggering and `modified`.
pub open spec fn group_status(modified: Option<Timestamp>, group: MonitorGroupState) -> (
    MonitorStatus,
    Option<Timestamp>,
) {
    match group.status {
        MonitorStatus::OK => (MonitorStatus::OK, latest(group.last_resolved_ts, modified)),
        MonitorStatus::NoData => (
            MonitorStatus::NoData,
            latest(group.last_nodata_ts, latest(group.last_triggered_ts, modified)),
        ),
        other => (other, latest(group.last_triggered_ts, modified)),
    }
}

impl MonitorGroupState {
    /// The status of the group and the instant since which it has held, for a
    /// monitor that was last modified at `modified`.
    pub fn status_since(&self, modified: Option<Timestamp>) -> (r: (MonitorStatus, Option<Timestamp>))
        ensures
            r == group_status(modified, *self),
    {
        match self.status {
            MonitorStatus::OK => (MonitorStatus::OK, latest(self.last_resolved_ts, modified)),
            MonitorStatus::NoData => (
                MonitorStatus::NoData,
                latest(self.last_nodata_ts, latest(self.last_triggered_ts, modified)),
            ),
            other => (other, latest(self.last_triggered_ts, modified)),
        }
    }
}

/// `i` is the place of the worst of `candidates`: none is more severe than
/// the one at `i`, and all that stand before it are less severe.
pub open spec fn is_worst(candidates: Seq<(MonitorStatus, Option<Timestamp>)>, i: int) -> bool {
    &&& 0 <= i < candidates.len()
    &&& forall|j: int|
        0 <= j < candidates.len() ==> (#[trigger] candidates[j]).0.severity()
            <= candidates[i].0.severity()
    &&& forall|j: int|
        0 <= j < i ==> (#[trigger] candidates[j]).0.severity() < candidates[i].0.severity()
}

/// The first of the most severe of `candidates`; where there is no
/// candidate, no data and no instant.
pub open spec fn worst(candidates: Seq<(MonitorStatus, Option<Timestamp>)>) -> (
    MonitorStatus,
    Option<Timestamp>,
) {
    if candidates.len() == 0 {
        (MonitorStatus::NoData, None)
    } else {
        candidates[choose|i: int| is_worst(candidates, i)]
    }
}

/// The first of the most severe of `candidates`; where there is no
/// candidate, no data and no instant.
pub fn worst_of(candidates: &Vec<(MonitorStatus, Option<Timestamp>)>) -> (r: (
    MonitorStatus,
    Option<Timestamp>,
))
    ensures
        r == worst(candidates@),
        candidates.len() > 0 ==> exists|i: int| is_worst(candidates@, i) && r == candidates@[i],
{
    if candidates.len() == 0 {
        return (MonitorStatus::NoData, None);
    }
    let mut best: usize = 0;
    let mut i: usize = 1;
    while i < candidates.len()
        invariant
            1 <= i <= candidates.len(),
            best < i,
            forall|j: int|
                0 <= j < i ==> (#[trigger] candidates@[j]).0.severity()
                    <= candidates@[best as int].0.severity(),
            forall|j: int|
                0 <= j < best ==> (#[trigger] candidates@[j]).0.severity()
                    < candidates@[best as int].0.severity(),
        decreases candidates.len() - i,
    {
        if candidates[best].0.rank() < candidates[i].0.rank() {
            best = i;
        }
        i += 1;
    }
    proof {
        assert(is_worst(candidates@, best as int));
        let chosen = choose|i: int| is_worst(candidates@, i);
        assert(is_worst(candidates@, chosen));
        assert(chosen == best) by {
            if chosen < best {
                assert(candidates@[chosen].0.severity() < candidates@[best as int].0.severity());
                assert(candidates@[best as int].0.severity() <= candidates@[chosen].0.severity());
            } else if best < chosen {
                assert(candidates@[best as int].0.severity() < candidates@[chosen].0.severity());
                assert(candidates@[chosen].0.severity() <= candidates@[best as int].0.severity());
            }
        }
    }
    candidates[best]
}

/// The status and instant of each group that a filter keeps, in the order of
/// the groups.
pub open spec fn candidates(
    groups: Seq<(Seq<char>, MonitorGroupState)>,
    modified: Option<Timestamp>,
    patterns: Option<Seq<Seq<char>>>,
) -> Seq<(MonitorStatus, Option<Timestamp>)>
    decreases groups.len(),
{
    if groups.len() == 0 {
        Seq::empty()
    } else {
        let before = candidates(groups.drop_last(), modified, patterns);
        if keeps(patterns, groups.last().0) {
            before.push(group_status(modified, groups.last().1))
        } else {
            before
        }
    }
}

/// The groups of a monitor, where its state has them.
#[derive(Clone, Debug, PartialEq, Eq)]
pub struct MonitorStateDetail {
    pub groups: Option<StringMap<MonitorGroupState>>,
}

impl Default for MonitorStateDetail {
    fn default() -> (d: MonitorStateDetail)
        ensures
            d.groups is None,
    {
        MonitorStateDetail { groups: None }
    }
}

/// The state of a monitor as the monitoring service reports it.
#[derive(Clone, Debug, PartialEq, Eq)]
pub struct MonitorState {
    pub overall_state: MonitorStatus,
    pub overall_state_modified: Option<Timestamp>,
    pub modified: Option<Timestamp>,
    pub options: MonitorOptions,
    pub state: Option<MonitorStateDetail>,
}

impl Default for MonitorState {
    fn default() -> (s: MonitorState)
        ensures
            s.overall_state == MonitorStatus::OK,
            s.overall_state_modified is None,
            s.modified is None,
            s.options.silenced@.len() == 0,
            s.state is None,
    {
        MonitorState {
            overall_state: MonitorStatus::default(),
            overall_state_modified: None,
            modified: None,
            options: MonitorOptions::default(),
            state: None,
        }
    }
}

impl MonitorState {
    /// The groups in ascending order of their keys, where the state has them.
    pub open spec fn group_entries(&self) -> Option<Seq<(Seq<char>, MonitorGroupState)>> {
        match self.state {
            Some(detail) => match detail.groups {
                Some(groups) => Some(groups.entries()),
                None => None,
            },
            None => None,
        }
    }

    /// The status that a badge shows and the instant since which it has held.
    /// Without groups these are the overall status and the instant of its
    /// last change, whatever the filter.  With groups they are those of the
    /// most severe group that the filter keeps, of the first such group in
    /// key order where there are several; and no data, without an instant,
    /// where the filter keeps no group.
    pub open spec fn status_spec(&self, filter: Option<Seq<char>>) -> (
        MonitorStatus,
        Option<Timestamp>,
    ) {
        match self.group_entries() {
            None => (self.overall_state, self.overall_state_modified),
            Some(groups) => worst(
                candidates(groups, self.overall_state_modified, active_patterns(filter)),
            ),
        }
    }

    /// The status that a badge shows and the instant since which it has held.
    pub fn status(&self, filter: Option<&str>) -> (r: (MonitorStatus, Option<Timestamp>))
        ensures
            r == self.status_spec(filter_text(filter)),
    {
        let compiled = compile(filter);
        let ghost patterns = active_patterns(filter_text(filter));
        match &self.state {
            None => (self.overall_state, self.overall_state_modified),
            Some(detail) => match &detail.groups {
                None => (self.overall_state, self.overall_state_modified),
                Some(groups) => {
                    let ghost entries = groups.entries();
                    let mut kept: Vec<(MonitorStatus, Option<Timestamp>)> = Vec::new();
                    let count = groups.len();
                    let mut i: usize = 0;
                    assert(entries.take(0) =~= Seq::empty());
                    while i < count
                        invariant
                            i <= count,
                            count == entries.len(),
                            entries == groups.entries(),
                            patterns == match compiled {
                                Some(set) => Some(set_patterns(set)),
                                None => None,
                            },
                            kept@ == candidates(
                                entries.take(i as int),
                                self.overall_state_modified,
                                patterns,
                            ),
                        decreases count - i,
                    {
                        assert(entries.take(i + 1).drop_last() =~= entries.take(i as int));
                        if keeps_group(&compiled, groups.key(i)) {
                            kept.push(groups.value(i).status_since(self.overall_state_modified));
                        }
                        i += 1;
                    }
                    assert(entries.take(i as int) =~= entries);
                    worst_of(&kept)
                },
            },
        }
    }
}

/// Without groups the status is the overall status, and the instant that of
/// its last change, whatever the filter.
pub proof fn lemma_status_without_groups(state: MonitorState, filter: Option<Seq<char>>)
    requires
        state.group_entries() is None,
    ensures
        state.status_spec(filter) == (state.overall_state, state.overall_state_modified),
{
}

/// A filter that keeps none of the groups leaves no candidate.
pub proof fn lemma_nothing_kept(
    groups: Seq<(Seq<char>, MonitorGroupState)>,
    modified: Option<Timestamp>,
    patterns: Option<Seq<Seq<char>>>,
)
    requires
        forall|i: int| 0 <= i < groups.len() ==> !keeps(patterns, (#[trigger] groups[i]).0),
    ensures
        candidates(groups, modified, patterns).len() == 0,
    decreases groups.len(),
{
    if groups.len() > 0 {
        assert forall|i: int| 0 <= i < groups.drop_last().len() implies !keeps(
            patterns,
            (#[trigger] groups.drop_last()[i]).0,
        ) by {
            assert(groups.drop_last()[i] == groups[i]);
        }
        lemma_nothing_kept(groups.drop_last(), modified, patterns);
    }
}

/// With groups of which the filter keeps none, the status is no data, and
/// there is no instant.
pub proof fn lemma_status_nothing_kept(state: MonitorState, filter: Option<Seq<char>>)
    requires
        state.group_entries() matches Some(groups) && forall|i: int|
            0 <= i < groups.len() ==> !keeps(active_patterns(filter), (#[trigger] groups[i]).0),
    ensures
        state.status_spec(filter) == (MonitorStatus::NoData, None::<Timestamp>),
{
    lemma_nothing_kept(
        state.group_entries()->0,
        state.overall_state_modified,
        active_patterns(filter),
    );
}

/// The candidates of a single group: the group's own, where the filter
/// keeps it.
pub proof fn lemma_candidates_of_one(
    key: Seq<char>,
    group: MonitorGroupState,
    modified: Option<Timestamp>,
    patterns: Option<Seq<Seq<char>>>,
)
    ensures
        candidates(seq![(key, group)], modified, patterns) == if keeps(patterns, key) {
            seq![group_status(modified, group)]
        } else {
            Seq::empty()
        },
{
    let groups = seq![(key, group)];
    assert(groups.drop_last() =~= Seq::empty());
    assert(candidates(groups.drop_last(), modified, patterns) =~= Seq::empty());
    assert(groups.last() == (key, group));
    if keeps(patterns, key) {
        assert(candidates(groups, modified, patterns) =~= seq![group_status(modified, group)]);
    }
}

/// Of two groups that the filter keeps, one fine and one in alert, the one
/// in alert gives the status, and the instant is that of its last
/// triggering, unless the monitor was modified after it.
pub proof fn lemma_alert_beats_ok(
    state: MonitorState,
    filter: Option<Seq<char>>,
    first: (Seq<char>, MonitorGroupState),
    second: (Seq<char>, MonitorGroupState),
    resolved: Timestamp,
    triggered: Timestamp,
)
    requires
        state.group_entries() == Some(seq![first, second]),
        keeps(active_patterns(filter), first.0),
        keeps(active_patterns(filter), second.0),
        ({
            ||| first.1.status == MonitorStatus::OK && second.1.status == MonitorStatus::Alert
                && first.1.last_resolved_ts == Some(resolved) && second.1.last_triggered_ts
                == Some(triggered)
            ||| second.1.status == MonitorStatus::OK && first.1.status == MonitorStatus::Alert
                && second.1.last_resolved_ts == Some(resolved) && first.1.last_triggered_ts
                == Some(triggered)
        }),
        state.overall_state_modified matches Some(modified) ==> modified.at_or_before(triggered),
    ensures
        state.status_spec(filter) == (MonitorStatus::Alert, Some(triggered)),
{
    let modified = state.overall_state_modified;
    let patterns = active_patterns(filter);
    let groups = seq![first, second];
    assert(groups.drop_last() =~= seq![first]);
    assert(groups.last() == second);
    lemma_candidates_of_one(first.0, first.1, modified, patterns);
    let kept = candidates(groups, modified, patterns);
    assert(kept =~= seq![group_status(modified, first.1), group_status(modified, second.1)]);
    let alert: int = if first.1.status == MonitorStatus::Alert {
        0
    } else {
        1
    };
    assert(is_worst(kept, alert));
    let chosen = choose|i: int| is_worst(kept, i);
    assert(is_worst(kept, chosen));
    assert(chosen == alert) by {
        if chosen != alert {
            assert(kept[alert].0.severity() <= kept[chosen].0.severity());
        }
    }
}

/// A single group without data that the filter keeps gives the latest of
/// three instants: of the last time it had no data, of its last triggering,
/// and of the last change of the monitor.
pub proof fn lemma_no_data_takes_latest(
    state: MonitorState,
    filter: Option<Seq<char>>,
    key: Seq<char>,
    group: MonitorGroupState,
    no_data: Timestamp,
    triggered: Timestamp,
    modified: Timestamp,
)
    requires
        state.group_entries() == Some(seq![(key, group)]),
        keeps(active_patterns(filter), key),
        group.status == MonitorStatus::NoData,
        group.last_nodata_ts == Some(no_data),
        group.last_triggered_ts == Some(triggered),
        state.overall_state_modified == Some(modified),
    ensures
        state.status_spec(filter) == (
            MonitorStatus::NoData,
            Some(no_data.later(triggered.later(modified))),
        ),
        forall|t: Timestamp|
            t == no_data || t == triggered || t == modified ==> t.at_or_before(
                no_data.later(triggered.later(modified)),
            ),
        ({
            let latest = no_data.later(triggered.later(modified));
            latest == no_data || latest == triggered || latest == modified
        }),
{
    lemma_candidates_of_one(key, group, Some(modified), active_patterns(filter));
    let kept = candidates(seq![(key, group)], Some(modified), active_patterns(filter));
    assert(is_worst(kept, 0));
    let chosen = choose|i: int| is_worst(kept, i);
    assert(is_worst(kept, chosen));
}

} // verus!
