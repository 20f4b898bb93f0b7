//! The consumer of the jobsite projection group.
//!
//! The consumer takes the records of a subscription in the order of the log.
//! It decodes each record, projects the event into the read model, publishes
//! the change once it is written, and then moves the checkpoint. A record
//! that does not decode is skipped. A projection that fails stalls the
//! checkpoint for the rest of the run, so that a restart meets the record
//! again.

use vstd::prelude::*;
use crate::application::{AppState, HubView, JobsiteBroadcast, JobsiteBroadcastView};
use crate::events::jobsite::{
    decode,
    JobsiteCreated,
    JobsiteEvent,
    JobsiteEventView,
    JobsiteUpdated,
};
use crate::projections::jobsite::{project, Jobsite, JobsiteView, ProjectionError, ReadModel};
use crate::projections::snapshot_position::{
    SnapshotPosition,
    SnapshotPositionKey,
    SnapshotPositions,
};
use crate::stream::{
    deliveries,
    in_log_order,
    lemma_deliveries_ordered,
    lemma_resume,
    log_ordered,
    none_before,
    none_behind,
    EventLog,
    Position,
    RecordedEventView,
    ResolvedEvent,
    StreamPosition,
    SubscriptionFilter,
};

verus! {

/// The prefix of the names of the streams that hold jobsite events.
pub open spec fn stream_prefix() -> Seq<char> {
    "jobsite-"@
}

/// What the consumer makes of a projection.
#[derive(Clone, Copy, Debug, PartialEq, Eq, Structural)]
pub enum Disposition {
    /// The event was applied: the change is announced and the checkpoint moves.
    Applied,
    /// A `JobsiteCreated` was refused with `Conflict`. This is taken for the
    /// replay of an event that was applied before: nothing is announced and
    /// the checkpoint moves.
    Replayed,
    /// The event was not applied: the checkpoint stays where it is for the
    /// rest of the run.
    Failed,
}

/// What the consumer makes of the result of projecting `event`.
pub open spec fn disposition(
    event: JobsiteEventView,
    result: Result<JobsiteView, ProjectionError>,
) -> Disposition {
    match result {
        Ok(_) => Disposition::Applied,
        Err(ProjectionError::Conflict) => if event is JobsiteCreated {
            Disposition::Replayed
        } else {
            Disposition::Failed
        },
        Err(_) => Disposition::Failed,
    }
}

/// What follows from an outcome for the checkpoint.
#[derive(Clone, Copy, Debug, PartialEq, Eq, Structural)]
pub struct Settlement {
    /// The checkpoint to store, if one is to be stored.
    pub checkpoint: Option<SnapshotPosition>,
    /// Whether a projection has failed in this run.
    pub stalled: bool,
}

/// What follows from `outcome` for the checkpoint, in a run in which a
/// projection has failed before (`stalled`) or not, for a record at the commit
/// position `position`.
///
/// A failure stalls the run. In a run that is not stalled, any other outcome
/// moves the checkpoint to the position of the record; in a stalled run
/// nothing is stored.
pub open spec fn settlement(
    outcome: Disposition,
    stalled: bool,
    position: Option<u64>,
) -> Settlement {
    match outcome {
        Disposition::Failed => Settlement { checkpoint: None, stalled: true },
        _ => Settlement {
            checkpoint: match position {
                Some(commit) if !stalled => Some(
                    SnapshotPosition { key: SnapshotPositionKey::Jobsite, value: commit as i64 },
                ),
                _ => None,
            },
            stalled,
        },
    }
}

/// The announcement of the row that `event` produced.
pub open spec fn announcement(event: JobsiteEventView, row: JobsiteView) -> JobsiteBroadcastView {
    match event {
        JobsiteEventView::JobsiteCreated { .. } => JobsiteBroadcastView::JobsiteCreated(row),
        JobsiteEventView::JobsiteUpdated { .. } => JobsiteBroadcastView::JobsiteUpdated(row),
    }
}

/// The database of the read side: the jobsite rows and the checkpoints.
pub struct Database {
    pub jobsites: ReadModel,
    pub snapshot_positions: SnapshotPositions,
}

/// The consumer of the jobsite projection group, with the stores it writes
/// and the hub it publishes to.
pub struct JobsiteReadModelHandler {
    pub db_pool: Database,
    pub app_state: AppState,
    /// Whether a projection has failed in this run, so that the checkpoint no
    /// longer moves.
    pub stalled: bool,
}

/// The mathematical value of a [`JobsiteReadModelHandler`].
pub struct HandlerView {
    /// The rows of the read model.
    pub rows: Seq<JobsiteView>,
    /// The stored checkpoints.
    pub checkpoints: Map<SnapshotPositionKey, i64>,
    /// The hub.
    pub hub: HubView,
    /// Whether a projection has failed in this run.
    pub stalled: bool,
}

impl View for JobsiteReadModelHandler {
    type V = HandlerView;

    open spec fn view(&self) -> HandlerView {
        HandlerView {
            rows: self.db_pool.jobsites@,
            checkpoints: self.db_pool.snapshot_positions@,
            hub: self.app_state.jobsite_tx@,
            stalled: self.stalled,
        }
    }
}

impl HandlerView {
    /// The state after `event` was projected and, where that succeeded,
    /// announced.
    pub open spec fn projected(self, event: JobsiteEventView) -> HandlerView {
        let written = project(self.rows, event);
        match written.result {
            Ok(row) => HandlerView {
                rows: written.rows,
                hub: self.hub.publish(announcement(event, row)),
                ..self
            },
            Err(_) => self,
        }
    }

    /// The state after a settlement was carried out.
    pub open spec fn settled(self, settlement: Settlement) -> HandlerView {
        HandlerView {
            checkpoints: match settlement.checkpoint {
                Some(checkpoint) => self.checkpoints.insert(checkpoint.key, checkpoint.value),
                None => self.checkpoints,
            },
            stalled: settlement.stalled,
            ..self
        }
    }

    /// The state after the event of a record at the commit position
    /// `position` was applied: the event is projected and, where that
    /// succeeded, announced, and the outcome is settled.
    pub open spec fn applied(self, event: JobsiteEventView, position: Option<u64>) -> HandlerView {
        let outcome = disposition(event, project(self.rows, event).result);
        self.projected(event).settled(settlement(outcome, self.stalled, position))
    }

    /// The state after one delivered record was handled: a record that does
    /// not decode is skipped, the event of any other is applied.
    pub open spec fn handled(self, record: Option<RecordedEventView>) -> HandlerView {
        match decode(record) {
            Err(_) => self,
            Ok(event) => self.applied(event, Some(record->0.position.commit)),
        }
    }

    /// The state after the records were handled one after the other.
    pub open spec fn run(self, records: Seq<Option<RecordedEventView>>) -> HandlerView
        decreases records.len(),
    {
        if records.len() == 0 {
            self
        } else {
            self.run(records.drop_last()).handled(records.last())
        }
    }

    /// Where a subscription resumes: behind the stored checkpoint, from the
    /// start of the log where none is stored.
    pub open spec fn resume_point(self) -> StreamPosition {
        if self.checkpoints.contains_key(SnapshotPositionKey::Jobsite) {
            let commit = self.checkpoints[SnapshotPositionKey::Jobsite] as u64;
            StreamPosition::Position(Position { commit, prepare: commit })
        } else {
            StreamPosition::Start
        }
    }

    /// The state after a subscription to `log` ran to the end of the log.
    pub open spec fn subscribed(self, log: Seq<RecordedEventView>) -> HandlerView {
        let fresh = HandlerView { stalled: false, ..self };
        fresh.run(deliveries(log, self.resume_point(), stream_prefix()))
    }
}

impl Disposition {
    /// What follows from this outcome for the checkpoint, in a run in which a
    /// projection has failed before (`stalled`) or not, for a record at the
    /// commit position `position`.
    pub fn settle(self, stalled: bool, position: Option<u64>) -> (settled: Settlement)
        ensures
            settled == settlement(self, stalled, position),
    {
        match self {
            Disposition::Failed => Settlement { checkpoint: None, stalled: true },
            _ => Settlement {
                checkpoint: match position {
                    Some(commit) => if stalled {
                        None
                    } else {
                        Some(SnapshotPosition::at(SnapshotPositionKey::Jobsite, commit))
                    },
                    None => None,
                },
                stalled,
            },
        }
    }
}

impl JobsiteEvent {
    /// The filter of the jobsite subscription: the streams whose names begin
    /// with `jobsite-`.
    pub fn subscription_filter() -> (filter: SubscriptionFilter)
        ensures
            filter.prefix@ == stream_prefix(),
    {
        SubscriptionFilter::on_stream_name("jobsite-")
    }

    /// The announcement of the row that this event produced.
    pub fn broadcast(&self, row: Jobsite) -> (message: JobsiteBroadcast)
        ensures
            message@ == announcement(self@, row@),
    {
        match self {
            JobsiteEvent::JobsiteCreated(_) => JobsiteBroadcast::JobsiteCreated(row),
            JobsiteEvent::JobsiteUpdated(_) => JobsiteBroadcast::JobsiteUpdated(row),
        }
    }

    /// What the consumer makes of the result of projecting this event.
    pub fn classify(&self, result: &Result<Jobsite, ProjectionError>) -> (outcome: Disposition)
        ensures
            outcome == disposition(
                self@,
                match *result {
                    Ok(row) => Ok(row@),
                    Err(e) => Err(e),
                },
            ),
    {
        match result {
            Ok(_) => Disposition::Applied,
            Err(ProjectionError::Conflict) => match self {
                JobsiteEvent::JobsiteCreated(_) => Disposition::Replayed,
                JobsiteEvent::JobsiteUpdated(_) => Disposition::Failed,
            },
            Err(_) => Disposition::Failed,
        }
    }

    /// Applies the event to the read model of `handler` and, where that
    /// succeeded, publishes the change.
    pub fn handle_read_model(&self, handler: &mut JobsiteReadModelHandler) -> (row: Result<
        Jobsite,
        ProjectionError,
    >)
        ensures
            final(handler)@ == old(handler)@.projected(self@),
            match row {
                Ok(j) => project(old(handler)@.rows, self@).result == Ok::<
                    JobsiteView,
                    ProjectionError,
                >(j@),
                Err(e) => project(old(handler)@.rows, self@).result == Err::<
                    JobsiteView,
                    ProjectionError,
                >(e),
            },
    {
        match self {
            JobsiteEvent::JobsiteCreated(event) => event.handle_read_model(handler),
            JobsiteEvent::JobsiteUpdated(event) => event.handle_read_model(handler),
        }
    }
}

impl JobsiteCreated {
    /// Inserts the jobsite into the read model of `handler` and, where that
    /// succeeded, publishes the new row.
    pub fn handle_read_model(&self, handler: &mut JobsiteReadModelHandler) -> (row: Result<
        Jobsite,
        ProjectionError,
    >)
        ensures
            final(handler)@ == old(handler)@.projected(
                JobsiteEventView::JobsiteCreated { id: self.id, name: self.name@ },
            ),
            match row {
                Ok(j) => project(
                    old(handler)@.rows,
                    JobsiteEventView::JobsiteCreated { id: self.id, name: self.name@ },
                ).result == Ok::<JobsiteView, ProjectionError>(j@),
                Err(e) => project(
                    old(handler)@.rows,
                    JobsiteEventView::JobsiteCreated { id: self.id, name: self.name@ },
                ).result == Err::<JobsiteView, ProjectionError>(e),
            },
    {
        match Jobsite::create(&mut handler.db_pool.jobsites, self) {
            Ok(jobsite) => {
                let _ = handler.app_state.jobsite_tx.send(
                    JobsiteBroadcast::JobsiteCreated(jobsite.clone()),
                );
                Ok(jobsite)
            },
            Err(e) => Err(e),
        }
    }
}

impl JobsiteUpdated {
    /// Renames the jobsite in the read model of `handler` and, where that
    /// succeeded, publishes the new row.
    pub fn handle_read_model(&self, handler: &mut JobsiteReadModelHandler) -> (row: Result<
        Jobsite,
        ProjectionError,
    >)
        ensures
            final(handler)@ == old(handler)@.projected(
                JobsiteEventView::JobsiteUpdated { id: self.id, name: self.name@ },
            ),
            match row {
                Ok(j) => project(
                    old(handler)@.rows,
                    JobsiteEventView::JobsiteUpdated { id: self.id, name: self.name@ },
                ).result == Ok::<JobsiteView, ProjectionError>(j@),
                Err(e) => project(
                    old(handler)@.rows,
                    JobsiteEventView::JobsiteUpdated { id: self.id, name: self.name@ },
                ).result == Err::<JobsiteView, ProjectionError>(e),
            },
    {
        match Jobsite::update(&mut handler.db_pool.jobsites, self) {
            Ok(jobsite) => {
                let _ = handler.app_state.jobsite_tx.send(
                    JobsiteBroadcast::JobsiteUpdated(jobsite.clone()),
                );
                Ok(jobsite)
            },
            Err(e) => Err(e),
        }
    }
}

impl JobsiteReadModelHandler {
    /// A consumer over the given stores and hub, in which no projection has
    /// failed yet.
    pub fn new(db_pool: Database, app_state: AppState) -> (handler: JobsiteReadModelHandler)
        ensures
            handler@ == (HandlerView {
                rows: db_pool.jobsites@,
                checkpoints: db_pool.snapshot_positions@,
                hub: app_state.jobsite_tx@,
                stalled: false,
            }),
            handler.db_pool == db_pool,
            handler.app_state == app_state,
    {
        JobsiteReadModelHandler { db_pool, app_state, stalled: false }
    }

    /// Where a subscription resumes: behind the stored checkpoint, from the
    /// start of the log where none is stored.
    pub fn get_snapshot_position(&self) -> (from: StreamPosition)
        ensures
            from == self@.resume_point(),
    {
        match SnapshotPosition::get_by_key(
            &self.db_pool.snapshot_positions,
            SnapshotPositionKey::Jobsite,
        ) {
            Some(checkpoint) => checkpoint.resume_point(),
            None => StreamPosition::Start,
        }
    }

    /// Stores `position` as the checkpoint of the jobsite group. Does nothing
    /// where there is no position.
    pub fn set_snapshot_position(&mut self, position: Option<u64>)
        ensures
            final(self)@ == (HandlerView {
                checkpoints: match position {
                    Some(commit) => old(self)@.checkpoints.insert(
                        SnapshotPositionKey::Jobsite,
                        commit as i64,
                    ),
                    None => old(self)@.checkpoints,
                },
                ..old(self)@
            }),
    {
        if let Some(position) = position {
            let snapshot_position = SnapshotPosition::at(SnapshotPositionKey::Jobsite, position);
            snapshot_position.insert(&mut self.db_pool.snapshot_positions);
        }
    }

    /// Handles one delivered record: decodes it, projects the event,
    /// publishes the change and moves the checkpoint.
    ///
    /// A record that does not decode is skipped. Once a projection has
    /// failed, later records are still projected and announced, and the
    /// checkpoint stays where it was.
    pub fn handle(&mut self, record: ResolvedEvent)
        ensures
            final(self)@ == old(self)@.handled(record@),
    {
        let position = match &record.event {
            Some(event) => Some(event.position.commit),
            None => None,
        };
        match JobsiteEvent::try_from(record) {
            Ok(event) => self.apply(&event, position),
            Err(_) => {},
        }
    }

    /// Applies the event of a record at the commit position `position`: the
    /// event is projected and, where that succeeded, announced; then the
    /// checkpoint moves to `position`, unless the projection failed or a
    /// projection has failed before in this run.
    pub fn apply(&mut self, event: &JobsiteEvent, position: Option<u64>)
        ensures
            final(self)@ == old(self)@.applied(event@, position),
    {
        let result = event.handle_read_model(self);
        let settled = event.classify(&result).settle(self.stalled, position);
        self.stalled = settled.stalled;
        if let Some(checkpoint) = settled.checkpoint {
            checkpoint.insert(&mut self.db_pool.snapshot_positions);
        }
    }

    /// Runs a subscription to the end of `eventstore`: starting behind the
    /// stored checkpoint, every record of a jobsite stream is handled in the
    /// order of the log.
    pub fn subscribe(&mut self, eventstore: &EventLog)
        ensures
            final(self)@ == old(self)@.subscribed(eventstore@),
    {
        let from = self.get_snapshot_position();
        let filter = JobsiteEvent::subscription_filter();
        self.stalled = false;
        let ghost fresh = self@;
        let n = eventstore.len();
        let mut i: usize = 0;
        assert(eventstore@.take(0) =~= Seq::<RecordedEventView>::empty());
        while i < n
            invariant
                i <= n,
                n == eventstore@.len(),
                filter.prefix@ == stream_prefix(),
                self@ == fresh.run(deliveries(eventstore@.take(i as int), from, stream_prefix())),
            decreases n - i,
        {
            let ghost seen = eventstore@.take(i as int);
            let ghost next = eventstore@.take(i as int + 1);
            proof {
                assert(next.drop_last() =~= seen);
                assert(next.last() == eventstore@[i as int]);
            }
            if eventstore.delivers(i, &from, &filter) {
                let ghost before = deliveries(seen, from, stream_prefix());
                proof {
                    assert(before.push(Some(eventstore@[i as int])).drop_last() =~= before);
                }
                self.handle(eventstore.resolve(i));
            }
            i += 1;
        }
        assert(eventstore@.take(n as int) =~= eventstore@);
    }
}

impl HandlerView {
    /// The commit position of the stored checkpoint, if one is stored.
    pub open spec fn checkpoint(self) -> Option<u64> {
        if self.checkpoints.contains_key(SnapshotPositionKey::Jobsite) {
            Some(self.checkpoints[SnapshotPositionKey::Jobsite] as u64)
        } else {
            None
        }
    }

    /// Whether the projection of a delivered record fails: the record decodes
    /// and its event is refused other than as a replay.
    pub open spec fn fails(self, record: Option<RecordedEventView>) -> bool {
        decode(record) matches Ok(event) && disposition(event, project(self.rows, event).result)
            == Disposition::Failed
    }

    /// Whether a delivered record moves the checkpoint: it decodes, its
    /// projection does not fail, and no projection has failed before.
    pub open spec fn checkpoints_at(self, record: Option<RecordedEventView>) -> bool {
        decode(record) is Ok && !self.fails(record) && !self.stalled
    }
}

/// A change is announced once for each projection that succeeds and never for
/// one that is refused: a refused projection leaves the rows and the hub as
/// they were.
pub proof fn lemma_announced_with_the_write(state: HandlerView, event: JobsiteEventView)
    ensures
        project(state.rows, event).result matches Ok(row) ==> state.projected(event).hub
            == state.hub.publish(announcement(event, row)) && state.projected(event).rows
            == project(state.rows, event).rows,
        project(state.rows, event).result is Err ==> state.projected(event) == state,
        state.projected(event).checkpoints == state.checkpoints,
        state.projected(event).stalled == state.stalled,
{
}

/// What one record does to the checkpoint: it moves to the position of the
/// record where the record is one that moves it, and stays otherwise.
pub proof fn lemma_handled_checkpoint(state: HandlerView, record: Option<RecordedEventView>)
    ensures
        state.checkpoints_at(record) ==> record is Some && state.handled(record).checkpoint()
            == Some(record->0.position.commit),
        !state.checkpoints_at(record) ==> state.handled(record).checkpoints == state.checkpoints,
        state.handled(record).stalled == (state.stalled || state.fails(record)),
{
    if state.checkpoints_at(record) {
        let commit = record->0.position.commit;
        assert((commit as i64) as u64 == commit) by (bit_vector);
    }
}

/// The checkpoint never leaves the range of what was handled: where neither
/// the stored checkpoint nor any record stands behind `bound`, the checkpoint
/// after the run does not either.
pub proof fn lemma_checkpoint_bounded(
    state: HandlerView,
    records: Seq<Option<RecordedEventView>>,
    bound: u64,
)
    requires
        state.checkpoint() matches Some(c) ==> c <= bound,
        none_behind(records, bound),
    ensures
        state.run(records).checkpoint() matches Some(c) ==> c <= bound,
    decreases records.len(),
{
    if records.len() > 0 {
        let rest = records.drop_last();
        assert forall|i: int| 0 <= i < rest.len() && (#[trigger] rest[i]) is Some implies rest[i]->0.position.commit
            <= bound by {
            assert(rest[i] == records[i]);
        }
        lemma_checkpoint_bounded(state, rest, bound);
        lemma_handled_checkpoint(state.run(rest), records.last());
        assert(records[records.len() - 1] == records.last());
    }
}

/// A run can be cut in two: handling all records is handling the first `k`
/// and then the others.
pub proof fn lemma_run_split(state: HandlerView, records: Seq<Option<RecordedEventView>>, k: int)
    requires
        0 <= k <= records.len(),
    ensures
        state.run(records) == state.run(records.take(k)).run(records.skip(k)),
    decreases records.len() - k,
{
    if k == records.len() {
        assert(records.take(k) =~= records);
        assert(records.skip(k) =~= Seq::<Option<RecordedEventView>>::empty());
    } else {
        let rest = records.drop_last();
        lemma_run_split(state, rest, k);
        assert(rest.take(k) =~= records.take(k));
        assert(records.skip(k).drop_last() =~= rest.skip(k));
        assert(records.skip(k).last() == records.last());
    }
}

/// Where the checkpoint after a run comes from: it is the checkpoint of the
/// start or the position of one of the records.
pub proof fn lemma_checkpoint_origin(state: HandlerView, records: Seq<Option<RecordedEventView>>)
    ensures
        state.run(records).checkpoint() == state.checkpoint() || exists|i: int|
            0 <= i < records.len() && (#[trigger] records[i]) is Some && state.run(
                records,
            ).checkpoint() == Some(records[i]->0.position.commit),
    decreases records.len(),
{
    if records.len() > 0 {
        let rest = records.drop_last();
        let last = records.last();
        lemma_checkpoint_origin(state, rest);
        lemma_handled_checkpoint(state.run(rest), last);
        if state.run(rest).checkpoints_at(last) {
            assert(records[records.len() - 1] is Some);
        } else if state.run(rest).checkpoint() != state.checkpoint() {
            let i = choose|i: int|
                0 <= i < rest.len() && (#[trigger] rest[i]) is Some && state.run(rest).checkpoint()
                    == Some(rest[i]->0.position.commit);
            assert(records[i] == rest[i]);
        }
    }
}

/// Where the records arrive in the order of the log and none of them stands
/// before the stored checkpoint, a stored checkpoint stays stored and its
/// position after the run is not before its position at the start.
pub proof fn lemma_checkpoint_not_before_start(
    state: HandlerView,
    records: Seq<Option<RecordedEventView>>,
)
    requires
        state.checkpoint() matches Some(c) ==> none_before(records, c),
    ensures
        state.checkpoint() matches Some(c) ==> state.run(records).checkpoint() is Some
            && c <= state.run(records).checkpoint()->0,
    decreases records.len(),
{
    if records.len() > 0 {
        let rest = records.drop_last();
        let last = records.last();
        if state.checkpoint() is Some {
            let c = state.checkpoint()->0;
            assert forall|i: int| 0 <= i < rest.len() && (#[trigger] rest[i]) is Some implies c
                <= rest[i]->0.position.commit by {
                assert(rest[i] == records[i]);
            }
            lemma_checkpoint_not_before_start(state, rest);
            lemma_handled_checkpoint(state.run(rest), last);
            assert(records[records.len() - 1] == last);
        }
    }
}

/// Checkpoint monotonicity. Where the records arrive in the order of the log
/// and none of them stands before the stored checkpoint, the checkpoint never
/// moves backwards during the run: once the first `k` records are handled a
/// stored checkpoint stays stored, and its position at the end of the run is
/// not before its position then.
pub proof fn lemma_checkpoint_monotone(
    state: HandlerView,
    records: Seq<Option<RecordedEventView>>,
    k: int,
)
    requires
        in_log_order(records),
        state.checkpoint() matches Some(c) ==> none_before(records, c),
        0 <= k <= records.len(),
    ensures
        state.run(records.take(k)).checkpoint() matches Some(c) ==> state.run(
            records,
        ).checkpoint() is Some && c <= state.run(records).checkpoint()->0,
{
    let head = records.take(k);
    let tail = records.skip(k);
    let mid = state.run(head);
    lemma_run_split(state, records, k);
    lemma_checkpoint_origin(state, head);
    if mid.checkpoint() is Some {
        let c = mid.checkpoint()->0;
        assert forall|j: int| 0 <= j < tail.len() && (#[trigger] tail[j]) is Some implies c
            <= tail[j]->0.position.commit by {
            assert(tail[j] == records[k + j]);
            if mid.checkpoint() != state.checkpoint() {
                let i = choose|i: int|
                    0 <= i < head.len() && (#[trigger] head[i]) is Some && mid.checkpoint() == Some(
                        head[i]->0.position.commit,
                    );
                assert(head[i] == records[i]);
            }
        }
        lemma_checkpoint_not_before_start(mid, tail);
    }
}

/// The checkpoint is never moved past a record whose projection failed: from
/// that record on it stays, for the rest of the run, where it was before the
/// record.
pub proof fn lemma_failure_holds_checkpoint(
    state: HandlerView,
    record: Option<RecordedEventView>,
    rest: Seq<Option<RecordedEventView>>,
)
    requires
        state.fails(record) || state.stalled,
    ensures
        state.handled(record).run(rest).checkpoints == state.checkpoints,
        state.handled(record).run(rest).stalled,
    decreases rest.len(),
{
    lemma_handled_checkpoint(state, record);
    if rest.len() > 0 {
        lemma_failure_holds_checkpoint(state, record, rest.drop_last());
        lemma_handled_checkpoint(state.handled(record).run(rest.drop_last()), rest.last());
    }
}

/// Crash and resume. Where the stored checkpoint is the position of the
/// `n`-th record of the log, a new subscription hands none of the first `n`
/// records to the projector: it does what handling the records behind them
/// does.
pub proof fn lemma_resume_after_checkpoint(state: HandlerView, log: Seq<RecordedEventView>, n: int)
    requires
        log_ordered(log),
        0 < n <= log.len(),
        state.checkpoint() == Some(log[n - 1].position.commit),
    ensures
        deliveries(log.take(n), state.resume_point(), stream_prefix()) == Seq::<
            Option<RecordedEventView>,
        >::empty(),
        state.subscribed(log) == (HandlerView { stalled: false, ..state }).run(
            deliveries(log.skip(n), StreamPosition::Start, stream_prefix()),
        ),
{
    lemma_resume(log, n, state.resume_point(), stream_prefix());
}

/// A subscription never moves the checkpoint backwards. Where the commit
/// positions of the log grow, a checkpoint that is stored when the
/// subscription starts is stored when it has run to the end of the log, at a
/// position that is not before the one it had.
pub proof fn lemma_subscription_checkpoint_monotone(state: HandlerView, log: Seq<RecordedEventView>)
    requires
        log_ordered(log),
    ensures
        state.checkpoint() matches Some(c) ==> state.subscribed(log).checkpoint() is Some && c
            <= state.subscribed(log).checkpoint()->0,
{
    let fresh = HandlerView { stalled: false, ..state };
    let delivered = deliveries(log, state.resume_point(), stream_prefix());
    lemma_deliveries_ordered(log, state.resume_point(), stream_prefix());
    lemma_checkpoint_not_before_start(fresh, delivered);
}

} // verus!
