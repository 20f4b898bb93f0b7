//! The event log as the consumer sees it: records, positions and the filter of
//! a subscription.

use vstd::prelude::*;
use vstd::utf8::encode_utf8;

verus! {

/// A position in the global log. Records are ordered by `commit`.
#[derive(Clone, Copy, Debug, PartialEq, Eq, Structural)]
pub struct Position {
    pub commit: u64,
    pub prepare: u64,
}

/// Where a subscription starts.
#[derive(Clone, Copy, Debug, PartialEq, Eq, Structural)]
pub enum StreamPosition {
    /// Before the first record of the log.
    Start,
    /// Just after the record at this position.
    Position(Position),
}

/// A record of the log.
#[derive(Debug, PartialEq, Eq)]
pub struct RecordedEvent {
    /// The stream that the record was appended to.
    pub stream_id: String,
    /// The type tag of the event.
    pub event_type: String,
    /// The payload.
    pub data: Vec<u8>,
    /// Where the record stands in the log.
    pub position: Position,
}

/// The mathematical value of a [`RecordedEvent`].
pub struct RecordedEventView {
    pub stream_id: Seq<char>,
    pub event_type: Seq<char>,
    pub data: Seq<u8>,
    pub position: Position,
}

impl View for RecordedEvent {
    type V = RecordedEventView;

    open spec fn view(&self) -> RecordedEventView {
        RecordedEventView {
            stream_id: self.stream_id@,
            event_type: self.event_type@,
            data: self.data@,
            position: self.position,
        }
    }
}

/// What a subscription delivers: a record, or nothing where the record that a
/// link pointed to is gone.
#[derive(Debug, PartialEq, Eq)]
pub struct ResolvedEvent {
    pub event: Option<RecordedEvent>,
}

impl View for ResolvedEvent {
    type V = Option<RecordedEventView>;

    open spec fn view(&self) -> Option<RecordedEventView> {
        match self.event {
            Some(e) => Some(e@),
            None => None,
        }
    }
}

impl Clone for RecordedEvent {
    fn clone(&self) -> (copy: Self)
        ensures
            copy@ == self@,
    {
        RecordedEvent {
            stream_id: self.stream_id.clone(),
            event_type: self.event_type.clone(),
            data: self.data.clone(),
            position: self.position,
        }
    }
}

/// Whether a subscription that starts at `from` delivers a record at `position`.
pub open spec fn is_pending(position: Position, from: StreamPosition) -> bool {
    match from {
        StreamPosition::Start => true,
        StreamPosition::Position(p) => position.commit > p.commit,
    }
}

impl StreamPosition {
    /// Whether a subscription that starts here delivers a record at `position`.
    pub fn admits(&self, position: &Position) -> (pending: bool)
        ensures
            pending == is_pending(*position, *self),
    {
        match self {
            StreamPosition::Start => true,
            StreamPosition::Position(p) => position.commit > p.commit,
        }
    }
}

/// Whether the name `text` begins with `prefix`: the bytes of the prefix are
/// the first bytes of the name.
pub open spec fn begins_with(text: Seq<char>, prefix: Seq<char>) -> bool {
    encode_utf8(prefix).is_prefix_of(encode_utf8(text))
}

/// Tells whether `bytes` begin with `prefix`.
fn starts_with(bytes: &[u8], prefix: &[u8]) -> (answer: bool)
    ensures
        answer == prefix@.is_prefix_of(bytes@),
{
    if prefix.len() > bytes.len() {
        return false;
    }
    let mut i: usize = 0;
    while i < prefix.len()
        invariant
            i <= prefix.len(),
            prefix.len() <= bytes.len(),
            forall|k: int| 0 <= k < i ==> bytes@[k] == prefix@[k],
        decreases prefix.len() - i,
    {
        if bytes[i] != prefix[i] {
            assert(bytes@.subrange(0, prefix@.len() as int)[i as int] != prefix@[i as int]);
            return false;
        }
        i += 1;
    }
    assert(prefix@ =~= bytes@.subrange(0, prefix@.len() as int));
    true
}

/// Selects the streams of a subscription by the prefix of their names.
#[derive(Debug, PartialEq, Eq)]
pub struct SubscriptionFilter {
    pub prefix: String,
}

impl SubscriptionFilter {
    /// The filter that lets through the streams whose names begin with `prefix`.
    pub fn on_stream_name(prefix: &str) -> (filter: SubscriptionFilter)
        ensures
            filter.prefix@ == prefix@,
    {
        SubscriptionFilter { prefix: prefix.to_owned() }
    }

    /// Whether the filter lets the stream `stream_id` through.
    pub fn matches(&self, stream_id: &str) -> (answer: bool)
        ensures
            answer == begins_with(stream_id@, self.prefix@),
    {
        starts_with(stream_id.as_bytes(), self.prefix.as_str().as_bytes())
    }
}

/// Whether a subscription from `from` to the streams that begin with `prefix`
/// delivers `record`.
pub open spec fn is_delivered(record: RecordedEventView, from: StreamPosition, prefix: Seq<char>) -> bool {
    is_pending(record.position, from) && begins_with(record.stream_id, prefix)
}

/// What a subscription delivers of `log`, in the order of the log.
pub open spec fn deliveries(log: Seq<RecordedEventView>, from: StreamPosition, prefix: Seq<char>) -> Seq<
    Option<RecordedEventView>,
>
    decreases log.len(),
{
    if log.len() == 0 {
        Seq::empty()
    } else if is_delivered(log.last(), from, prefix) {
        deliveries(log.drop_last(), from, prefix).push(Some(log.last()))
    } else {
        deliveries(log.drop_last(), from, prefix)
    }
}

/// The commit positions of a log grow from each record to the next.
pub open spec fn log_ordered(log: Seq<RecordedEventView>) -> bool {
    forall|i: int, j: int|
        0 <= i < j < log.len() ==> (#[trigger] log[i]).position.commit < (
        #[trigger] log[j]).position.commit
}

/// The views of a sequence of records, in the same order.
pub open spec fn records_view(records: Seq<RecordedEvent>) -> Seq<RecordedEventView> {
    records.map_values(|r: RecordedEvent| r@)
}

/// An append-only log held in memory. Commit positions count the records
/// from 0.
pub struct EventLog {
    records: Vec<RecordedEvent>,
}

impl View for EventLog {
    type V = Seq<RecordedEventView>;

    closed spec fn view(&self) -> Seq<RecordedEventView> {
        records_view(self.records@)
    }
}

impl EventLog {
    #[verifier::type_invariant]
    spec fn well_formed(&self) -> bool {
        forall|i: int|
            0 <= i < self.records@.len() ==> (#[trigger] self.records@[i]).position.commit == i
    }

    /// An empty log.
    pub fn new() -> (log: EventLog)
        ensures
            log@ == Seq::<RecordedEventView>::empty(),
    {
        let log = EventLog { records: Vec::new() };
        assert(log@ =~= Seq::<RecordedEventView>::empty());
        log
    }

    /// The number of records.
    pub fn len(&self) -> (n: usize)
        ensures
            n == self@.len(),
            log_ordered(self@),
            forall|i: int| 0 <= i < self@.len() ==> (#[trigger] self@[i]).position.commit == i,
    {
        proof {
            use_type_invariant(self);
        }
        self.records.len()
    }

    /// Appends a record and returns its position: the number of records that
    /// the log held before.
    pub fn append(&mut self, stream_id: String, event_type: String, data: Vec<u8>) -> (position:
        Position)
        ensures
            position.commit == old(self)@.len(),
            position.prepare == old(self)@.len(),
            final(self)@ == old(self)@.push(
                RecordedEventView {
                    stream_id: stream_id@,
                    event_type: event_type@,
                    data: data@,
                    position,
                },
            ),
            log_ordered(final(self)@),
    {
        proof {
            use_type_invariant(&*self);
        }
        let commit = self.records.len() as u64;
        let position = Position { commit, prepare: commit };
        let record = RecordedEvent { stream_id, event_type, data, position };
        let ghost before = self.records@;
        let mut records: Vec<RecordedEvent> = Vec::new();
        core::mem::swap(&mut self.records, &mut records);
        records.push(record);
        assert(records_view(records@) =~= records_view(before).push(record@));
        assert forall|i: int| 0 <= i < records@.len() implies (
        #[trigger] records@[i]).position.commit == i by {
            if i < before.len() {
                assert(records@[i] == before[i]);
            }
        }
        self.records = records;
        position
    }

    /// The record at index `i`, as a subscription delivers it.
    pub fn resolve(&self, i: usize) -> (delivered: ResolvedEvent)
        requires
            i < self@.len(),
        ensures
            delivered@ == Some(self@[i as int]),
    {
        ResolvedEvent { event: Some(self.records[i].clone()) }
    }

    /// Whether a subscription from `from` with `filter` delivers the record
    /// at index `i`.
    pub fn delivers(&self, i: usize, from: &StreamPosition, filter: &SubscriptionFilter) -> (answer:
        bool)
        requires
            i < self@.len(),
        ensures
            answer == is_delivered(self@[i as int], *from, filter.prefix@),
    {
        from.admits(&self.records[i].position) && filter.matches(self.records[i].stream_id.as_str())
    }
}

/// A subscription delivers nothing of records that all stand at or before
/// its starting point.
pub proof fn lemma_nothing_pending(log: Seq<RecordedEventView>, from: StreamPosition, prefix: Seq<char>)
    requires
        forall|i: int| 0 <= i < log.len() ==> !is_pending((#[trigger] log[i]).position, from),
    ensures
        deliveries(log, from, prefix) == Seq::<Option<RecordedEventView>>::empty(),
    decreases log.len(),
{
    if log.len() > 0 {
        let rest = log.drop_last();
        assert forall|i: int| 0 <= i < rest.len() implies !is_pending(
            (#[trigger] rest[i]).position,
            from,
        ) by {
            assert(rest[i] == log[i]);
        }
        lemma_nothing_pending(rest, from, prefix);
        assert(!is_pending(log[log.len() - 1].position, from));
    }
}

/// Resuming behind a checkpoint. Where the commit positions of a log grow and
/// a subscription starts at the position of the `n`-th record, it delivers
/// nothing of the first `n` records, and of the records behind them what a
/// subscription from the start of those would deliver.
pub proof fn lemma_resume(
    log: Seq<RecordedEventView>,
    n: int,
    from: StreamPosition,
    prefix: Seq<char>,
)
    requires
        log_ordered(log),
        0 < n <= log.len(),
        from matches StreamPosition::Position(p) && p.commit == log[n - 1].position.commit,
    ensures
        deliveries(log.take(n), from, prefix) == Seq::<Option<RecordedEventView>>::empty(),
        deliveries(log, from, prefix) == deliveries(log.skip(n), StreamPosition::Start, prefix),
    decreases log.len(),
{
    let head = log.take(n);
    assert forall|i: int| 0 <= i < head.len() implies !is_pending(
        (#[trigger] head[i]).position,
        from,
    ) by {
        assert(head[i] == log[i]);
        if i < n - 1 {
            assert(log[i].position.commit < log[n - 1].position.commit);
        }
    }
    lemma_nothing_pending(head, from, prefix);
    if log.len() == n {
        assert(log.take(n) =~= log);
        assert(log.skip(n) =~= Seq::<RecordedEventView>::empty());
    } else {
        let rest = log.drop_last();
        assert forall|i: int, j: int| 0 <= i < j < rest.len() implies (
        #[trigger] rest[i]).position.commit < (#[trigger] rest[j]).position.commit by {
            assert(rest[i] == log[i] && rest[j] == log[j]);
        }
        assert(rest[n - 1] == log[n - 1]);
        lemma_resume(rest, n, from, prefix);
        assert(rest.take(n) =~= log.take(n));
        assert(log.skip(n).drop_last() =~= rest.skip(n));
        assert(log.skip(n).last() == log.last());
        assert(log[n - 1].position.commit < log[log.len() - 1].position.commit);
    }
}

/// The commit positions of the records do not fall from one record to the next.
pub open spec fn in_log_order(records: Seq<Option<RecordedEventView>>) -> bool {
    forall|i: int, j: int|
        0 <= i < j < records.len() && (#[trigger] records[i]) is Some && (
        #[trigger] records[j]) is Some ==> records[i]->0.position.commit
            <= records[j]->0.position.commit
}

/// No record stands before the commit position `commit`.
pub open spec fn none_before(records: Seq<Option<RecordedEventView>>, commit: u64) -> bool {
    forall|i: int|
        0 <= i < records.len() && (#[trigger] records[i]) is Some ==> commit
            <= records[i]->0.position.commit
}

/// No record stands behind the commit position `commit`.
pub open spec fn none_behind(records: Seq<Option<RecordedEventView>>, commit: u64) -> bool {
    forall|i: int|
        0 <= i < records.len() && (#[trigger] records[i]) is Some ==> records[i]->0.position.commit
            <= commit
}

/// What a subscription delivers are records of the log that stand behind its
/// starting point.
pub proof fn lemma_deliveries_from_log(
    log: Seq<RecordedEventView>,
    from: StreamPosition,
    prefix: Seq<char>,
)
    ensures
        forall|i: int|
            0 <= i < deliveries(log, from, prefix).len() ==> (#[trigger] deliveries(
                log,
                from,
                prefix,
            )[i]) is Some && is_pending(deliveries(log, from, prefix)[i]->0.position, from)
                && exists|k: int|
                0 <= k < log.len() && deliveries(log, from, prefix)[i] == Some(#[trigger] log[k]),
    decreases log.len(),
{
    if log.len() > 0 {
        let rest = log.drop_last();
        let all = deliveries(log, from, prefix);
        lemma_deliveries_from_log(rest, from, prefix);
        assert forall|i: int| 0 <= i < all.len() implies (#[trigger] all[i]) is Some && is_pending(
            all[i]->0.position,
            from,
        ) && exists|k: int| 0 <= k < log.len() && all[i] == Some(#[trigger] log[k]) by {
            if i < deliveries(rest, from, prefix).len() {
                let d = deliveries(rest, from, prefix)[i];
                assert(all[i] == d);
                let k = choose|k: int| 0 <= k < rest.len() && d == Some(#[trigger] rest[k]);
                assert(log[k] == rest[k]);
            } else {
                assert(all[i] == Some(log[log.len() - 1]));
            }
        }
    }
}

/// A subscription delivers in the order of the log, and nothing that stands
/// at or before its starting point.
pub proof fn lemma_deliveries_ordered(
    log: Seq<RecordedEventView>,
    from: StreamPosition,
    prefix: Seq<char>,
)
    requires
        log_ordered(log),
    ensures
        in_log_order(deliveries(log, from, prefix)),
        from matches StreamPosition::Position(p) ==> none_before(
            deliveries(log, from, prefix),
            p.commit,
        ),
    decreases log.len(),
{
    let all = deliveries(log, from, prefix);
    lemma_deliveries_from_log(log, from, prefix);
    if log.len() > 0 {
        let rest = log.drop_last();
        let head = deliveries(rest, from, prefix);
        assert forall|i: int, j: int| 0 <= i < j < rest.len() implies (
        #[trigger] rest[i]).position.commit < (#[trigger] rest[j]).position.commit by {
            assert(rest[i] == log[i] && rest[j] == log[j]);
        }
        lemma_deliveries_ordered(rest, from, prefix);
        lemma_deliveries_from_log(rest, from, prefix);
        assert forall|i: int, j: int|
            0 <= i < j < all.len() && (#[trigger] all[i]) is Some && (
            #[trigger] all[j]) is Some implies all[i]->0.position.commit
            <= all[j]->0.position.commit by {
            if j < head.len() {
                assert(all[i] == head[i] && all[j] == head[j]);
            } else {
                assert(all[i] == head[i]);
                assert(all[j] == Some(log[log.len() - 1]));
                let k = choose|k: int| 0 <= k < rest.len() && head[i] == Some(#[trigger] rest[k]);
                assert(rest[k] == log[k]);
                assert(log[k].position.commit < log[log.len() - 1].position.commit);
            }
        }
    }
}

} // verus!
