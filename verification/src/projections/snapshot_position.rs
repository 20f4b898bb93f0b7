//! Checkpoints: how far each projection group has consumed the log.

use vstd::prelude::*;
use crate::stream::{Position, StreamPosition};

verus! {

/// The projection groups that keep a checkpoint.
#[derive(Clone, Copy, Debug, PartialEq, Eq, Structural)]
pub enum SnapshotPositionKey {
    Jobsite,
}

/// The text under which a key is stored.
pub open spec fn key_text(key: SnapshotPositionKey) -> Seq<char> {
    match key {
        SnapshotPositionKey::Jobsite => "jobsite"@,
    }
}

/// The key that is stored under `text`, if there is one.
pub open spec fn key_of(text: Seq<char>) -> Option<SnapshotPositionKey> {
    if text == "jobsite"@ {
        Some(SnapshotPositionKey::Jobsite)
    } else {
        None
    }
}

impl SnapshotPositionKey {
    /// The text under which the key is stored.
    pub fn to_string(&self) -> (text: String)
        ensures
            text@ == key_text(*self),
    {
        match self {
            SnapshotPositionKey::Jobsite => "jobsite".to_owned(),
        }
    }

    /// The key that is stored under `text`, if there is one.
    pub fn parse(text: &str) -> (key: Option<SnapshotPositionKey>)
        ensures
            key == key_of(text@),
    {
        if text.to_owned() == SnapshotPositionKey::Jobsite.to_string() {
            Some(SnapshotPositionKey::Jobsite)
        } else {
            None
        }
    }
}

/// The checkpoint of one projection group: the commit position of the last
/// record that the group has applied, held as the store holds it.
#[derive(Clone, Copy, Debug, PartialEq, Eq, Structural)]
pub struct SnapshotPosition {
    pub key: SnapshotPositionKey,
    pub value: i64,
}

impl SnapshotPosition {
    /// The commit position that the checkpoint stands for.
    pub open spec fn commit_spec(self) -> u64 {
        self.value as u64
    }

    /// The checkpoint of `key` at the commit position `commit`.
    pub fn at(key: SnapshotPositionKey, commit: u64) -> (checkpoint: SnapshotPosition)
        ensures
            checkpoint.key == key,
            checkpoint.value == commit as i64,
            checkpoint.commit_spec() == commit,
    {
        assert((commit as i64) as u64 == commit) by (bit_vector);
        SnapshotPosition { key, value: commit as i64 }
    }

    /// The commit position that the checkpoint stands for.
    pub fn commit(&self) -> (commit: u64)
        ensures
            commit == self.commit_spec(),
    {
        self.value as u64
    }

    /// Where a subscription starts that resumes behind this checkpoint.
    pub fn resume_point(&self) -> (from: StreamPosition)
        ensures
            from == StreamPosition::Position(
                Position { commit: self.commit_spec(), prepare: self.commit_spec() },
            ),
    {
        let commit = self.commit();
        StreamPosition::Position(Position { commit, prepare: commit })
    }
}

/// The checkpoint store: at most one position for each key, the one written last.
pub struct SnapshotPositions {
    jobsite: Option<i64>,
}

impl View for SnapshotPositions {
    type V = Map<SnapshotPositionKey, i64>;

    closed spec fn view(&self) -> Map<SnapshotPositionKey, i64> {
        match self.jobsite {
            Some(value) => Map::empty().insert(SnapshotPositionKey::Jobsite, value),
            None => Map::empty(),
        }
    }
}

impl SnapshotPositions {
    /// A store without checkpoints.
    pub fn new() -> (store: SnapshotPositions)
        ensures
            store@ == Map::<SnapshotPositionKey, i64>::empty(),
    {
        SnapshotPositions { jobsite: None }
    }
}

impl SnapshotPosition {
    /// The checkpoint stored for `key`, `None` where none was ever written.
    pub fn get_by_key(transaction: &SnapshotPositions, key: SnapshotPositionKey) -> (found: Option<
        SnapshotPosition,
    >)
        ensures
            found == if transaction@.contains_key(key) {
                Some(SnapshotPosition { key, value: transaction@[key] })
            } else {
                None
            },
    {
        match key {
            SnapshotPositionKey::Jobsite => match transaction.jobsite {
                Some(value) => Some(SnapshotPosition { key, value }),
                None => None,
            },
        }
    }

    /// Writes the checkpoint, in place of the one stored for its key if there
    /// is one.
    pub fn insert(&self, transaction: &mut SnapshotPositions)
        ensures
            final(transaction)@ == old(transaction)@.insert(self.key, self.value),
    {
        match self.key {
            SnapshotPositionKey::Jobsite => {
                transaction.jobsite = Some(self.value);
            },
        }
        assert(transaction@ =~= old(transaction)@.insert(self.key, self.value));
    }
}

} // verus!
