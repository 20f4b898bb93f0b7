//! The jobsite read model and the projector that writes it.
//!
//! The read model holds one row per jobsite. No two rows share an identifier
//! and no two rows share a name. Every write either takes effect as a whole or
//! leaves the rows as they were.

use vstd::prelude::*;
use crate::events::jobsite::{JobsiteCreated, JobsiteEvent, JobsiteEventView, JobsiteUpdated};
use crate::ids::Uuid;

verus! {

/// A materialized jobsite.
#[derive(Debug, PartialEq, Eq)]
pub struct Jobsite {
    pub id: Uuid,
    pub name: String,
}

/// The mathematical value of a [`Jobsite`].
pub struct JobsiteView {
    pub id: Uuid,
    pub name: Seq<char>,
}

impl View for Jobsite {
    type V = JobsiteView;

    open spec fn view(&self) -> JobsiteView {
        JobsiteView { id: self.id, name: self.name@ }
    }
}

impl Clone for Jobsite {
    fn clone(&self) -> (copy: Self)
        ensures
            copy == *self,
    {
        Jobsite { id: self.id, name: self.name.clone() }
    }
}

/// Why an event could not be applied to the read model.
#[derive(Clone, Copy, Debug, PartialEq, Eq, Structural)]
pub enum ProjectionError {
    /// A row with the identifier or the name is already there.
    Conflict,
    /// No row has the identifier.
    NotFound,
    /// The store could not be reached or did not commit.
    Unavailable,
}

/// The rows and the result of a write.
pub struct Written {
    pub rows: Seq<JobsiteView>,
    pub result: Result<JobsiteView, ProjectionError>,
}

/// Some row has the identifier `id`.
pub open spec fn has_id(rows: Seq<JobsiteView>, id: Uuid) -> bool {
    exists|i: int| 0 <= i < rows.len() && (#[trigger] rows[i]).id == id
}

/// Some row has the name `name`.
pub open spec fn has_name(rows: Seq<JobsiteView>, name: Seq<char>) -> bool {
    exists|i: int| 0 <= i < rows.len() && (#[trigger] rows[i]).name == name
}

/// A row other than that of `id` has the name `name`.
pub open spec fn name_taken(rows: Seq<JobsiteView>, id: Uuid, name: Seq<char>) -> bool {
    exists|i: int| 0 <= i < rows.len() && (#[trigger] rows[i]).name == name && rows[i].id != id
}

/// The index of the row with the identifier `id`.
pub open spec fn index_of(rows: Seq<JobsiteView>, id: Uuid) -> int {
    choose|i: int| 0 <= i < rows.len() && (#[trigger] rows[i]).id == id
}

/// The number of rows with the identifier `id`.
pub open spec fn count_id(rows: Seq<JobsiteView>, id: Uuid) -> nat
    decreases rows.len(),
{
    if rows.len() == 0 {
        0
    } else {
        count_id(rows.drop_last(), id) + if rows.last().id == id {
            1nat
        } else {
            0nat
        }
    }
}

/// No two rows share an identifier, and no two rows share a name.
pub open spec fn rows_well_formed(rows: Seq<JobsiteView>) -> bool {
    forall|i: int, j: int|
        0 <= i < j < rows.len() ==> (#[trigger] rows[i]).id != (#[trigger] rows[j]).id
            && rows[i].name != rows[j].name
}

/// Inserting a row: refused with `Conflict` where the identifier or the name
/// is taken.
pub open spec fn create_spec(rows: Seq<JobsiteView>, id: Uuid, name: Seq<char>) -> Written {
    if has_id(rows, id) || has_name(rows, name) {
        Written { rows, result: Err(ProjectionError::Conflict) }
    } else {
        Written { rows: rows.push(JobsiteView { id, name }), result: Ok(JobsiteView { id, name }) }
    }
}

/// Renaming a row: refused with `NotFound` where no row has the identifier,
/// and with `Conflict` where another row has the name.
pub open spec fn update_spec(rows: Seq<JobsiteView>, id: Uuid, name: Seq<char>) -> Written {
    if !has_id(rows, id) {
        Written { rows, result: Err(ProjectionError::NotFound) }
    } else if name_taken(rows, id, name) {
        Written { rows, result: Err(ProjectionError::Conflict) }
    } else {
        Written {
            rows: rows.update(index_of(rows, id), JobsiteView { id, name }),
            result: Ok(JobsiteView { id, name }),
        }
    }
}

/// Applying an event to the rows.
pub open spec fn project(rows: Seq<JobsiteView>, event: JobsiteEventView) -> Written {
    match event {
        JobsiteEventView::JobsiteCreated { id, name } => create_spec(rows, id, name),
        JobsiteEventView::JobsiteUpdated { id, name } => update_spec(rows, id, name),
    }
}

/// The views of a sequence of rows, in the same order.
pub open spec fn rows_view(rows: Seq<Jobsite>) -> Seq<JobsiteView> {
    rows.map_values(|j: Jobsite| j@)
}

/// The store of materialized jobsites.
pub struct ReadModel {
    rows: Vec<Jobsite>,
}

impl View for ReadModel {
    type V = Seq<JobsiteView>;

    closed spec fn view(&self) -> Seq<JobsiteView> {
        rows_view(self.rows@)
    }
}

impl ReadModel {
    #[verifier::type_invariant]
    spec fn well_formed(&self) -> bool {
        rows_well_formed(self@)
    }

    /// A read model without rows.
    pub fn new() -> (store: ReadModel)
        ensures
            store@ == Seq::<JobsiteView>::empty(),
    {
        let store = ReadModel { rows: Vec::new() };
        assert(store@ =~= Seq::<JobsiteView>::empty());
        store
    }

    /// The number of rows.
    pub fn len(&self) -> (n: usize)
        ensures
            n == self@.len(),
            rows_well_formed(self@),
    {
        proof {
            use_type_invariant(self);
        }
        self.rows.len()
    }

    /// The index of the row with the identifier `id`.
    fn position_of_id(&self, id: Uuid) -> (found: Option<usize>)
        ensures
            match found {
                Some(i) => i < self@.len() && self@[i as int].id == id,
                None => !has_id(self@, id),
            },
    {
        let mut i: usize = 0;
        while i < self.rows.len()
            invariant
                i <= self.rows.len(),
                forall|k: int| 0 <= k < i ==> (#[trigger] self@[k]).id != id,
            decreases self.rows.len() - i,
        {
            if self.rows[i].id == id {
                return Some(i);
            }
            i += 1;
        }
        None
    }

    /// The index of the first row with the name `name`.
    fn position_of_name(&self, name: &String) -> (found: Option<usize>)
        ensures
            match found {
                Some(i) => i < self@.len() && self@[i as int].name == name@,
                None => !has_name(self@, name@),
            },
    {
        let mut i: usize = 0;
        while i < self.rows.len()
            invariant
                i <= self.rows.len(),
                forall|k: int| 0 <= k < i ==> (#[trigger] self@[k]).name != name@,
            decreases self.rows.len() - i,
        {
            if self.rows[i].name == *name {
                return Some(i);
            }
            i += 1;
        }
        None
    }

    /// Whether a row other than that of `id` has the name `name`.
    fn name_taken_by_other(&self, id: Uuid, name: &String) -> (taken: bool)
        ensures
            taken == name_taken(self@, id, name@),
    {
        let mut i: usize = 0;
        while i < self.rows.len()
            invariant
                i <= self.rows.len(),
                forall|k: int|
                    0 <= k < i ==> !((#[trigger] self@[k]).name == name@ && self@[k].id != id),
            decreases self.rows.len() - i,
        {
            if self.rows[i].name == *name && self.rows[i].id != id {
                assert(self@[i as int].name == name@ && self@[i as int].id != id);
                return true;
            }
            i += 1;
        }
        false
    }
}

impl Jobsite {
    /// Inserts the jobsite that `created_event` announces and returns the new
    /// row. Fails with `Conflict`, leaving the rows as they were, where the
    /// identifier or the name is taken.
    pub fn create(transaction: &mut ReadModel, created_event: &JobsiteCreated) -> (row: Result<
        Jobsite,
        ProjectionError,
    >)
        ensures
            final(transaction)@ == create_spec(
                old(transaction)@,
                created_event.id,
                created_event.name@,
            ).rows,
            match row {
                Ok(j) => create_spec(old(transaction)@, created_event.id, created_event.name@).result
                    == Ok::<JobsiteView, ProjectionError>(j@),
                Err(e) => create_spec(
                    old(transaction)@,
                    created_event.id,
                    created_event.name@,
                ).result == Err::<JobsiteView, ProjectionError>(e),
            },
            rows_well_formed(final(transaction)@),
    {
        proof {
            use_type_invariant(&*transaction);
        }
        if transaction.position_of_id(created_event.id).is_some() {
            return Err(ProjectionError::Conflict);
        }
        if transaction.position_of_name(&created_event.name).is_some() {
            return Err(ProjectionError::Conflict);
        }
        let row = Jobsite { id: created_event.id, name: created_event.name.clone() };
        let copy = row.clone();
        let ghost before = transaction@;
        assert(rows_view(transaction.rows@.push(row)) =~= before.push(row@));
        assert(rows_well_formed(before.push(row@))) by {
            let after = before.push(row@);
            assert forall|i: int, j: int| 0 <= i < j < after.len() implies (#[trigger] after[i]).id
                != (#[trigger] after[j]).id && after[i].name != after[j].name by {
                if j < before.len() {
                    assert(after[i] == before[i] && after[j] == before[j]);
                } else {
                    assert(after[i] == before[i]);
                }
            }
        }
        let mut rows: Vec<Jobsite> = Vec::new();
        core::mem::swap(&mut transaction.rows, &mut rows);
        rows.push(row);
        transaction.rows = rows;
        Ok(copy)
    }

    /// Renames the jobsite that `updated_event` names and returns the new row.
    /// Fails, leaving the rows as they were, with `NotFound` where no row has
    /// the identifier and with `Conflict` where another row has the name.
    pub fn update(transaction: &mut ReadModel, updated_event: &JobsiteUpdated) -> (row: Result<
        Jobsite,
        ProjectionError,
    >)
        ensures
            final(transaction)@ == update_spec(
                old(transaction)@,
                updated_event.id,
                updated_event.name@,
            ).rows,
            match row {
                Ok(j) => update_spec(old(transaction)@, updated_event.id, updated_event.name@).result
                    == Ok::<JobsiteView, ProjectionError>(j@),
                Err(e) => update_spec(
                    old(transaction)@,
                    updated_event.id,
                    updated_event.name@,
                ).result == Err::<JobsiteView, ProjectionError>(e),
            },
            rows_well_formed(final(transaction)@),
    {
        proof {
            use_type_invariant(&*transaction);
        }
        let i = match transaction.position_of_id(updated_event.id) {
            None => {
                return Err(ProjectionError::NotFound);
            },
            Some(i) => i,
        };
        if transaction.name_taken_by_other(updated_event.id, &updated_event.name) {
            return Err(ProjectionError::Conflict);
        }
        let row = Jobsite { id: updated_event.id, name: updated_event.name.clone() };
        let copy = row.clone();
        let ghost before = transaction@;
        assert(index_of(before, updated_event.id) == i);
        assert(rows_view(transaction.rows@.update(i as int, row)) =~= before.update(
            i as int,
            row@,
        ));
        assert(rows_well_formed(before.update(i as int, row@))) by {
            let after = before.update(i as int, row@);
            assert forall|a: int, b: int| 0 <= a < b < after.len() implies (#[trigger] after[a]).id
                != (#[trigger] after[b]).id && after[a].name != after[b].name by {
                assert(before[a].id != before[b].id);
                assert(before[i as int].id == row@.id);
                if a != i && b != i {
                    assert(after[a] == before[a] && after[b] == before[b]);
                } else if a == i {
                    assert(after[b] == before[b]);
                } else {
                    assert(after[a] == before[a]);
                }
            }
        }
        let mut rows: Vec<Jobsite> = Vec::new();
        core::mem::swap(&mut transaction.rows, &mut rows);
        rows.set(i, row);
        transaction.rows = rows;
        Ok(copy)
    }

    /// The row with the identifier `id`.
    pub fn get_by_id(transaction: &ReadModel, id: &Uuid) -> (row: Option<Jobsite>)
        ensures
            match row {
                Some(j) => has_id(transaction@, *id) && j@ == transaction@[index_of(
                    transaction@,
                    *id,
                )],
                None => !has_id(transaction@, *id),
            },
            rows_well_formed(transaction@),
    {
        proof {
            use_type_invariant(transaction);
        }
        match transaction.position_of_id(*id) {
            None => None,
            Some(i) => {
                assert(index_of(transaction@, *id) == i);
                Some(transaction.rows[i].clone())
            },
        }
    }

    /// The row with the name `name`.
    pub fn get_by_name(transaction: &ReadModel, name: String) -> (row: Option<Jobsite>)
        ensures
            match row {
                Some(j) => j@.name == name@ && transaction@.contains(j@),
                None => !has_name(transaction@, name@),
            },
            rows_well_formed(transaction@),
    {
        proof {
            use_type_invariant(transaction);
        }
        match transaction.position_of_name(&name) {
            None => None,
            Some(i) => {
                assert(transaction@[i as int] == transaction.rows@[i as int]@);
                Some(transaction.rows[i].clone())
            },
        }
    }

    /// Applies an event to the read model as one write: a `JobsiteCreated`
    /// inserts its row, a `JobsiteUpdated` renames its row. Returns the row
    /// as it stands afterwards. A refused event leaves the rows as they were.
    pub fn apply(transaction: &mut ReadModel, event: &JobsiteEvent) -> (row: Result<
        Jobsite,
        ProjectionError,
    >)
        ensures
            final(transaction)@ == project(old(transaction)@, event@).rows,
            match row {
                Ok(j) => project(old(transaction)@, event@).result == Ok::<
                    JobsiteView,
                    ProjectionError,
                >(j@),
                Err(e) => project(old(transaction)@, event@).result == Err::<
                    JobsiteView,
                    ProjectionError,
                >(e),
            },
            rows_well_formed(final(transaction)@),
    {
        match event {
            JobsiteEvent::JobsiteCreated(created) => Jobsite::create(transaction, created),
            JobsiteEvent::JobsiteUpdated(updated) => Jobsite::update(transaction, updated),
        }
    }

    /// All rows, oldest first.
    pub fn get_list(transaction: &ReadModel) -> (rows: Vec<Jobsite>)
        ensures
            rows_view(rows@) == transaction@,
            rows_well_formed(transaction@),
    {
        proof {
            use_type_invariant(transaction);
        }
        let mut rows: Vec<Jobsite> = Vec::new();
        let mut i: usize = 0;
        while i < transaction.rows.len()
            invariant
                i <= transaction.rows.len(),
                rows@.len() == i,
                forall|k: int| 0 <= k < i ==> (#[trigger] rows@[k])@ == transaction@[k],
            decreases transaction.rows.len() - i,
        {
            rows.push(transaction.rows[i].clone());
            i += 1;
        }
        assert(rows_view(rows@) =~= transaction@);
        rows
    }
}

/// Counting the rows of an identifier: none where no row has it, one where a
/// row has it and no two rows share an identifier.
pub proof fn lemma_count_id(rows: Seq<JobsiteView>, id: Uuid)
    requires
        rows_well_formed(rows),
    ensures
        count_id(rows, id) == if has_id(rows, id) {
            1nat
        } else {
            0nat
        },
    decreases rows.len(),
{
    if rows.len() > 0 {
        let rest = rows.drop_last();
        assert forall|i: int, j: int| 0 <= i < j < rest.len() implies (#[trigger] rest[i]).id != (
        #[trigger] rest[j]).id && rest[i].name != rest[j].name by {
            assert(rest[i] == rows[i] && rest[j] == rows[j]);
        }
        lemma_count_id(rest, id);
        if has_id(rest, id) {
            let k = index_of(rest, id);
            assert(rows[k] == rest[k]);
            assert(rows[k].id != rows[rows.len() - 1].id);
        } else if rows.last().id == id {
            assert(rows[rows.len() - 1].id == id);
        } else if has_id(rows, id) {
            let k = index_of(rows, id);
            assert(rest[k].id == id);
        }
    }
}

/// Replaying a `JobsiteCreated` is safe. Projected a second time, on the rows
/// that the first time left, the event is refused with `Conflict` and the
/// rows stay as they are. Where the first time succeeded, exactly one row has
/// the identifier of the event.
pub proof fn lemma_created_twice(rows: Seq<JobsiteView>, id: Uuid, name: Seq<char>)
    requires
        rows_well_formed(rows),
    ensures
        ({
            let event = JobsiteEventView::JobsiteCreated { id, name };
            let first = project(rows, event);
            let second = project(first.rows, event);
            &&& second.result == Err::<JobsiteView, ProjectionError>(ProjectionError::Conflict)
            &&& second.rows == first.rows
            &&& rows_well_formed(first.rows)
            &&& first.result is Ok ==> count_id(second.rows, id) == 1
        }),
{
    let first = create_spec(rows, id, name);
    lemma_write_well_formed(rows, JobsiteEventView::JobsiteCreated { id, name });
    if first.result is Ok {
        assert(first.rows[rows.len() as int].id == id);
        lemma_count_id(first.rows, id);
    }
}

/// A `JobsiteCreated` followed by a `JobsiteUpdated` of the same jobsite
/// leaves that jobsite under the name of the update, in exactly one row.
/// This is stated for the rows on which both events take effect: the
/// name of the update is held by no other jobsite, and the jobsite is there
/// already or the name of the creation is free.
pub proof fn lemma_created_then_updated(
    rows: Seq<JobsiteView>,
    id: Uuid,
    name: Seq<char>,
    new_name: Seq<char>,
)
    requires
        rows_well_formed(rows),
        has_id(rows, id) || !has_name(rows, name),
        !name_taken(rows, id, new_name),
    ensures
        ({
            let created = project(rows, JobsiteEventView::JobsiteCreated { id, name });
            let updated = project(
                created.rows,
                JobsiteEventView::JobsiteUpdated { id, name: new_name },
            );
            &&& updated.result == Ok::<JobsiteView, ProjectionError>(
                JobsiteView { id, name: new_name },
            )
            &&& rows_well_formed(updated.rows)
            &&& has_id(updated.rows, id)
            &&& updated.rows[index_of(updated.rows, id)].name == new_name
            &&& count_id(updated.rows, id) == 1
        }),
{
    let created = create_spec(rows, id, name);
    lemma_write_well_formed(rows, JobsiteEventView::JobsiteCreated { id, name });
    if created.result is Ok {
        assert(created.rows[rows.len() as int].id == id);
        if name_taken(created.rows, id, new_name) {
            let k = choose|k: int|
                0 <= k < created.rows.len() && (#[trigger] created.rows[k]).name == new_name
                    && created.rows[k].id != id;
            assert(rows[k] == created.rows[k]);
        }
    }
    assert(has_id(created.rows, id));
    assert(!name_taken(created.rows, id, new_name));
    let updated = update_spec(created.rows, id, new_name);
    lemma_write_well_formed(created.rows, JobsiteEventView::JobsiteUpdated { id, name: new_name });
    let i = index_of(created.rows, id);
    assert(updated.rows[i].id == id);
    let j = index_of(updated.rows, id);
    if i < j {
        assert(updated.rows[i].id != updated.rows[j].id);
    } else if j < i {
        assert(updated.rows[j].id != updated.rows[i].id);
    }
    lemma_count_id(updated.rows, id);
}

/// A write keeps the rows well formed, and a refused write keeps the rows.
pub proof fn lemma_write_well_formed(rows: Seq<JobsiteView>, event: JobsiteEventView)
    requires
        rows_well_formed(rows),
    ensures
        rows_well_formed(project(rows, event).rows),
        project(rows, event).result is Err ==> project(rows, event).rows == rows,
{
    let after = project(rows, event).rows;
    match event {
        JobsiteEventView::JobsiteCreated { id, name } => {
            if !(has_id(rows, id) || has_name(rows, name)) {
                assert forall|i: int, j: int| 0 <= i < j < after.len() implies (
                #[trigger] after[i]).id != (#[trigger] after[j]).id && after[i].name
                    != after[j].name by {
                    if j < rows.len() {
                        assert(after[i] == rows[i] && after[j] == rows[j]);
                    } else {
                        assert(after[i] == rows[i]);
                    }
                }
            }
        },
        JobsiteEventView::JobsiteUpdated { id, name } => {
            if has_id(rows, id) && !name_taken(rows, id, name) {
                let k = index_of(rows, id);
                assert forall|i: int, j: int| 0 <= i < j < after.len() implies (
                #[trigger] after[i]).id != (#[trigger] after[j]).id && after[i].name
                    != after[j].name by {
                    assert(rows[i].id != rows[j].id);
                    assert(rows[k].id == id);
                    if i != k && j != k {
                        assert(after[i] == rows[i] && after[j] == rows[j]);
                    } else if i == k {
                        assert(after[j] == rows[j]);
                    } else {
                        assert(after[i] == rows[i]);
                    }
                }
            }
        },
    }
}

} // verus!
