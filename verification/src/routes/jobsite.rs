//! What the jobsite routes decide once the read model has answered.
//!
//! A route first asks the read model, then decides here, and then either
//! answers with the messages of the form or appends an event to the stream of
//! the jobsite.

use vstd::prelude::*;
use crate::events::jobsite::{created_name, updated_name, JobsiteCreated, JobsiteUpdated};
use crate::ids::{format_uuid, uuid_text, Uuid};
use crate::projections::jobsite::Jobsite;
use crate::utils::{ErrorProps, ErrorPropsView, errors_view};

verus! {

/// The form that creates a jobsite.
#[derive(Debug, PartialEq, Eq)]
pub struct JobsiteCreateData {
    pub name: String,
}

/// The form that renames a jobsite.
#[derive(Debug, PartialEq, Eq)]
pub struct JobsiteUpdateData {
    pub name: String,
}

/// An event to be appended to a stream.
#[derive(Debug, PartialEq, Eq)]
pub struct Append<E> {
    /// The name of the stream.
    pub stream_name: String,
    /// The type tag of the event.
    pub event_type: String,
    /// The event.
    pub event: E,
}

/// What `POST /jobsite` does.
#[derive(Debug, PartialEq, Eq)]
pub enum PostJobsite {
    /// The name is taken: answer with these messages.
    NameTaken(Vec<ErrorProps>),
    /// Append this event and answer that the jobsite was created.
    Created(Append<JobsiteCreated>),
}

/// What `PUT /jobsite/:id` does.
#[derive(Debug, PartialEq, Eq)]
pub enum PutJobsite {
    /// There is no such jobsite.
    NotFound,
    /// The name is taken: answer with these messages.
    NameTaken(Vec<ErrorProps>),
    /// Append this event.
    Updated(Append<JobsiteUpdated>),
}

/// The name of the stream that holds the events of the jobsite `id`.
pub open spec fn stream_name_of(id: Uuid) -> Seq<char> {
    "jobsite-"@ + uuid_text(id)
}

/// The messages of a form whose name is refused with `text`.
pub open spec fn name_error(text: Seq<char>) -> Seq<ErrorPropsView> {
    seq![ErrorPropsView { text: Some(text), id: "name-error"@ }]
}

/// The name of the stream of the jobsite whose identifier is written
/// `id_text`.
pub fn stream_name_for(id_text: &str) -> (name: String)
    ensures
        name@ == "jobsite-"@ + id_text@,
{
    let mut name = "jobsite-".to_owned();
    name.append(id_text);
    name
}

/// The name of the stream that holds the events of the jobsite `id`.
pub fn stream_name(id: Uuid) -> (name: String)
    ensures
        name@ == stream_name_of(id),
{
    stream_name_for(format_uuid(id).as_str())
}

/// The messages of a form whose name is refused with `text`.
fn refuse_name(text: &str) -> (errors: Vec<ErrorProps>)
    ensures
        errors_view(errors@) == name_error(text@),
{
    let mut props = ErrorProps::new("name-error".to_owned());
    props.set_text(text.to_owned());
    let mut errors: Vec<ErrorProps> = Vec::new();
    errors.push(props);
    assert(errors_view(errors@) =~= name_error(text@));
    errors
}

/// Decides `POST /jobsite`. `existing` is the row that has the name of the
/// form, if there is one; `jobsite_id` is the identifier drawn for the new
/// jobsite.
///
/// Where the name is taken the form is refused. Otherwise a `JobsiteCreated`
/// with the identifier and the name goes to the stream of the new jobsite.
pub fn post_jobsite(existing: Option<Jobsite>, data: &JobsiteCreateData, jobsite_id: Uuid) -> (decision:
    PostJobsite)
    ensures
        match decision {
            PostJobsite::NameTaken(errors) => existing is Some && errors_view(errors@)
                == name_error("A Jobsite already exists with this name"@),
            PostJobsite::Created(append) => existing is None && append.stream_name@
                == stream_name_of(jobsite_id) && append.event_type@ == created_name()
                && append.event.id == jobsite_id && append.event.name@ == data.name@,
        },
{
    match existing {
        Some(_) => PostJobsite::NameTaken(refuse_name("A Jobsite already exists with this name")),
        None => PostJobsite::Created(
            Append {
                stream_name: stream_name(jobsite_id),
                event_type: JobsiteCreated::event_name(),
                event: JobsiteCreated { id: jobsite_id, name: data.name.clone() },
            },
        ),
    }
}

/// Decides `PUT /jobsite/:id`. `current` is the row of `jobsite_id`, `named`
/// the row that has the name of the form, each if there is one.
///
/// Where there is no such jobsite the request is refused; where the name is
/// taken, by whichever jobsite, the form is refused. Otherwise a
/// `JobsiteUpdated` with the identifier and the name goes to the stream of
/// the jobsite.
pub fn put_jobsite(
    current: Option<Jobsite>,
    named: Option<Jobsite>,
    data: &JobsiteUpdateData,
    jobsite_id: Uuid,
) -> (decision: PutJobsite)
    ensures
        match decision {
            PutJobsite::NotFound => current is None,
            PutJobsite::NameTaken(errors) => current is Some && named is Some && errors_view(
                errors@,
            ) == name_error("This name is already taken"@),
            PutJobsite::Updated(append) => current is Some && named is None && append.stream_name@
                == stream_name_of(jobsite_id) && append.event_type@ == updated_name()
                && append.event.id == jobsite_id && append.event.name@ == data.name@,
        },
{
    if current.is_none() {
        return PutJobsite::NotFound;
    }
    match named {
        Some(_) => PutJobsite::NameTaken(refuse_name("This name is already taken")),
        None => PutJobsite::Updated(
            Append {
                stream_name: stream_name(jobsite_id),
                event_type: JobsiteUpdated::event_name(),
                event: JobsiteUpdated { id: jobsite_id, name: data.name.clone() },
            },
        ),
    }
}

} // verus!
