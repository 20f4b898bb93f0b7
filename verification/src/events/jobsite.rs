//! Jobsite events: their shape on the wire and how a log record becomes one.

use vstd::prelude::*;
use crate::events::{EventParseError, EventParseErrorView};
use crate::ids::{parse_uuid, uuid_of_text, Uuid};
use crate::json::{
    document_pair,
    document_text,
    json_document,
    read_document,
    Document,
    DocumentView,
};
use crate::stream::{RecordedEventView, ResolvedEvent};

verus! {

/// A jobsite came into being.
#[derive(Debug, PartialEq, Eq)]
pub struct JobsiteCreated {
    pub id: Uuid,
    pub name: String,
}

/// A jobsite was renamed.
#[derive(Debug, PartialEq, Eq)]
pub struct JobsiteUpdated {
    pub id: Uuid,
    pub name: String,
}

/// A domain event of the jobsite projection group.
#[derive(Debug, PartialEq, Eq)]
pub enum JobsiteEvent {
    JobsiteCreated(JobsiteCreated),
    JobsiteUpdated(JobsiteUpdated),
}

/// The mathematical value of a [`JobsiteEvent`].
pub enum JobsiteEventView {
    JobsiteCreated { id: Uuid, name: Seq<char> },
    JobsiteUpdated { id: Uuid, name: Seq<char> },
}

impl View for JobsiteEvent {
    type V = JobsiteEventView;

    open spec fn view(&self) -> JobsiteEventView {
        match self {
            JobsiteEvent::JobsiteCreated(e) => JobsiteEventView::JobsiteCreated {
                id: e.id,
                name: e.name@,
            },
            JobsiteEvent::JobsiteUpdated(e) => JobsiteEventView::JobsiteUpdated {
                id: e.id,
                name: e.name@,
            },
        }
    }
}

/// The type tag of [`JobsiteCreated`].
pub open spec fn created_name() -> Seq<char> {
    "JobsiteCreated"@
}

/// The type tag of [`JobsiteUpdated`].
pub open spec fn updated_name() -> Seq<char> {
    "JobsiteUpdated"@
}

/// The texts of the identifier and of the name that a payload gives: the
/// members `id` and `name` of an object, or the two elements of an array of
/// exactly two, in this order.
pub open spec fn field_texts(document: DocumentView) -> (Option<Seq<char>>, Option<Seq<char>>) {
    match document {
        DocumentView::Object(_) => (document_text(document, "id"@), document_text(document, "name"@)),
        DocumentView::Array(_) => match document_pair(document) {
            Some(pair) => pair,
            None => (None, None),
        },
        DocumentView::Other => (None, None),
    }
}

/// The identifier and the name that a payload gives: both must be strings,
/// and the identifier must read as a UUID.
pub open spec fn jobsite_fields(document: DocumentView) -> Option<(Uuid, Seq<char>)> {
    match field_texts(document) {
        (Some(id_text), Some(name)) => match uuid_of_text(id_text) {
            Some(id) => Some((id, name)),
            None => None,
        },
        _ => None,
    }
}

/// The event that a type tag and the fields of a payload stand for. A known
/// tag with a payload that does not give the fields is a deserialization
/// error; an unknown tag is reported with the tag, whatever the payload.
pub open spec fn event_of(event_type: Seq<char>, fields: Option<(Uuid, Seq<char>)>) -> Result<
    JobsiteEventView,
    EventParseErrorView,
> {
    if event_type == created_name() {
        match fields {
            Some((id, name)) => Ok(JobsiteEventView::JobsiteCreated { id, name }),
            None => Err(EventParseErrorView::DeserializationError),
        }
    } else if event_type == updated_name() {
        match fields {
            Some((id, name)) => Ok(JobsiteEventView::JobsiteUpdated { id, name }),
            None => Err(EventParseErrorView::DeserializationError),
        }
    } else {
        Err(EventParseErrorView::UnknownEventType(event_type))
    }
}

/// The event that a type tag and a parsed payload stand for.
pub open spec fn decode_document(event_type: Seq<char>, document: DocumentView) -> Result<
    JobsiteEventView,
    EventParseErrorView,
> {
    event_of(event_type, jobsite_fields(document))
}

/// The event that a delivered record stands for. A payload that is not JSON is
/// reported before the type tag is looked at.
pub open spec fn decode(record: Option<RecordedEventView>) -> Result<
    JobsiteEventView,
    EventParseErrorView,
> {
    match record {
        None => Err(EventParseErrorView::MissingEventData),
        Some(event) => match json_document(event.data) {
            None => Err(EventParseErrorView::DeserializationError),
            Some(document) => decode_document(event.event_type, document),
        },
    }
}

/// The mathematical value of the fields of a payload.
pub open spec fn fields_view(fields: Option<(Uuid, String)>) -> Option<(Uuid, Seq<char>)> {
    match fields {
        Some((id, name)) => Some((id, name@)),
        None => None,
    }
}

/// Reads the members `id` and `name` of a payload.
fn read_fields(document: &Document) -> (fields: Option<(Uuid, String)>)
    ensures
        fields_view(fields) == jobsite_fields(document@),
{
    let (id_text, name) = match document {
        Document::Object(_) => (document.text_member("id"), document.text_member("name")),
        Document::Array(_) => match document.pair() {
            Some(pair) => pair,
            None => (None, None),
        },
        Document::Other => (None, None),
    };
    match (id_text, name) {
        (Some(id_text), Some(name)) => match parse_uuid(id_text.as_str()) {
            Some(id) => Some((id, name)),
            None => None,
        },
        _ => None,
    }
}

impl JobsiteCreated {
    /// The type tag under which the event is stored.
    pub fn event_name() -> (name: String)
        ensures
            name@ == created_name(),
    {
        "JobsiteCreated".to_owned()
    }
}

impl JobsiteUpdated {
    /// The type tag under which the event is stored.
    pub fn event_name() -> (name: String)
        ensures
            name@ == updated_name(),
    {
        "JobsiteUpdated".to_owned()
    }
}

impl JobsiteEvent {
    /// Builds the event that `event_type` names from the fields of a payload,
    /// `None` standing for a payload that does not give them.
    pub fn from_fields(event_type: String, fields: Option<(Uuid, String)>) -> (event: Result<
        JobsiteEvent,
        EventParseError,
    >)
        ensures
            match event {
                Ok(e) => event_of(event_type@, fields_view(fields)) == Ok::<
                    JobsiteEventView,
                    EventParseErrorView,
                >(e@),
                Err(e) => event_of(event_type@, fields_view(fields)) == Err::<
                    JobsiteEventView,
                    EventParseErrorView,
                >(e@),
            },
    {
        if event_type == JobsiteCreated::event_name() {
            match fields {
                Some((id, name)) => Ok(JobsiteEvent::JobsiteCreated(JobsiteCreated { id, name })),
                None => Err(EventParseError::DeserializationError),
            }
        } else if event_type == JobsiteUpdated::event_name() {
            match fields {
                Some((id, name)) => Ok(JobsiteEvent::JobsiteUpdated(JobsiteUpdated { id, name })),
                None => Err(EventParseError::DeserializationError),
            }
        } else {
            Err(EventParseError::UnknownEventType(event_type))
        }
    }

    /// Builds the event that `event_type` names from a parsed payload.
    pub fn from_document(event_type: String, document: &Document) -> (event: Result<
        JobsiteEvent,
        EventParseError,
    >)
        ensures
            match event {
                Ok(e) => decode_document(event_type@, document@) == Ok::<
                    JobsiteEventView,
                    EventParseErrorView,
                >(e@),
                Err(e) => decode_document(event_type@, document@) == Err::<
                    JobsiteEventView,
                    EventParseErrorView,
                >(e@),
            },
    {
        JobsiteEvent::from_fields(event_type, read_fields(document))
    }

    /// Decodes a delivered record.
    ///
    /// Fails with `MissingEventData` where the record carries no event, with
    /// `DeserializationError` where the payload is not JSON or does not have
    /// the members of the event that the type tag names, and with
    /// `UnknownEventType` where the payload is JSON and the tag names no
    /// known event.
    pub fn try_from(value: ResolvedEvent) -> (event: Result<JobsiteEvent, EventParseError>)
        ensures
            match event {
                Ok(e) => decode(value@) == Ok::<JobsiteEventView, EventParseErrorView>(e@),
                Err(e) => decode(value@) == Err::<JobsiteEventView, EventParseErrorView>(e@),
            },
    {
        match value.event {
            None => Err(EventParseError::MissingEventData),
            Some(event_data) => match read_document(event_data.data.as_slice()) {
                Err(_) => Err(EventParseError::DeserializationError),
                Ok(document) => JobsiteEvent::from_document(event_data.event_type, &document),
            },
        }
    }
}

/// The type tags of the events differ, so that a tag names one event at most.
pub proof fn lemma_event_names_differ()
    ensures
        created_name() != updated_name(),
{
    reveal_strlit("JobsiteCreated");
    reveal_strlit("JobsiteUpdated");
    assert(created_name()[7] != updated_name()[7]);
}

} // verus!
