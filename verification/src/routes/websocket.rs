//! The session worker: one per live connection.
//!
//! A worker takes what arrives on its connection and what the hub publishes,
//! one input at a time, and answers each with what is to be done. It keeps
//! the set of jobsites that its client has registered for; the set does not
//! gate what is sent.

use vstd::prelude::*;
use vstd::utf8::encode_utf8;
use std::collections::HashSet;
use crate::application::{BroadcastHub, JobsiteBroadcast, JobsiteBroadcastView};
use crate::ids::{parse_uuid, uuid_of_text, Uuid};
use crate::json::{
    document_pair,
    document_text,
    json_document,
    read_document,
    Document,
    DocumentView,
};
use crate::projections::jobsite::{has_id, index_of, Jobsite, ReadModel};

verus! {

broadcast use vstd::std_specs::hash::group_hash_axioms;

/// A request of a client.
#[derive(Clone, Copy, Debug, PartialEq, Eq, Structural)]
pub enum JobsiteClientMessage {
    /// Send me the current state of this jobsite.
    JobsiteLoading { jobsite_id: Uuid },
    /// I show this jobsite.
    JobsiteRegister { jobsite_id: Uuid },
}

/// The request that a tag and an identifier stand for, `None` where either
/// is missing or the tag names no request.
pub open spec fn message_of(tag: Option<Seq<char>>, jobsite_id: Option<Uuid>) -> Option<
    JobsiteClientMessage,
> {
    match (tag, jobsite_id) {
        (Some(tag), Some(jobsite_id)) => if tag == "JobsiteLoading"@ {
            Some(JobsiteClientMessage::JobsiteLoading { jobsite_id })
        } else if tag == "JobsiteRegister"@ {
            Some(JobsiteClientMessage::JobsiteRegister { jobsite_id })
        } else {
            None
        },
        _ => None,
    }
}

/// The texts of the tag and of the identifier that a parsed message gives:
/// the members `type` and `jobsite_id` of an object, or the two elements of
/// an array of exactly two, in this order.
pub open spec fn message_texts(document: DocumentView) -> (Option<Seq<char>>, Option<Seq<char>>) {
    match document {
        DocumentView::Object(_) => (
            document_text(document, "type"@),
            document_text(document, "jobsite_id"@),
        ),
        DocumentView::Array(_) => match document_pair(document) {
            Some(pair) => pair,
            None => (None, None),
        },
        DocumentView::Other => (None, None),
    }
}

/// The identifier that a parsed message gives: a string that reads as a UUID.
pub open spec fn message_id(document: DocumentView) -> Option<Uuid> {
    match message_texts(document).1 {
        Some(id_text) => uuid_of_text(id_text),
        None => None,
    }
}

/// The request that a parsed message stands for: its tag names the request
/// and its identifier reads as a UUID.
pub open spec fn client_message(document: DocumentView) -> Option<JobsiteClientMessage> {
    message_of(message_texts(document).0, message_id(document))
}

/// The mathematical value of a tag.
pub open spec fn tag_view(tag: Option<String>) -> Option<Seq<char>> {
    match tag {
        Some(t) => Some(t@),
        None => None,
    }
}

/// The request that a text message stands for, `None` where it is malformed.
pub open spec fn parse_client_message(text: Seq<char>) -> Option<JobsiteClientMessage> {
    match json_document(encode_utf8(text)) {
        Some(document) => client_message(document),
        None => None,
    }
}

impl JobsiteClientMessage {
    /// The request that a tag and an identifier stand for.
    pub fn from_fields(tag: Option<String>, jobsite_id: Option<Uuid>) -> (message: Option<
        JobsiteClientMessage,
    >)
        ensures
            message == message_of(tag_view(tag), jobsite_id),
    {
        match (tag, jobsite_id) {
            (Some(tag), Some(jobsite_id)) => {
                if tag == "JobsiteLoading".to_owned() {
                    Some(JobsiteClientMessage::JobsiteLoading { jobsite_id })
                } else if tag == "JobsiteRegister".to_owned() {
                    Some(JobsiteClientMessage::JobsiteRegister { jobsite_id })
                } else {
                    None
                }
            },
            _ => None,
        }
    }

    /// Reads a request from a parsed message.
    pub fn from_document(document: &Document) -> (message: Option<JobsiteClientMessage>)
        ensures
            message == client_message(document@),
    {
        let (tag, id_text) = match document {
            Document::Object(_) => (
                document.text_member("type"),
                document.text_member("jobsite_id"),
            ),
            Document::Array(_) => match document.pair() {
                Some(pair) => pair,
                None => (None, None),
            },
            Document::Other => (None, None),
        };
        let jobsite_id = match id_text {
            Some(id_text) => parse_uuid(id_text.as_str()),
            None => None,
        };
        JobsiteClientMessage::from_fields(tag, jobsite_id)
    }

    /// Reads a request from a text message.
    pub fn parse(text: &str) -> (message: Option<JobsiteClientMessage>)
        ensures
            message == parse_client_message(text@),
    {
        match read_document(text.as_bytes()) {
            Ok(document) => JobsiteClientMessage::from_document(&document),
            Err(_) => None,
        }
    }
}

/// What arrives at a session worker.
#[derive(Debug, PartialEq, Eq)]
pub enum SessionInput {
    /// A text message of the client.
    Text(String),
    /// The client closes the connection.
    Close,
    /// Any other message of the client.
    Other,
    /// A message of the hub.
    Broadcast(JobsiteBroadcast),
    /// Neither the connection nor the hub will deliver anything more.
    Ended,
}

/// The mathematical value of a [`SessionInput`].
pub enum SessionInputView {
    Text(Seq<char>),
    Close,
    Other,
    Broadcast(JobsiteBroadcastView),
    Ended,
}

impl View for SessionInput {
    type V = SessionInputView;

    open spec fn view(&self) -> SessionInputView {
        match self {
            SessionInput::Text(text) => SessionInputView::Text(text@),
            SessionInput::Close => SessionInputView::Close,
            SessionInput::Other => SessionInputView::Other,
            SessionInput::Broadcast(message) => SessionInputView::Broadcast(message@),
            SessionInput::Ended => SessionInputView::Ended,
        }
    }
}

/// What a session worker asks to be done.
#[derive(Debug, PartialEq, Eq)]
pub enum SessionAction {
    /// Nothing.
    Idle,
    /// Read this jobsite from the read model and send it if it is there.
    Load(Uuid),
    /// Render this change and send it to the client.
    Send(JobsiteBroadcast),
    /// Leave the loop and give up the subscription.
    Stop,
}

/// The mathematical value of a [`SessionAction`].
pub enum SessionActionView {
    Idle,
    Load(Uuid),
    Send(JobsiteBroadcastView),
    Stop,
}

impl View for SessionAction {
    type V = SessionActionView;

    open spec fn view(&self) -> SessionActionView {
        match self {
            SessionAction::Idle => SessionActionView::Idle,
            SessionAction::Load(id) => SessionActionView::Load(*id),
            SessionAction::Send(message) => SessionActionView::Send(message@),
            SessionAction::Stop => SessionActionView::Stop,
        }
    }
}

/// The state of one live connection.
pub struct SessionWorker {
    /// The jobsites that the client has registered for.
    pub subscribed_jobsites: HashSet<Uuid>,
    /// The identifier under which the worker is subscribed to the hub.
    pub subscription: u64,
    /// Whether the loop still runs.
    pub open: bool,
}

/// The mathematical value of a [`SessionWorker`].
pub struct SessionView {
    pub subscribed_jobsites: Set<Uuid>,
    pub subscription: u64,
    pub open: bool,
}

impl View for SessionWorker {
    type V = SessionView;

    open spec fn view(&self) -> SessionView {
        SessionView {
            subscribed_jobsites: self.subscribed_jobsites@,
            subscription: self.subscription,
            open: self.open,
        }
    }
}

/// What a request asks for: a request to load is to be served, any other
/// and a malformed message ask for nothing.
pub open spec fn request_action(message: Option<JobsiteClientMessage>) -> SessionActionView {
    match message {
        Some(JobsiteClientMessage::JobsiteLoading { jobsite_id }) => SessionActionView::Load(
            jobsite_id,
        ),
        _ => SessionActionView::Idle,
    }
}

/// The interest set after a request: a request to register adds its jobsite,
/// any other and a malformed message leave the set.
pub open spec fn request_interest(interest: Set<Uuid>, message: Option<JobsiteClientMessage>) -> Set<
    Uuid,
> {
    match message {
        Some(JobsiteClientMessage::JobsiteRegister { jobsite_id }) => interest.insert(jobsite_id),
        _ => interest,
    }
}

/// What a text message of the client asks for.
pub open spec fn client_action(text: Seq<char>) -> SessionActionView {
    request_action(parse_client_message(text))
}

/// The interest set after a text message of the client.
pub open spec fn client_interest(interest: Set<Uuid>, text: Seq<char>) -> Set<Uuid> {
    request_interest(interest, parse_client_message(text))
}

impl SessionView {
    /// What the worker asks to be done on `input`. A worker that has left its
    /// loop asks for nothing but to stop.
    pub open spec fn action(self, input: SessionInputView) -> SessionActionView {
        if !self.open {
            SessionActionView::Stop
        } else {
            match input {
                SessionInputView::Text(text) => client_action(text),
                SessionInputView::Close => SessionActionView::Stop,
                SessionInputView::Other => SessionActionView::Idle,
                SessionInputView::Broadcast(message) => SessionActionView::Send(message),
                SessionInputView::Ended => SessionActionView::Stop,
            }
        }
    }

    /// The state of the worker after `input`.
    pub open spec fn next(self, input: SessionInputView) -> SessionView {
        if !self.open {
            self
        } else {
            match input {
                SessionInputView::Text(text) => SessionView {
                    subscribed_jobsites: client_interest(self.subscribed_jobsites, text),
                    ..self
                },
                SessionInputView::Close => SessionView { open: false, ..self },
                SessionInputView::Ended => SessionView { open: false, ..self },
                _ => self,
            }
        }
    }
}

/// Handles a request of the client, `None` standing for a malformed message:
/// a request to load is handed back, a request to register is noted in
/// `subscribed_jobsites`, and a malformed message is ignored.
pub fn handle_request(
    message: Option<JobsiteClientMessage>,
    subscribed_jobsites: &mut HashSet<Uuid>,
) -> (action: SessionAction)
    ensures
        action@ == request_action(message),
        final(subscribed_jobsites)@ == request_interest(old(subscribed_jobsites)@, message),
{
    match message {
        Some(JobsiteClientMessage::JobsiteLoading { jobsite_id }) => SessionAction::Load(jobsite_id),
        Some(JobsiteClientMessage::JobsiteRegister { jobsite_id }) => {
            let _ = subscribed_jobsites.insert(jobsite_id);
            SessionAction::Idle
        },
        None => SessionAction::Idle,
    }
}

/// Handles a text message of the client: it is read as a request, and the
/// request is handled.
pub fn handle_client_message(text: &str, subscribed_jobsites: &mut HashSet<Uuid>) -> (action:
    SessionAction)
    ensures
        action@ == client_action(text@),
        final(subscribed_jobsites)@ == client_interest(old(subscribed_jobsites)@, text@),
{
    handle_request(JobsiteClientMessage::parse(text), subscribed_jobsites)
}

impl SessionWorker {
    /// A worker for a new connection, subscribed to `hub`, with an empty
    /// interest set.
    pub fn connect(hub: &mut BroadcastHub) -> (worker: SessionWorker)
        requires
            old(hub)@.issued < u64::MAX,
        ensures
            final(hub)@ == old(hub)@.subscribe(),
            worker@ == (SessionView {
                subscribed_jobsites: Set::empty(),
                subscription: old(hub)@.issued as u64,
                open: true,
            }),
    {
        let subscription = hub.subscribe();
        SessionWorker { subscribed_jobsites: HashSet::new(), subscription, open: true }
    }

    /// Takes one input and says what is to be done.
    pub fn handle(&mut self, input: SessionInput) -> (action: SessionAction)
        ensures
            action@ == old(self)@.action(input@),
            final(self)@ == old(self)@.next(input@),
    {
        if !self.open {
            return SessionAction::Stop;
        }
        match input {
            SessionInput::Text(text) => handle_client_message(
                text.as_str(),
                &mut self.subscribed_jobsites,
            ),
            SessionInput::Close => {
                self.open = false;
                SessionAction::Stop
            },
            SessionInput::Other => SessionAction::Idle,
            SessionInput::Broadcast(message) => SessionAction::Send(message),
            SessionInput::Ended => {
                self.open = false;
                SessionAction::Stop
            },
        }
    }

    /// Takes the oldest message that the hub holds for this worker, if there
    /// is one, and says what is to be done with it.
    pub fn poll(&mut self, hub: &mut BroadcastHub) -> (action: SessionAction)
        ensures
            final(self)@ == old(self)@,
            old(self)@.open ==> final(hub)@ == old(hub)@.receive(old(self)@.subscription),
            !old(self)@.open ==> final(hub)@ == old(hub)@,
            action@ == if !old(self)@.open {
                SessionActionView::Stop
            } else {
                match old(hub)@.front(old(self)@.subscription) {
                    Some(message) => SessionActionView::Send(message),
                    None => SessionActionView::Idle,
                }
            },
    {
        if !self.open {
            return SessionAction::Stop;
        }
        match hub.recv(self.subscription) {
            Some(message) => self.handle(SessionInput::Broadcast(message)),
            None => SessionAction::Idle,
        }
    }

    /// Serves a request to load: the row of `jobsite_id` as it stands in the
    /// read model, to be sent as a new row, or nothing where there is none.
    pub fn load(&self, read_model: &ReadModel, jobsite_id: Uuid) -> (action: SessionAction)
        ensures
            action@ == if !self@.open {
                SessionActionView::Stop
            } else if has_id(read_model@, jobsite_id) {
                SessionActionView::Send(
                    JobsiteBroadcastView::JobsiteCreated(
                        read_model@[index_of(read_model@, jobsite_id)],
                    ),
                )
            } else {
                SessionActionView::Idle
            },
    {
        if !self.open {
            return SessionAction::Stop;
        }
        SessionWorker::reply(Jobsite::get_by_id(read_model, &jobsite_id))
    }

    /// What is to be done with the answer to a point query.
    pub fn reply(found: Option<Jobsite>) -> (action: SessionAction)
        ensures
            action@ == match found {
                Some(jobsite) => SessionActionView::Send(
                    JobsiteBroadcastView::JobsiteCreated(jobsite@),
                ),
                None => SessionActionView::Idle,
            },
    {
        match found {
            Some(jobsite) => SessionAction::Send(JobsiteBroadcast::JobsiteCreated(jobsite)),
            None => SessionAction::Idle,
        }
    }

    /// Ends the session: the worker gives up its subscription, and what
    /// waited in its queue is dropped.
    pub fn disconnect(self, hub: &mut BroadcastHub)
        ensures
            final(hub)@ == old(hub)@.unsubscribe(self@.subscription),
    {
        hub.unsubscribe(self.subscription);
    }
}

} // verus!
