use esrs::events::jobsite::{JobsiteCreated, JobsiteEvent, JobsiteUpdated};
use esrs::events::EventParseError;
use esrs::json::{Document, Member};
use esrs::stream::{Position, RecordedEvent, ResolvedEvent};

const U1: u128 = 0x67e55044_10b1_426f_9247_bb680e5fe0c8;

fn record(event_type: &str, data: &str) -> ResolvedEvent {
    ResolvedEvent {
        event: Some(RecordedEvent {
            stream_id: format!("jobsite-{}", "67e55044-10b1-426f-9247-bb680e5fe0c8"),
            event_type: event_type.to_string(),
            data: data.as_bytes().to_vec(),
            position: Position { commit: 7, prepare: 7 },
        }),
    }
}

#[test]
fn decodes_a_created_event() {
    let decoded = JobsiteEvent::try_from(record(
        "JobsiteCreated",
        r#"{"id":"67e55044-10b1-426f-9247-bb680e5fe0c8","name":"Site A"}"#,
    ));
    assert_eq!(
        decoded,
        Ok(JobsiteEvent::JobsiteCreated(JobsiteCreated { id: U1, name: "Site A".to_string() }))
    );
}

#[test]
fn decodes_an_updated_event() {
    let decoded = JobsiteEvent::try_from(record(
        "JobsiteUpdated",
        r#"{"name":"Site B","id":"67e55044-10b1-426f-9247-bb680e5fe0c8"}"#,
    ));
    assert_eq!(
        decoded,
        Ok(JobsiteEvent::JobsiteUpdated(JobsiteUpdated { id: U1, name: "Site B".to_string() }))
    );
}

#[test]
fn a_record_without_event_is_missing_event_data() {
    let decoded = JobsiteEvent::try_from(ResolvedEvent { event: None });
    assert_eq!(decoded, Err(EventParseError::MissingEventData));
}

#[test]
fn a_payload_that_is_not_json_is_a_deserialization_error() {
    let decoded = JobsiteEvent::try_from(record("JobsiteCreated", "{not json"));
    assert_eq!(decoded, Err(EventParseError::DeserializationError));
}

#[test]
fn an_empty_payload_is_a_deserialization_error() {
    let decoded = JobsiteEvent::try_from(record("JobsiteCreated", ""));
    assert_eq!(decoded, Err(EventParseError::DeserializationError));
}

#[test]
fn broken_json_is_reported_before_an_unknown_type() {
    let decoded = JobsiteEvent::try_from(record("JobsiteDeleted", "{"));
    assert_eq!(decoded, Err(EventParseError::DeserializationError));
}

#[test]
fn an_unknown_type_tag_is_reported_with_the_tag() {
    let decoded = JobsiteEvent::try_from(record(
        "JobsiteDeleted",
        r#"{"id":"67e55044-10b1-426f-9247-bb680e5fe0c8","name":"Site A"}"#,
    ));
    assert_eq!(decoded, Err(EventParseError::UnknownEventType("JobsiteDeleted".to_string())));
}

#[test]
fn the_type_tag_is_case_sensitive() {
    let decoded = JobsiteEvent::try_from(record(
        "jobsitecreated",
        r#"{"id":"67e55044-10b1-426f-9247-bb680e5fe0c8","name":"Site A"}"#,
    ));
    assert_eq!(decoded, Err(EventParseError::UnknownEventType("jobsitecreated".to_string())));
}

#[test]
fn a_payload_without_name_is_a_deserialization_error() {
    let decoded = JobsiteEvent::try_from(record(
        "JobsiteCreated",
        r#"{"id":"67e55044-10b1-426f-9247-bb680e5fe0c8"}"#,
    ));
    assert_eq!(decoded, Err(EventParseError::DeserializationError));
}

#[test]
fn a_payload_without_id_is_a_deserialization_error() {
    let decoded = JobsiteEvent::try_from(record("JobsiteUpdated", r#"{"name":"Site A"}"#));
    assert_eq!(decoded, Err(EventParseError::DeserializationError));
}

#[test]
fn an_id_that_is_no_uuid_is_a_deserialization_error() {
    let decoded =
        JobsiteEvent::try_from(record("JobsiteCreated", r#"{"id":"seventeen","name":"Site A"}"#));
    assert_eq!(decoded, Err(EventParseError::DeserializationError));
}

#[test]
fn an_id_that_is_a_number_is_a_deserialization_error() {
    let decoded = JobsiteEvent::try_from(record("JobsiteCreated", r#"{"id":17,"name":"Site A"}"#));
    assert_eq!(decoded, Err(EventParseError::DeserializationError));
}

#[test]
fn a_name_that_is_no_string_is_a_deserialization_error() {
    let decoded = JobsiteEvent::try_from(record(
        "JobsiteCreated",
        r#"{"id":"67e55044-10b1-426f-9247-bb680e5fe0c8","name":null}"#,
    ));
    assert_eq!(decoded, Err(EventParseError::DeserializationError));
}

#[test]
fn a_payload_that_is_no_object_is_a_deserialization_error() {
    let decoded = JobsiteEvent::try_from(record("JobsiteCreated", "42"));
    assert_eq!(decoded, Err(EventParseError::DeserializationError));
}

#[test]
fn other_members_of_the_payload_are_ignored() {
    let decoded = JobsiteEvent::try_from(record(
        "JobsiteCreated",
        r#"{"extra":[1,2],"id":"67e55044-10b1-426f-9247-bb680e5fe0c8","name":"Site A","n":1}"#,
    ));
    assert_eq!(
        decoded,
        Ok(JobsiteEvent::JobsiteCreated(JobsiteCreated { id: U1, name: "Site A".to_string() }))
    );
}

#[test]
fn an_id_without_hyphens_and_in_upper_case_is_read() {
    let decoded = JobsiteEvent::try_from(record(
        "JobsiteCreated",
        r#"{"id":"67E5504410B1426F9247BB680E5FE0C8","name":"Site A"}"#,
    ));
    assert_eq!(
        decoded,
        Ok(JobsiteEvent::JobsiteCreated(JobsiteCreated { id: U1, name: "Site A".to_string() }))
    );
}

#[test]
fn a_name_keeps_its_escaped_characters() {
    let decoded = JobsiteEvent::try_from(record(
        "JobsiteCreated",
        r#"{"id":"67e55044-10b1-426f-9247-bb680e5fe0c8","name":"Site \"A\" é"}"#,
    ));
    assert_eq!(
        decoded,
        Ok(JobsiteEvent::JobsiteCreated(JobsiteCreated {
            id: U1,
            name: "Site \"A\" \u{e9}".to_string()
        }))
    );
}

#[test]
fn from_document_builds_the_event_that_the_tag_names() {
    let document = Document::Object(vec![
        Member { name: "id".to_string(), text: Some("00000000-0000-0000-0000-00000000002a".to_string()) },
        Member { name: "name".to_string(), text: Some("Depot".to_string()) },
    ]);
    assert_eq!(
        JobsiteEvent::from_document("JobsiteUpdated".to_string(), &document),
        Ok(JobsiteEvent::JobsiteUpdated(JobsiteUpdated { id: 42, name: "Depot".to_string() }))
    );
    assert_eq!(
        JobsiteEvent::from_document("Other".to_string(), &document),
        Err(EventParseError::UnknownEventType("Other".to_string()))
    );
    assert_eq!(
        JobsiteEvent::from_document("JobsiteCreated".to_string(), &Document::Other),
        Err(EventParseError::DeserializationError)
    );
}

#[test]
fn text_member_finds_the_first_member_of_that_name() {
    let document = Document::Object(vec![
        Member { name: "a".to_string(), text: Some("one".to_string()) },
        Member { name: "b".to_string(), text: None },
        Member { name: "a".to_string(), text: Some("two".to_string()) },
    ]);
    assert_eq!(document.text_member("a"), Some("one".to_string()));
    assert_eq!(document.text_member("b"), None);
    assert_eq!(document.text_member("c"), None);
    assert_eq!(Document::Other.text_member("a"), None);
    assert_eq!(Document::Object(vec![]).text_member("a"), None);
}

#[test]
fn event_names_are_the_type_tags() {
    assert_eq!(JobsiteCreated::event_name(), "JobsiteCreated");
    assert_eq!(JobsiteUpdated::event_name(), "JobsiteUpdated");
}

#[test]
fn parse_errors_have_their_messages() {
    assert_eq!(EventParseError::MissingEventData.message(), "Event data is missing");
    assert_eq!(
        EventParseError::DeserializationError.message(),
        "Failed to deserialize event data"
    );
    assert_eq!(
        EventParseError::UnknownEventType("X".to_string()).message(),
        "Unknown event type: X"
    );
}

#[test]
fn from_fields_builds_the_event_that_the_tag_names() {
    assert_eq!(
        JobsiteEvent::from_fields("JobsiteCreated".to_string(), Some((5, "Yard".to_string()))),
        Ok(JobsiteEvent::JobsiteCreated(JobsiteCreated { id: 5, name: "Yard".to_string() }))
    );
    assert_eq!(
        JobsiteEvent::from_fields("JobsiteUpdated".to_string(), Some((5, "Yard".to_string()))),
        Ok(JobsiteEvent::JobsiteUpdated(JobsiteUpdated { id: 5, name: "Yard".to_string() }))
    );
    assert_eq!(
        JobsiteEvent::from_fields("JobsiteCreated".to_string(), None),
        Err(EventParseError::DeserializationError)
    );
    assert_eq!(
        JobsiteEvent::from_fields("JobsiteUpdated".to_string(), None),
        Err(EventParseError::DeserializationError)
    );
    assert_eq!(
        JobsiteEvent::from_fields("".to_string(), Some((5, "Yard".to_string()))),
        Err(EventParseError::UnknownEventType("".to_string()))
    );
    assert_eq!(
        JobsiteEvent::from_fields("JobsiteMoved".to_string(), None),
        Err(EventParseError::UnknownEventType("JobsiteMoved".to_string()))
    );
}

#[test]
fn an_array_of_identifier_and_name_is_a_payload_too() {
    let decoded = JobsiteEvent::try_from(record(
        "JobsiteCreated",
        r#"["67e55044-10b1-426f-9247-bb680e5fe0c8","Site A"]"#,
    ));
    assert_eq!(
        decoded,
        Ok(JobsiteEvent::JobsiteCreated(JobsiteCreated { id: U1, name: "Site A".to_string() }))
    );
    let decoded = JobsiteEvent::try_from(record(
        "JobsiteUpdated",
        r#"["67e55044-10b1-426f-9247-bb680e5fe0c8","Site B"]"#,
    ));
    assert_eq!(
        decoded,
        Ok(JobsiteEvent::JobsiteUpdated(JobsiteUpdated { id: U1, name: "Site B".to_string() }))
    );
}

#[test]
fn an_array_of_another_length_or_kind_is_a_deserialization_error() {
    for data in [
        "[]",
        r#"["67e55044-10b1-426f-9247-bb680e5fe0c8"]"#,
        r#"["67e55044-10b1-426f-9247-bb680e5fe0c8","Site A","more"]"#,
        r#"["Site A","67e55044-10b1-426f-9247-bb680e5fe0c8"]"#,
        r#"["67e55044-10b1-426f-9247-bb680e5fe0c8",7]"#,
        r#"[null,"Site A"]"#,
    ] {
        assert_eq!(
            JobsiteEvent::try_from(record("JobsiteCreated", data)),
            Err(EventParseError::DeserializationError)
        );
    }
}

#[test]
fn pair_gives_the_elements_of_an_array_of_two() {
    let two = Document::Array(vec![Some("a".to_string()), None]);
    assert_eq!(two.pair(), Some((Some("a".to_string()), None)));
    assert_eq!(two.text_member("a"), None);
    assert_eq!(Document::Array(vec![]).pair(), None);
    assert_eq!(Document::Array(vec![None, None, None]).pair(), None);
    assert_eq!(Document::Other.pair(), None);
    assert_eq!(Document::Object(vec![]).pair(), None);
}
