use esrs::utils::{ErrorContent, ErrorIdNotFound, ErrorProps, ErrorPropsCollection, RouteError};

fn form() -> Vec<ErrorProps> {
    vec![
        ErrorProps::new("name-error".to_string()),
        ErrorProps::new("city-error".to_string()),
        ErrorProps::new("name-error".to_string()),
    ]
}

fn text(value: &str) -> Option<ErrorContent> {
    Some(ErrorContent::Text(value.to_string()))
}

#[test]
fn a_new_error_box_has_no_error() {
    let props = ErrorProps::new("name-error".to_string());
    assert_eq!(props, ErrorProps { text: None, id: "name-error".to_string() });
}

#[test]
fn the_text_of_an_error_box_is_set_and_cleared() {
    let mut props = ErrorProps::new("name-error".to_string());
    props.set_text("Too long".to_string());
    assert_eq!(props, ErrorProps { text: text("Too long"), id: "name-error".to_string() });
    props.clear_text();
    assert_eq!(props, ErrorProps { text: None, id: "name-error".to_string() });
}

#[test]
fn set_error_writes_the_first_box_of_that_id() {
    let mut errors = form();
    assert!(!errors.has_errors());
    assert_eq!(errors.set_error("name-error", "Taken"), Ok(()));
    assert_eq!(errors[0].text, text("Taken"));
    assert_eq!(errors[1].text, None);
    assert_eq!(errors[2].text, None);
    assert!(errors.has_errors());
    assert_eq!(errors.set_error("city-error", "Unknown"), Ok(()));
    assert_eq!(errors[1], ErrorProps { text: text("Unknown"), id: "city-error".to_string() });
}

#[test]
fn set_error_on_an_unknown_id_fails_and_changes_nothing() {
    let mut errors = form();
    let failed = errors.set_error("zip-error", "Bad");
    assert_eq!(failed, Err(ErrorIdNotFound { id: "zip-error".to_string() }));
    assert_eq!(errors, form());
    assert_eq!(
        ErrorIdNotFound { id: "zip-error".to_string() }.message(),
        "Error ID not found: zip-error"
    );
}

#[test]
fn clear_error_clears_the_first_box_of_that_id() {
    let mut errors = form();
    errors[0].set_text("A".to_string());
    errors[2].set_text("B".to_string());
    errors.clear_error("name-error");
    assert_eq!(errors[0].text, None);
    assert_eq!(errors[2].text, text("B"));
    assert!(errors.has_errors());
    errors.clear_error("zip-error");
    assert_eq!(errors[2].text, text("B"));
}

#[test]
fn an_empty_form_has_no_errors() {
    let mut errors: Vec<ErrorProps> = vec![];
    assert!(!errors.has_errors());
    assert!(errors.set_error("name-error", "x").is_err());
    errors.clear_error("name-error");
    assert!(errors.is_empty());
}

#[test]
fn route_errors_are_answered_with_their_status() {
    assert_eq!(RouteError::NotFound.status(), 404);
    assert_eq!(RouteError::DbError("down".to_string()).status(), 500);
    assert_eq!(RouteError::RequestError("timeout".to_string()).status(), 500);
    assert_eq!(RouteError::UnexpectedError("boom".to_string()).status(), 500);
}

#[test]
fn route_errors_have_their_bodies_and_messages() {
    assert_eq!(RouteError::NotFound.body(), None);
    assert_eq!(
        RouteError::DbError("down".to_string()).body(),
        Some("Database Error: down".to_string())
    );
    assert_eq!(
        RouteError::RequestError("timeout".to_string()).body(),
        Some("Reqwuest Error: timeout".to_string())
    );
    assert_eq!(
        RouteError::UnexpectedError("boom".to_string()).body(),
        Some("Unexpected server error: boom".to_string())
    );
    assert_eq!(RouteError::NotFound.message(), "Not found");
    assert_eq!(RouteError::DbError("down".to_string()).message(), "Database error");
    assert_eq!(
        RouteError::RequestError("x".to_string()).message(),
        "Unsuccessful request to source"
    );
    assert_eq!(RouteError::UnexpectedError("x".to_string()).message(), "Unexpected error");
}
