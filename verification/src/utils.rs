//! Errors of the HTTP surface and the messages of a form.

use vstd::prelude::*;

verus! {

/// Why a request could not be served.
#[derive(Debug, PartialEq, Eq)]
pub enum RouteError {
    /// What was asked for is not there.
    NotFound,
    /// The database failed, with its message.
    DbError(String),
    /// A request to another service failed, with its message.
    RequestError(String),
    /// Anything else, with its message.
    UnexpectedError(String),
}

/// The mathematical value of a [`RouteError`].
pub enum RouteErrorView {
    NotFound,
    DbError(Seq<char>),
    RequestError(Seq<char>),
    UnexpectedError(Seq<char>),
}

impl View for RouteError {
    type V = RouteErrorView;

    open spec fn view(&self) -> RouteErrorView {
        match self {
            RouteError::NotFound => RouteErrorView::NotFound,
            RouteError::DbError(m) => RouteErrorView::DbError(m@),
            RouteError::RequestError(m) => RouteErrorView::RequestError(m@),
            RouteError::UnexpectedError(m) => RouteErrorView::UnexpectedError(m@),
        }
    }
}

impl RouteError {
    /// The HTTP status that answers the error: 404 for `NotFound`, 500 for
    /// every other error.
    pub fn status(&self) -> (code: u16)
        ensures
            code == if self@ is NotFound {
                404u16
            } else {
                500u16
            },
    {
        match self {
            RouteError::NotFound => 404,
            _ => 500,
        }
    }

    /// The short description of the error.
    pub fn message(&self) -> (text: String)
        ensures
            text@ == match self@ {
                RouteErrorView::NotFound => "Not found"@,
                RouteErrorView::DbError(_) => "Database error"@,
                RouteErrorView::RequestError(_) => "Unsuccessful request to source"@,
                RouteErrorView::UnexpectedError(_) => "Unexpected error"@,
            },
    {
        match self {
            RouteError::NotFound => "Not found".to_owned(),
            RouteError::DbError(_) => "Database error".to_owned(),
            RouteError::RequestError(_) => "Unsuccessful request to source".to_owned(),
            RouteError::UnexpectedError(_) => "Unexpected error".to_owned(),
        }
    }

    /// The body of the response that answers the error; `NotFound` has none.
    pub fn body(&self) -> (text: Option<String>)
        ensures
            match text {
                Some(t) => match self@ {
                    RouteErrorView::NotFound => false,
                    RouteErrorView::DbError(m) => t@ == "Database Error: "@ + m,
                    RouteErrorView::RequestError(m) => t@ == "Reqwuest Error: "@ + m,
                    RouteErrorView::UnexpectedError(m) => t@ == "Unexpected server error: "@ + m,
                },
                None => self@ is NotFound,
            },
    {
        match self {
            RouteError::NotFound => None,
            RouteError::DbError(m) => {
                let mut text = "Database Error: ".to_owned();
                text.append(m.as_str());
                Some(text)
            },
            RouteError::RequestError(m) => {
                let mut text = "Reqwuest Error: ".to_owned();
                text.append(m.as_str());
                Some(text)
            },
            RouteError::UnexpectedError(m) => {
                let mut text = "Unexpected server error: ".to_owned();
                text.append(m.as_str());
                Some(text)
            },
        }
    }
}

/// What an error box shows.
#[derive(Debug, PartialEq, Eq)]
pub enum ErrorContent {
    Text(String),
}

impl Clone for ErrorContent {
    fn clone(&self) -> (copy: Self)
        ensures
            copy == *self,
    {
        match self {
            ErrorContent::Text(text) => ErrorContent::Text(text.clone()),
        }
    }
}

/// One error box of a form: the identifier of its element and, where an
/// error is set, what it shows.
#[derive(Debug, PartialEq, Eq)]
pub struct ErrorProps {
    pub text: Option<ErrorContent>,
    pub id: String,
}

/// The mathematical value of an [`ErrorProps`].
pub struct ErrorPropsView {
    pub text: Option<Seq<char>>,
    pub id: Seq<char>,
}

impl View for ErrorProps {
    type V = ErrorPropsView;

    open spec fn view(&self) -> ErrorPropsView {
        ErrorPropsView {
            text: match self.text {
                Some(ErrorContent::Text(t)) => Some(t@),
                None => None,
            },
            id: self.id@,
        }
    }
}

impl Clone for ErrorProps {
    fn clone(&self) -> (copy: Self)
        ensures
            copy@ == self@,
    {
        ErrorProps {
            text: match &self.text {
                Some(content) => Some(content.clone()),
                None => None,
            },
            id: self.id.clone(),
        }
    }
}

impl ErrorProps {
    /// An error box without an error.
    pub fn new(id: String) -> (props: ErrorProps)
        ensures
            props@ == (ErrorPropsView { text: None, id: id@ }),
    {
        ErrorProps { text: None, id }
    }

    /// Set the text of the error message
    pub fn set_text(&mut self, text: String)
        ensures
            final(self)@ == (ErrorPropsView { text: Some(text@), id: old(self)@.id }),
    {
        self.text = Some(ErrorContent::Text(text));
    }

    /// Clear the text of the error message
    pub fn clear_text(&mut self)
        ensures
            final(self)@ == (ErrorPropsView { text: None, id: old(self)@.id }),
    {
        self.text = None;
    }
}

/// The views of a sequence of error boxes, in the same order.
pub open spec fn errors_view(errors: Seq<ErrorProps>) -> Seq<ErrorPropsView> {
    errors.map_values(|e: ErrorProps| e@)
}

/// The index of the first error box with the identifier `id`, `None` where
/// there is none.
pub open spec fn first_with_id(errors: Seq<ErrorPropsView>, id: Seq<char>) -> Option<int>
    decreases errors.len(),
{
    if errors.len() == 0 {
        None
    } else if errors[0].id == id {
        Some(0int)
    } else {
        match first_with_id(errors.drop_first(), id) {
            Some(i) => Some(i + 1),
            None => None,
        }
    }
}

/// The error boxes after the first one with the identifier `id` got the text
/// `text`; unchanged where there is none.
pub open spec fn with_text(errors: Seq<ErrorPropsView>, id: Seq<char>, text: Option<Seq<char>>) -> Seq<
    ErrorPropsView,
> {
    match first_with_id(errors, id) {
        Some(i) => errors.update(i, ErrorPropsView { text, id }),
        None => errors,
    }
}

/// An error box was addressed that the form does not have.
#[derive(Debug, PartialEq, Eq)]
pub struct ErrorIdNotFound {
    pub id: String,
}

impl ErrorIdNotFound {
    /// The message of the error.
    pub fn message(&self) -> (text: String)
        ensures
            text@ == "Error ID not found: "@ + self.id@,
    {
        let mut text = "Error ID not found: ".to_owned();
        text.append(self.id.as_str());
        text
    }
}

/// The error boxes of a form.
pub trait ErrorPropsCollection {
    /// The error boxes, in their order.
    spec fn boxes(&self) -> Seq<ErrorPropsView>;

    /// Set the text of an error message by its ID
    fn set_error(&mut self, id: &str, text: &str) -> (done: Result<(), ErrorIdNotFound>)
        ensures
            final(self).boxes() == with_text(old(self).boxes(), id@, Some(text@)),
            match done {
                Ok(_) => first_with_id(old(self).boxes(), id@) is Some,
                Err(e) => first_with_id(old(self).boxes(), id@) is None && e.id@ == id@,
            },
    ;

    /// Clears the text of an error message by its ID
    fn clear_error(&mut self, id: &str)
        ensures
            final(self).boxes() == with_text(old(self).boxes(), id@, None),
    ;

    /// Check if any error messages have been set
    fn has_errors(&self) -> (any: bool)
        ensures
            any == exists|i: int| 0 <= i < self.boxes().len() && (#[trigger] self.boxes()[i]).text is Some,
    ;
}

/// Finds the first error box with the identifier `id`.
fn find_error(errors: &Vec<ErrorProps>, id: &str) -> (found: Option<usize>)
    ensures
        match found {
            Some(i) => i < errors@.len() && errors@[i as int]@.id == id@ && first_with_id(
                errors_view(errors@),
                id@,
            ) == Some(i as int),
            None => first_with_id(errors_view(errors@), id@) is None,
        },
{
    let key: String = id.to_owned();
    let mut i: usize = errors.len();
    assert(errors_view(errors@).skip(i as int) =~= Seq::<ErrorPropsView>::empty());
    let mut found: Option<usize> = None;
    while i > 0
        invariant
            i <= errors.len(),
            key@ == id@,
            match found {
                Some(k) => i <= k < errors@.len() && errors@[k as int]@.id == id@ && first_with_id(
                    errors_view(errors@).skip(i as int),
                    id@,
                ) == Some(k - i),
                None => first_with_id(errors_view(errors@).skip(i as int), id@) is None,
            },
        decreases i,
    {
        i -= 1;
        let ghost rest = errors_view(errors@).skip(i as int);
        assert(rest.drop_first() =~= errors_view(errors@).skip(i as int + 1));
        assert(rest[0] == errors@[i as int]@);
        if errors[i].id == key {
            found = Some(i);
        }
    }
    assert(errors_view(errors@).skip(0) =~= errors_view(errors@));
    found
}

impl ErrorPropsCollection for Vec<ErrorProps> {
    open spec fn boxes(&self) -> Seq<ErrorPropsView> {
        errors_view(self@)
    }

    fn set_error(&mut self, id: &str, text: &str) -> (done: Result<(), ErrorIdNotFound>) {
        match find_error(self, id) {
            Some(i) => {
                let error = &mut self[i];
                assert(error@.id == id@);
                error.set_text(text.to_owned());
                assert(errors_view(self@) =~= errors_view(old(self)@).update(
                    i as int,
                    ErrorPropsView { text: Some(text@), id: id@ },
                ));
                Ok(())
            },
            None => Err(ErrorIdNotFound { id: id.to_owned() }),
        }
    }

    fn clear_error(&mut self, id: &str) {
        match find_error(self, id) {
            Some(i) => {
                let error = &mut self[i];
                assert(error@.id == id@);
                error.clear_text();
                assert(errors_view(self@) =~= errors_view(old(self)@).update(
                    i as int,
                    ErrorPropsView { text: None, id: id@ },
                ));
            },
            None => {},
        }
    }

    fn has_errors(&self) -> (any: bool) {
        let mut i: usize = 0;
        while i < self.len()
            invariant
                i <= self.len(),
                forall|k: int| 0 <= k < i ==> (#[trigger] errors_view(self@)[k]).text is None,
            decreases self.len() - i,
        {
            if self[i].text.is_some() {
                assert(errors_view(self@)[i as int].text is Some);
                return true;
            }
            i += 1;
        }
        false
    }
}

} // verus!
