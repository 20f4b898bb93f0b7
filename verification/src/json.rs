//! JSON documents as the decoders of this crate read them.
//!
//! Parsing is left to `serde_json`. What comes back is reduced to the part that
//! the event and client-message decoders look at: whether the document is an
//! object or an array, and which of its members or elements are strings.

use vstd::prelude::*;

verus! {

/// One member of a JSON object.
#[derive(Debug, PartialEq, Eq)]
pub struct Member {
    /// The member's name.
    pub name: String,
    /// The member's value where it is a JSON string, `None` for any other value.
    pub text: Option<String>,
}

/// The mathematical value of a [`Member`].
pub struct MemberView {
    pub name: Seq<char>,
    pub text: Option<Seq<char>>,
}

impl View for Member {
    type V = MemberView;

    open spec fn view(&self) -> MemberView {
        MemberView {
            name: self.name@,
            text: match self.text {
                Some(t) => Some(t@),
                None => None,
            },
        }
    }
}

/// A parsed JSON document.
#[derive(Debug, PartialEq, Eq)]
pub enum Document {
    /// A JSON object with its members.
    Object(Vec<Member>),
    /// A JSON array with its elements: each the string that the element is,
    /// `None` for an element that is any other value.
    Array(Vec<Option<String>>),
    /// Any other JSON value.
    Other,
}

/// The mathematical value of a [`Document`].
pub enum DocumentView {
    Object(Seq<MemberView>),
    Array(Seq<Option<Seq<char>>>),
    Other,
}

/// The mathematical value of an element.
pub open spec fn element_view(element: Option<String>) -> Option<Seq<char>> {
    match element {
        Some(t) => Some(t@),
        None => None,
    }
}

/// The views of a sequence of elements, in the same order.
pub open spec fn elements_view(elements: Seq<Option<String>>) -> Seq<Option<Seq<char>>> {
    elements.map_values(|e: Option<String>| element_view(e))
}

/// The views of a sequence of members, in the same order.
pub open spec fn members_view(members: Seq<Member>) -> Seq<MemberView> {
    members.map_values(|m: Member| m@)
}

impl View for Document {
    type V = DocumentView;

    open spec fn view(&self) -> DocumentView {
        match self {
            Document::Object(members) => DocumentView::Object(members_view(members@)),
            Document::Array(elements) => DocumentView::Array(elements_view(elements@)),
            Document::Other => DocumentView::Other,
        }
    }
}

/// The string value of the first member called `name`: `None` where there is
/// no such member or where its value is not a string.
pub open spec fn member_text(members: Seq<MemberView>, name: Seq<char>) -> Option<Seq<char>>
    decreases members.len(),
{
    if members.len() == 0 {
        None
    } else if members[0].name == name {
        members[0].text
    } else {
        member_text(members.drop_first(), name)
    }
}

/// The string value of the member `name` of a document; `None` for a document
/// that is no object.
pub open spec fn document_text(document: DocumentView, name: Seq<char>) -> Option<Seq<char>> {
    match document {
        DocumentView::Object(members) => member_text(members, name),
        _ => None,
    }
}

/// The elements of a document that is an array of exactly two elements.
pub open spec fn document_pair(document: DocumentView) -> Option<
    (Option<Seq<char>>, Option<Seq<char>>),
> {
    match document {
        DocumentView::Array(elements) => if elements.len() == 2 {
            Some((elements[0], elements[1]))
        } else {
            None
        },
        _ => None,
    }
}

impl Document {
    /// Looks up the member `name` and returns its value if that is a string.
    pub fn text_member(&self, name: &str) -> (text: Option<String>)
        ensures
            match text {
                Some(t) => document_text(self@, name@) == Some(t@),
                None => document_text(self@, name@) is None,
            },
    {
        match self {
            Document::Other => None,
            Document::Array(_) => None,
            Document::Object(members) => {
                let key: String = name.to_owned();
                let mut i: usize = 0;
                assert(members_view(members@).skip(0) =~= members_view(members@));
                while i < members.len()
                    invariant
                        i <= members.len(),
                        key@ == name@,
                        self@ == DocumentView::Object(members_view(members@)),
                        member_text(members_view(members@), name@) == member_text(
                            members_view(members@).skip(i as int),
                            name@,
                        ),
                    decreases members.len() - i,
                {
                    let ghost rest = members_view(members@).skip(i as int);
                    assert(rest[0] == members@[i as int]@);
                    assert(rest.drop_first() =~= members_view(members@).skip(i as int + 1));
                    if members[i].name == key {
                        assert(member_text(rest, name@) == rest[0].text);
                        return match &members[i].text {
                            Some(t) => Some(t.clone()),
                            None => None,
                        };
                    }
                    assert(member_text(rest, name@) == member_text(rest.drop_first(), name@));
                    i += 1;
                }
                None
            },
        }
    }
}

impl Document {
    /// The two elements of an array of exactly two elements, each the string
    /// that it is or `None`.
    pub fn pair(&self) -> (elements: Option<(Option<String>, Option<String>)>)
        ensures
            match elements {
                Some((first, second)) => document_pair(self@) == Some(
                    (element_view(first), element_view(second)),
                ),
                None => document_pair(self@) is None,
            },
    {
        match self {
            Document::Array(elements) => {
                if elements.len() == 2 {
                    Some((elements[0].clone(), elements[1].clone()))
                } else {
                    None
                }
            },
            _ => None,
        }
    }
}

/// `serde_json::Error`, the error of the parser. Nothing is said of what it
/// holds; the decoders map it to an error of their own.
#[verifier::external_type_specification]
#[verifier::external_body]
pub struct ExJsonError(serde_json::Error);

/// The document that `bytes` hold as JSON text, `None` where `serde_json`
/// does not take them for JSON text.
pub uninterp spec fn json_document(bytes: Seq<u8>) -> Option<DocumentView>;

/// Parses `bytes` with `serde_json::from_slice` into a `serde_json::Value` and
/// keeps of it what [`Document`] holds. Trusted: the result is a function of
/// the bytes alone, and an error comes back exactly when the parser rejects them.
#[verifier::external_body]
pub(crate) fn read_document(bytes: &[u8]) -> (parsed: Result<Document, serde_json::Error>)
    ensures
        match parsed {
            Ok(document) => json_document(bytes@) == Some(document@),
            Err(_) => json_document(bytes@) is None,
        },
{
    let value: serde_json::Value = serde_json::from_slice(bytes)?;
    Ok(if let Some(map) = value.as_object() {
        Document::Object(
            map.iter()
                .map(|(k, v)| Member { name: k.clone(), text: v.as_str().map(str::to_owned) })
                .collect(),
        )
    } else if let Some(items) = value.as_array() {
        Document::Array(items.iter().map(|v| v.as_str().map(str::to_owned)).collect())
    } else {
        Document::Other
    })
}

} // verus!
