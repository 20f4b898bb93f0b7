//! What the HTTP and websocket surface decides, apart from the I/O it does.

use vstd::prelude::*;
use crate::ids::{format_uuid, uuid_text, Uuid};

pub mod jobsite;
pub mod websocket;

verus! {

/// The paths of the API.
pub struct ApiRoutes;

impl ApiRoutes {
    /// Route: `GET /jobsites`, the list of jobsites.
    pub fn get_jobsite_list() -> (path: String)
        ensures
            path@ == "/jobsites"@,
    {
        "/jobsites".to_owned()
    }

    /// The path of the jobsite whose identifier is written `id_text`.
    pub fn jobsite_path(id_text: &str) -> (path: String)
        ensures
            path@ == "/jobsite/"@ + id_text@,
    {
        let mut path = "/jobsite/".to_owned();
        path.append(id_text);
        path
    }

    /// Route: `GET /jobsite/:id`, one jobsite.
    pub fn get_jobsite(jobsite_id: Uuid) -> (path: String)
        ensures
            path@ == "/jobsite/"@ + uuid_text(jobsite_id),
    {
        ApiRoutes::jobsite_path(format_uuid(jobsite_id).as_str())
    }

    /// Route: `POST /jobsite`, create a jobsite.
    pub fn post_jobsite() -> (path: String)
        ensures
            path@ == "/jobsite"@,
    {
        "/jobsite".to_owned()
    }

    /// Route: `PUT /jobsite/:id`, rename a jobsite.
    pub fn put_jobsite(jobsite_id: Uuid) -> (path: String)
        ensures
            path@ == "/jobsite/"@ + uuid_text(jobsite_id),
    {
        ApiRoutes::jobsite_path(format_uuid(jobsite_id).as_str())
    }
}

} // verus!
