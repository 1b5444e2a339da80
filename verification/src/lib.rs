//! Server-side HTTP session management: a registry of sessions keyed by an
//! unguessable cookie value, typed attributes stored per session, and
//! time-based eviction.

pub use vstd::hash_map::StringHashMap;
use vstd::prelude::*;

pub mod clock;
pub mod cookies;
pub mod keys;
pub mod registry;
pub mod sessions;
pub mod text;
pub mod values;

verus! {

/// The parameters and body of a request, by HTTP method.
pub enum RequestData<'a> {
    Get(&'a Option<StringHashMap<String>>),
    Post { params: &'a Option<StringHashMap<String>>, data: &'a Option<RequestBody> },
    Head(&'a Option<StringHashMap<String>>),
    Put { params: &'a Option<StringHashMap<String>>, data: &'a Option<RequestBody> },
    Delete { params: &'a Option<StringHashMap<String>>, data: &'a Option<RequestBody> },
    Patch { params: &'a Option<StringHashMap<String>>, data: &'a Option<RequestBody> },
}

/// One part of a `multipart/form-data` body.
pub struct FormDataValue {
    pub filename: Option<String>,
    pub headers: StringHashMap<String>,
    pub value: Vec<u8>,
}

/// A request body, by content type.
pub enum RequestBody {
    XWWWFormUrlEncoded(StringHashMap<String>),
    FormData(StringHashMap<FormDataValue>),
    Plain(String),
    OctetStream(Vec<u8>),
}

} // verus!
