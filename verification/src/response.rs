//! What an API route answers with.

use std::fmt::Debug;
use vstd::prelude::*;

verus! {

/// How the content of a response is to be read.
#[derive(Clone, Copy, Debug, PartialEq, Eq, Structural)]
pub enum ContentType {
    Text,
    Json,
}

/// The answer of an API route: bytes, and how they are to be read.
#[derive(Debug, PartialEq, Eq)]
pub struct Response {
    pub content_type: ContentType,
    pub content: Vec<u8>,
}

impl Response {
    /// A response of the given type and content.
    pub fn new(content_type: ContentType, content: Vec<u8>) -> (response: Self)
        ensures
            response.content_type == content_type,
            response.content == content,
    {
        Response { content_type, content }
    }
}

/// A value that an API route may return: it knows how to become a response.
pub trait IntoResponse {
    type Err: Debug;

    /// Turns the value into a response.
    fn into_response(self) -> Result<Response, Self::Err>;
}

} // verus!
