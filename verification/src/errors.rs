//! What an operation on the orders can fail with, and how a failure is
//! answered.

use vstd::prelude::*;
use vstd::string::StringExecFns;

verus! {

/// The status that answers a refused request.
pub const BAD_REQUEST: u16 = 400;

/// The status that answers a request that failed on the service's side.
pub const INTERNAL_SERVER_ERROR: u16 = 500;

/// The ways an operation on the orders fails.
#[derive(Debug)]
pub enum RestaurantError {
    /// The table number is not one of the restaurant's tables.
    TableNumberMismatchError,
    /// The operation could not be carried out; the text says why.
    BadRequest(String),
}

impl RestaurantError {
    /// The error as a line of text, as it goes into a log.
    pub open spec fn spec_message(&self) -> Seq<char> {
        match self {
            RestaurantError::TableNumberMismatchError => "Table number mismatch error"@,
            RestaurantError::BadRequest(reason) => "Bad request: "@ + reason@,
        }
    }

    /// The status that answers a request which failed with this error.
    pub open spec fn spec_status(&self) -> u16 {
        match self {
            RestaurantError::TableNumberMismatchError => INTERNAL_SERVER_ERROR,
            RestaurantError::BadRequest(_) => BAD_REQUEST,
        }
    }

    /// The text sent back with that status.
    pub open spec fn spec_response_text(&self) -> Seq<char> {
        match self {
            RestaurantError::TableNumberMismatchError => "Error: wrong table number selected"@,
            RestaurantError::BadRequest(reason) => reason@,
        }
    }

    /// The error as a line of text, as it goes into a log.
    pub fn message(&self) -> (text: String)
        ensures
            text@ == self.spec_message(),
    {
        match self {
            RestaurantError::TableNumberMismatchError => "Table number mismatch error".to_string(),
            RestaurantError::BadRequest(reason) => "Bad request: ".to_string().concat(
                reason.as_str(),
            ),
        }
    }

    /// The status that answers a request which failed with this error.
    pub fn status(&self) -> (status: u16)
        ensures
            status == self.spec_status(),
    {
        match self {
            RestaurantError::TableNumberMismatchError => INTERNAL_SERVER_ERROR,
            RestaurantError::BadRequest(_) => BAD_REQUEST,
        }
    }

    /// The text sent back with that status.
    pub fn response_text(&self) -> (text: String)
        ensures
            text@ == self.spec_response_text(),
    {
        match self {
            RestaurantError::TableNumberMismatchError => {
                "Error: wrong table number selected".to_string()
            },
            RestaurantError::BadRequest(reason) => reason.clone(),
        }
    }
}

} // verus!
