//! What a client is told when it cannot be admitted.

use vstd::prelude::*;
use vstd::string::StringExecFns;

verus! {

/// The HTTP status that goes with every `ResErr`: 400, bad request.
pub const BAD_REQUEST: u16 = 400;

/// The reasons for which an admission fails.
#[derive(Debug)]
pub enum ResErr {
    BadClientData(&'static str),
}

impl ResErr {
    /// The text of the error.
    pub open spec fn text(self) -> Seq<char> {
        match self {
            ResErr::BadClientData(s) => s@,
        }
    }

    /// The text of the error, as it is shown to the client.
    pub fn message(&self) -> (r: String)
        ensures
            r@ == self.text(),
    {
        match self {
            ResErr::BadClientData(s) => String::from_str(s),
        }
    }

    /// The HTTP status of the error.
    pub fn status_code(&self) -> (code: u16)
        ensures
            code == BAD_REQUEST,
    {
        match self {
            ResErr::BadClientData(_) => BAD_REQUEST,
        }
    }
}

} // verus!
