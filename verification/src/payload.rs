//! Structured payloads of a measurement.
//!
//! A payload is JSON text. The store keeps the text as it was given and
//! never reads what it says; it only refuses text that is not one JSON
//! value.

use vstd::prelude::*;
use crate::error::{StoreError, StoreErrorView};
use crate::json::{is_json_str, is_json_text};

verus! {

/// Structured text that has been checked for well-formedness.
#[derive(Debug, PartialEq, Eq)]
pub struct Payload {
    text: String,
}

impl View for Payload {
    type V = Seq<char>;

    closed spec fn view(&self) -> Seq<char> {
        self.text@
    }
}

impl Payload {
    #[verifier::type_invariant]
    spec fn well_formed(self) -> bool {
        is_json_text(self.text@)
    }

    /// Accepts `text` as a payload when it is one JSON value, and reports
    /// `MalformedPayload` when it is not.
    pub fn parse(text: &str) -> (r: Result<Payload, StoreError>)
        ensures
            r is Ok <==> is_json_text(text@),
            r is Ok ==> r->Ok_0@ == text@,
            r is Err ==> r->Err_0@ == StoreErrorView::MalformedPayload,
    {
        if is_json_str(text) {
            Ok(Payload { text: text.to_owned() })
        } else {
            Err(StoreError::MalformedPayload)
        }
    }

    /// The payload as text, as it was given.
    pub fn as_str(&self) -> (r: &str)
        ensures
            r@ == self@,
            is_json_text(r@),
    {
        proof {
            use_type_invariant(self);
        }
        self.text.as_str()
    }
}

impl Clone for Payload {
    fn clone(&self) -> (r: Payload)
        ensures
            r@ == self@,
    {
        proof {
            use_type_invariant(self);
        }
        Payload { text: self.text.clone() }
    }
}

} // verus!
