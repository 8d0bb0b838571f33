//! What a new message is stamped with: the time, and an identifier that no
//! other message has. Both come from outside, and nothing is known of them
//! beforehand.

use vstd::prelude::*;

verus! {

/// `chrono::Local::now`, written as text: the local time of the call.
#[verifier::external_body]
pub(crate) fn now_text() -> (r: String) {
    chrono::Local::now().to_string()
}

/// `uuid::Uuid::new_v4`, written as text: a random identifier.
#[verifier::external_body]
pub(crate) fn fresh_id() -> (r: String) {
    uuid::Uuid::new_v4().to_string()
}

} // verus!
