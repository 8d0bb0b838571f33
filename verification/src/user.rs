//! The user of this participant.

use vstd::prelude::*;

verus! {

/// A user: a name and a profile picture, as the bytes of an image file.
#[derive(Debug)]
pub struct User {
    pub name: String,
    pub picture: Vec<u8>,
}

impl User {
    /// A user with this name and this picture.
    pub fn new(name: String, picture: Vec<u8>) -> (r: Self)
        ensures
            r.name == name,
            r.picture == picture,
    {
        Self { name: name, picture: picture }
    }
}

} // verus!
