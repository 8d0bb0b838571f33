//! An animated picture that was found and fetched for the user to send.

use vstd::prelude::*;
use crate::tenor::TenorGif;

verus! {

/// An animated picture: where it came from, and its bytes.
#[derive(Debug)]
pub struct Gif {
    pub id: String,
    pub url: String,
    pub tinygif_url: String,
    pub gif_bytes: Vec<u8>,
}

impl Gif {
    /// The picture that was found, with the bytes that were fetched from its address.
    pub fn fetched(found: &TenorGif, gif_bytes: Vec<u8>) -> (r: Self)
        ensures
            r.id@ == found.id@,
            r.url@ == found.url@,
            r.tinygif_url@ == found.tinygif_url@,
            r.gif_bytes == gif_bytes,
    {
        Gif {
            id: found.id.clone(),
            url: found.url.clone(),
            tinygif_url: found.tinygif_url.clone(),
            gif_bytes,
        }
    }
}

impl Clone for Gif {
    fn clone(&self) -> (r: Self)
        ensures
            r.id@ == self.id@,
            r.url@ == self.url@,
            r.tinygif_url@ == self.tinygif_url@,
            r.gif_bytes@ == self.gif_bytes@,
    {
        Gif {
            id: self.id.clone(),
            url: self.url.clone(),
            tinygif_url: self.tinygif_url.clone(),
            gif_bytes: self.gif_bytes.clone(),
        }
    }
}

} // verus!
