//! One page of the site.

use vstd::prelude::*;
use crate::url::UrlBuf;

verus! {

/// What is rendered into one output file: the item it shows, the name of
/// the file without its extension, and the addresses of the pages before
/// and after it in its sequence.
pub struct Page<T> {
    pub item: T,
    pub id: String,
    pub prev: Option<UrlBuf>,
    pub next: Option<UrlBuf>,
}

/// The address `url`, where there is one, as a sequence of characters.
pub open spec fn link_text(url: Option<UrlBuf>) -> Option<Seq<char>> {
    match url {
        Some(u) => Some(u@),
        None => None,
    }
}

} // verus!
