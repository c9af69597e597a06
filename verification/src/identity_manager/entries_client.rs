//! The identity manager's client of the server's entry API: request addresses and the
//! collection of paged listings.
use vstd::prelude::*;
use vstd::string::StringExecFns;

use crate::core_objects::RegistrationEntry;

verus! {

/// The address of the entry API, with its version.
pub open spec fn base_url_text() -> Seq<char> {
    "https://spiffieserver.sock/entries?api-version=2022-06-01"@
}

/// The address of the entry API, with its version.
pub fn base_url() -> (r: String)
    ensures
        r@ == base_url_text(),
{
    String::from_str("https://spiffieserver.sock/entries?api-version=2022-06-01")
}

/// The address of a page of the entry listing, twenty entries per page: the first page without a
/// token, a later one with the (already URL-encoded) token the previous page returned.
pub fn list_entries_url(encoded_page_token: Option<&str>) -> (r: String)
    ensures
        encoded_page_token is None ==> r@ == base_url_text() + "&page_size=20"@,
        encoded_page_token matches Some(t) ==> r@ == base_url_text() + "&page_size=20"@ + "&page_token="@ + t@,
{
    let mut r = base_url();
    r.append("&page_size=20");
    match encoded_page_token {
        Some(t) => {
            r.append("&page_token=");
            r.append(t);
        },
        None => {},
    }
    r
}

/// The entries listed so far and the token of the next page, if there is one.
pub struct EntryPages {
    pub entries: Vec<RegistrationEntry>,
    pub next_page_token: Option<String>,
}

impl EntryPages {
    /// The first page of a listing.
    pub fn first(entries: Vec<RegistrationEntry>, next_page_token: Option<String>) -> (r: Self)
        ensures
            r.entries@ == entries@,
            r.next_page_token == next_page_token,
    {
        EntryPages { entries, next_page_token }
    }

    /// Appends the entries of the next page and takes its token.
    pub fn add_page(&mut self, entries: Vec<RegistrationEntry>, next_page_token: Option<String>)
        ensures
            final(self).entries@ == old(self).entries@ + entries@,
            final(self).next_page_token == next_page_token,
    {
        let mut entries = entries;
        self.entries.append(&mut entries);
        self.next_page_token = next_page_token;
    }

    /// Whether the listing is complete: the last page gave no token.
    pub fn is_complete(&self) -> (r: bool)
        ensures
            r == self.next_page_token is None,
    {
        self.next_page_token.is_none()
    }
}

} // verus!
