//! Client abstraction for HTTP backends.

use vstd::prelude::*;
use crate::error::Error;
use crate::text::owned;

verus! {

/// A lightweight HTTP response.
pub struct Response {
    /// HTTP status code.
    pub status: u16,
    /// Response body as a string.
    pub body: String,
}

/// A simple key-value header store.
///
/// Only ever holds a header or two (User-Agent, Authorization).
#[derive(Clone)]
pub struct HeaderMap {
    entries: Vec<(String, String)>,
}

/// The characters of a header name and value.
pub open spec fn entry_view(e: (String, String)) -> (Seq<char>, Seq<char>) {
    (e.0@, e.1@)
}

/// The characters of a borrowed header name and value.
pub open spec fn str_entry_view(e: (&str, &str)) -> (Seq<char>, Seq<char>) {
    (e.0@, e.1@)
}

impl View for HeaderMap {
    type V = Seq<(Seq<char>, Seq<char>)>;

    /// The entries, in the order they were inserted.
    closed spec fn view(&self) -> Seq<(Seq<char>, Seq<char>)> {
        self.entries@.map_values(|e: (String, String)| entry_view(e))
    }
}

impl Default for HeaderMap {
    fn default() -> (h: Self)
        ensures
            h@ == Seq::<(Seq<char>, Seq<char>)>::empty(),
    {
        HeaderMap::new()
    }
}

impl HeaderMap {
    /// Creates an empty `HeaderMap`.
    pub fn new() -> (h: Self)
        ensures
            h@ == Seq::<(Seq<char>, Seq<char>)>::empty(),
    {
        let h = HeaderMap { entries: Vec::new() };
        assert(h@ =~= Seq::<(Seq<char>, Seq<char>)>::empty());
        h
    }

    /// Inserts a header key-value pair after the present ones.
    pub fn insert(&mut self, key: &str, value: &str)
        ensures
            final(self)@ == old(self)@.push((key@, value@)),
    {
        self.entries.push((owned(key), owned(value)));
        assert(self@ =~= old(self)@.push((key@, value@)));
    }

    /// Returns all header entries, in insertion order.
    pub fn iter(&self) -> (r: Vec<(&str, &str)>)
        ensures
            r@.map_values(|e: (&str, &str)| str_entry_view(e)) == self@,
    {
        let mut r: Vec<(&str, &str)> = Vec::new();
        let mut i: usize = 0;
        while i < self.entries.len()
            invariant
                0 <= i <= self.entries@.len(),
                r@.map_values(|e: (&str, &str)| str_entry_view(e)) == self@.take(i as int),
            decreases self.entries@.len() - i,
        {
            let e = &self.entries[i];
            r.push((e.0.as_str(), e.1.as_str()));
            assert(self@.take(i + 1) =~= self@.take(i as int).push(self@[i as int]));
            assert(r@.map_values(|e: (&str, &str)| str_entry_view(e)) =~= self@.take(i as int).push(
                self@[i as int],
            ));
            i = i + 1;
        }
        assert(self@.take(i as int) =~= self@);
        r
    }
}

/// Trait for synchronous HTTP clients.
///
/// Implement this trait to bring your own HTTP backend.
/// The `Clone` bound allows platforms to own and share the client.
pub trait HttpClient: Clone {
    /// Performs a GET request with the given headers.
    fn get(&self, url: &str, headers: &HeaderMap) -> Result<Response, Error>;
}

} // verus!
