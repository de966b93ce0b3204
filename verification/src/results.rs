use crate::lists::clone_text_option;
use crate::text::{i64_to_string, signed_decimal};
use vstd::prelude::*;
use vstd::string::*;

verus! {

/// One search result, as a source adapter produced it.
#[derive(Debug)]
pub struct TorrentResult {
    pub name: String,
    pub size: String,
    pub seeders: i64,
    pub leechers: i64,
    pub magnet: String,
    pub source: String,
    pub url: Option<String>,
    pub category: Option<String>,
}

impl Clone for TorrentResult {
    fn clone(&self) -> (c: Self)
        ensures
            c == *self,
    {
        TorrentResult {
            name: self.name.clone(),
            size: self.size.clone(),
            seeders: self.seeders,
            leechers: self.leechers,
            magnet: self.magnet.clone(),
            source: self.source.clone(),
            url: clone_text_option(&self.url),
            category: clone_text_option(&self.category),
        }
    }
}

impl TorrentResult {
    /// The seeder count as a decimal numeral.
    pub fn seeders_str(&self) -> (s: String)
        ensures
            s@ == signed_decimal(self.seeders as int),
    {
        i64_to_string(self.seeders)
    }

    /// The size as the source wrote it.
    pub fn size_str(&self) -> (s: String)
        ensures
            s@ == self.size@,
    {
        self.size.clone()
    }

    /// The identifier of the source that produced the result.
    pub fn source_str(&self) -> (s: String)
        ensures
            s@ == self.source@,
    {
        self.source.clone()
    }
}

} // verus!
