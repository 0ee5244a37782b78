use vstd::prelude::*;

verus! {

/// A mapping from a short code to a URL, as persisted and as returned.
///
/// Times are milliseconds since the Unix epoch, UTC. In the persisted form
/// `original_url` is empty and only `encrypted_url` carries the URL.
#[derive(Clone, Debug, PartialEq, Eq)]
pub struct UrlEntry {
    pub original_url: String,
    pub encrypted_url: String,
    pub short_code: String,
    pub clicks: i64,
    pub created_at: i64,
    pub expires_at: Option<i64>,
}

/// The mathematical content of a `UrlEntry`.
pub ghost struct EntryView {
    pub original_url: Seq<char>,
    pub encrypted_url: Seq<char>,
    pub short_code: Seq<char>,
    pub clicks: i64,
    pub created_at: i64,
    pub expires_at: Option<i64>,
}

impl View for UrlEntry {
    type V = EntryView;

    open spec fn view(&self) -> EntryView {
        EntryView {
            original_url: self.original_url@,
            encrypted_url: self.encrypted_url@,
            short_code: self.short_code@,
            clicks: self.clicks,
            created_at: self.created_at,
            expires_at: self.expires_at,
        }
    }
}

impl EntryView {
    /// The same entry with `original_url` replaced.
    pub open spec fn with_url(self, url: Seq<char>) -> EntryView {
        EntryView { original_url: url, ..self }
    }

    /// The same entry with `short_code` replaced.
    pub open spec fn with_code(self, code: Seq<char>) -> EntryView {
        EntryView { short_code: code, ..self }
    }
}

impl UrlEntry {
    /// A copy of this entry whose `original_url` is `url`.
    pub fn with_original_url(&self, url: String) -> (r: UrlEntry)
        ensures
            r@ == self@.with_url(url@),
    {
        UrlEntry {
            original_url: url,
            encrypted_url: self.encrypted_url.clone(),
            short_code: self.short_code.clone(),
            clicks: self.clicks,
            created_at: self.created_at,
            expires_at: self.expires_at,
        }
    }

    /// The persisted form: the same entry with the plaintext URL left out.
    pub fn stored_form(&self) -> (r: UrlEntry)
        ensures
            r@ == self@.with_url(Seq::empty()),
    {
        self.with_original_url(String::new())
    }
}

} // verus!
