use vstd::prelude::*;
use vstd::utf8::encode_utf8;
use crate::code::{generate_short_code, is_generated_code, now_millis, CLOCK_BOUND_MILLIS};
use crate::crypto::{decrypted, sealed_blob, CryptoError, Encryptor, MAX_PLAINTEXT_LEN, NONCE_LEN};
use crate::error::{UrlError, ValidationError, ValidationField, ValidationReason};
use crate::model::{EntryView, UrlEntry};
use crate::text::{append_str, has_scheme, starts_with_scheme};

verus! {

/// Shortest custom short code, in characters.
pub const MIN_CODE_LEN: usize = 3;

/// Longest custom short code, in characters.
pub const MAX_CODE_LEN: usize = 20;

/// Milliseconds in a day.
pub const MILLIS_PER_DAY: i64 = 86400000;

/// Lifetimes of at most this many days, either way, always give an expiry
/// that fits in a timestamp, whatever the clock reads.
pub const MAX_LIFETIME_DAYS: i64 = 100000000000;

/// Whether the `url` crate parses `s` as an absolute URL.
pub uninterp spec fn url_parses(s: Seq<char>) -> bool;

/// Relies on `validator::ValidateUrl::validate_url` for `String`: whether
/// `url::Url::parse` accepts the text.
#[verifier::external_body]
fn url_is_valid(url: &String) -> (r: bool)
    ensures
        r == url_parses(url@),
{
    validator::ValidateUrl::validate_url(url)
}

/// A request to shorten `url`, optionally with an expiry in days and a code
/// of the caller's choosing.
pub struct CreateUrlRequest {
    pub url: String,
    pub expires_in_days: Option<i64>,
    pub short_code: Option<String>,
}

/// How the store answered an insert.
#[derive(Clone, Copy, Debug, PartialEq, Eq, Structural)]
pub enum InsertOutcome {
    Inserted,
    /// The short code is already taken (the store's unique index refused it).
    DuplicateKey,
}

/// The next thing the create flow needs from the store, or its result.
#[derive(Debug)]
pub enum CreateStep {
    /// Look up whether an entry with this short code exists.
    FindCode(String),
    /// Read every stored entry; carries the new URL's encrypted form.
    ScanAll(String),
    /// Insert `record` (the persisted form of `entry`). `retried` says whether
    /// the code was already regenerated once after a collision.
    Insert { entry: UrlEntry, record: UrlEntry, retried: bool },
    /// The flow is over: the entry and whether it was newly created.
    Done(Result<(UrlEntry, bool), UrlError>),
}

/// The verdict of the deduplication scan.
pub ghost enum ScanVerdict {
    /// The entry at this index holds the URL.
    Match(int),
    /// An entry before any match could not be decrypted.
    Broken(CryptoError),
    /// No entry holds the URL.
    NoMatch,
}

pub open spec fn validation(field: ValidationField, reason: ValidationReason) -> UrlError {
    UrlError::ValidationError(ValidationError { field, reason })
}

/// Whether a custom code has an accepted length (3 to 20 characters).
pub open spec fn code_length_ok(code: Seq<char>) -> bool {
    MIN_CODE_LEN <= code.len() <= MAX_CODE_LEN
}

/// The expiry for a creation at `now` with an optional lifetime in days:
/// `None` when it does not fit in the timestamp type.
pub open spec fn expiry_of(now: i64, days: Option<i64>) -> Option<Option<i64>> {
    match days {
        None => Some(None),
        Some(d) => {
            let t = now + d * MILLIS_PER_DAY;
            if i64::MIN <= t <= i64::MAX {
                Some(Some(t as i64))
            } else {
                None
            }
        },
    }
}

/// The encrypted URLs of a sequence of stored entries.
pub open spec fn blobs_of(entries: Seq<UrlEntry>) -> Seq<Seq<char>> {
    entries.map_values(|e: UrlEntry| e.encrypted_url@)
}

/// The scan from index `i` on: the first entry that fails to decrypt or
/// decrypts to `url` decides.
pub open spec fn scan_from(key: Seq<u8>, url: Seq<char>, blobs: Seq<Seq<char>>, i: int) -> ScanVerdict
    decreases blobs.len() - i,
{
    if 0 <= i < blobs.len() {
        match decrypted(key, blobs[i]) {
            Err(e) => ScanVerdict::Broken(e),
            Ok(s) => if s == url {
                ScanVerdict::Match(i)
            } else {
                scan_from(key, url, blobs, i + 1)
            },
        }
    } else {
        ScanVerdict::NoMatch
    }
}

/// Whether `code` is what a new entry may carry: the custom code if one was
/// given, else a generated one.
pub open spec fn code_chosen(custom: Option<String>, code: Seq<char>) -> bool {
    match custom {
        Some(c) => code == c@,
        None => is_generated_code(code),
    }
}

/// Whether `step` starts the scan for `url` under `key`, or fails because the
/// URL cannot be encrypted.
pub open spec fn scan_started(key: Seq<u8>, url: Seq<char>, step: CreateStep) -> bool {
    if encode_utf8(url).len() <= MAX_PLAINTEXT_LEN {
        step matches CreateStep::ScanAll(b) && decrypted(key, b@) == Ok::<Seq<char>, CryptoError>(
            url,
        ) && exists|n: Seq<u8>| n.len() == NONCE_LEN && b@ == #[trigger] sealed_blob(key, n, url)
    } else {
        step == CreateStep::Done(Err(UrlError::CryptoError(CryptoError::Encryption)))
    }
}

/// Whether `step` is the insert of a fresh entry for `req` with encrypted URL
/// `blob`, or the validation failure that prevents it.
pub open spec fn fresh_entry_step(req: CreateUrlRequest, blob: Seq<char>, step: CreateStep) -> bool {
    &&& step matches CreateStep::Insert { entry, record, retried } ==> {
        &&& !retried
        &&& url_parses(req.url@)
        &&& entry@.original_url == req.url@
        &&& entry@.encrypted_url == blob
        &&& entry@.clicks == 0
        &&& expiry_of(entry@.created_at, req.expires_in_days) == Some(entry@.expires_at)
        &&& code_chosen(req.short_code, entry@.short_code)
        &&& record@ == entry@.with_url(Seq::empty())
    }
    &&& step matches CreateStep::Done(res) ==> {
        ||| res == Err::<(UrlEntry, bool), UrlError>(
            validation(ValidationField::OriginalUrl, ValidationReason::InvalidUrl),
        ) && !url_parses(req.url@)
        ||| res == Err::<(UrlEntry, bool), UrlError>(
            validation(ValidationField::ExpiresInDays, ValidationReason::OutOfRange),
        ) && req.expires_in_days is Some
    }
    &&& step is Insert || step is Done
    &&& !url_parses(req.url@) ==> step is Done
    &&& url_parses(req.url@) && (req.expires_in_days matches Some(d) ==> -MAX_LIFETIME_DAYS <= d
        <= MAX_LIFETIME_DAYS) ==> step is Insert
}

/// Checks the length of a custom short code.
pub fn check_short_code(code: &str) -> (r: Result<(), ValidationError>)
    ensures
        r is Ok <==> code_length_ok(code@),
        r matches Err(e) ==> e == (ValidationError {
            field: ValidationField::ShortCode,
            reason: ValidationReason::InvalidLength,
        }),
{
    let n = code.unicode_len();
    if n < MIN_CODE_LEN || n > MAX_CODE_LEN {
        Err(ValidationError { field: ValidationField::ShortCode, reason: ValidationReason::InvalidLength })
    } else {
        Ok(())
    }
}

/// The expiry timestamp for a creation at `now`, if it fits.
pub fn expiry(now: i64, days: Option<i64>) -> (r: Option<Option<i64>>)
    ensures
        r == expiry_of(now, days),
{
    match days {
        None => Some(None),
        Some(d) => {
            let t: i128 = now as i128 + d as i128 * MILLIS_PER_DAY as i128;
            if t < i64::MIN as i128 || t > i64::MAX as i128 {
                None
            } else {
                Some(Some(t as i64))
            }
        },
    }
}

/// Builds a new entry once the URL's validity is known: clicks start at zero,
/// the expiry is `now` plus the lifetime when one is given.
pub fn new_entry(
    url_ok: bool,
    url: &String,
    encrypted_url: String,
    short_code: String,
    now: i64,
    expires_in_days: Option<i64>,
) -> (r: Result<UrlEntry, ValidationError>)
    ensures
        expiry_of(now, expires_in_days) is None ==> r == Err::<UrlEntry, ValidationError>(
            ValidationError {
                field: ValidationField::ExpiresInDays,
                reason: ValidationReason::OutOfRange,
            },
        ),
        expiry_of(now, expires_in_days) is Some && !url_ok ==> r == Err::<UrlEntry, ValidationError>(
            ValidationError { field: ValidationField::OriginalUrl, reason: ValidationReason::InvalidUrl },
        ),
        url_ok ==> (expiry_of(now, expires_in_days) matches Some(exp) ==> r matches Ok(e) && e@ == (
        EntryView {
            original_url: url@,
            encrypted_url: encrypted_url@,
            short_code: short_code@,
            clicks: 0,
            created_at: now,
            expires_at: exp,
        })),
{
    let expires_at = match expiry(now, expires_in_days) {
        Some(e) => e,
        None => {
            return Err(
                ValidationError {
                    field: ValidationField::ExpiresInDays,
                    reason: ValidationReason::OutOfRange,
                },
            );
        },
    };
    if !url_ok {
        return Err(
            ValidationError { field: ValidationField::OriginalUrl, reason: ValidationReason::InvalidUrl },
        );
    }
    Ok(
        UrlEntry {
            original_url: url.clone(),
            encrypted_url,
            short_code,
            clicks: 0,
            created_at: now,
            expires_at,
        },
    )
}

/// Where a redirect for `url` points: the URL itself when it begins with a
/// scheme, else the URL behind `http://`.
pub open spec fn location_of(url: Seq<char>) -> Seq<char> {
    if has_scheme(url) {
        url
    } else {
        "http://"@ + url
    }
}

/// The `Location` of the redirect for a stored URL.
pub fn redirect_location(url: &str) -> (r: String)
    ensures
        r@ == location_of(url@),
{
    let plain = "http://";
    if starts_with_scheme(url) {
        let mut r = String::new();
        append_str(&mut r, url);
        assert(r@ =~= url@);
        r
    } else {
        let mut r = String::new();
        append_str(&mut r, plain);
        append_str(&mut r, url);
        assert(r@ =~= "http://"@ + url@);
        r
    }
}

/// Extending a scan that found nothing by a blob that decrypts to the URL
/// makes that blob the match.
proof fn lemma_scan_extend(
    key: Seq<u8>,
    url: Seq<char>,
    blobs: Seq<Seq<char>>,
    b: Seq<char>,
    i: int,
)
    requires
        0 <= i <= blobs.len(),
        scan_from(key, url, blobs, i) == ScanVerdict::NoMatch,
        decrypted(key, b) == Ok::<Seq<char>, CryptoError>(url),
    ensures
        scan_from(key, url, blobs.push(b), i) == ScanVerdict::Match(blobs.len() as int),
    decreases blobs.len() - i,
{
    if i < blobs.len() {
        assert(blobs.push(b)[i] == blobs[i]);
        lemma_scan_extend(key, url, blobs, b, i + 1);
    } else {
        assert(blobs.push(b)[i] == b);
    }
}

/// Creating the same URL twice: after the first creation's record is stored
/// behind entries that do not hold the URL, the scan of the second creation
/// matches that record, and the entry it returns is the first creation's
/// entry, clicks and code unchanged.
pub proof fn lemma_dedup(key: Seq<u8>, entries: Seq<UrlEntry>, first: UrlEntry, record: UrlEntry)
    requires
        scan_from(key, first@.original_url, blobs_of(entries), 0) == ScanVerdict::NoMatch,
        decrypted(key, first@.encrypted_url) == Ok::<Seq<char>, CryptoError>(first@.original_url),
        record@ == first@.with_url(Seq::empty()),
    ensures
        scan_from(key, first@.original_url, blobs_of(entries.push(record)), 0)
            == ScanVerdict::Match(entries.len() as int),
        entries.push(record)[entries.len() as int]@.with_url(first@.original_url) == first@,
{
    assert(blobs_of(entries.push(record)) =~= blobs_of(entries).push(record.encrypted_url@));
    lemma_scan_extend(key, first@.original_url, blobs_of(entries), record.encrypted_url@, 0);
}

/// Creating the same URL twice on an empty store: once the first creation's
/// record is stored, the scan of the second matches it, and the entry returned
/// is the first creation's entry.
pub proof fn lemma_dedup_from_empty(key: Seq<u8>, first: UrlEntry, record: UrlEntry)
    requires
        decrypted(key, first@.encrypted_url) == Ok::<Seq<char>, CryptoError>(first@.original_url),
        record@ == first@.with_url(Seq::empty()),
    ensures
        scan_from(key, first@.original_url, blobs_of(seq![record]), 0) == ScanVerdict::Match(0),
        record@.with_url(first@.original_url) == first@,
{
    let empty = Seq::<UrlEntry>::empty();
    assert(blobs_of(empty) =~= Seq::<Seq<char>>::empty());
    assert(empty.push(record) =~= seq![record]);
    lemma_dedup(key, empty, first, record);
}

/// The scan from `i` reaches the entry at `k` when every entry in between
/// decrypts to another URL.
proof fn lemma_scan_reaches(key: Seq<u8>, url: Seq<char>, blobs: Seq<Seq<char>>, k: int, i: int)
    requires
        0 <= i <= k < blobs.len(),
        decrypted(key, blobs[k]) == Ok::<Seq<char>, CryptoError>(url),
        forall|j: int|
            0 <= j < k ==> (#[trigger] decrypted(key, blobs[j]) matches Ok(s) && s != url),
    ensures
        scan_from(key, url, blobs, i) == ScanVerdict::Match(k),
    decreases k - i,
{
    if i < k {
        assert(decrypted(key, blobs[i]) matches Ok(s) && s != url);
        lemma_scan_reaches(key, url, blobs, k, i + 1);
    }
}

/// Creating a URL that the store already holds: when the entry at `k`
/// decrypts to the URL and every entry before it decrypts to another URL, the
/// scan matches that entry, so creation returns it (with its code and clicks)
/// as not new and asks for no insert.
pub proof fn lemma_scan_finds_stored(key: Seq<u8>, url: Seq<char>, entries: Seq<UrlEntry>, k: int)
    requires
        0 <= k < entries.len(),
        decrypted(key, entries[k].encrypted_url@) == Ok::<Seq<char>, CryptoError>(url),
        forall|j: int|
            0 <= j < k ==> (#[trigger] decrypted(key, entries[j].encrypted_url@) matches Ok(s) && s
                != url),
    ensures
        scan_from(key, url, blobs_of(entries), 0) == ScanVerdict::Match(k),
{
    let blobs = blobs_of(entries);
    assert forall|j: int| 0 <= j < k implies (#[trigger] decrypted(key, blobs[j]) matches Ok(s)
        && s != url) by {
        assert(blobs[j] == entries[j].encrypted_url@);
    }
    lemma_scan_reaches(key, url, blobs, k, 0);
}

/// The URL service: holds the encryptor; the store is driven by the caller,
/// which performs each `CreateStep` and hands back the store's answer.
pub struct UrlService {
    encryptor: Encryptor,
}

impl UrlService {
    /// The encryption key the service works under.
    pub closed spec fn key(&self) -> Seq<u8> {
        self.encryptor.key()
    }

    pub fn new(encryptor: Encryptor) -> (r: UrlService)
        ensures
            r.key() == encryptor.key(),
    {
        UrlService { encryptor }
    }

    /// Encrypts the URL and asks for the deduplication scan.
    fn start_scan(&self, url: &String) -> (r: CreateStep)
        ensures
            scan_started(self.key(), url@, r),
    {
        match self.encryptor.encrypt(url.as_str()) {
            Ok(b) => CreateStep::ScanAll(b),
            Err(e) => CreateStep::Done(Err(UrlError::CryptoError(e))),
        }
    }

    /// Starts creating a short URL: a custom code is checked for length and
    /// then looked up; without one, the URL is encrypted and the scan begins.
    pub fn create_url(&self, req: &CreateUrlRequest) -> (r: CreateStep)
        ensures
            match req.short_code {
                Some(c) => if code_length_ok(c@) {
                    r matches CreateStep::FindCode(k) && k@ == c@
                } else {
                    r == CreateStep::Done(
                        Err(validation(ValidationField::ShortCode, ValidationReason::InvalidLength)),
                    )
                },
                None => scan_started(self.key(), req.url@, r),
            },
    {
        match &req.short_code {
            Some(code) => match check_short_code(code.as_str()) {
                Ok(()) => CreateStep::FindCode(code.clone()),
                Err(e) => CreateStep::Done(Err(UrlError::ValidationError(e))),
            },
            None => self.start_scan(&req.url),
        }
    }

    /// Continues after looking up the custom code: a taken code is refused.
    pub fn after_code_lookup(&self, req: &CreateUrlRequest, taken: bool) -> (r: CreateStep)
        ensures
            taken ==> r == CreateStep::Done(
                Err(validation(ValidationField::ShortCode, ValidationReason::AlreadyExists)),
            ),
            !taken ==> scan_started(self.key(), req.url@, r),
    {
        if taken {
            CreateStep::Done(
                Err(
                    UrlError::ValidationError(
                        ValidationError {
                            field: ValidationField::ShortCode,
                            reason: ValidationReason::AlreadyExists,
                        },
                    ),
                ),
            )
        } else {
            self.start_scan(&req.url)
        }
    }

    /// Continues after reading every stored entry: the first entry that
    /// decrypts to the URL is returned as it is (not new); if none does, a new
    /// entry is built and its insertion asked for.
    pub fn after_scan(&self, req: &CreateUrlRequest, encrypted_url: String, entries: &Vec<UrlEntry>) -> (r: CreateStep)
        ensures
            match scan_from(self.key(), req.url@, blobs_of(entries@), 0) {
                ScanVerdict::Match(i) => (r matches CreateStep::Done(Ok((e, is_new))) && !is_new
                    && e@ == entries@[i]@.with_url(req.url@)),
                ScanVerdict::Broken(c) => r == CreateStep::Done(Err(UrlError::CryptoError(c))),
                ScanVerdict::NoMatch => fresh_entry_step(*req, encrypted_url@, r),
            },
    {
        let ghost key = self.key();
        let ghost blobs = blobs_of(entries@);
        let mut i: usize = 0;
        while i < entries.len()
            invariant
                i <= entries@.len(),
                key == self.key(),
                blobs == blobs_of(entries@),
                scan_from(key, req.url@, blobs, 0) == scan_from(key, req.url@, blobs, i as int),
            decreases entries@.len() - i,
        {
            let entry = &entries[i];
            let d = self.encryptor.decrypt(entry.encrypted_url.as_str());
            assert(blobs[i as int] == entry.encrypted_url@);
            match d {
                Ok(plain) => {
                    if plain == req.url {
                        return CreateStep::Done(Ok((entry.with_original_url(plain), false)));
                    }
                },
                Err(e) => {
                    return CreateStep::Done(Err(UrlError::CryptoError(e)));
                },
            }
            i = i + 1;
        }
        let code = match &req.short_code {
            Some(c) => c.clone(),
            None => generate_short_code(),
        };
        let now = now_millis();
        proof {
            match req.expires_in_days {
                Some(d) => {
                    if -MAX_LIFETIME_DAYS <= d <= MAX_LIFETIME_DAYS {
                        assert(-8640000000000000000 <= d * MILLIS_PER_DAY <= 8640000000000000000)
                            by (nonlinear_arith)
                            requires
                                -MAX_LIFETIME_DAYS <= d <= MAX_LIFETIME_DAYS,
                        ;
                        assert(-CLOCK_BOUND_MILLIS <= now <= CLOCK_BOUND_MILLIS);
                    }
                },
                None => {},
            }
        }
        let url_ok = url_is_valid(&req.url);
        match new_entry(url_ok, &req.url, encrypted_url, code, now, req.expires_in_days) {
            Ok(entry) => {
                let record = entry.stored_form();
                CreateStep::Insert { entry, record, retried: false }
            },
            Err(e) => CreateStep::Done(Err(UrlError::ValidationError(e))),
        }
    }

    /// Continues after the insert: success returns the new entry; a taken
    /// custom code is refused; a generated code that collided is regenerated
    /// once, and a second collision is an error.
    pub fn after_insert(
        &self,
        req: &CreateUrlRequest,
        entry: UrlEntry,
        retried: bool,
        outcome: InsertOutcome,
    ) -> (r: CreateStep)
        ensures
            outcome == InsertOutcome::Inserted ==> (r matches CreateStep::Done(Ok((e, is_new)))
                && is_new && e@ == entry@),
            outcome == InsertOutcome::DuplicateKey && req.short_code is Some ==> r
                == CreateStep::Done(
                Err(validation(ValidationField::ShortCode, ValidationReason::AlreadyExists)),
            ),
            outcome == InsertOutcome::DuplicateKey && req.short_code is None && !retried ==> (
            r matches CreateStep::Insert { entry: e, record, retried: again } && again
                && is_generated_code(e@.short_code) && e@ == entry@.with_code(e@.short_code)
                && record@ == e@.with_url(Seq::empty())),
            outcome == InsertOutcome::DuplicateKey && req.short_code is None && retried ==> r
                == CreateStep::Done(Err(UrlError::CodeCollision)),
    {
        match outcome {
            InsertOutcome::Inserted => CreateStep::Done(Ok((entry, true))),
            InsertOutcome::DuplicateKey => {
                if req.short_code.is_some() {
                    CreateStep::Done(
                        Err(
                            UrlError::ValidationError(
                                ValidationError {
                                    field: ValidationField::ShortCode,
                                    reason: ValidationReason::AlreadyExists,
                                },
                            ),
                        ),
                    )
                } else if retried {
                    CreateStep::Done(Err(UrlError::CodeCollision))
                } else {
                    let code = generate_short_code();
                    let e = UrlEntry { short_code: code, ..entry };
                    let record = e.stored_form();
                    CreateStep::Insert { entry: e, record, retried: true }
                }
            },
        }
    }

    /// Finishes a lookup by code, given what the store's atomic
    /// find-and-increment returned: an absent entry is not found (no error),
    /// a found one comes back with its URL decrypted.
    pub fn get_url_by_code(&self, found: Option<UrlEntry>) -> (r: Result<Option<UrlEntry>, UrlError>)
        ensures
            found is None ==> r == Ok::<Option<UrlEntry>, UrlError>(None),
            found matches Some(f) ==> match decrypted(self.key(), f.encrypted_url@) {
                Ok(u) => (r matches Ok(Some(e)) && e@ == f@.with_url(u)),
                Err(c) => r == Err::<Option<UrlEntry>, UrlError>(UrlError::CryptoError(c)),
            },
    {
        match found {
            None => Ok(None),
            Some(entry) => match self.encryptor.decrypt(entry.encrypted_url.as_str()) {
                Ok(url) => Ok(Some(entry.with_original_url(url))),
                Err(c) => Err(UrlError::CryptoError(c)),
            },
        }
    }

    /// Decrypts every stored entry for listing; the first entry that fails to
    /// decrypt fails the whole list.
    pub fn get_urls(&self, records: &Vec<UrlEntry>) -> (r: Result<Vec<UrlEntry>, UrlError>)
        ensures
            r matches Ok(v) ==> (v@.len() == records@.len() && forall|i: int|
                0 <= i < v@.len() ==> decrypted(self.key(), records@[i].encrypted_url@) == Ok::<
                    Seq<char>,
                    CryptoError,
                >(v@[i].original_url@) && #[trigger] v@[i]@ == records@[i]@.with_url(
                    v@[i].original_url@,
                )),
            r matches Err(e) ==> (e matches UrlError::CryptoError(c) && exists|i: int|
                0 <= i < records@.len() && decrypted(
                    self.key(),
                    #[trigger] records@[i].encrypted_url@,
                ) == Err::<Seq<char>, CryptoError>(c)),
            (forall|i: int|
                0 <= i < records@.len() ==> #[trigger] decrypted(self.key(), records@[i].encrypted_url@) is Ok)
                ==> r is Ok,
    {
        let mut out: Vec<UrlEntry> = Vec::new();
        let mut i: usize = 0;
        while i < records.len()
            invariant
                i <= records@.len(),
                out@.len() == i,
                forall|j: int|
                    0 <= j < i ==> decrypted(self.key(), records@[j].encrypted_url@) == Ok::<
                        Seq<char>,
                        CryptoError,
                    >(out@[j].original_url@) && #[trigger] out@[j]@ == records@[j]@.with_url(
                        out@[j].original_url@,
                    ),
            decreases records@.len() - i,
        {
            let entry = &records[i];
            match self.encryptor.decrypt(entry.encrypted_url.as_str()) {
                Ok(url) => {
                    out.push(entry.with_original_url(url));
                },
                Err(c) => {
                    return Err(UrlError::CryptoError(c));
                },
            }
            i = i + 1;
        }
        Ok(out)
    }
}

} // verus!
