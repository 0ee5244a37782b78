use vstd::prelude::*;

verus! {

/// Number of random characters at the front of a generated code.
pub const RANDOM_PART_LEN: usize = 7;

/// Number of characters in the alphanumeric alphabet.
pub const ALPHABET_LEN: usize = 62;

/// The alphabet `a-z`, then `A-Z`, then `0-9`, by index.
pub open spec fn alphabet_at(i: int) -> char {
    if i < 26 {
        ((97 + i) as u8) as char
    } else if i < 52 {
        ((65 + i - 26) as u8) as char
    } else {
        ((48 + i - 52) as u8) as char
    }
}

/// The decimal digit `d` (0..=9) as a character.
pub open spec fn digit_char(d: int) -> char {
    ((48 + d) as u8) as char
}

/// The three decimal digits of `m` (0..1000), zero-padded.
pub open spec fn three_digits(m: int) -> Seq<char> {
    seq![digit_char(m / 100), digit_char((m / 10) % 10), digit_char(m % 10)]
}

/// A code built from seven alphabet picks and a millisecond clock reading:
/// the picked characters followed by the clock modulo 1000 as three digits.
pub open spec fn code_of(picks: Seq<usize>, millis: int) -> Seq<char> {
    Seq::new(picks.len(), |i: int| alphabet_at(picks[i] as int)) + three_digits(
        millis % 1000,
    )
}

/// Whether every pick indexes into the alphabet.
pub open spec fn picks_in_range(picks: Seq<usize>) -> bool {
    forall|i: int| 0 <= i < picks.len() ==> picks[i] < ALPHABET_LEN
}

/// Whether `s` has the shape of a generated code: seven alphanumeric
/// characters followed by three decimal digits.
pub open spec fn is_generated_code(s: Seq<char>) -> bool {
    exists|picks: Seq<usize>, m: int|
        picks.len() == RANDOM_PART_LEN && picks_in_range(picks) && 0 <= m < 1000 && s
            == #[trigger] code_of(picks, m)
}

fn alphabet_char(i: usize) -> (c: char)
    requires
        i < ALPHABET_LEN,
    ensures
        c == alphabet_at(i as int),
{
    if i < 26 {
        (97u8 + i as u8) as char
    } else if i < 52 {
        (65u8 + (i - 26) as u8) as char
    } else {
        (48u8 + (i - 52) as u8) as char
    }
}

fn digit(d: u64) -> (c: char)
    requires
        d < 10,
    ensures
        c == digit_char(d as int),
{
    (48u8 + d as u8) as char
}

/// Relies on `String::push`: appends one character.
#[verifier::external_body]
pub(crate) fn push_char(s: &mut String, c: char)
    ensures
        final(s)@ == old(s)@.push(c),
{
    s.push(c);
}

/// Relies on `rand::Rng::random_range` over the thread-local generator: an
/// index below `bound`.
#[verifier::external_body]
fn random_below(bound: usize) -> (r: usize)
    requires
        bound > 0,
    ensures
        r < bound,
{
    rand::Rng::random_range(&mut rand::rng(), 0..bound)
}

/// A bound on any millisecond timestamp that chrono can represent: its dates
/// span the years -262143 to 262142, under 264113 years of at most 366 days on
/// either side of the epoch.
pub const CLOCK_BOUND_MILLIS: i64 = 8400000000000000;

/// Relies on `chrono::Utc::now` and `DateTime::timestamp_millis`: the wall
/// clock in milliseconds since the Unix epoch, within chrono's date range.
#[verifier::external_body]
pub(crate) fn now_millis() -> (r: i64)
    ensures
        -CLOCK_BOUND_MILLIS <= r <= CLOCK_BOUND_MILLIS,
{
    chrono::Utc::now().timestamp_millis()
}

/// Builds a code from alphabet picks and a clock reading in milliseconds.
pub fn short_code_from(picks: &Vec<usize>, millis: i64) -> (r: String)
    requires
        picks_in_range(picks@),
    ensures
        r@ == code_of(picks@, millis as int),
{
    let mut s = String::new();
    let mut i: usize = 0;
    while i < picks.len()
        invariant
            i <= picks.len(),
            picks_in_range(picks@),
            s@ == Seq::new(i as nat, |j: int| alphabet_at(picks@[j] as int)),
        decreases picks.len() - i,
    {
        let c = alphabet_char(picks[i]);
        push_char(&mut s, c);
        i = i + 1;
        assert(s@ =~= Seq::new(i as nat, |j: int| alphabet_at(picks@[j] as int)));
    }
    let m: i64 = millis % 1000;
    let m: u64 = if m < 0 {
        (m + 1000) as u64
    } else {
        m as u64
    };
    assert(m as int == millis as int % 1000);
    push_char(&mut s, digit(m / 100));
    push_char(&mut s, digit((m / 10) % 10));
    push_char(&mut s, digit(m % 10));
    assert(s@ =~= code_of(picks@, millis as int));
    s
}

/// A fresh short code: seven characters drawn at random from the alphanumeric
/// alphabet, followed by the current millisecond clock modulo 1000 as three
/// digits. Not unique by construction; the store's constraint enforces that.
pub fn generate_short_code() -> (r: String)
    ensures
        is_generated_code(r@),
        r@.len() == 10,
{
    let mut picks: Vec<usize> = Vec::new();
    let mut i: usize = 0;
    while i < RANDOM_PART_LEN
        invariant
            i <= RANDOM_PART_LEN,
            picks@.len() == i,
            picks_in_range(picks@),
        decreases RANDOM_PART_LEN - i,
    {
        picks.push(random_below(ALPHABET_LEN));
        i = i + 1;
    }
    let millis = now_millis();
    let r = short_code_from(&picks, millis);
    assert(r@ == code_of(picks@, (millis as int % 1000) % 1000));
    r
}

} // verus!
