//! The seed deriver: the two-stage hash that turns a passphrase, a
//! timestamp and a device fingerprint into a 64-character hexadecimal seed.

use vstd::prelude::*;
use crate::decimal::{dec_of, lemma_dec_of_injective};
use crate::digest::{sha256_of, sha256_str};
use crate::hex::{bytes_to_hex, hex_of, is_lower_hex_char, lemma_hex_of_shape};
use crate::text::{chars_to_string, str_to_chars};

verus! {

/// The required passphrase length, counted in characters.
pub const PHRASE_LEN: usize = 16;

/// The rejection returned for a passphrase of the wrong length.
#[derive(Clone, Copy, Debug)]
pub struct PhraseLengthError {
    /// The character count the rejected passphrase actually had.
    pub actual: usize,
}

/// The input to the second hashing stage: the lowercase hex digest of the
/// passphrase, the decimal timestamp and the fingerprint, concatenated with
/// no separators.
pub open spec fn seed_input_spec(phrase: Seq<char>, t: int, fp: Seq<char>) -> Seq<char> {
    hex_of(sha256_of(phrase)) + dec_of(t) + fp
}

/// The derived seed: the lowercase hex digest of the second hashing stage.
pub open spec fn seed_spec(phrase: Seq<char>, t: int, fp: Seq<char>) -> Seq<char> {
    hex_of(sha256_of(seed_input_spec(phrase, t, fp)))
}

/// Relies on `std::time::SystemTime::now` and
/// `SystemTime::duration_since(UNIX_EPOCH)`: the clock's distance from the
/// Unix epoch in whole seconds, flagged with the side of the epoch the clock
/// stands on. Neither call panics — a clock before the epoch comes back
/// through the error value — and nothing is assumed of the reading.
#[verifier::external_body]
fn epoch_seconds_raw() -> (bool, u64) {
    match std::time::SystemTime::now().duration_since(std::time::UNIX_EPOCH) {
        Ok(d) => (false, d.as_secs()),
        Err(e) => (true, e.duration().as_secs()),
    }
}

/// The current UTC time as signed whole seconds since the Unix epoch: a
/// clock before the epoch gives a negative count, and a reading beyond the
/// range of `i64` saturates. Reading the time cannot fail.
fn unix_now() -> i64 {
    let (before_epoch, secs) = epoch_seconds_raw();
    let magnitude: i64 = if secs > i64::MAX as u64 {
        i64::MAX
    } else {
        secs as i64
    };
    if before_epoch {
        -magnitude
    } else {
        magnitude
    }
}

/// Derives the seed from a passphrase, a timestamp and a fingerprint.
///
/// A passphrase of any length other than sixteen characters is rejected and
/// nothing is derived; for a sixteen-character passphrase the result is
/// exactly the two-stage digest of [`seed_spec`].
pub fn derive_seed(phrase: &str, timestamp: i64, fingerprint: &str) -> (r: Result<
    String,
    PhraseLengthError,
>)
    ensures
        r is Ok <==> phrase@.len() == PHRASE_LEN,
        r matches Ok(seed) ==> {
            &&& seed@ == seed_spec(phrase@, timestamp as int, fingerprint@)
            &&& seed@.len() == 64
            &&& forall|i: int| 0 <= i < seed@.len() ==> is_lower_hex_char(#[trigger] seed@[i])
        },
        r matches Err(e) ==> e.actual == phrase@.len(),
{
    let n = phrase.unicode_len();
    if n != PHRASE_LEN {
        return Err(PhraseLengthError { actual: n });
    }
    let phrase_digest = sha256_str(phrase);
    let mut input = bytes_to_hex(phrase_digest.as_slice());
    let mut time_part = crate::decimal::i64_to_decimal(timestamp);
    let mut fp_part = str_to_chars(fingerprint);
    input.append(&mut time_part);
    input.append(&mut fp_part);
    let input_string = chars_to_string(&input);
    assert(input_string@ == seed_input_spec(phrase@, timestamp as int, fingerprint@));
    let seed_digest = sha256_str(input_string.as_str());
    let seed_chars = bytes_to_hex(seed_digest.as_slice());
    proof {
        lemma_hex_of_shape(seed_digest@);
    }
    Ok(chars_to_string(&seed_chars))
}

/// Derives a seed from the passphrase and fingerprint at the current time.
///
/// The timestamp is read from the clock, so nothing pins which seed comes
/// back; whatever the clock read, the result is the exact derivation of
/// [`seed_spec`] for some timestamp, and the length check is as strict as in
/// [`derive_seed`].
pub fn generate_seed(phrase: &str, fingerprint: &str) -> (r: Result<String, PhraseLengthError>)
    ensures
        r is Ok <==> phrase@.len() == PHRASE_LEN,
        r matches Ok(seed) ==> {
            &&& exists|t: i64| seed@ == seed_spec(phrase@, t as int, fingerprint@)
            &&& seed@.len() == 64
            &&& forall|i: int| 0 <= i < seed@.len() ==> is_lower_hex_char(#[trigger] seed@[i])
        },
        r matches Err(e) ==> e.actual == phrase@.len(),
{
    let now = unix_now();
    let r = derive_seed(phrase, now, fingerprint);
    proof {
        if phrase@.len() == PHRASE_LEN {
            assert(r->Ok_0@ == seed_spec(phrase@, now as int, fingerprint@));
        }
    }
    r
}

/// The derivation is a pure function of its three inputs: any two results
/// the contract of [`derive_seed`] allows for the same passphrase, timestamp
/// and fingerprint are the same seed.
pub proof fn lemma_derivation_deterministic(
    phrase: Seq<char>,
    t: int,
    fp: Seq<char>,
    r1: Seq<char>,
    r2: Seq<char>,
)
    requires
        r1 == seed_spec(phrase, t, fp),
        r2 == seed_spec(phrase, t, fp),
    ensures
        r1 == r2,
{
}

/// Distinct timestamps give distinct inputs to the final hashing stage, for
/// the same passphrase and fingerprint: the derivation is time-dependent up
/// to collisions of the digest itself.
pub proof fn lemma_seed_input_time_dependent(
    phrase: Seq<char>,
    t1: int,
    t2: int,
    fp: Seq<char>,
)
    requires
        t1 != t2,
    ensures
        seed_input_spec(phrase, t1, fp) != seed_input_spec(phrase, t2, fp),
{
    let h = hex_of(sha256_of(phrase));
    let d1 = dec_of(t1);
    let d2 = dec_of(t2);
    if seed_input_spec(phrase, t1, fp) == seed_input_spec(phrase, t2, fp) {
        assert((h + d1 + fp).len() == (h + d2 + fp).len());
        assert(d1.len() == d2.len());
        assert(d1 =~= (h + d1 + fp).subrange(
            h.len() as int,
            h.len() + d1.len() as int,
        ));
        assert(d2 =~= (h + d2 + fp).subrange(
            h.len() as int,
            h.len() + d2.len() as int,
        ));
        lemma_dec_of_injective(t1, t2);
    }
}

} // verus!
