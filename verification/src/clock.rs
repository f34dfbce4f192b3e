//! Wall-clock time and opaque reservation identities.
use vstd::prelude::*;
use vstd::string::StringExecFns;

use crate::ids::OperationId;
use crate::text::{decimal_text, push_decimal};

verus! {

/// A source of UTC time in Unix seconds.
pub trait Clock {
    fn now_utc_unix_secs(&self) -> u64;
}

/// The system clock.
#[derive(Debug, Default, Clone, Copy)]
pub struct UtcClock;

#[verifier::external_type_specification]
#[verifier::external_body]
pub struct ExSystemTime(std::time::SystemTime);

#[verifier::external_type_specification]
#[verifier::external_body]
pub struct ExSystemTimeError(std::time::SystemTimeError);

/// Calls `std::time::SystemTime::now`: the machine's current time; nothing is claimed about it.
#[verifier::external_body]
fn system_now() -> std::time::SystemTime {
    std::time::SystemTime::now()
}

/// Calls `std::time::SystemTime::duration_since` with the Unix epoch: the time
/// since the epoch, or an error for a time before it; nothing more is claimed.
#[verifier::external_body]
fn since_unix_epoch(t: &std::time::SystemTime) -> Result<core::time::Duration, std::time::SystemTimeError> {
    t.duration_since(std::time::UNIX_EPOCH)
}

/// Calls `core::time::Duration::as_secs`: the whole seconds of a duration, which
/// is opaque here, so nothing is claimed about the number.
#[verifier::external_body]
fn whole_secs(d: &core::time::Duration) -> u64 {
    d.as_secs()
}

impl Clock for UtcClock {
    /// Returns UTC as Unix seconds; a time before the epoch reads as zero.
    fn now_utc_unix_secs(&self) -> u64 {
        let now = system_now();
        match since_unix_epoch(&now) {
            Ok(d) => whole_secs(&d),
            Err(_) => 0,
        }
    }
}

/// Produces opaque operation IDs for manual reservations.
pub trait ReservationIdGenerator {
    fn generate(&self, now_utc_unix_secs: u64) -> OperationId;
}

/// Identities of the form `manual-reservation-{now}-{nonce}` with a random nonce.
#[derive(Debug, Default, Clone, Copy)]
pub struct RandomReservationIdGenerator;

/// An ASCII letter or digit.
pub open spec fn is_alphanumeric(c: char) -> bool {
    ('0' <= c && c <= '9') || ('A' <= c && c <= 'Z') || ('a' <= c && c <= 'z')
}

#[verifier::external_type_specification]
#[verifier::external_body]
pub struct ExStdRng(rand::rngs::StdRng);

#[verifier::external_type_specification]
#[verifier::external_body]
pub struct ExRandError(rand::Error);

/// Calls `SeedableRng::from_rng` of `rand::rngs::StdRng` on `rand::rngs::OsRng`:
/// a generator seeded by the operating system, or the error it reported when
/// it could not supply a seed. Which of the two comes back is not claimed.
#[verifier::external_body]
fn os_seeded_rng() -> Result<rand::rngs::StdRng, rand::Error> {
    <rand::rngs::StdRng as rand::SeedableRng>::from_rng(rand::rngs::OsRng)
}

/// Calls `SeedableRng::seed_from_u64` of `rand::rngs::StdRng`: a generator
/// seeded from `seed` alone; its state is opaque here, so nothing is claimed.
#[verifier::external_body]
fn seeded_rng(seed: u64) -> rand::rngs::StdRng {
    <rand::rngs::StdRng as rand::SeedableRng>::seed_from_u64(seed)
}

/// Calls `DistString::sample_string` of `rand::distributions::Alphanumeric`:
/// `len` characters, each drawn from the 62 ASCII letters and digits. Which
/// characters come out is chance, so only their number and kind are claimed.
#[verifier::external_body]
fn alphanumeric_string(rng: &mut rand::rngs::StdRng, len: usize) -> (r: String)
    ensures
        r@.len() == len,
        forall|i: int| 0 <= i < len ==> is_alphanumeric(#[trigger] r@[i]),
{
    rand::distributions::DistString::sample_string(&rand::distributions::Alphanumeric, rng, len)
}

/// The manual reservation identity `manual-reservation-{now}-{nonce}`.
pub fn manual_reservation_id(now_utc_unix_secs: u64, nonce: &str) -> (r: OperationId)
    ensures
        r@ == "manual-reservation-"@ + decimal_text(now_utc_unix_secs as nat) + "-"@ + nonce@,
{
    let mut text = String::from_str("manual-reservation-");
    push_decimal(&mut text, now_utc_unix_secs as u128);
    text.append("-");
    text.append(nonce);
    OperationId::new(text)
}

impl ReservationIdGenerator for RandomReservationIdGenerator {
    /// Draws the nonce from a generator the operating system seeds; when it
    /// cannot supply a seed, from one seeded by the time, so that the
    /// identity keeps its form.
    fn generate(&self, now_utc_unix_secs: u64) -> (r: OperationId)
        ensures
            exists|nonce: Seq<char>|
                nonce.len() == 32 && (forall|i: int| 0 <= i < 32 ==> is_alphanumeric(#[trigger] nonce[i]))
                    && r@ == "manual-reservation-"@ + decimal_text(now_utc_unix_secs as nat) + "-"@ + nonce,
    {
        let mut rng = match os_seeded_rng() {
            Ok(rng) => rng,
            Err(_) => seeded_rng(now_utc_unix_secs),
        };
        let nonce = alphanumeric_string(&mut rng, 32);
        manual_reservation_id(now_utc_unix_secs, nonce.as_str())
    }
}

} // verus!
