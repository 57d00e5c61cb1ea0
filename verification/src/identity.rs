//! The server's long-lived identity: an Ed25519 keypair held as its 32
//! secret bytes. On startup the caller reads the durable key file and hands
//! over what it found; a stored key is reused bit for bit, a missing one is
//! replaced by a freshly generated key that the caller must then persist
//! before serving (otherwise every restart would present a new identity).

use vstd::prelude::*;

verus! {

/// The length of an Ed25519 secret key, in bytes.
pub const IDENTITY_LEN: usize = 32;

/// The server's identity: the secret bytes of its Ed25519 keypair.
pub struct ServerIdentity {
    pub bytes: Vec<u8>,
}

impl ServerIdentity {
    /// Well-formed: exactly the 32 secret-key bytes.
    pub open spec fn wf(self) -> bool {
        self.bytes@.len() == IDENTITY_LEN
    }
}

/// What `provide_server_key` decided: the identity to serve with, and
/// whether it is fresh and must still be persisted to the key file.
pub struct IdentityOutcome {
    pub identity: ServerIdentity,
    pub fresh: bool,
}

/// Relies on `ed25519_dalek::SigningKey::generate` with the thread rng of
/// `rand`: the secret part of a freshly generated Ed25519 keypair is
/// exactly 32 bytes. Nothing else holds of a random key.
#[verifier::external_body]
fn generate_identity_bytes() -> (r: Vec<u8>)
    ensures
        r@.len() == IDENTITY_LEN,
{
    let key = ed25519_dalek::SigningKey::generate(&mut rand::rng());
    key.to_bytes().to_vec()
}

/// Everything `provide_server_key` promises of its result for a given
/// input: a well-formed identity, a stored key reused bit for bit and not
/// fresh, and a fresh key whenever nothing was stored.
pub open spec fn identity_outcome_ok(stored: Option<Vec<u8>>, r: IdentityOutcome) -> bool {
    &&& r.identity.wf()
    &&& (stored matches Some(b) ==> r.identity.bytes@ == b@ && !r.fresh)
    &&& (stored is None ==> r.fresh)
}

/// The startup decision on the server identity. A stored key (the bytes
/// read from the key file) is used unchanged, so a restart with the file
/// present reproduces the same identity. With no stored key a fresh one is
/// generated and marked for persistence; `confirm_persisted` then decides
/// whether serving with it is allowed.
pub fn provide_server_key(stored: Option<Vec<u8>>) -> (r: IdentityOutcome)
    requires
        stored matches Some(b) ==> b@.len() == IDENTITY_LEN,
    ensures
        identity_outcome_ok(stored, r),
{
    match stored {
        Some(b) => IdentityOutcome { identity: ServerIdentity { bytes: b }, fresh: false },
        None => IdentityOutcome {
            identity: ServerIdentity { bytes: generate_identity_bytes() },
            fresh: true,
        },
    }
}

/// Why the server may not start: its fresh identity could not be written
/// to the durable key file — the IoError class; serving anyway would
/// present a new host identity on every restart and break client trust
/// caching.
pub enum IdentityError {
    PersistFailed,
}

/// The persistence gate: a stored identity is always served; a fresh one
/// only if writing it to the key file succeeded (`persisted`), and exactly
/// otherwise startup fails. The caller performs the one file write between
/// `provide_server_key` and this decision.
pub fn confirm_persisted(outcome: IdentityOutcome, persisted: bool) -> (r: Result<
    ServerIdentity,
    IdentityError,
>)
    ensures
        r is Err <==> outcome.fresh && !persisted,
        r matches Ok(identity) ==> identity == outcome.identity,
{
    if outcome.fresh && !persisted {
        Err(IdentityError::PersistFailed)
    } else {
        Ok(outcome.identity)
    }
}

/// Law of identity persistence: any two startup outcomes that satisfy
/// `provide_server_key`'s contract for the same stored key bytes carry the
/// same identity, and neither needs persisting again.
pub proof fn lemma_identity_reproducible(
    stored: Vec<u8>,
    first: IdentityOutcome,
    second: IdentityOutcome,
)
    requires
        identity_outcome_ok(Some(stored), first),
        identity_outcome_ok(Some(stored), second),
    ensures
        first.identity.bytes@ == second.identity.bytes@,
        !first.fresh,
        !second.fresh,
{
}

} // verus!
