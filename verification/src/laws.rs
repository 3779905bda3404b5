//! The vault's cross-operation guarantees, proved once over the models that
//! the operations' own contracts speak of.

use vstd::prelude::*;
use crate::platform::{envelope_for, keys_extended, Platform};

verus! {

/// Round trip.  A successful `set_secret` leaves, for its (service, user),
/// an envelope that decrypts under the service key to the secret that was
/// stored; a successful `get_secret` of that same envelope returns a value
/// the envelope decrypts to under the service key, provisioned at most once
/// in between.  This lemma closes the chain: whatever such a read returns is
/// exactly the secret that was stored.
pub proof fn lemma_round_trip<P: Platform>(
    keys_after_set: Map<Seq<char>, nat>,
    keys_after_get: Map<Seq<char>, nat>,
    service: Seq<char>,
    env: Seq<u8>,
    secret: Seq<u8>,
    read: Seq<u8>,
)
    requires
        keys_after_set.contains_key(service),
        keys_extended(keys_after_set, keys_after_get, service),
        envelope_for::<P>(keys_after_set[service], env, secret),
        envelope_for::<P>(keys_after_get[service], env, read),
    ensures
        read == secret,
{
    assert(keys_after_get[service] == keys_after_set[service]);
}

/// Delete then read.  `delete_credential` leaves the record map without this
/// (service, user), so a following `get_secret` finds no record and reports
/// `NoEntry`, whatever was stored before.
pub proof fn lemma_delete_then_read(
    records: Map<(Seq<char>, Seq<char>), Seq<u8>>,
    service: Seq<char>,
    user: Seq<char>,
)
    ensures
        !records.remove((service, user)).contains_key((service, user)),
{
}

/// Last commit wins.  The store serializes commits to one (service, user),
/// so a sequence of whole-envelope writes leaves exactly the envelope of
/// whichever write committed last, never a blend of two.
pub proof fn lemma_last_commit_wins(
    records: Map<(Seq<char>, Seq<char>), Seq<u8>>,
    written: (Seq<char>, Seq<char>),
    first: Seq<u8>,
    second: Seq<u8>,
)
    ensures
        records.insert(written, first).insert(written, second) == records.insert(written, second),
{
    assert(records.insert(written, first).insert(written, second) =~= records.insert(
        written,
        second,
    ));
}

/// Isolation.  Writing or deleting one (service, user) record leaves every
/// other pair's record — same service with another user, or another service
/// with the same user — exactly as it was.
pub proof fn lemma_isolation(
    records: Map<(Seq<char>, Seq<char>), Seq<u8>>,
    written: (Seq<char>, Seq<char>),
    other: (Seq<char>, Seq<char>),
    env: Seq<u8>,
)
    requires
        written != other,
    ensures
        records.insert(written, env).contains_key(other) == records.contains_key(other),
        records.contains_key(other) ==> records.insert(written, env)[other] == records[other],
        records.remove(written).contains_key(other) == records.contains_key(other),
        records.contains_key(other) ==> records.remove(written)[other] == records[other],
{
}

} // verus!
