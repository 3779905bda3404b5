//! The store: the factory that hands out credential handles.
//!
//! The store accepts zero configuration on purpose: asking for any option is
//! a usage error, reported as `NotSupportedByStore`.  Building a credential
//! has no side effect; all provisioning happens lazily on the credential's
//! first operation.

use std::collections::HashMap;
use vstd::prelude::*;
use vstd::string::{StrSliceExecFns, StringExecFns};
use crate::cred::Cred;
use crate::errors::KeyringError;

verus! {

/// The decimal digit character for a value below ten.
pub open spec fn digit_char(d: nat) -> char {
    if d == 0 {
        '0'
    } else if d == 1 {
        '1'
    } else if d == 2 {
        '2'
    } else if d == 3 {
        '3'
    } else if d == 4 {
        '4'
    } else if d == 5 {
        '5'
    } else if d == 6 {
        '6'
    } else if d == 7 {
        '7'
    } else if d == 8 {
        '8'
    } else {
        '9'
    }
}

/// The decimal digit string of a natural number, most significant first.
pub open spec fn decimal_digits(n: nat) -> Seq<char>
    decreases n,
{
    if n < 10 {
        seq![digit_char(n)]
    } else {
        decimal_digits(n / 10).push(digit_char(n % 10))
    }
}

/// A decimal digit string is never empty.
pub proof fn lemma_decimal_digits_len(n: nat)
    ensures
        decimal_digits(n).len() >= 1,
    decreases n,
{
    if n >= 10 {
        lemma_decimal_digits_len(n / 10);
    }
}

fn digit_str(d: u64) -> (r: &'static str)
    requires
        d < 10,
    ensures
        r@ == seq![digit_char(d as nat)],
{
    let s: &'static str = if d == 0 {
        "0"
    } else if d == 1 {
        "1"
    } else if d == 2 {
        "2"
    } else if d == 3 {
        "3"
    } else if d == 4 {
        "4"
    } else if d == 5 {
        "5"
    } else if d == 6 {
        "6"
    } else if d == 7 {
        "7"
    } else if d == 8 {
        "8"
    } else {
        "9"
    };
    proof {
        reveal_strlit("0");
        reveal_strlit("1");
        reveal_strlit("2");
        reveal_strlit("3");
        reveal_strlit("4");
        reveal_strlit("5");
        reveal_strlit("6");
        reveal_strlit("7");
        reveal_strlit("8");
        reveal_strlit("9");
        assert(s@ =~= seq![digit_char(d as nat)]);
    }
    s
}

/// Writes a number in decimal.
pub fn u64_to_decimal(n: u64) -> (r: String)
    ensures
        r@ == decimal_digits(n as nat),
    decreases n,
{
    if n < 10 {
        digit_str(n).to_owned()
    } else {
        let mut s = u64_to_decimal(n / 10);
        s.append(digit_str(n % 10));
        s
    }
}

/// Relies on std::time::SystemTime for the moment of the call: seconds and
/// nanoseconds between the clock and the Unix epoch, on whichever side of it
/// the clock stands.  Nothing more can be promised of a clock reading.
#[verifier::external_body]
fn unix_time_now() -> (r: (u64, u32))
    ensures
        r.1 < 1_000_000_000,
{
    let now = std::time::SystemTime::now();
    let d = match now.duration_since(std::time::UNIX_EPOCH) {
        Ok(d) => d,
        Err(e) => e.duration(),
    };
    (d.as_secs(), d.subsec_nanos())
}

/// An identifier for one store instance within a process: the crate version
/// and the moment of instantiation.
pub fn generate_instance_id() -> (r: String)
    ensures
        ({
            let p = "Crate version 0.1.0, Instantiated at "@;
            r@.len() > p.len() && r@.subrange(0, p.len() as int) == p
        }),
{
    let t = unix_time_now();
    let mut s = "Crate version 0.1.0, Instantiated at ".to_owned();
    let secs = u64_to_decimal(t.0);
    s.append(secs.as_str());
    s.append(".");
    let nanos = u64_to_decimal(t.1 as u64);
    s.append(nanos.as_str());
    proof {
        lemma_decimal_digits_len(t.0 as nat);
        let p = "Crate version 0.1.0, Instantiated at "@;
        assert(s@.subrange(0, p.len() as int) =~= p);
    }
    s
}

/// The factory bound to the shared platform handle; owns no per-credential
/// state.
#[derive(Clone, Debug)]
pub struct Store {
    /// Identifies this store instance within the process.
    pub instance_id: String,
}

impl Store {
    /// A store with a fresh instance identifier.
    pub fn new() -> (r: Store)
        ensures
            r.instance_id@.len() > 0,
    {
        Store { instance_id: generate_instance_id() }
    }

    /// A store, provided the caller asked for no configuration: this store
    /// accepts none, and reports any as `NotSupportedByStore`.
    pub fn new_with_configuration(configuration: &HashMap<&str, &str>) -> (r: Result<
        Store,
        KeyringError,
    >)
        ensures
            match r {
                Ok(s) => s.instance_id@.len() > 0 && configuration@.is_empty(),
                Err(e) => e is NotSupportedByStore && !configuration@.is_empty(),
            },
    {
        if !configuration.is_empty() {
            return Err(
                KeyringError::NotSupportedByStore(
                    "The Android Keyring Store does not support configuration options".to_owned(),
                ),
            );
        }
        Ok(Store::new())
    }

    /// The vendor this store identifies itself as.
    pub fn vendor(&self) -> (r: String)
        ensures
            r@ == "Android SharedPreferences/KeyStore"@,
    {
        "Android SharedPreferences/KeyStore".to_owned()
    }

    /// The identifier of this store instance.
    pub fn id(&self) -> (r: String)
        ensures
            r@ == self.instance_id@,
    {
        self.instance_id.clone()
    }

    /// Binds a credential handle for (service, user).  Creation-time
    /// modifiers must be absent or empty: this store supports none.
    pub fn build(&self, service: &str, user: &str, modifiers: Option<&HashMap<&str, &str>>) -> (r:
        Result<Cred, KeyringError>)
        ensures
            match r {
                Ok(c) => c.service@ == service@ && c.user@ == user@ && (modifiers matches Some(m)
                    ==> m@.is_empty()),
                Err(e) => e is NotSupportedByStore && (modifiers matches Some(m)
                    && !m@.is_empty()),
            },
    {
        if let Some(m) = modifiers {
            if !m.is_empty() {
                return Err(
                    KeyringError::NotSupportedByStore(
                        "The Android Keyring Store does not support creation modifiers".to_owned(),
                    ),
                );
            }
        }
        Ok(Cred::new(service, user))
    }
}

} // verus!
