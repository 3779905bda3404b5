//! An in-memory platform: one self-contained implementation of the
//! collaborator interface, with no real key store, cipher or disk behind it.
//!
//! This is what makes the envelope and lifecycle logic runnable and testable
//! without a device.  Its cipher is a stand-in, not cryptography: a tag
//! derived from the key identity and the IV is appended to the plaintext, so
//! that decrypting under the wrong key fails, exactly as the decryption
//! relation says.

use vstd::arithmetic::div_mod::{lemma_add_mod_noop, lemma_small_mod};
use vstd::prelude::*;
use vstd::slice::slice_to_vec;
use crate::envelope::IV_LEN;
use crate::errors::KeyringError;
use crate::platform::{KeyHandle, KeySpec, Platform};

verus! {

/// Length of the tag the in-memory cipher appends to a plaintext.
pub const MEM_TAG_LEN: usize = 16;

/// A key handle of the in-memory platform.
#[derive(Clone, Copy, Debug)]
pub struct MemKey {
    id: u64,
}

impl KeyHandle for MemKey {
    closed spec fn id(&self) -> nat {
        self.id as nat
    }
}

/// The sum of a byte sequence, as an unbounded integer.
pub open spec fn byte_sum(s: Seq<u8>) -> int
    decreases s.len(),
{
    if s.len() == 0 {
        0
    } else {
        byte_sum(s.drop_last()) + s.last()
    }
}

proof fn lemma_byte_sum_nonneg(s: Seq<u8>)
    ensures
        byte_sum(s) >= 0,
    decreases s.len(),
{
    if s.len() > 0 {
        lemma_byte_sum_nonneg(s.drop_last());
    }
}

/// The tag the in-memory cipher appends: sixteen bytes derived from the key
/// identity and the IV.
pub open spec fn mem_tag(key: nat, iv: Seq<u8>) -> Seq<u8> {
    Seq::new(MEM_TAG_LEN as nat, |i: int| (((key % 256) + (byte_sum(iv) % 256) + i) % 256) as u8)
}

/// The in-memory cipher's decryption relation: the ciphertext must end in
/// the tag for this key and IV, and the plaintext is what precedes the tag.
pub open spec fn mem_dec(key: nat, iv: Seq<u8>, ciphertext: Seq<u8>) -> Option<Seq<u8>> {
    if ciphertext.len() >= MEM_TAG_LEN && ciphertext.subrange(
        ciphertext.len() - MEM_TAG_LEN,
        ciphertext.len() as int,
    ) == mem_tag(key, iv) {
        Some(ciphertext.subrange(0, ciphertext.len() - MEM_TAG_LEN))
    } else {
        None
    }
}

// ---- the alias table: service name -> key identity ----

pub open spec fn alias_has(s: Seq<(String, u64)>, k: Seq<char>) -> bool {
    exists|i: int| 0 <= i < s.len() && #[trigger] s[i].0@ == k
}

pub open spec fn alias_at(s: Seq<(String, u64)>, k: Seq<char>) -> int {
    choose|i: int| 0 <= i < s.len() && #[trigger] s[i].0@ == k
}

/// The key map a sequence of alias entries stands for.
pub open spec fn alias_map(s: Seq<(String, u64)>) -> Map<Seq<char>, nat> {
    Map::new(|k: Seq<char>| alias_has(s, k), |k: Seq<char>| s[alias_at(s, k)].1 as nat)
}

pub open spec fn aliases_distinct(s: Seq<(String, u64)>) -> bool {
    forall|i: int, j: int| 0 <= i < j < s.len() ==> s[i].0@ != s[j].0@
}

proof fn lemma_alias_at_unique(s: Seq<(String, u64)>, i: int)
    requires
        aliases_distinct(s),
        0 <= i < s.len(),
    ensures
        alias_has(s, s[i].0@),
        alias_at(s, s[i].0@) == i,
        alias_map(s).contains_key(s[i].0@),
        alias_map(s)[s[i].0@] == s[i].1 as nat,
{
    let k = s[i].0@;
    assert(alias_has(s, k));
    let j = alias_at(s, k);
    assert(0 <= j < s.len() && s[j].0@ == k);
    if j < i {
        assert(s[j].0@ != s[i].0@);
    } else if i < j {
        assert(s[i].0@ != s[j].0@);
    }
}

proof fn lemma_alias_absent(s: Seq<(String, u64)>, k: Seq<char>)
    requires
        forall|i: int| 0 <= i < s.len() ==> #[trigger] s[i].0@ != k,
    ensures
        !alias_map(s).contains_key(k),
{
}

proof fn lemma_alias_push(s: Seq<(String, u64)>, name: String, v: u64)
    requires
        aliases_distinct(s),
        forall|i: int| 0 <= i < s.len() ==> #[trigger] s[i].0@ != name@,
    ensures
        aliases_distinct(s.push((name, v))),
        alias_map(s.push((name, v))) == alias_map(s).insert(name@, v as nat),
{
    let s2 = s.push((name, v));
    assert forall|i: int, j: int| 0 <= i < j < s2.len() implies s2[i].0@ != s2[j].0@ by {
        if j < s.len() {
            assert(s[i].0@ != s[j].0@);
        } else {
            assert(s2[j] == (name, v));
            assert(s[i].0@ != name@);
        }
    }
    assert forall|k: Seq<char>| true implies #[trigger] alias_map(s2).contains_key(k)
        == alias_map(s).insert(name@, v as nat).contains_key(k) by {
        if alias_has(s2, k) {
            let i = alias_at(s2, k);
            if i < s.len() {
                assert(alias_has(s, k));
            } else {
                assert(k == name@);
            }
        }
        if alias_has(s, k) {
            let i = alias_at(s, k);
            assert(s2[i].0@ == k);
            assert(alias_has(s2, k));
        }
        if k == name@ {
            assert(s2[s.len() as int].0@ == k);
            assert(alias_has(s2, k));
        }
    }
    assert forall|k: Seq<char>| alias_map(s2).contains_key(k) implies alias_map(s2)[k]
        == alias_map(s).insert(name@, v as nat)[k] by {
        if k == name@ {
            lemma_alias_at_unique(s2, s.len() as int);
        } else {
            let i = alias_at(s2, k);
            assert(0 <= i < s2.len() && s2[i].0@ == k);
            assert(i < s.len());
            lemma_alias_at_unique(s2, i);
            lemma_alias_at_unique(s, i);
        }
    }
    assert(alias_map(s2) =~= alias_map(s).insert(name@, v as nat));
}

proof fn lemma_alias_remove(s: Seq<(String, u64)>, i: int)
    requires
        aliases_distinct(s),
        0 <= i < s.len(),
    ensures
        aliases_distinct(s.remove(i)),
        alias_map(s.remove(i)) == alias_map(s).remove(s[i].0@),
{
    let k = s[i].0@;
    let s2 = s.remove(i);
    s.remove_ensures(i);
    assert forall|a: int, b: int| 0 <= a < b < s2.len() implies s2[a].0@ != s2[b].0@ by {
        let a0: int = if a < i { a } else { a + 1 };
        let b0: int = if b < i { b } else { b + 1 };
        assert(s2[a] == s[a0]);
        assert(s2[b] == s[b0]);
        assert(s[a0].0@ != s[b0].0@);
    }
    assert forall|q: Seq<char>| true implies #[trigger] alias_map(s2).contains_key(q)
        == alias_map(s).remove(k).contains_key(q) by {
        if alias_has(s2, q) {
            let a = alias_at(s2, q);
            let a0: int = if a < i { a } else { a + 1 };
            assert(s2[a] == s[a0]);
            assert(s[a0].0@ == q);
            assert(alias_has(s, q));
            lemma_alias_at_unique(s, i);
            if q == k {
                lemma_alias_at_unique(s, a0);
                assert(a0 == i);
                assert(false);
            }
        }
        if alias_has(s, q) && q != k {
            let a0 = alias_at(s, q);
            lemma_alias_at_unique(s, a0);
            assert(a0 != i);
            let a: int = if a0 < i { a0 } else { a0 - 1 };
            assert(s2[a] == s[a0]);
            assert(alias_has(s2, q));
        }
    }
    assert forall|q: Seq<char>| alias_map(s2).contains_key(q) implies alias_map(s2)[q]
        == alias_map(s).remove(k)[q] by {
        let a = alias_at(s2, q);
        assert(0 <= a < s2.len() && s2[a].0@ == q);
        let a0: int = if a < i { a } else { a + 1 };
        assert(s2[a] == s[a0]);
        lemma_alias_at_unique(s2, a);
        lemma_alias_at_unique(s, a0);
    }
    assert(alias_map(s2) =~= alias_map(s).remove(k));
}

// ---- the record table: (service, user) -> stored bytes ----

pub open spec fn entry_has(s: Seq<(String, String, Vec<u8>)>, k: (Seq<char>, Seq<char>)) -> bool {
    exists|i: int| 0 <= i < s.len() && #[trigger] s[i].0@ == k.0 && s[i].1@ == k.1
}

pub open spec fn entry_at(s: Seq<(String, String, Vec<u8>)>, k: (Seq<char>, Seq<char>)) -> int {
    choose|i: int| 0 <= i < s.len() && #[trigger] s[i].0@ == k.0 && s[i].1@ == k.1
}

/// The record map a sequence of store entries stands for.
pub open spec fn entry_map(s: Seq<(String, String, Vec<u8>)>) -> Map<
    (Seq<char>, Seq<char>),
    Seq<u8>,
> {
    Map::new(
        |k: (Seq<char>, Seq<char>)| entry_has(s, k),
        |k: (Seq<char>, Seq<char>)| s[entry_at(s, k)].2@,
    )
}

pub open spec fn entries_distinct(s: Seq<(String, String, Vec<u8>)>) -> bool {
    forall|i: int, j: int| 0 <= i < j < s.len() ==> (s[i].0@, s[i].1@) != (s[j].0@, s[j].1@)
}

proof fn lemma_entry_at_unique(s: Seq<(String, String, Vec<u8>)>, i: int)
    requires
        entries_distinct(s),
        0 <= i < s.len(),
    ensures
        entry_has(s, (s[i].0@, s[i].1@)),
        entry_at(s, (s[i].0@, s[i].1@)) == i,
        entry_map(s).contains_key((s[i].0@, s[i].1@)),
        entry_map(s)[(s[i].0@, s[i].1@)] == s[i].2@,
{
    let k = (s[i].0@, s[i].1@);
    assert((s[i].0@, s[i].1@) == k);
    assert(entry_has(s, k));
    let j = entry_at(s, k);
    assert(0 <= j < s.len() && (s[j].0@, s[j].1@) == k);
    if j < i {
        assert((s[j].0@, s[j].1@) != (s[i].0@, s[i].1@));
    } else if i < j {
        assert((s[i].0@, s[i].1@) != (s[j].0@, s[j].1@));
    }
}

proof fn lemma_entry_absent(s: Seq<(String, String, Vec<u8>)>, k: (Seq<char>, Seq<char>))
    requires
        forall|i: int| 0 <= i < s.len() ==> !((#[trigger] s[i].0@) == k.0 && s[i].1@ == k.1),
    ensures
        !entry_map(s).contains_key(k),
{
}

proof fn lemma_entry_push(s: Seq<(String, String, Vec<u8>)>, svc: String, usr: String, v: Vec<u8>)
    requires
        entries_distinct(s),
        forall|i: int| 0 <= i < s.len() ==> !((#[trigger] s[i].0@) == svc@ && s[i].1@ == usr@),
    ensures
        entries_distinct(s.push((svc, usr, v))),
        entry_map(s.push((svc, usr, v))) == entry_map(s).insert((svc@, usr@), v@),
{
    let s2 = s.push((svc, usr, v));
    assert forall|i: int, j: int| 0 <= i < j < s2.len() implies (s2[i].0@, s2[i].1@) != (
        s2[j].0@,
        s2[j].1@,
    ) by {
        if j < s.len() {
            assert((s[i].0@, s[i].1@) != (s[j].0@, s[j].1@));
        } else {
            assert(s2[j] == (svc, usr, v));
            assert((s[i].0@, s[i].1@) != (svc@, usr@));
        }
    }
    assert forall|k: (Seq<char>, Seq<char>)| true implies #[trigger] entry_map(s2).contains_key(k)
        == entry_map(s).insert((svc@, usr@), v@).contains_key(k) by {
        if entry_has(s2, k) {
            let i = entry_at(s2, k);
            if i < s.len() {
                assert((s[i].0@, s[i].1@) == k);
                assert(entry_has(s, k));
            } else {
                assert(k == (svc@, usr@));
            }
        }
        if entry_has(s, k) {
            let i = entry_at(s, k);
            assert((s2[i].0@, s2[i].1@) == k);
            assert(entry_has(s2, k));
        }
        if k == (svc@, usr@) {
            assert((s2[s.len() as int].0@, s2[s.len() as int].1@) == k);
            assert(entry_has(s2, k));
        }
    }
    assert forall|k: (Seq<char>, Seq<char>)| entry_map(s2).contains_key(k) implies entry_map(s2)[k]
        == entry_map(s).insert((svc@, usr@), v@)[k] by {
        if k == (svc@, usr@) {
            lemma_entry_at_unique(s2, s.len() as int);
        } else {
            let i = entry_at(s2, k);
            assert(0 <= i < s2.len() && (s2[i].0@, s2[i].1@) == k);
            assert(i < s.len());
            lemma_entry_at_unique(s2, i);
            lemma_entry_at_unique(s, i);
        }
    }
    assert(entry_map(s2) =~= entry_map(s).insert((svc@, usr@), v@));
}

proof fn lemma_entry_remove(s: Seq<(String, String, Vec<u8>)>, i: int)
    requires
        entries_distinct(s),
        0 <= i < s.len(),
    ensures
        entries_distinct(s.remove(i)),
        entry_map(s.remove(i)) == entry_map(s).remove((s[i].0@, s[i].1@)),
{
    let k = (s[i].0@, s[i].1@);
    let s2 = s.remove(i);
    s.remove_ensures(i);
    assert forall|a: int, b: int| 0 <= a < b < s2.len() implies (s2[a].0@, s2[a].1@) != (
        s2[b].0@,
        s2[b].1@,
    ) by {
        let a0: int = if a < i { a } else { a + 1 };
        let b0: int = if b < i { b } else { b + 1 };
        assert(s2[a] == s[a0]);
        assert(s2[b] == s[b0]);
        assert((s[a0].0@, s[a0].1@) != (s[b0].0@, s[b0].1@));
    }
    assert forall|q: (Seq<char>, Seq<char>)| true implies #[trigger] entry_map(s2).contains_key(q)
        == entry_map(s).remove(k).contains_key(q) by {
        if entry_has(s2, q) {
            let a = entry_at(s2, q);
            let a0: int = if a < i { a } else { a + 1 };
            assert(s2[a] == s[a0]);
            assert((s[a0].0@, s[a0].1@) == q);
            assert(entry_has(s, q));
            if q == k {
                lemma_entry_at_unique(s, a0);
                lemma_entry_at_unique(s, i);
                assert(a0 == i);
                assert(false);
            }
        }
        if entry_has(s, q) && q != k {
            let a0 = entry_at(s, q);
            lemma_entry_at_unique(s, a0);
            assert(a0 != i);
            let a: int = if a0 < i { a0 } else { a0 - 1 };
            assert(s2[a] == s[a0]);
            assert(entry_has(s2, q));
        }
    }
    assert forall|q: (Seq<char>, Seq<char>)| entry_map(s2).contains_key(q) implies entry_map(
        s2,
    )[q] == entry_map(s).remove(k)[q] by {
        let a = entry_at(s2, q);
        assert(0 <= a < s2.len() && (s2[a].0@, s2[a].1@) == q);
        let a0: int = if a < i { a } else { a + 1 };
        assert(s2[a] == s[a0]);
        lemma_entry_at_unique(s2, a);
        lemma_entry_at_unique(s, a0);
    }
    assert(entry_map(s2) =~= entry_map(s).remove(k));
}

// ---- the platform itself ----

/// The in-memory platform state: provisioned aliases, a counter for fresh
/// key identities, a counter that varies the IVs, and the stored records.
pub struct MemoryBackend {
    aliases: Vec<(String, u64)>,
    next_key_id: u64,
    iv_counter: u8,
    entries: Vec<(String, String, Vec<u8>)>,
}

impl MemoryBackend {
    /// An empty platform: no keys provisioned, no records stored.
    pub fn new() -> (r: MemoryBackend)
        ensures
            r.wf(),
            r.keys() == Map::<Seq<char>, nat>::empty(),
            r.records() == Map::<(Seq<char>, Seq<char>), Seq<u8>>::empty(),
    {
        let r = MemoryBackend {
            aliases: Vec::new(),
            next_key_id: 0,
            iv_counter: 0,
            entries: Vec::new(),
        };
        proof {
            assert(r.keys() =~= Map::<Seq<char>, nat>::empty());
            assert(r.records() =~= Map::<(Seq<char>, Seq<char>), Seq<u8>>::empty());
        }
        r
    }

    /// The position of the alias entry for this service, if one exists.
    fn find_alias(&self, service: &str) -> (r: Option<usize>)
        requires
            self.wf(),
        ensures
            match r {
                Some(i) => i < self.aliases@.len() && self.aliases@[i as int].0@ == service@,
                None => !self.keys().contains_key(service@),
            },
    {
        let svc = service.to_owned();
        let n = self.aliases.len();
        let mut i: usize = 0;
        while i < n
            invariant
                n == self.aliases@.len(),
                i <= n,
                svc@ == service@,
                forall|m: int| 0 <= m < i ==> #[trigger] self.aliases@[m].0@ != service@,
            decreases n - i,
        {
            if self.aliases[i].0 == svc {
                return Some(i);
            }
            i = i + 1;
        }
        proof {
            lemma_alias_absent(self.aliases@, service@);
        }
        None
    }

    /// The position of the record entry for this (service, user), if one
    /// exists.
    fn find_entry(&self, service: &str, user: &str) -> (r: Option<usize>)
        requires
            self.wf(),
        ensures
            match r {
                Some(i) => i < self.entries@.len() && self.entries@[i as int].0@ == service@
                    && self.entries@[i as int].1@ == user@,
                None => !self.records().contains_key((service@, user@)),
            },
    {
        let svc = service.to_owned();
        let usr = user.to_owned();
        let n = self.entries.len();
        let mut i: usize = 0;
        while i < n
            invariant
                n == self.entries@.len(),
                i <= n,
                svc@ == service@,
                usr@ == user@,
                forall|m: int|
                    0 <= m < i ==> !((#[trigger] self.entries@[m].0@) == service@
                        && self.entries@[m].1@ == user@),
            decreases n - i,
        {
            if self.entries[i].0 == svc && self.entries[i].1 == usr {
                return Some(i);
            }
            i = i + 1;
        }
        proof {
            lemma_entry_absent(self.entries@, (service@, user@));
        }
        None
    }
}

/// The byte sum of a slice, reduced modulo 256.
fn byte_sum_mod(bytes: &[u8]) -> (r: u64)
    ensures
        r == byte_sum(bytes@) % 256,
        r < 256,
{
    let n = bytes.len();
    let mut acc: u64 = 0;
    let mut i: usize = 0;
    while i < n
        invariant
            n == bytes@.len(),
            i <= n,
            acc < 256,
            acc == byte_sum(bytes@.take(i as int)) % 256,
        decreases n - i,
    {
        let b = bytes[i];
        proof {
            assert(bytes@.take(i + 1).drop_last() =~= bytes@.take(i as int));
            assert(bytes@.take(i + 1).last() == bytes@[i as int]);
            lemma_byte_sum_nonneg(bytes@.take(i as int));
            lemma_add_mod_noop(byte_sum(bytes@.take(i as int)), b as int, 256);
            lemma_small_mod(b as nat, 256);
        }
        acc = (acc + (b as u64)) % 256;
        i = i + 1;
    }
    proof {
        assert(bytes@.take(bytes@.len() as int) =~= bytes@);
    }
    acc
}

/// The in-memory cipher's tag for a key identity and IV.
fn mem_tag_exec(key_id: u64, iv: &[u8]) -> (r: Vec<u8>)
    ensures
        r@ == mem_tag(key_id as nat, iv@),
{
    let sm = byte_sum_mod(iv);
    let k8 = key_id % 256;
    let mut r: Vec<u8> = Vec::new();
    let mut i: usize = 0;
    while i < MEM_TAG_LEN
        invariant
            sm == byte_sum(iv@) % 256,
            sm < 256,
            k8 == key_id as nat % 256,
            k8 < 256,
            i <= MEM_TAG_LEN,
            r@.len() == i,
            forall|j: int| 0 <= j < i ==> r@[j] == mem_tag(key_id as nat, iv@)[j],
        decreases MEM_TAG_LEN - i,
    {
        let b = ((k8 + sm + (i as u64)) % 256) as u8;
        r.push(b);
        i = i + 1;
    }
    proof {
        assert(r@ =~= mem_tag(key_id as nat, iv@));
    }
    r
}

impl Platform for MemoryBackend {
    type Key = MemKey;

    closed spec fn wf(&self) -> bool {
        aliases_distinct(self.aliases@) && entries_distinct(self.entries@)
    }

    closed spec fn keys(&self) -> Map<Seq<char>, nat> {
        alias_map(self.aliases@)
    }

    closed spec fn records(&self) -> Map<(Seq<char>, Seq<char>), Seq<u8>> {
        entry_map(self.entries@)
    }

    open spec fn dec(key: nat, iv: Seq<u8>, ciphertext: Seq<u8>) -> Option<Seq<u8>> {
        mem_dec(key, iv, ciphertext)
    }

    fn get_key(&self, service: &str) -> (r: Result<Option<MemKey>, KeyringError>) {
        match self.find_alias(service) {
            Some(i) => {
                proof {
                    lemma_alias_at_unique(self.aliases@, i as int);
                }
                Ok(Some(MemKey { id: self.aliases[i].1 }))
            },
            None => Ok(None),
        }
    }

    fn generate_key(&mut self, service: &str, kspec: &KeySpec) -> (r: Result<
        MemKey,
        KeyringError,
    >) {
        if self.next_key_id == u64::MAX {
            return Err(KeyringError::PlatformFailure("key identities exhausted".to_owned()));
        }
        let ghost orig = self.aliases@;
        let id = self.next_key_id;
        self.next_key_id = id + 1;
        match self.find_alias(service) {
            Some(i) => {
                proof {
                    lemma_alias_at_unique(self.aliases@, i as int);
                    lemma_alias_remove(self.aliases@, i as int);
                }
                let ghost before = self.aliases@;
                let _ = self.aliases.remove(i);
                proof {
                    assert forall|m: int|
                        0 <= m < self.aliases@.len() implies #[trigger] self.aliases@[m].0@
                        != service@ by {
                        before.remove_ensures(i as int);
                        let m0: int = if m < i { m } else { m + 1 };
                        assert(self.aliases@[m] == before[m0]);
                        if self.aliases@[m].0@ == service@ {
                            lemma_alias_at_unique(before, m0);
                            lemma_alias_at_unique(before, i as int);
                            assert(m0 == i as int);
                            assert(false);
                        }
                    }
                }
                let ghost middle = self.aliases@;
                self.aliases.push((service.to_owned(), id));
                proof {
                    let e = self.aliases@.last();
                    assert(self.aliases@ == middle.push(e));
                    assert(e.0@ == service@ && e.1 == id);
                    lemma_alias_push(middle, e.0, e.1);
                    assert(alias_map(self.aliases@) =~= alias_map(orig).insert(
                        service@,
                        id as nat,
                    ));
                }
                Ok(MemKey { id })
            },
            None => {
                let ghost middle = self.aliases@;
                self.aliases.push((service.to_owned(), id));
                proof {
                    assert forall|m: int|
                        0 <= m < middle.len() implies #[trigger] middle[m].0@ != service@ by {
                        if middle[m].0@ == service@ {
                            lemma_alias_at_unique(middle, m);
                            assert(alias_map(middle).contains_key(service@));
                            assert(false);
                        }
                    }
                    let e = self.aliases@.last();
                    assert(self.aliases@ == middle.push(e));
                    assert(e.0@ == service@ && e.1 == id);
                    lemma_alias_push(middle, e.0, e.1);
                }
                Ok(MemKey { id })
            },
        }
    }

    fn encrypt(&mut self, key: &MemKey, plaintext: &[u8]) -> (r: Result<
        (Vec<u8>, Vec<u8>),
        KeyringError,
    >) {
        let mut iv: Vec<u8> = Vec::new();
        iv.push(self.iv_counter);
        let mut z: usize = 1;
        while z < IV_LEN
            invariant
                1 <= z <= IV_LEN,
                iv@.len() == z,
            decreases IV_LEN - z,
        {
            iv.push(0u8);
            z = z + 1;
        }
        self.iv_counter = if self.iv_counter == 255 {
            0
        } else {
            self.iv_counter + 1
        };
        let mut ct: Vec<u8> = slice_to_vec(plaintext);
        let mut tag = mem_tag_exec(key.id, iv.as_slice());
        ct.append(&mut tag);
        proof {
            let c = ct@;
            let t = mem_tag(key.id as nat, iv@);
            assert(c.len() == plaintext@.len() + MEM_TAG_LEN);
            assert(c.subrange(c.len() - MEM_TAG_LEN, c.len() as int) =~= t);
            assert(c.subrange(0, c.len() - MEM_TAG_LEN) =~= plaintext@);
        }
        Ok((iv, ct))
    }

    fn decrypt(&self, key: &MemKey, iv: &[u8], ciphertext: &[u8]) -> (r: Option<Vec<u8>>) {
        let n = ciphertext.len();
        if n < MEM_TAG_LEN {
            return None;
        }
        let tag = mem_tag_exec(key.id, iv);
        let start = n - MEM_TAG_LEN;
        let mut i: usize = 0;
        while i < MEM_TAG_LEN
            invariant
                n == ciphertext@.len(),
                n >= MEM_TAG_LEN,
                start == n - MEM_TAG_LEN,
                tag@ == mem_tag(key.id as nat, iv@),
                i <= MEM_TAG_LEN,
                forall|j: int| 0 <= j < i ==> ciphertext@[start + j] == tag@[j],
            decreases MEM_TAG_LEN - i,
        {
            if ciphertext[start + i] != tag[i] {
                proof {
                    let c = ciphertext@;
                    let sub = c.subrange(c.len() - MEM_TAG_LEN, c.len() as int);
                    assert(sub[i as int] == c[start + i]);
                    assert(sub != tag@);
                }
                return None;
            }
            i = i + 1;
        }
        proof {
            let c = ciphertext@;
            assert(c.subrange(c.len() - MEM_TAG_LEN, c.len() as int) =~= tag@);
        }
        let body = slice_subrange_to_vec(ciphertext, 0, start);
        Some(body)
    }

    fn get_record(&self, service: &str, user: &str) -> (r: Result<Option<Vec<u8>>, KeyringError>) {
        match self.find_entry(service, user) {
            Some(i) => {
                proof {
                    lemma_entry_at_unique(self.entries@, i as int);
                }
                let v = clone_bytes(&self.entries[i].2);
                Ok(Some(v))
            },
            None => Ok(None),
        }
    }

    fn put_record(&mut self, service: &str, user: &str, value: &[u8]) -> (r: Result<
        (),
        KeyringError,
    >) {
        let ghost orig = self.entries@;
        match self.find_entry(service, user) {
            Some(i) => {
                proof {
                    lemma_entry_at_unique(self.entries@, i as int);
                    lemma_entry_remove(self.entries@, i as int);
                }
                let ghost before = self.entries@;
                let _ = self.entries.remove(i);
                proof {
                    assert forall|m: int|
                        0 <= m < self.entries@.len() implies !((#[trigger] self.entries@[m].0@)
                        == service@ && self.entries@[m].1@ == user@) by {
                        before.remove_ensures(i as int);
                        let m0: int = if m < i { m } else { m + 1 };
                        assert(self.entries@[m] == before[m0]);
                        if (self.entries@[m].0@, self.entries@[m].1@) == (service@, user@) {
                            lemma_entry_at_unique(before, m0);
                            lemma_entry_at_unique(before, i as int);
                            assert(m0 == i as int);
                            assert(false);
                        }
                    }
                }
                let ghost middle = self.entries@;
                self.entries.push((service.to_owned(), user.to_owned(), slice_to_vec(value)));
                proof {
                    let e = self.entries@.last();
                    assert(self.entries@ == middle.push(e));
                    assert(e.0@ == service@ && e.1@ == user@ && e.2@ == value@);
                    lemma_entry_push(middle, e.0, e.1, e.2);
                    assert(entry_map(self.entries@) =~= entry_map(orig).insert(
                        (service@, user@),
                        value@,
                    ));
                }
                Ok(())
            },
            None => {
                let ghost middle = self.entries@;
                self.entries.push((service.to_owned(), user.to_owned(), slice_to_vec(value)));
                proof {
                    assert forall|m: int|
                        0 <= m < middle.len() implies !((#[trigger] middle[m].0@) == service@
                        && middle[m].1@ == user@) by {
                        if (middle[m].0@, middle[m].1@) == (service@, user@) {
                            lemma_entry_at_unique(middle, m);
                            assert(entry_map(middle).contains_key((service@, user@)));
                            assert(false);
                        }
                    }
                    let e = self.entries@.last();
                    assert(self.entries@ == middle.push(e));
                    assert(e.0@ == service@ && e.1@ == user@ && e.2@ == value@);
                    lemma_entry_push(middle, e.0, e.1, e.2);
                }
                Ok(())
            },
        }
    }

    fn remove_record(&mut self, service: &str, user: &str) -> (r: Result<(), KeyringError>) {
        match self.find_entry(service, user) {
            Some(i) => {
                proof {
                    lemma_entry_at_unique(self.entries@, i as int);
                    lemma_entry_remove(self.entries@, i as int);
                }
                let _ = self.entries.remove(i);
                Ok(())
            },
            None => {
                proof {
                    assert(self.records() =~= self.records().remove((service@, user@)));
                }
                Ok(())
            },
        }
    }
}

/// A copy of a byte vector.
fn clone_bytes(v: &Vec<u8>) -> (r: Vec<u8>)
    ensures
        r@ == v@,
{
    slice_to_vec(v.as_slice())
}

/// A copy of the first `to` bytes of a slice.
fn slice_subrange_to_vec(s: &[u8], from: usize, to: usize) -> (r: Vec<u8>)
    requires
        from <= to <= s@.len(),
    ensures
        r@ == s@.subrange(from as int, to as int),
{
    let mut r: Vec<u8> = Vec::new();
    let mut i: usize = from;
    while i < to
        invariant
            from <= i <= to <= s@.len(),
            r@ == s@.subrange(from as int, i as int),
        decreases to - i,
    {
        r.push(s[i]);
        assert(r@ =~= s@.subrange(from as int, i + 1));
        i = i + 1;
    }
    r
}

} // verus!
