//! A simulated secure element: PIN-gated key slots holding Ed25519 seeds.
//! Persistence is left to the caller, through `to_stored` and `from_stored`.
use crate::crypto::{
    ed25519_public_key, ed25519_public_key_of, ed25519_sign, ed25519_signature_of, sha256,
    sha256_of,
};
use crate::hal::HalError;
use crate::text::{bytes_equal, decimal, decimal_string};
use vstd::prelude::*;
use vstd::slice::slice_to_vec;

verus! {

broadcast use vstd::std_specs::hash::group_hash_axioms;

/// Number of key slots: one per `u8`.
pub const SLOT_COUNT: usize = 256;

/// Length of a seed.
pub const SEED_LEN: usize = 32;

/// Simulated secure element: the PIN's digest, the seed of each populated
/// slot, and whether this session has verified the PIN.
pub struct SimSecureElement {
    pin_hash: Option<Vec<u8>>,
    keys: std::collections::HashMap<u8, Vec<u8>>,
    pin_verified: bool,
}

/// Mathematical model of the secure element.
pub struct SeView {
    pub pin_hash: Option<Seq<u8>>,
    pub keys: Map<u8, Seq<u8>>,
    pub pin_verified: bool,
}

impl View for SimSecureElement {
    type V = SeView;

    closed spec fn view(&self) -> SeView {
        SeView {
            pin_hash: match self.pin_hash {
                Some(h) => Some(h@),
                None => None,
            },
            keys: Map::new(|s: u8| self.keys@.contains_key(s), |s: u8| self.keys@[s]@),
            pin_verified: self.pin_verified,
        }
    }
}

/// `r` failed with a storage error carrying `msg`.
pub open spec fn storage_error<T>(r: Result<T, HalError>, msg: Seq<char>) -> bool {
    r matches Err(HalError::Storage(m)) && m@ == msg
}

/// The message for an empty slot.
pub open spec fn no_key_message(slot: u8) -> Seq<char> {
    "no key in slot "@ + decimal(slot as nat)
}

/// Relies on `RngCore::try_fill_bytes` of `rand::rngs::OsRng`: 32 bytes from
/// the operating system's random source, or `None` where that source fails.
#[verifier::external_body]
fn random_seed() -> (r: Option<Vec<u8>>)
    ensures
        r matches Some(seed) ==> seed@.len() == SEED_LEN,
{
    let mut seed = [0u8; 32];
    match rand::RngCore::try_fill_bytes(&mut rand::rngs::OsRng, &mut seed) {
        Ok(()) => Some(seed.to_vec()),
        Err(_) => None,
    }
}

impl SimSecureElement {
    /// One seed slot per `u8`, each seed 32 bytes long.
    pub closed spec fn wf(&self) -> bool {
        forall|s: u8| #[trigger] self.keys@.contains_key(s) ==> self.keys@[s]@.len() == SEED_LEN
    }

    /// An unprovisioned element: no PIN, no keys, no session.
    pub fn create_empty() -> (se: Self)
        ensures
            se.wf(),
            se@.pin_hash is None,
            se@.keys == Map::<u8, Seq<u8>>::empty(),
            !se@.pin_verified,
    {
        let keys: std::collections::HashMap<u8, Vec<u8>> = std::collections::HashMap::new();
        let se = SimSecureElement { pin_hash: None, keys, pin_verified: false };
        assert(se@.keys =~= Map::<u8, Seq<u8>>::empty());
        se
    }

    fn require_pin(&self) -> (r: Result<(), HalError>)
        ensures
            r is Ok <==> self@.pin_verified,
            !self@.pin_verified ==> storage_error(r, "PIN not verified"@),
    {
        if !self.pin_verified {
            return Err(HalError::Storage(String::from_str("PIN not verified")));
        }
        Ok(())
    }

    fn seed_of(&self, slot: u8) -> (r: Result<&Vec<u8>, HalError>)
        requires
            self.wf(),
        ensures
            r is Ok <==> self@.keys.contains_key(slot),
            r matches Ok(seed) ==> seed@ == self@.keys[slot] && seed@.len() == SEED_LEN,
            !self@.keys.contains_key(slot) ==> storage_error(r, no_key_message(slot)),
    {
        match self.keys.get(&slot) {
            Some(seed) => Ok(seed),
            None => {
                let mut msg = String::from_str("no key in slot ");
                msg.append(decimal_string(slot as usize).as_str());
                Err(HalError::Storage(msg))
            },
        }
    }

    /// Whether a PIN has been set.
    pub fn is_provisioned(&self) -> (r: bool)
        ensures
            r == self@.pin_hash is Some,
    {
        self.pin_hash.is_some()
    }

    /// Sets the PIN, keeping only its SHA-256 digest; refused once a PIN is set.
    pub fn set_pin(&mut self, pin: &[u8]) -> (r: Result<(), HalError>)
        requires
            old(self).wf(),
        ensures
            final(self).wf(),
            old(self)@.pin_hash is Some ==> (storage_error(r, "PIN already set"@) && final(self)@
                == old(self)@),
            old(self)@.pin_hash is None ==> (r is Ok && final(self)@ == (SeView {
                pin_hash: Some(sha256_of(pin@)),
                ..old(self)@
            })),
    {
        if self.pin_hash.is_some() {
            return Err(HalError::Storage(String::from_str("PIN already set")));
        }
        self.pin_hash = Some(sha256(pin));
        Ok(())
    }

    /// Compares the PIN's digest with the stored one; success opens the
    /// session, failure closes it.
    pub fn verify_pin(&mut self, pin: &[u8]) -> (r: Result<(), HalError>)
        requires
            old(self).wf(),
        ensures
            final(self).wf(),
            final(self)@.pin_hash == old(self)@.pin_hash,
            final(self)@.keys == old(self)@.keys,
            old(self)@.pin_hash is None ==> (storage_error(r, "no PIN set"@)
                && final(self)@.pin_verified == old(self)@.pin_verified),
            old(self)@.pin_hash matches Some(h) ==> (r is Ok <==> h == sha256_of(pin@)),
            old(self)@.pin_hash matches Some(h) ==> final(self)@.pin_verified == (h == sha256_of(
                pin@,
            )),
            old(self)@.pin_hash matches Some(h) && h != sha256_of(pin@) ==> storage_error(
                r,
                "wrong PIN"@,
            ),
    {
        let stored = match &self.pin_hash {
            Some(h) => h,
            None => return Err(HalError::Storage(String::from_str("no PIN set"))),
        };
        let hash = sha256(pin);
        if !bytes_equal(hash.as_slice(), stored.as_slice()) {
            self.pin_verified = false;
            return Err(HalError::Storage(String::from_str("wrong PIN")));
        }
        self.pin_verified = true;
        Ok(())
    }

    /// Stores `seed` in `slot` and returns its public key; requires a
    /// verified session and a 32-byte seed.
    pub fn import_key(&mut self, slot: u8, seed: &[u8]) -> (r: Result<Vec<u8>, HalError>)
        requires
            old(self).wf(),
        ensures
            final(self).wf(),
            r is Ok <==> old(self)@.pin_verified && seed@.len() == SEED_LEN,
            !old(self)@.pin_verified ==> storage_error(r, "PIN not verified"@),
            old(self)@.pin_verified && seed@.len() != SEED_LEN ==> storage_error(
                r,
                "seed must be 32 bytes"@,
            ),
            r is Err ==> final(self)@ == old(self)@,
            r matches Ok(pk) ==> pk@ == ed25519_public_key_of(seed@) && pk@.len() == 32 && final(self)@ == (SeView {
                keys: old(self)@.keys.insert(slot, seed@),
                ..old(self)@
            }),
    {
        self.require_pin()?;
        if seed.len() != SEED_LEN {
            return Err(HalError::Storage(String::from_str("seed must be 32 bytes")));
        }
        self.keys.insert(slot, slice_to_vec(seed));
        assert(self@.keys =~= old(self)@.keys.insert(slot, seed@));
        Ok(ed25519_public_key(seed))
    }

    /// Generates a fresh random seed in `slot` and returns its public key;
    /// requires a verified session.
    pub fn generate_key(&mut self, slot: u8) -> (r: Result<Vec<u8>, HalError>)
        requires
            old(self).wf(),
        ensures
            final(self).wf(),
            r is Ok ==> old(self)@.pin_verified,
            !old(self)@.pin_verified ==> storage_error(r, "PIN not verified"@),
            old(self)@.pin_verified && r is Err ==> storage_error(r, "random source failed"@),
            r is Err ==> final(self)@ == old(self)@,
            r matches Ok(pk) ==> pk@.len() == 32 && exists|seed: Seq<u8>|
                seed.len() == SEED_LEN && pk@ == ed25519_public_key_of(seed) && final(self)@ == (
                SeView { keys: old(self)@.keys.insert(slot, seed), ..old(self)@ }),
    {
        self.require_pin()?;
        match random_seed() {
            Some(seed) => self.import_key(slot, seed.as_slice()),
            None => Err(HalError::Storage(String::from_str("random source failed"))),
        }
    }

    /// Signs `hash` with the key in `slot`; requires a verified session and a
    /// populated slot.
    pub fn sign(&mut self, slot: u8, hash: &[u8]) -> (r: Result<Vec<u8>, HalError>)
        requires
            old(self).wf(),
        ensures
            final(self)@ == old(self)@,
            final(self).wf(),
            r is Ok <==> old(self)@.pin_verified && old(self)@.keys.contains_key(slot),
            !old(self)@.pin_verified ==> storage_error(r, "PIN not verified"@),
            old(self)@.pin_verified && !old(self)@.keys.contains_key(slot) ==> storage_error(
                r,
                no_key_message(slot),
            ),
            r matches Ok(sig) ==> sig@ == ed25519_signature_of(old(self)@.keys[slot], hash@)
                && sig@.len() == 64,
    {
        self.require_pin()?;
        let seed = self.seed_of(slot)?;
        Ok(ed25519_sign(seed.as_slice(), hash))
    }

    /// The public key of `slot`; needs no verified session.
    pub fn public_key(&self, slot: u8) -> (r: Result<Vec<u8>, HalError>)
        requires
            self.wf(),
        ensures
            r is Ok <==> self@.keys.contains_key(slot),
            !self@.keys.contains_key(slot) ==> storage_error(r, no_key_message(slot)),
            r matches Ok(pk) ==> pk@ == ed25519_public_key_of(self@.keys[slot]) && pk@.len() == 32,
    {
        let seed = self.seed_of(slot)?;
        Ok(ed25519_public_key(seed.as_slice()))
    }

    /// The seed of `slot`, for backup during provisioning.
    pub fn export_seed(&self, slot: u8) -> (r: Result<Vec<u8>, HalError>)
        requires
            self.wf(),
        ensures
            r is Ok <==> self@.keys.contains_key(slot),
            !self@.keys.contains_key(slot) ==> storage_error(r, no_key_message(slot)),
            r matches Ok(seed) ==> seed@ == self@.keys[slot],
    {
        let seed = self.seed_of(slot)?;
        Ok(seed.clone())
    }
}

/// The persisted form of a secure element: the PIN digest and each slot's
/// seed in lowercase hex, slots as decimal numerals.
pub struct StoredKeystore {
    pub pin_hash: Option<String>,
    pub keys: Vec<(String, String)>,
}

/// The lowercase hex digits.
pub open spec fn hex_digits() -> Seq<char> {
    "0123456789abcdef"@
}

/// The lowercase hex text of bytes, two digits per byte, high digit first.
pub open spec fn hex_text(b: Seq<u8>) -> Seq<char>
    decreases b.len(),
{
    if b.len() == 0 {
        Seq::empty()
    } else {
        hex_text(b.drop_last()) + seq![
            hex_digits()[b.last() as int / 16],
            hex_digits()[b.last() as int % 16],
        ]
    }
}

/// The value of a hex digit, in either case.
pub open spec fn hex_value(c: char) -> Option<nat> {
    if '0' <= c <= '9' {
        Some((c as u32 - '0' as u32) as nat)
    } else if 'a' <= c <= 'f' {
        Some((c as u32 - 'a' as u32 + 10) as nat)
    } else if 'A' <= c <= 'F' {
        Some((c as u32 - 'A' as u32 + 10) as nat)
    } else {
        None
    }
}

/// The bytes that hex text denotes: an even number of hex digits, two per
/// byte, high digit first.
pub open spec fn hex_decoded(s: Seq<char>) -> Option<Seq<u8>> {
    if s.len() % 2 == 0 && forall|i: int| 0 <= i < s.len() ==> (#[trigger] hex_value(s[i])) is Some {
        Some(
            Seq::new(
                s.len() / 2,
                |i: int| (hex_value(s[2 * i])->0 * 16 + hex_value(s[2 * i + 1])->0) as u8,
            ),
        )
    } else {
        None
    }
}

/// Whether every character is an ASCII decimal digit.
pub open spec fn all_digits(d: Seq<char>) -> bool {
    forall|i: int| 0 <= i < d.len() ==> '0' <= #[trigger] d[i] <= '9'
}

/// The value of a string of ASCII decimal digits.
pub open spec fn digits_value(d: Seq<char>) -> nat
    decreases d.len(),
{
    if d.len() == 0 {
        0
    } else {
        (digits_value(d.drop_last()) * 10 + (d.last() as u32 - '0' as u32)) as nat
    }
}

/// The `u8` that text denotes: an optional `+`, then one or more ASCII
/// digits whose value is at most 255.
pub open spec fn parsed_u8(s: Seq<char>) -> Option<u8> {
    let d = if s.len() > 0 && s[0] == '+' {
        s.drop_first()
    } else {
        s
    };
    if d.len() > 0 && all_digits(d) && digits_value(d) <= 255 {
        Some(digits_value(d) as u8)
    } else {
        None
    }
}

/// Relies on `hex::encode`: two lowercase hex digits per byte, high digit
/// first.
#[verifier::external_body]
fn hex_encode(b: &[u8]) -> (r: String)
    ensures
        r@ == hex_text(b@),
{
    hex::encode(b)
}

/// Relies on `hex::decode`: text of odd length, or with a character that is
/// not a hex digit, is refused; otherwise each pair of digits is one byte.
#[verifier::external_body]
fn hex_decode(s: &str) -> (r: Option<Vec<u8>>)
    ensures
        r matches Some(b) ==> hex_decoded(s@) == Some(b@),
        r is None ==> hex_decoded(s@) is None,
{
    hex::decode(s).ok()
}

proof fn lemma_digits_step(s: Seq<char>, start: int, i: int)
    requires
        0 <= start <= i < s.len(),
    ensures
        digits_value(s.subrange(start, i + 1)) == (digits_value(s.subrange(start, i)) * 10 + (
        s[i] as u32 - '0' as u32)) as nat,
{
    assert(s.subrange(start, i + 1).drop_last() =~= s.subrange(start, i));
}

/// A prefix of a digit string is worth no more than the whole string.
proof fn lemma_digits_prefix(d: Seq<char>, k: int)
    requires
        all_digits(d),
        0 <= k <= d.len(),
    ensures
        digits_value(d.subrange(0, k)) <= digits_value(d),
    decreases d.len(),
{
    if k == d.len() {
        assert(d.subrange(0, k) =~= d);
    } else {
        let rest = d.drop_last();
        assert(rest.subrange(0, k) =~= d.subrange(0, k));
        assert(all_digits(rest)) by {
            assert forall|i: int| 0 <= i < rest.len() implies '0' <= #[trigger] rest[i] <= '9' by {
                assert(rest[i] == d[i]);
            };
        };
        lemma_digits_prefix(rest, k);
        assert('0' <= d[d.len() - 1] <= '9');
    }
}

/// Reads a slot numeral as `u8::from_str` does: an optional `+`, then ASCII
/// digits whose value is at most 255.
fn parse_u8(s: &str) -> (r: Option<u8>)
    ensures
        r == parsed_u8(s@),
{
    let n = s.unicode_len();
    let mut i: usize = 0;
    if n > 0 && s.get_char(0) == '+' {
        i = 1;
    }
    let start = i;
    if start == n {
        return None;
    }
    let ghost d = s@.subrange(start as int, n as int);
    assert(d =~= if s@.len() > 0 && s@[0] == '+' {
        s@.drop_first()
    } else {
        s@
    });
    assert(s@.subrange(start as int, start as int) =~= Seq::<char>::empty());
    let mut v: u32 = 0;
    while i < n
        invariant
            start <= i <= n,
            n == s@.len(),
            start < n,
            d == s@.subrange(start as int, n as int),
            d == (if s@.len() > 0 && s@[0] == '+' {
                s@.drop_first()
            } else {
                s@
            }),
            forall|j: int| start <= j < i ==> '0' <= #[trigger] s@[j] <= '9',
            v as nat == digits_value(s@.subrange(start as int, i as int)),
            v <= 255,
        decreases n - i,
    {
        let c = s.get_char(i);
        if (c as u32) < 48 || (c as u32) > 57 {
            assert(!all_digits(d)) by {
                assert(d[i - start] == c);
                assert(!('0' <= c <= '9'));
            };
            return None;
        }
        proof {
            lemma_digits_step(s@, start as int, i as int);
        }
        let next = v * 10 + (c as u32 - 48);
        if next > 255 {
            proof {
                if all_digits(d) {
                    assert(d.subrange(0, i + 1 - start) =~= s@.subrange(start as int, i + 1));
                    lemma_digits_prefix(d, i + 1 - start);
                }
            }
            return None;
        }
        v = next;
        i = i + 1;
    }
    assert(all_digits(d)) by {
        assert forall|j: int| 0 <= j < d.len() implies '0' <= #[trigger] d[j] <= '9' by {
            assert(d[j] == s@[j + start]);
        };
    };
    Some(v as u8)
}

/// The persisted entries of the slots below `upto`, in slot order.
pub open spec fn stored_entries(keys: Map<u8, Seq<u8>>, upto: nat) -> Seq<(Seq<char>, Seq<char>)>
    decreases upto,
{
    if upto == 0 {
        Seq::empty()
    } else {
        let slot = (upto - 1) as u8;
        stored_entries(keys, (upto - 1) as nat) + if keys.contains_key(slot) {
            seq![(decimal(slot as nat), hex_text(keys[slot]))]
        } else {
            Seq::empty()
        }
    }
}

/// The slots that persisted entries denote, or `None` where one is invalid;
/// a later entry for a slot replaces an earlier one.
pub open spec fn decoded_keys(entries: Seq<(Seq<char>, Seq<char>)>) -> Option<Map<u8, Seq<u8>>>
    decreases entries.len(),
{
    if entries.len() == 0 {
        Some(Map::empty())
    } else {
        match decoded_keys(entries.drop_last()) {
            Some(m) => match (parsed_u8(entries.last().0), hex_decoded(entries.last().1)) {
                (Some(slot), Some(seed)) => if seed.len() == SEED_LEN {
                    Some(m.insert(slot, seed))
                } else {
                    None
                },
                _ => None,
            },
            None => None,
        }
    }
}

pub open spec fn entries_view(keys: Seq<(String, String)>) -> Seq<(Seq<char>, Seq<char>)> {
    keys.map_values(|e: (String, String)| (e.0@, e.1@))
}

/// Once a prefix of the entries is invalid, so is every longer prefix.
proof fn lemma_invalid_prefix(entries: Seq<(Seq<char>, Seq<char>)>, i: int)
    requires
        0 <= i <= entries.len(),
        decoded_keys(entries.subrange(0, i)) is None,
    ensures
        decoded_keys(entries) is None,
    decreases entries.len() - i,
{
    if i < entries.len() {
        assert(entries.subrange(0, i + 1).drop_last() =~= entries.subrange(0, i));
        lemma_invalid_prefix(entries, i + 1);
    } else {
        assert(entries.subrange(0, i) =~= entries);
    }
}

impl SimSecureElement {
    /// The persisted form: the PIN digest and each populated slot, in slot
    /// order, as hex.
    pub fn to_stored(&self) -> (st: StoredKeystore)
        requires
            self.wf(),
        ensures
            match self@.pin_hash {
                Some(h) => st.pin_hash matches Some(t) && t@ == hex_text(h),
                None => st.pin_hash is None,
            },
            entries_view(st.keys@) == stored_entries(self@.keys, SLOT_COUNT as nat),
    {
        let pin_hash = match &self.pin_hash {
            Some(h) => Some(hex_encode(h.as_slice())),
            None => None,
        };
        let mut keys: Vec<(String, String)> = Vec::new();
        let mut i: usize = 0;
        while i < SLOT_COUNT
            invariant
                self.wf(),
                i <= SLOT_COUNT,
                entries_view(keys@) == stored_entries(self@.keys, i as nat),
            decreases SLOT_COUNT - i,
        {
            let ghost before = keys@;
            match self.keys.get(&(i as u8)) {
                Some(seed) => {
                    keys.push((decimal_string(i), hex_encode(seed.as_slice())));
                    assert(self@.keys.contains_key(i as u8));
                },
                None => {
                    assert(!self@.keys.contains_key(i as u8));
                },
            }
            assert(entries_view(keys@) =~= stored_entries(self@.keys, (i + 1) as nat));
            i = i + 1;
        }
        StoredKeystore { pin_hash, keys }
    }

    /// Restores an element from its persisted form, with no verified
    /// session; refuses text that is not hex, slots that are not numerals
    /// below 256, and seeds that are not 32 bytes long.
    pub fn from_stored(stored: &StoredKeystore) -> (r: Result<Self, String>)
        ensures
            r is Ok <==> (match stored.pin_hash {
                Some(t) => hex_decoded(t@) is Some,
                None => true,
            }) && decoded_keys(entries_view(stored.keys@)) is Some,
            r matches Ok(se) ==> se.wf() && !se@.pin_verified && se@.keys == decoded_keys(
                entries_view(stored.keys@),
            )->0 && se@.pin_hash == match stored.pin_hash {
                Some(t) => hex_decoded(t@),
                None => None,
            },
    {
        let pin_hash = match &stored.pin_hash {
            Some(t) => match hex_decode(t.as_str()) {
                Some(h) => Some(h),
                None => return Err(String::from_str("invalid pin_hash hex")),
            },
            None => None,
        };
        let mut se = Self::create_empty();
        let mut i: usize = 0;
        while i < stored.keys.len()
            invariant
                i <= stored.keys@.len(),
                se.wf(),
                !se@.pin_verified,
                se@.pin_hash is None,
                decoded_keys(entries_view(stored.keys@.subrange(0, i as int))) == Some(se@.keys),
            decreases stored.keys@.len() - i,
        {
            let ghost all = entries_view(stored.keys@);
            let ghost prefix = entries_view(stored.keys@.subrange(0, i as int + 1));
            assert(prefix.drop_last() =~= entries_view(stored.keys@.subrange(0, i as int)));
            assert(prefix =~= all.subrange(0, i as int + 1));
            proof {
                if decoded_keys(prefix) is None {
                    lemma_invalid_prefix(all, i as int + 1);
                }
            }
            let (slot_text, seed_text) = &stored.keys[i];
            let slot = match parse_u8(slot_text.as_str()) {
                Some(s) => s,
                None => return Err(String::from_str("invalid slot number")),
            };
            let seed = match hex_decode(seed_text.as_str()) {
                Some(b) => b,
                None => return Err(String::from_str("invalid hex for slot")),
            };
            if seed.len() != SEED_LEN {
                return Err(String::from_str("key must be 32 bytes"));
            }
            let ghost old_keys = se@.keys;
            se.keys.insert(slot, seed);
            assert(se@.keys =~= old_keys.insert(slot, seed@));
            i = i + 1;
        }
        assert(stored.keys@.subrange(0, stored.keys@.len() as int) =~= stored.keys@);
        se.pin_hash = pin_hash;
        Ok(se)
    }
}

} // verus!
