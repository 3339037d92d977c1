//! An in-memory keystore mapping key identifiers to secrets.
use vstd::prelude::*;

verus! {

/// Errors of the keystore.
#[derive(Debug)]
pub enum KeystoreError {
    /// No secret is stored under this identifier.
    KeyNotFound(String),
    /// Stored material could not be decrypted.
    DecryptionFailed,
}

/// Plaintext keystore: each identifier maps to one secret.
pub struct PlaintextKeystore {
    keys: Vec<(String, Vec<u8>)>,
}

impl PlaintextKeystore {
    /// Identifiers are unique among the entries.
    pub closed spec fn wf(&self) -> bool {
        forall|i: int, j: int|
            0 <= i < j < self.keys@.len() ==> (#[trigger] self.keys@[i]).0@ != (
            #[trigger] self.keys@[j]).0@
    }

    /// Whether `key` names the entry at `i`.
    spec fn holds_at(&self, key: Seq<char>, i: int) -> bool {
        0 <= i < self.keys@.len() && self.keys@[i].0@ == key
    }
}

impl View for PlaintextKeystore {
    type V = Map<Seq<char>, Seq<u8>>;

    closed spec fn view(&self) -> Map<Seq<char>, Seq<u8>> {
        Map::new(
            |k: Seq<char>| exists|i: int| self.holds_at(k, i),
            |k: Seq<char>| self.keys@[choose|i: int| self.holds_at(k, i)].1@,
        )
    }
}

impl PlaintextKeystore {
    proof fn lemma_value_at(&self, i: int)
        requires
            self.wf(),
            0 <= i < self.keys@.len(),
        ensures
            self@.contains_key(self.keys@[i].0@),
            self@[self.keys@[i].0@] == self.keys@[i].1@,
    {
        let k = self.keys@[i].0@;
        assert(self.holds_at(k, i));
        let j = choose|j: int| self.holds_at(k, j);
        if i < j {
            assert(self.keys@[i].0@ != self.keys@[j].0@);
        } else if j < i {
            assert(self.keys@[j].0@ != self.keys@[i].0@);
        }
    }

    /// An empty keystore.
    pub fn new() -> (ks: Self)
        ensures
            ks.wf(),
            ks@ == Map::<Seq<char>, Seq<u8>>::empty(),
    {
        let ks = PlaintextKeystore { keys: Vec::new() };
        assert(ks@ =~= Map::<Seq<char>, Seq<u8>>::empty());
        ks
    }

    /// The index of the entry under `key`, if any.
    fn find(&self, key: &String) -> (r: Option<usize>)
        requires
            self.wf(),
        ensures
            r matches Some(i) ==> self.holds_at(key@, i as int),
            r is None ==> !self@.contains_key(key@),
    {
        let mut i: usize = 0;
        while i < self.keys.len()
            invariant
                i <= self.keys@.len(),
                forall|j: int| 0 <= j < i ==> !self.holds_at(key@, j),
            decreases self.keys@.len() - i,
        {
            if self.keys[i].0 == *key {
                return Some(i);
            }
            i = i + 1;
        }
        None
    }

    /// Stores `secret` under `key_id`, replacing any earlier secret.
    pub fn insert(&mut self, key_id: String, secret: Vec<u8>)
        requires
            old(self).wf(),
        ensures
            final(self).wf(),
            final(self)@ == old(self)@.insert(key_id@, secret@),
    {
        let ghost k = key_id@;
        let ghost v = secret@;
        let ghost target = old(self)@.insert(k, v);
        match self.find(&key_id) {
            Some(i) => {
                self.keys.set(i, (key_id, secret));
                assert forall|j: int| 0 <= j < self.keys@.len() implies (#[trigger] self.keys@[j]).0@
                    == old(self).keys@[j].0@ by {};
                assert forall|key: Seq<char>, j: int| #[trigger]
                    self.holds_at(key, j) <==> old(self).holds_at(key, j) by {};
                assert forall|key: Seq<char>| #[trigger] self@.contains_key(key)
                    <==> target.contains_key(key) by {
                    if self@.contains_key(key) {
                        let j = choose|j: int| self.holds_at(key, j);
                        assert(old(self).holds_at(key, j));
                    }
                    if key == k {
                        assert(self.holds_at(k, i as int));
                    } else if old(self)@.contains_key(key) {
                        let j = choose|j: int| old(self).holds_at(key, j);
                        assert(self.holds_at(key, j));
                    }
                };
                assert forall|key: Seq<char>| #[trigger] self@.contains_key(key) implies self@[key]
                    == target[key] by {
                    let j = choose|j: int| self.holds_at(key, j);
                    self.lemma_value_at(j);
                    if j != i {
                        old(self).lemma_value_at(j);
                    }
                };
            },
            None => {
                self.keys.push((key_id, secret));
                assert forall|j: int| 0 <= j < old(self).keys@.len() implies (
                #[trigger] old(self).keys@[j]).0@ != k by {
                    if old(self).keys@[j].0@ == k {
                        assert(old(self).holds_at(k, j));
                    }
                };
                assert forall|key: Seq<char>| #[trigger] self@.contains_key(key) implies self@[key]
                    == target[key] by {
                    let j = choose|j: int| self.holds_at(key, j);
                    self.lemma_value_at(j);
                    if j < old(self).keys@.len() {
                        assert(old(self).holds_at(key, j));
                        old(self).lemma_value_at(j);
                    }
                };
                assert forall|key: Seq<char>| #[trigger] self@.contains_key(key) implies target.contains_key(key) by {
                    let j = choose|j: int| self.holds_at(key, j);
                    if j < old(self).keys@.len() {
                        assert(old(self).holds_at(key, j));
                    }
                };
                assert forall|key: Seq<char>| #[trigger] target.contains_key(key) implies self@.contains_key(key) by {
                    if key == k {
                        assert(self.holds_at(k, self.keys@.len() - 1));
                    } else {
                        let j = choose|j: int| old(self).holds_at(key, j);
                        assert(self.holds_at(key, j));
                    }
                };
            },
        }
        assert(self@ =~= target);
    }

    /// The secret stored under `key_id`.
    pub fn get(&self, key_id: &str) -> (r: Result<&[u8], KeystoreError>)
        requires
            self.wf(),
        ensures
            r is Ok <==> self@.contains_key(key_id@),
            r matches Ok(secret) ==> secret@ == self@[key_id@],
            r matches Err(e) ==> (e matches KeystoreError::KeyNotFound(k) && k@ == key_id@),
    {
        let key = key_id.to_owned();
        match self.find(&key) {
            Some(i) => {
                proof {
                    self.lemma_value_at(i as int);
                }
                Ok(self.keys[i].1.as_slice())
            },
            None => Err(KeystoreError::KeyNotFound(key)),
        }
    }
}

impl Default for PlaintextKeystore {
    fn default() -> (ks: Self)
        ensures
            ks.wf(),
            ks@ == Map::<Seq<char>, Seq<u8>>::empty(),
    {
        Self::new()
    }
}

} // verus!
