//! The key registry: the ed25519 keys a script declares, by identifier.
use vstd::prelude::*;
use crate::digest::{decode_seed, ed25519_public_multibase, hex_decode_spec, hex_error_message, is_base58_text, public_multibase};
use crate::error::GenError;
use crate::text::{copy_text, text_eq, text_is};

verus! {

/// A key of a script: its identifier, its type and its hexadecimal seed.
pub struct KeyDef {
    pub id: Vec<char>,
    pub key_type: Vec<char>,
    pub seed: Vec<char>,
}

/// A key of the registry: identifier, 32-byte seed and public key multibase.
pub struct KeyInfo {
    pub id: Vec<char>,
    pub seed: Vec<u8>,
    pub pub_multibase: Vec<char>,
}

impl KeyInfo {
    /// A copy of the key.
    pub fn duplicate(&self) -> (r: KeyInfo)
        ensures
            r.kv() == self.kv(),
    {
        let mut seed: Vec<u8> = Vec::new();
        let mut i: usize = 0;
        while i < self.seed.len()
            invariant
                i <= self.seed@.len(),
                seed@ == self.seed@.take(i as int),
            decreases self.seed@.len() - i,
        {
            seed.push(self.seed[i]);
            i = i + 1;
            assert(seed@ =~= self.seed@.take(i as int));
        }
        assert(self.seed@.take(i as int) =~= self.seed@);
        KeyInfo { id: copy_text(self.id.as_slice()), seed, pub_multibase: copy_text(self.pub_multibase.as_slice()) }
    }
}

/// The view of a registered key.
pub struct KeyView {
    pub id: Seq<char>,
    pub seed: Seq<u8>,
    pub pub_multibase: Seq<char>,
}

impl KeyInfo {
    pub open spec fn kv(&self) -> KeyView {
        KeyView { id: self.id@, seed: self.seed@, pub_multibase: self.pub_multibase@ }
    }
}

/// Whether a registered key is consistent: a 32-byte seed and the public key
/// derived from it.
pub open spec fn key_ok(k: KeyView) -> bool {
    &&& k.seed.len() == 32
    &&& k.pub_multibase == ed25519_public_multibase(k.seed)
    &&& is_base58_text(k.pub_multibase)
}

/// The keys of a script, by identifier: a map from identifiers to keys, held
/// as a vector in the order the script first names them. No identifier names
/// two keys, and registering a key under a known identifier replaces the
/// earlier key, as inserting into a map does; the order only fixes which key
/// comes first where a step needs one.
pub struct KeyRegistry {
    entries: Vec<KeyInfo>,
}

/// Whether no identifier names two keys.
pub open spec fn ids_distinct(keys: Seq<KeyView>) -> bool {
    forall|i: int, j: int| 0 <= i < j < keys.len() ==> keys[i].id != keys[j].id
}

/// The position of the first key named `id`.
pub open spec fn key_pos(keys: Seq<KeyView>, id: Seq<char>) -> Option<int>
    decreases keys.len(),
{
    if keys.len() == 0 {
        None
    } else {
        match key_pos(keys.drop_last(), id) {
            Some(p) => Some(p),
            None => if keys.last().id == id { Some(keys.len() - 1) } else { None },
        }
    }
}

/// The key named `id`.
pub open spec fn find_key(keys: Seq<KeyView>, id: Seq<char>) -> Option<KeyView> {
    match key_pos(keys, id) {
        Some(p) => Some(keys[p]),
        None => None,
    }
}

/// The registry with `k` added, or replacing the key of the same identifier
/// (the semantics of inserting into a map).
pub open spec fn put_key(keys: Seq<KeyView>, k: KeyView) -> Seq<KeyView> {
    match key_pos(keys, k.id) {
        Some(p) => keys.update(p, k),
        None => keys.push(k),
    }
}

/// Whether `s` is the text `ed25519`.
pub open spec fn is_ed25519(s: Seq<char>) -> bool {
    s == seq!['e', 'd', '2', '5', '5', '1', '9']
}

/// What one key definition contributes: its key, or why it is refused.
pub open spec fn key_of(d: KeyDef) -> Result<KeyView, KeyDefError> {
    if !is_ed25519(d.key_type@) {
        Err(KeyDefError::UnsupportedType)
    } else {
        match hex_decode_spec(d.seed@) {
            None => Err(KeyDefError::BadHex),
            Some(bytes) => if bytes.len() != 32 {
                Err(KeyDefError::BadLength)
            } else {
                Ok(KeyView { id: d.id@, seed: bytes, pub_multibase: ed25519_public_multibase(bytes) })
            },
        }
    }
}

/// Why a key definition is refused.
pub enum KeyDefError {
    UnsupportedType,
    BadHex,
    BadLength,
}

/// The registry built from key definitions, taken in order; the first
/// refused definition and why, when there is one.
pub open spec fn registry_of(defs: Seq<KeyDef>) -> Result<Seq<KeyView>, (int, KeyDefError)>
    decreases defs.len(),
{
    if defs.len() == 0 {
        Ok(Seq::empty())
    } else {
        match registry_of(defs.drop_last()) {
            Err(e) => Err(e),
            Ok(keys) => match key_of(defs.last()) {
                Err(why) => Err((defs.len() - 1, why)),
                Ok(k) => Ok(put_key(keys, k)),
            },
        }
    }
}

/// The error a refused definition is reported with.
pub open spec fn key_error_matches(e: GenError, d: KeyDef, why: KeyDefError) -> bool {
    match why {
        KeyDefError::UnsupportedType => e matches GenError::UnsupportedKeyType { key_type, id } && key_type@ == d.key_type@ && id@ == d.id@,
        KeyDefError::BadHex => e matches GenError::BadSeedHex { id, detail } && id@ == d.id@
            && hex_error_message(d.seed@, detail@),
        KeyDefError::BadLength => e matches GenError::SeedLength { id } && id@ == d.id@,
    }
}

impl KeyRegistry {
    #[verifier::type_invariant]
    spec fn inv(self) -> bool {
        &&& forall|i: int| 0 <= i < self.entries@.len() ==> key_ok(#[trigger] self.entries@[i].kv())
        &&& ids_distinct(self.keys())
    }

    /// The registered keys, in order.
    pub closed spec fn keys(&self) -> Seq<KeyView> {
        Seq::new(self.entries@.len(), |i: int| self.entries@[i].kv())
    }

    /// An empty registry.
    pub fn new() -> (r: KeyRegistry)
        ensures
            r.keys() == Seq::<KeyView>::empty(),
    {
        let r = KeyRegistry { entries: Vec::new() };
        assert(r.keys() =~= Seq::<KeyView>::empty());
        r
    }

    /// The number of keys.
    pub fn len(&self) -> (n: usize)
        ensures
            n == self.keys().len(),
    {
        self.entries.len()
    }

    /// The key at position `i`.
    pub fn entry(&self, i: usize) -> (k: &KeyInfo)
        requires
            i < self.keys().len(),
        ensures
            k.kv() == self.keys()[i as int],
            key_ok(k.kv()),
    {
        proof {
            use_type_invariant(self);
        }
        &self.entries[i]
    }

    /// The position of the key named `id`.
    pub fn position(&self, id: &[char]) -> (r: Option<usize>)
        ensures
            r matches Some(p) ==> key_pos(self.keys(), id@) == Some(p as int) && p < self.keys().len()
                && self.keys()[p as int].id == id@,
            r is None ==> key_pos(self.keys(), id@) is None,
    {
        let ghost keys = self.keys();
        let mut i: usize = 0;
        while i < self.entries.len()
            invariant
                i <= self.entries@.len(),
                keys == self.keys(),
                key_pos(keys.take(i as int), id@) is None,
            decreases self.entries.len() - i,
        {
            assert(keys.take(i + 1).drop_last() =~= keys.take(i as int));
            if text_eq(self.entries[i].id.as_slice(), id) {
                proof {
                    lemma_key_pos_prefix(keys, id@, i as int + 1);
                }
                return Some(i);
            }
            i = i + 1;
        }
        assert(keys.take(i as int) =~= keys);
        None
    }

    /// The key named `id` (`HashMap::get`).
    pub fn lookup(&self, id: &[char]) -> (r: Option<&KeyInfo>)
        ensures
            r matches Some(k) ==> find_key(self.keys(), id@) == Some(k.kv()) && key_ok(k.kv()),
            r is None ==> find_key(self.keys(), id@) is None,
    {
        proof {
            use_type_invariant(self);
            lemma_key_pos_valid(self.keys(), id@);
        }
        match self.position(id) {
            Some(p) => Some(&self.entries[p]),
            None => None,
        }
    }

    /// Adds a consistent key, replacing the key of the same identifier.
    fn put(&mut self, k: KeyInfo)
        requires
            key_ok(k.kv()),
        ensures
            final(self).keys() == put_key(old(self).keys(), k.kv()),
    {
        proof {
            use_type_invariant(&*self);
        }
        let ghost kv = k.kv();
        let ghost keys = self.keys();
        proof {
            lemma_key_pos_valid(keys, kv.id);
        }
        match self.position(k.id.as_slice()) {
            Some(p) => {
                let mut entries: Vec<KeyInfo> = Vec::new();
                std::mem::swap(&mut entries, &mut self.entries);
                entries.set(p, k);
                proof {
                    assert(Seq::new(entries@.len(), |i: int| entries@[i].kv()) =~= keys.update(p as int, kv));
                }
                self.entries = entries;
                assert(self.keys() =~= keys.update(p as int, kv));
            },
            None => {
                let mut entries: Vec<KeyInfo> = Vec::new();
                std::mem::swap(&mut entries, &mut self.entries);
                entries.push(k);
                proof {
                    assert(Seq::new(entries@.len(), |i: int| entries@[i].kv()) =~= keys.push(kv));
                    assert forall|i: int| 0 <= i < keys.len() implies keys[i].id != kv.id by {
                        lemma_key_pos_absent(keys, kv.id, i);
                    }
                }
                self.entries = entries;
                assert(self.keys() =~= keys.push(kv));
            },
        }
    }
}

/// No key is named by an identifier that has no position.
pub proof fn lemma_key_pos_absent(keys: Seq<KeyView>, id: Seq<char>, i: int)
    requires
        key_pos(keys, id) is None,
        0 <= i < keys.len(),
    ensures
        keys[i].id != id,
    decreases keys.len(),
{
    if i < keys.len() - 1 {
        assert(keys.drop_last()[i] == keys[i]);
        lemma_key_pos_absent(keys.drop_last(), id, i);
    }
}

/// A found position holds a key of that identifier.
pub proof fn lemma_key_pos_valid(keys: Seq<KeyView>, id: Seq<char>)
    ensures
        key_pos(keys, id) matches Some(p) ==> 0 <= p < keys.len() && keys[p].id == id,
    decreases keys.len(),
{
    if keys.len() > 0 {
        lemma_key_pos_valid(keys.drop_last(), id);
    }
}

proof fn lemma_key_pos_prefix(keys: Seq<KeyView>, id: Seq<char>, n: int)
    requires
        0 < n <= keys.len(),
        key_pos(keys.take(n - 1), id) is None,
        keys[n - 1].id == id,
    ensures
        key_pos(keys, id) == Some(n - 1),
    decreases keys.len() - n,
{
    assert(keys.take(n).drop_last() =~= keys.take(n - 1));
    assert(key_pos(keys.take(n), id) == Some(n - 1));
    if n < keys.len() {
        lemma_key_pos_extend(keys, id, n);
    } else {
        assert(keys.take(n) =~= keys);
    }
}

proof fn lemma_key_pos_extend(keys: Seq<KeyView>, id: Seq<char>, n: int)
    requires
        0 < n <= keys.len(),
        key_pos(keys.take(n), id) is Some,
    ensures
        key_pos(keys, id) == key_pos(keys.take(n), id),
    decreases keys.len() - n,
{
    if n < keys.len() {
        assert(keys.take(n + 1).drop_last() =~= keys.take(n));
        lemma_key_pos_extend(keys, id, n + 1);
    } else {
        assert(keys.take(n) =~= keys);
    }
}

/// `build_key_registry`: the registry of the script's keys, taken in order.
/// Every key must be of type `ed25519` with a seed of 32 bytes in hexadecimal;
/// the first definition that is not gives the error. A later key with the same
/// identifier replaces the earlier one.
pub fn build_key_registry(defs: &Vec<KeyDef>) -> (r: Result<KeyRegistry, GenError>)
    ensures
        r matches Ok(reg) ==> registry_of(defs@) == Ok::<Seq<KeyView>, (int, KeyDefError)>(reg.keys()),
        r matches Err(e) ==> registry_of(defs@) matches Err((i, why)) && 0 <= i < defs@.len()
            && key_error_matches(e, defs@[i], why),
{
    let mut reg = KeyRegistry::new();
    let mut i: usize = 0;
    while i < defs.len()
        invariant
            i <= defs.len(),
            registry_of(defs@.take(i as int)) == Ok::<Seq<KeyView>, (int, KeyDefError)>(reg.keys()),
        decreases defs.len() - i,
    {
        let ghost prefix = defs@.take(i as int + 1);
        assert(prefix.drop_last() =~= defs@.take(i as int));
        assert(prefix.last() == defs@[i as int]);
        let d = &defs[i];
        proof {
            reveal_strlit("ed25519");
            assert("ed25519"@ =~= seq!['e', 'd', '2', '5', '5', '1', '9']);
        }
        if !text_is(d.key_type.as_slice(), "ed25519") {
            proof {
                reveal_strlit("ed25519");
                assert(!is_ed25519(d.key_type@));
                assert(registry_of(prefix) == Err::<Seq<KeyView>, (int, KeyDefError)>((i as int, KeyDefError::UnsupportedType)));
                lemma_registry_error_prefix(defs@, i as int + 1);
            }
            return Err(GenError::UnsupportedKeyType { key_type: copy_text(d.key_type.as_slice()), id: copy_text(d.id.as_slice()) });
        }
        proof {
            reveal_strlit("ed25519");
        }
        let seed = match decode_seed(d.seed.as_slice()) {
            Ok(b) => b,
            Err(detail) => {
                proof {
                    assert(registry_of(prefix) == Err::<Seq<KeyView>, (int, KeyDefError)>((i as int, KeyDefError::BadHex)));
                    lemma_registry_error_prefix(defs@, i as int + 1);
                }
                return Err(GenError::BadSeedHex { id: copy_text(d.id.as_slice()), detail });
            },
        };
        if seed.len() != 32 {
            proof {
                assert(registry_of(prefix) == Err::<Seq<KeyView>, (int, KeyDefError)>((i as int, KeyDefError::BadLength)));
                lemma_registry_error_prefix(defs@, i as int + 1);
            }
            return Err(GenError::SeedLength { id: copy_text(d.id.as_slice()) });
        }
        let pm = public_multibase(seed.as_slice());
        let k = KeyInfo { id: copy_text(d.id.as_slice()), seed, pub_multibase: pm };
        reg.put(k);
        i = i + 1;
    }
    assert(defs@.take(defs@.len() as int) =~= defs@);
    Ok(reg)
}

proof fn lemma_registry_error_prefix(defs: Seq<KeyDef>, n: int)
    requires
        0 < n <= defs.len(),
        registry_of(defs.take(n)) is Err,
    ensures
        registry_of(defs) == registry_of(defs.take(n)),
    decreases defs.len() - n,
{
    if n < defs.len() {
        assert(defs.take(n + 1).drop_last() =~= defs.take(n));
        lemma_registry_error_prefix(defs, n + 1);
    } else {
        assert(defs.take(n) =~= defs);
    }
}

} // verus!
