//! The key store: a persistent, encrypted mapping from versioned
//! identifiers to 32-byte key material, protected at rest by a master key
//! derived from a password.
//!
//! The store never touches the file system itself: `new` receives the
//! store file's bytes (or `None` for a fresh store) and `store_key` hands
//! back the new file bytes for the caller to write, so everything the store
//! decides is verified here.  A wrong password is detected only indirectly,
//! through the envelope's authentication tag — there is no separate
//! password check and no way to tell a wrong password from a corrupted
//! file, by design.
//!
//! `store_key` versions each identifier by appending `_` and a UTC
//! timestamp, and makes the stored identifier fresh even when two writes
//! fall within the same clock second, so entries are append-only: a write
//! never overwrites an earlier entry.

use vstd::prelude::*;
use vstd::slice::slice_to_vec;
use vstd::string::StrSliceExecFns;
use vstd::utf8::encode_utf8;
use crate::cipher::envelope_plaintext;
use crate::q_core;
use crate::q_keygen;
use crate::store_codec::{
    check_ids_unique, decode_pairs, decode_store, encode_pairs, encode_store, has_id, ids_unique,
    lemma_decode_encode, lemma_encode_push_len, lemma_pairs_map_absent, lemma_pairs_map_get,
    lemma_pairs_map_push, max_id_len_of, pairs_map, pairs_of, pairs_wf, KeyEntry,
};
use crate::bytes_eq;
use crate::trusted;

verus! {

/// Reason a store operation failed.
#[derive(Debug, PartialEq, Eq)]
pub enum KeyStoreError {
    /// Reading or writing the store file failed; carries the condition.
    Io(String),
    /// The decrypted plaintext does not parse as an identifier-to-key map,
    /// or the map repeats an identifier.
    Serialization,
    /// The store file does not authenticate under the derived master key:
    /// wrong password or altered file, indistinguishable by design.
    AuthenticationFailure,
    /// The key material is not exactly 32 bytes.
    InvalidKeyLength,
    /// The master-key derivation refused the password.
    HashFailure,
    /// The envelope encryption refused the encoded map.
    EncryptionFailed,
}

/// The store-internal 16-byte salt under which every master key is
/// derived, so that the same password always reopens the same store.
pub open spec fn master_salt() -> Seq<u8> {
    seq![
        0x51u8,
        0x49,
        0x4d,
        0x45,
        0x4d,
        0x2d,
        0x4d,
        0x41,
        0x53,
        0x54,
        0x45,
        0x52,
        0x2d,
        0x4b,
        0x45,
        0x59,
    ]
}

/// The master key a password derives to.
pub open spec fn master_key_of(password: Seq<char>) -> Seq<u8> {
    trusted::argon2id_of(encode_utf8(password), master_salt())
}

/// How an existing store file reads under a master key: the pair list when
/// the envelope authenticates and its plaintext decodes to a map with
/// unique identifiers, else the error that `new` reports.
pub open spec fn store_contents(file: Seq<u8>, mk: Seq<u8>) -> Result<
    Seq<(Seq<u8>, Seq<u8>)>,
    KeyStoreError,
> {
    match envelope_plaintext(file, mk) {
        None => Err(KeyStoreError::AuthenticationFailure),
        Some(plain) => match decode_pairs(plain) {
            None => Err(KeyStoreError::Serialization),
            Some(ps) => if ids_unique(ps) {
                Ok(ps)
            } else {
                Err(KeyStoreError::Serialization)
            },
        },
    }
}

/// An upper bound on the versioned identifier `store_key` creates for a
/// base identifier against the pairs already stored: either the base, the
/// separator and a timestamp of at most 32 bytes, or one byte more than
/// the longest identifier present (to which a colliding identifier is
/// extended).
pub open spec fn versioned_id_bound(ps: Seq<(Seq<u8>, Seq<u8>)>, id: Seq<char>) -> int {
    let fresh = encode_utf8(id).len() as int + 33;
    if fresh > max_id_len_of(ps) + 1 {
        fresh
    } else {
        max_id_len_of(ps) + 1
    }
}

fn master_salt_bytes() -> (r: Vec<u8>)
    ensures
        r@ == master_salt(),
{
    let v: Vec<u8> = vec![
        0x51u8, 0x49, 0x4d, 0x45, 0x4d, 0x2d, 0x4d, 0x41, 0x53, 0x54, 0x45, 0x52, 0x2d, 0x4b,
        0x45, 0x59,
    ];
    proof {
        assert(v@ =~= master_salt());
    }
    v
}

/// Whether some entry carries exactly this identifier.
fn contains_id(entries: &Vec<KeyEntry>, id: &[u8]) -> (r: bool)
    ensures
        r == has_id(pairs_of(entries@), id@),
{
    let ghost ps = pairs_of(entries@);
    let mut i: usize = 0;
    while i < entries.len()
        invariant
            i <= entries@.len(),
            ps == pairs_of(entries@),
            forall|j: int| 0 <= j < i ==> (#[trigger] ps[j]).0 != id@,
        decreases entries@.len() - i,
    {
        if bytes_eq(entries[i].id.as_slice(), id) {
            proof {
                assert(ps[i as int].0 == id@);
            }
            return true;
        }
        i = i + 1;
    }
    proof {
        assert(!has_id(ps, id@));
    }
    false
}

/// The length of the longest identifier among the entries.
fn max_id_len(entries: &Vec<KeyEntry>) -> (r: usize)
    ensures
        r == max_id_len_of(pairs_of(entries@)),
        forall|k: int|
            0 <= k < pairs_of(entries@).len() ==> (#[trigger] pairs_of(entries@)[k]).0.len() <= r,
{
    let ghost ps = pairs_of(entries@);
    let mut m: usize = 0;
    let mut i: usize = 0;
    proof {
        assert(ps.take(0) =~= Seq::<(Seq<u8>, Seq<u8>)>::empty());
    }
    while i < entries.len()
        invariant
            i <= entries@.len(),
            ps == pairs_of(entries@),
            m == max_id_len_of(ps.take(i as int)),
            forall|k: int| 0 <= k < i ==> (#[trigger] ps[k]).0.len() <= m,
        decreases entries@.len() - i,
    {
        proof {
            assert(ps.take(i + 1).drop_last() =~= ps.take(i as int));
            assert(ps.take(i + 1).last() == ps[i as int]);
        }
        if entries[i].id.len() > m {
            m = entries[i].id.len();
        }
        i = i + 1;
    }
    proof {
        assert(ps.take(entries@.len() as int) =~= ps);
    }
    m
}

/// A password-protected store of named 32-byte keys, held in memory for
/// the lifetime of the open instance and encrypted whole on every write.
pub struct KeyStore {
    entries: Vec<KeyEntry>,
    path: String,
    master_key: Vec<u8>,
}

impl KeyStore {
    /// The pair list held in memory, in insertion order.
    pub closed spec fn pairs(self) -> Seq<(Seq<u8>, Seq<u8>)> {
        pairs_of(self.entries@)
    }

    /// The store's identifier-to-key map.
    pub closed spec fn keys_map(self) -> Map<Seq<u8>, Seq<u8>> {
        pairs_map(self.pairs())
    }

    /// The path this store was opened under.
    pub closed spec fn path_view(self) -> Seq<char> {
        self.path@
    }

    /// The derived master key the store holds for its lifetime.
    pub closed spec fn master_key_view(self) -> Seq<u8> {
        self.master_key@
    }

    /// Well-formed: 32-byte master key, storable entries, no identifier
    /// twice, and the map is exactly what the pair list denotes.
    pub closed spec fn wf(self) -> bool {
        &&& self.master_key@.len() == 32
        &&& pairs_wf(self.pairs())
        &&& ids_unique(self.pairs())
    }

    /// Opens a store: derives the master key from the password, and — when
    /// the store file's bytes are given — decrypts and decodes them.
    ///
    /// A fresh store (no file) opens with an empty map.  An existing file
    /// opens to exactly `store_contents(file, master_key_of(password))`:
    /// a file that does not authenticate is `AuthenticationFailure` (this
    /// is how a wrong password shows itself), a plaintext that does not
    /// parse is `Serialization`, and on failure no store value exists.
    pub fn new(path: String, master_password: &str, existing: Option<Vec<u8>>) -> (r: Result<
        KeyStore,
        KeyStoreError,
    >)
        ensures
            r == Err::<KeyStore, _>(KeyStoreError::HashFailure) <==> encode_utf8(
                master_password@,
            ).len() > q_keygen::password_byte_limit(),
            r matches Ok(s) ==> s.wf() && s.path_view() == path@ && s.master_key_view()
                == master_key_of(master_password@) && s.keys_map() == pairs_map(s.pairs()),
            existing is None ==> ((r is Ok) <==> encode_utf8(master_password@).len()
                <= q_keygen::password_byte_limit()),
            existing is None ==> (r matches Ok(s) ==> s.pairs() == Seq::<
                (Seq<u8>, Seq<u8>),
            >::empty()),
            existing matches Some(file) ==> (encode_utf8(master_password@).len()
                <= q_keygen::password_byte_limit() ==> {
                &&& (r is Ok) <==> (store_contents(file@, master_key_of(master_password@)) is Ok)
                &&& (r matches Ok(s) ==> store_contents(file@, master_key_of(master_password@))
                    == Ok::<_, KeyStoreError>(s.pairs()))
                &&& (r matches Err(e) ==> store_contents(file@, master_key_of(master_password@))
                    == Err::<Seq<(Seq<u8>, Seq<u8>)>, _>(e))
            }),
    {
        let salt = master_salt_bytes();
        let mk = match trusted::argon2id_derive(master_password.as_bytes(), salt.as_slice()) {
            Some(k) => k,
            None => {
                return Err(KeyStoreError::HashFailure);
            },
        };
        match existing {
            None => Ok(KeyStore { entries: Vec::new(), path, master_key: mk }),
            Some(file) => {
                let plain = match q_core::decrypt(file.as_slice(), mk.as_slice()) {
                    Ok(p) => p,
                    Err(_) => {
                        return Err(KeyStoreError::AuthenticationFailure);
                    },
                };
                let entries = match decode_store(plain.as_slice()) {
                    Some(es) => es,
                    None => {
                        return Err(KeyStoreError::Serialization);
                    },
                };
                if !check_ids_unique(&entries) {
                    return Err(KeyStoreError::Serialization);
                }
                Ok(KeyStore { entries, path, master_key: mk })
            },
        }
    }

    /// Stores key material under a fresh versioned identifier and returns
    /// `(versioned_id, file_bytes)`: the identifier actually used and the
    /// whole re-encrypted store for the caller to write back.
    ///
    /// The versioned identifier is the base identifier, `_`, and a UTC
    /// timestamp, extended if needed until it is absent from the map, so a
    /// write never replaces an earlier entry.  Key material that is not 32
    /// bytes is refused as `InvalidKeyLength`, and on any failure the store
    /// is unchanged.  Success is owed whenever the key is 32 bytes and the
    /// updated store's encoding stays below the cipher's plaintext limit —
    /// which `versioned_id_bound` lets a caller establish from the stored
    /// pairs and the base identifier alone.
    pub fn store_key(&mut self, id: &str, key: &[u8]) -> (r: Result<
        (Vec<u8>, Vec<u8>),
        KeyStoreError,
    >)
        requires
            old(self).wf(),
        ensures
            final(self).wf(),
            final(self).path_view() == old(self).path_view(),
            final(self).master_key_view() == old(self).master_key_view(),
            r == Err::<(Vec<u8>, Vec<u8>), _>(KeyStoreError::InvalidKeyLength) <==> key@.len()
                != 32,
            r is Err ==> final(self).pairs() == old(self).pairs() && final(self).keys_map() == old(
                self,
            ).keys_map(),
            key@.len() == 32 && r is Err ==> r == Err::<(Vec<u8>, Vec<u8>), _>(
                KeyStoreError::EncryptionFailed,
            ),
            key@.len() == 32 && encode_pairs(old(self).pairs()).len() + 40 + versioned_id_bound(
                old(self).pairs(),
                id@,
            ) < trusted::aead_plain_limit() ==> r is Ok,
            r matches Ok(vf) ==> {
                &&& !old(self).keys_map().contains_key(vf.0@)
                &&& !has_id(old(self).pairs(), vf.0@)
                &&& final(self).pairs() == old(self).pairs().push((vf.0@, key@))
                &&& final(self).keys_map() == old(self).keys_map().insert(vf.0@, key@)
                &&& vf.0@.len() > encode_utf8(id@).len()
                &&& vf.0@.subrange(0, encode_utf8(id@).len() as int) == encode_utf8(id@)
                &&& vf.0@[encode_utf8(id@).len() as int] == 0x5fu8
                &&& store_contents(vf.1@, old(self).master_key_view()) == Ok::<_, KeyStoreError>(
                    final(self).pairs(),
                )
            },
    {
        if key.len() != 32 {
            return Err(KeyStoreError::InvalidKeyLength);
        }
        let ghost start_pairs = pairs_of(self.entries@);
        let ghost vb = versioned_id_bound(start_pairs, id@);
        let mut vid = id.as_bytes_vec();
        let ghost id_bytes = vid@;
        vid.push(0x5f);
        proof {
            assert(vid@.subrange(0, id_bytes.len() as int) =~= id_bytes);
        }
        let mut ts = trusted::utc_timestamp_compact();
        let ghost vid_before_ts = vid@;
        vid.append(&mut ts);
        proof {
            assert(vid@.subrange(0, id_bytes.len() as int) =~= id_bytes);
            assert(vid@[id_bytes.len() as int] == 0x5fu8);
            assert(vid@.len() <= encode_utf8(id@).len() + 33);
            assert(vid@.len() <= vb);
        }
        if contains_id(&self.entries, vid.as_slice()) {
            let m = max_id_len(&self.entries);
            proof {
                assert(m + 1 <= vb);
            }
            while vid.len() <= m
                invariant
                    vid@.len() > id_bytes.len(),
                    vid@.subrange(0, id_bytes.len() as int) == id_bytes,
                    vid@[id_bytes.len() as int] == 0x5fu8,
                    vid@.len() <= vb,
                    m + 1 <= vb,
                decreases m + 1 - vid@.len(),
            {
                let ghost before = vid@;
                vid.push(0x78);
                proof {
                    assert(vid@.subrange(0, id_bytes.len() as int) =~= id_bytes);
                }
            }
            proof {
                assert(!has_id(pairs_of(self.entries@), vid@));
            }
        }
        proof {
            assert(vid@.len() <= vb);
        }
        let vl = vid.len();
        let entry = KeyEntry { id: slice_to_vec(vid.as_slice()), key: slice_to_vec(key) };
        let ghost old_pairs = pairs_of(self.entries@);
        let ghost old_entries = self.entries@;
        self.entries.push(entry);
        proof {
            assert(pairs_of(self.entries@) =~= old_pairs.push((vid@, key@)));
            lemma_pairs_map_push(old_pairs, vid@, key@);
            lemma_pairs_map_absent(old_pairs, vid@);
            assert forall|a: int, b: int|
                0 <= a < b < pairs_of(self.entries@).len() implies (#[trigger] pairs_of(
                self.entries@,
            )[a]).0 != (#[trigger] pairs_of(self.entries@)[b]).0 by {
                if b == old_pairs.len() {
                    assert(pairs_of(self.entries@)[a] == old_pairs[a]);
                    assert(!has_id(old_pairs, vid@));
                }
            }
            assert(vl as int <= u64::MAX);
            assert(pairs_wf(pairs_of(self.entries@)));
            lemma_encode_push_len(old_pairs, vid@, key@);
        }
        let encoded = encode_store(&self.entries);
        match q_core::encrypt(encoded.as_slice(), self.master_key.as_slice()) {
            Ok(env) => {
                proof {
                    lemma_decode_encode(pairs_of(self.entries@));
                }
                Ok((vid, env))
            },
            Err(_) => {
                proof {
                    assert(encoded@.len() >= trusted::aead_plain_limit());
                    assert(encode_pairs(start_pairs).len() + 40 + vb
                        >= trusted::aead_plain_limit());
                }
                self.entries.pop();
                proof {
                    assert(self.entries@ =~= old_entries);
                }
                Err(KeyStoreError::EncryptionFailed)
            },
        }
    }

    /// Looks up the key material stored under an exact versioned
    /// identifier; a base identifier that was never stored verbatim finds
    /// nothing.
    pub fn retrieve_key(&self, id: &str) -> (r: Option<Vec<u8>>)
        requires
            self.wf(),
        ensures
            r matches Some(k) ==> self.keys_map().contains_key(encode_utf8(id@)) && k@
                == self.keys_map()[encode_utf8(id@)] && k@.len() == 32,
            r is None ==> !self.keys_map().contains_key(encode_utf8(id@)),
    {
        let idb = id.as_bytes();
        let ghost ps = pairs_of(self.entries@);
        let mut i: usize = 0;
        while i < self.entries.len()
            invariant
                i <= self.entries@.len(),
                ps == pairs_of(self.entries@),
                pairs_wf(ps),
                ids_unique(ps),
                idb@ == encode_utf8(id@),
                forall|j: int| 0 <= j < i ==> (#[trigger] ps[j]).0 != idb@,
            decreases self.entries@.len() - i,
        {
            if bytes_eq(self.entries[i].id.as_slice(), idb) {
                proof {
                    assert(ps[i as int].0 == idb@);
                    lemma_pairs_map_get(ps, i as int);
                }
                return Some(slice_to_vec(self.entries[i].key.as_slice()));
            }
            i = i + 1;
        }
        proof {
            assert(!has_id(ps, idb@));
            lemma_pairs_map_absent(ps, idb@);
        }
        None
    }

    /// The path this store was opened under, for the caller that performs
    /// the file writes.
    pub fn path(&self) -> (r: &str)
        ensures
            r@ == self.path_view(),
    {
        self.path.as_str()
    }
}

/// Law: opening fails closed on a wrong password.  That the store file
/// does not authenticate under the wrong password's derived key is the
/// cipher's probabilistic guarantee and stands here as the premise; given
/// it, the file reads as `AuthenticationFailure` and nothing else — so by
/// `new`'s contract no store value exists and no entry is ever accessible,
/// with no signal distinguishing a wrong password from a corrupted file.
pub proof fn lemma_wrong_password_fails_closed(file: Seq<u8>, mk: Seq<u8>)
    requires
        envelope_plaintext(file, mk) is None,
    ensures
        store_contents(file, mk) == Err::<Seq<(Seq<u8>, Seq<u8>)>, KeyStoreError>(
            KeyStoreError::AuthenticationFailure,
        ),
{
}

/// Law: two stores under one open session yield two distinct entries.  A
/// second fresh identifier can never equal the first — so the final map
/// holds both stored keys, and neither write replaced the other.
pub proof fn lemma_two_stores_distinct(
    m0: Map<Seq<u8>, Seq<u8>>,
    id1: Seq<u8>,
    k1: Seq<u8>,
    id2: Seq<u8>,
    k2: Seq<u8>,
)
    requires
        !m0.contains_key(id1),
        !m0.insert(id1, k1).contains_key(id2),
    ensures
        id1 != id2,
        m0.insert(id1, k1).insert(id2, k2).contains_key(id1),
        m0.insert(id1, k1).insert(id2, k2).contains_key(id2),
        m0.insert(id1, k1).insert(id2, k2)[id1] == k1,
        m0.insert(id1, k1).insert(id2, k2)[id2] == k2,
{
}

} // verus!
