//! The on-disk form of the key map.
//!
//! The decrypted plaintext of a store file is the entries in order, each as
//! an 8-byte little-endian identifier length, the identifier's UTF-8 bytes,
//! and 32 bytes of key material — no header, no version tag, no checksum
//! beyond the envelope's own tag.  Decoding inverts encoding exactly, and
//! rejects a cut-short header, a length field that overruns, or trailing
//! bytes.

use vstd::prelude::*;
use vstd::bytes::{
    lemma_auto_spec_u64_to_from_le_bytes, spec_u64_from_le_bytes, spec_u64_to_le_bytes,
    u64_from_le_bytes, u64_to_le_bytes,
};
use vstd::slice::{slice_subrange, slice_to_vec};
use crate::bytes_eq;

verus! {

/// One stored entry: a versioned identifier (UTF-8 bytes) and 32 bytes of
/// key material.
pub struct KeyEntry {
    pub id: Vec<u8>,
    pub key: Vec<u8>,
}

/// The identifier/key pairs a sequence of entries carries.
pub open spec fn pairs_of(es: Seq<KeyEntry>) -> Seq<(Seq<u8>, Seq<u8>)> {
    Seq::new(es.len(), |i: int| (es[i].id@, es[i].key@))
}

/// Every pair is storable: exactly 32 bytes of key material, an identifier
/// short enough for the 8-byte length header.
pub open spec fn pairs_wf(ps: Seq<(Seq<u8>, Seq<u8>)>) -> bool {
    forall|i: int|
        0 <= i < ps.len() ==> (#[trigger] ps[i]).1.len() == 32 && ps[i].0.len() <= u64::MAX
}

/// No identifier occurs twice.
pub open spec fn ids_unique(ps: Seq<(Seq<u8>, Seq<u8>)>) -> bool {
    forall|i: int, j: int| 0 <= i < j < ps.len() ==> (#[trigger] ps[i]).0 != (#[trigger] ps[j]).0
}

/// Whether some pair carries the identifier.
pub open spec fn has_id(ps: Seq<(Seq<u8>, Seq<u8>)>, id: Seq<u8>) -> bool {
    exists|i: int| 0 <= i < ps.len() && (#[trigger] ps[i]).0 == id
}

/// The map from identifiers to key material that a pair list denotes; a
/// later pair wins, so on a unique list every pair is visible.
pub open spec fn pairs_map(ps: Seq<(Seq<u8>, Seq<u8>)>) -> Map<Seq<u8>, Seq<u8>>
    decreases ps.len(),
{
    if ps.len() == 0 {
        Map::empty()
    } else {
        pairs_map(ps.drop_last()).insert(ps.last().0, ps.last().1)
    }
}

/// The longest identifier among the pairs, or 0 when there are none.
pub open spec fn max_id_len_of(ps: Seq<(Seq<u8>, Seq<u8>)>) -> int
    decreases ps.len(),
{
    if ps.len() == 0 {
        0
    } else {
        let rest = max_id_len_of(ps.drop_last());
        if ps.last().0.len() > rest {
            ps.last().0.len() as int
        } else {
            rest
        }
    }
}

/// One encoded entry: the identifier length as 8 little-endian bytes, the
/// identifier, then the key material.
pub open spec fn encode_entry(id: Seq<u8>, key: Seq<u8>) -> Seq<u8> {
    spec_u64_to_le_bytes(id.len() as u64) + id + key
}

/// The encoded store: each entry in order, nothing else.
pub open spec fn encode_pairs(ps: Seq<(Seq<u8>, Seq<u8>)>) -> Seq<u8>
    decreases ps.len(),
{
    if ps.len() == 0 {
        Seq::empty()
    } else {
        encode_entry(ps[0].0, ps[0].1) + encode_pairs(ps.drop_first())
    }
}

/// What a byte string decodes to: the pair list, or `None` when a header is
/// cut short or a length field overruns what is left.
pub open spec fn decode_pairs(b: Seq<u8>) -> Option<Seq<(Seq<u8>, Seq<u8>)>>
    decreases b.len(),
{
    if b.len() == 0 {
        Some(Seq::empty())
    } else if b.len() < 8 {
        None
    } else {
        let n = spec_u64_from_le_bytes(b.subrange(0, 8)) as int;
        if b.len() - 40 < n {
            None
        } else {
            match decode_pairs(b.subrange(8 + n + 32, b.len() as int)) {
                None => None,
                Some(rest) => Some(
                    seq![(b.subrange(8, 8 + n), b.subrange(8 + n, 8 + n + 32))] + rest,
                ),
            }
        }
    }
}

/// Law: decoding inverts encoding — any storable pair list comes back
/// exactly from its own encoding.
pub proof fn lemma_decode_encode(ps: Seq<(Seq<u8>, Seq<u8>)>)
    requires
        pairs_wf(ps),
    ensures
        decode_pairs(encode_pairs(ps)) == Some(ps),
    decreases ps.len(),
{
    lemma_auto_spec_u64_to_from_le_bytes();
    if ps.len() == 0 {
    } else {
        let id = ps[0].0;
        let key = ps[0].1;
        let rest = ps.drop_first();
        let b = encode_pairs(ps);
        let hdr = spec_u64_to_le_bytes(id.len() as u64);
        assert(hdr.len() == 8);
        assert(b =~= hdr + id + key + encode_pairs(rest));
        assert(b.subrange(0, 8) =~= hdr);
        let n = spec_u64_from_le_bytes(b.subrange(0, 8)) as int;
        assert(n == id.len());
        assert(b.len() == 40 + id.len() + encode_pairs(rest).len());
        assert(b.subrange(8, 8 + n) =~= id);
        assert(b.subrange(8 + n, 8 + n + 32) =~= key);
        assert(b.subrange(8 + n + 32, b.len() as int) =~= encode_pairs(rest));
        assert(pairs_wf(rest));
        lemma_decode_encode(rest);
        assert(seq![(id, key)] + rest =~= ps);
    }
}

/// Appending a pair grows the encoding by its exact record size: an 8-byte
/// header, the identifier, and 32 key bytes.
pub proof fn lemma_encode_push_len(ps: Seq<(Seq<u8>, Seq<u8>)>, id: Seq<u8>, key: Seq<u8>)
    requires
        key.len() == 32,
    ensures
        encode_pairs(ps.push((id, key))).len() == encode_pairs(ps).len() + 40 + id.len(),
    decreases ps.len(),
{
    lemma_auto_spec_u64_to_from_le_bytes();
    assert(spec_u64_to_le_bytes(id.len() as u64).len() == 8);
    if ps.len() == 0 {
        reveal_with_fuel(encode_pairs, 2);
        assert(ps.push((id, key)).drop_first() =~= Seq::<(Seq<u8>, Seq<u8>)>::empty());
        assert(ps.push((id, key))[0] == (id, key));
        assert(encode_pairs(ps.push((id, key))) == encode_entry(id, key) + encode_pairs(
            Seq::<(Seq<u8>, Seq<u8>)>::empty(),
        ));
    } else {
        assert(ps.push((id, key))[0] == ps[0]);
        assert(ps.push((id, key)).drop_first() =~= ps.drop_first().push((id, key)));
        lemma_encode_push_len(ps.drop_first(), id, key);
        assert(encode_pairs(ps.push((id, key))) == encode_entry(ps[0].0, ps[0].1) + encode_pairs(
            ps.drop_first().push((id, key)),
        ));
        assert(encode_pairs(ps) == encode_entry(ps[0].0, ps[0].1) + encode_pairs(ps.drop_first()));
    }
}

/// Appending a pair updates the denoted map at just that identifier.
pub proof fn lemma_pairs_map_push(ps: Seq<(Seq<u8>, Seq<u8>)>, id: Seq<u8>, key: Seq<u8>)
    ensures
        pairs_map(ps.push((id, key))) == pairs_map(ps).insert(id, key),
{
    assert(ps.push((id, key)).drop_last() =~= ps);
    assert(ps.push((id, key)).last() == (id, key));
}

/// On a unique pair list the denoted map holds every pair.
pub proof fn lemma_pairs_map_get(ps: Seq<(Seq<u8>, Seq<u8>)>, i: int)
    requires
        ids_unique(ps),
        0 <= i < ps.len(),
    ensures
        pairs_map(ps).contains_key(ps[i].0),
        pairs_map(ps)[ps[i].0] == ps[i].1,
    decreases ps.len(),
{
    if i == ps.len() - 1 {
    } else {
        let prefix = ps.drop_last();
        assert(ids_unique(prefix));
        assert(prefix[i] == ps[i]);
        lemma_pairs_map_get(prefix, i);
        assert(ps.last().0 != ps[i].0);
    }
}

/// An identifier no pair carries is not in the denoted map.
pub proof fn lemma_pairs_map_absent(ps: Seq<(Seq<u8>, Seq<u8>)>, id: Seq<u8>)
    requires
        !has_id(ps, id),
    ensures
        !pairs_map(ps).contains_key(id),
    decreases ps.len(),
{
    if ps.len() > 0 {
        let prefix = ps.drop_last();
        assert(forall|k: int| 0 <= k < prefix.len() ==> prefix[k] == ps[k]);
        assert(!has_id(prefix, id));
        lemma_pairs_map_absent(prefix, id);
        assert(ps.last() == ps[ps.len() - 1]);
        assert(ps.last().0 != id);
    }
}

/// Encodes the entries for the store file.
pub fn encode_store(entries: &Vec<KeyEntry>) -> (r: Vec<u8>)
    ensures
        r@ == encode_pairs(pairs_of(entries@)),
{
    let ghost all = pairs_of(entries@);
    let mut out: Vec<u8> = Vec::new();
    let mut i: usize = 0;
    proof {
        assert(all.subrange(0, all.len() as int) =~= all);
        assert(Seq::<u8>::empty() + encode_pairs(all) =~= encode_pairs(all));
    }
    while i < entries.len()
        invariant
            i <= entries@.len(),
            all == pairs_of(entries@),
            encode_pairs(all) == out@ + encode_pairs(all.subrange(i as int, all.len() as int)),
        decreases entries@.len() - i,
    {
        let ghost suffix = all.subrange(i as int, all.len() as int);
        let ghost out_before = out@;
        let n64: u64 = entries[i].id.len() as u64;
        let mut hdr = u64_to_le_bytes(n64);
        out.append(&mut hdr);
        let mut idv = slice_to_vec(entries[i].id.as_slice());
        out.append(&mut idv);
        let mut keyv = slice_to_vec(entries[i].key.as_slice());
        out.append(&mut keyv);
        proof {
            let piece = encode_entry(suffix[0].0, suffix[0].1);
            assert(suffix.drop_first() =~= all.subrange(i + 1, all.len() as int));
            assert(out@ =~= out_before + piece);
            assert((out_before + piece) + encode_pairs(all.subrange(i + 1, all.len() as int))
                =~= out_before + (piece + encode_pairs(all.subrange(i + 1, all.len() as int))));
        }
        i = i + 1;
    }
    proof {
        assert(all.subrange(all.len() as int, all.len() as int) =~= Seq::<
            (Seq<u8>, Seq<u8>),
        >::empty());
        assert(out@ + Seq::<u8>::empty() =~= out@);
    }
    out
}

/// Decodes a store file's plaintext back into entries; `None` exactly when
/// the bytes are not a whole encoded store.
pub fn decode_store(bytes: &[u8]) -> (r: Option<Vec<KeyEntry>>)
    ensures
        r matches Some(es) ==> decode_pairs(bytes@) == Some(pairs_of(es@)) && pairs_wf(
            pairs_of(es@),
        ),
        r is None ==> decode_pairs(bytes@) is None,
{
    let ghost whole = bytes@;
    let mut acc: Vec<KeyEntry> = Vec::new();
    let mut pos: usize = 0;
    proof {
        assert(whole.subrange(0, whole.len() as int) =~= whole);
        assert(pairs_of(acc@) =~= Seq::<(Seq<u8>, Seq<u8>)>::empty());
    }
    while pos < bytes.len()
        invariant
            pos <= whole.len(),
            whole == bytes@,
            pairs_wf(pairs_of(acc@)),
            forall|rest: Seq<(Seq<u8>, Seq<u8>)>|
                decode_pairs(whole.subrange(pos as int, whole.len() as int)) == Some(rest)
                    ==> decode_pairs(whole) == Some(pairs_of(acc@) + rest),
            (decode_pairs(whole.subrange(pos as int, whole.len() as int)) is None) ==> (
            decode_pairs(whole) is None),
        decreases whole.len() - pos,
    {
        let ghost suffix = whole.subrange(pos as int, whole.len() as int);
        if bytes.len() - pos < 8 {
            return None;
        }
        let hdr = slice_subrange(bytes, pos, pos + 8);
        let n64 = u64_from_le_bytes(hdr);
        proof {
            assert(suffix.subrange(0, 8) =~= hdr@);
        }
        let avail = bytes.len() - pos;
        if avail - 8 < 32 || ((avail - 40) as u64) < n64 {
            proof {
                assert(decode_pairs(suffix) is None);
            }
            return None;
        }
        let n = n64 as usize;
        let id = slice_to_vec(slice_subrange(bytes, pos + 8, pos + 8 + n));
        let key = slice_to_vec(slice_subrange(bytes, pos + 8 + n, pos + 8 + n + 32));
        let ghost acc_before = acc@;
        let ghost pair = (id@, key@);
        acc.push(KeyEntry { id, key });
        proof {
            assert(suffix.subrange(8, 8 + n as int) =~= pair.0);
            assert(suffix.subrange(8 + n as int, 8 + n as int + 32) =~= pair.1);
            assert(suffix.subrange(8 + n as int + 32, suffix.len() as int) =~= whole.subrange(
                pos + 8 + n + 32,
                whole.len() as int,
            ));
            assert(pairs_of(acc@) =~= pairs_of(acc_before).push(pair));
            assert(forall|rest: Seq<(Seq<u8>, Seq<u8>)>|
                (pairs_of(acc_before) + (seq![pair] + rest)) =~= (pairs_of(acc_before).push(pair)
                    + rest));
        }
        pos = pos + 8 + n + 32;
    }
    proof {
        assert(whole.subrange(whole.len() as int, whole.len() as int) =~= Seq::<u8>::empty());
        assert(pairs_of(acc@) + Seq::<(Seq<u8>, Seq<u8>)>::empty() =~= pairs_of(acc@));
    }
    Some(acc)
}

/// Decides whether the entries' identifiers are pairwise distinct.
pub fn check_ids_unique(entries: &Vec<KeyEntry>) -> (r: bool)
    ensures
        r == ids_unique(pairs_of(entries@)),
{
    let ghost ps = pairs_of(entries@);
    let mut i: usize = 0;
    while i < entries.len()
        invariant
            i <= entries@.len(),
            ps == pairs_of(entries@),
            forall|a: int, b: int| 0 <= a < b < entries@.len() && a < i ==> ps[a].0 != ps[b].0,
        decreases entries@.len() - i,
    {
        let mut j: usize = i + 1;
        while j < entries.len()
            invariant
                i < j || j == i + 1,
                i + 1 <= j <= entries@.len(),
                i < entries@.len(),
                ps == pairs_of(entries@),
                forall|b: int| i < b < j ==> ps[i as int].0 != ps[b].0,
            decreases entries@.len() - j,
        {
            if bytes_eq(entries[i].id.as_slice(), entries[j].id.as_slice()) {
                proof {
                    assert(ps[i as int].0 == entries@[i as int].id@);
                    assert(ps[j as int].0 == entries@[j as int].id@);
                    assert(!ids_unique(ps));
                }
                return false;
            }
            j = j + 1;
        }
        i = i + 1;
    }
    true
}

} // verus!
