//! Content hashing and compression of dependency bytecodes.
//!
//! A dependency bytecode is identified by a 64-bit content hash. Before a
//! transaction is submitted, the compressor (see [`plan_compression`]) dedups
//! the transaction's declared dependencies by hash, skips the ones the
//! bytecode-resolution cache already recognizes, and attempts to produce a
//! compressed payload for each remaining one.

use vstd::prelude::*;

verus! {

/// Offset basis of the 64-bit FNV-1a content hash.
pub const HASH_OFFSET: u64 = 0xcbf29ce484222325;
/// Multiplier of the 64-bit FNV-1a content hash.
pub const HASH_PRIME: u64 = 0x100000001b3;

/// One step of the content hash: fold one byte into the running state.
pub open spec fn hash_step(h: u64, b: u8) -> u64 {
    ((((h ^ (b as u64)) as int) * (HASH_PRIME as int)) % 0x10000000000000000) as u64
}

/// The 64-bit content hash of a byte string (FNV-1a).
pub open spec fn hash_of(code: Seq<u8>) -> u64
    decreases code.len(),
{
    if code.len() == 0 {
        HASH_OFFSET
    } else {
        hash_step(hash_of(code.drop_last()), code.last())
    }
}

/// Computes the 64-bit content hash identifying a dependency bytecode.
pub fn hash_bytecode(code: &Vec<u8>) -> (h: u64)
    ensures
        h == hash_of(code@),
{
    let mut h: u64 = HASH_OFFSET;
    let mut i: usize = 0;
    while i < code.len()
        invariant
            i <= code@.len(),
            h == hash_of(code@.take(i as int)),
        decreases code@.len() - i,
    {
        proof {
            assert(code@.take(i + 1).drop_last() =~= code@.take(i as int));
            assert(code@.take(i + 1).last() == code@[i as int]);
        }
        let x: u64 = h ^ (code[i] as u64);
        h = (((x as u128) * (HASH_PRIME as u128)) % 0x10000000000000000u128) as u64;
        i = i + 1;
    }
    proof {
        assert(code@.take(code@.len() as int) =~= code@);
    }
    h
}

/// Per-dependency compression record: the content hash, and the compressed
/// payload when one could be produced. Produced before a transaction
/// executes, consumed by the post-execution verification check.
#[derive(Clone, PartialEq, Eq, Debug)]
pub struct CompressedBytecodeInfo {
    pub bytecode_hash: u64,
    pub compressed: Option<Vec<u8>>,
}

/// Spec view of a compression record.
pub ghost struct RecordV {
    pub hash: u64,
    pub payload: Option<Seq<u8>>,
}

impl View for CompressedBytecodeInfo {
    type V = RecordV;

    open spec fn view(&self) -> RecordV {
        RecordV {
            hash: self.bytecode_hash,
            payload: match self.compressed {
                Some(p) => Some(p@),
                None => None,
            },
        }
    }
}

/// The record the compressor produces for one dependency bytecode.
pub open spec fn record_of(code: Seq<u8>) -> RecordV {
    RecordV {
        hash: hash_of(code),
        payload: if compressible(code) {
            Some(payload_of(code))
        } else {
            None
        },
    }
}

/// The view of a record list.
pub open spec fn records_view(rs: Seq<CompressedBytecodeInfo>) -> Seq<RecordV> {
    rs.map_values(|c: CompressedBytecodeInfo| c@)
}

/// A dependency bytecode has a well-formed shape: a whole number of 32-byte
/// words, an odd word count, and fewer than 2^16 words. Compression is
/// attempted, and succeeds, exactly on such bytecodes.
pub open spec fn compressible(code: Seq<u8>) -> bool {
    &&& code.len() % 32 == 0
    &&& (code.len() / 32) % 2 == 1
    &&& code.len() / 32 < 65536
}

/// Is the 8-byte chunk at index `i` identical to the chunk before it?
pub open spec fn chunk_repeats(code: Seq<u8>, i: int) -> bool {
    forall|k: int| 0 <= k < 8 ==> #[trigger] code[8 * i + k] == code[8 * (i - 1) + k]
}

/// The encoding of one 8-byte chunk: a repeat marker when it equals the
/// previous chunk, else a literal marker followed by the chunk itself.
pub open spec fn chunk_enc(code: Seq<u8>, i: int) -> Seq<u8> {
    if i > 0 && chunk_repeats(code, i) {
        seq![0u8]
    } else {
        seq![1u8] + code.subrange(8 * i, 8 * i + 8)
    }
}

/// The concatenated encodings of the first `t` chunks.
pub open spec fn payload_upto(code: Seq<u8>, t: int) -> Seq<u8>
    decreases t,
{
    if t <= 0 {
        Seq::empty()
    } else {
        payload_upto(code, t - 1) + chunk_enc(code, t - 1)
    }
}

/// The compressed payload of a well-shaped bytecode.
pub open spec fn payload_of(code: Seq<u8>) -> Seq<u8> {
    payload_upto(code, code.len() as int / 8)
}

/// Attempts to produce a compressed payload for one dependency bytecode.
/// Succeeds exactly on well-shaped bytecodes (see [`compressible`]); the
/// payload encodes each 8-byte chunk as a repeat marker or a literal.
pub fn compress_bytecode(code: &Vec<u8>) -> (r: Option<Vec<u8>>)
    ensures
        r is Some <==> compressible(code@),
        r matches Some(p) ==> p@ == payload_of(code@),
{
    let n = code.len();
    if n % 32 != 0 {
        return None;
    }
    let words = n / 32;
    if words % 2 == 0 {
        return None;
    }
    if words >= 65536 {
        return None;
    }
    let chunks = n / 8;
    proof {
        assert(8 * chunks == n) by (nonlinear_arith)
            requires
                n % 32 == 0,
                chunks == n / 8,
        ;
    }
    let mut out: Vec<u8> = Vec::new();
    let mut t: usize = 0;
    while t < chunks
        invariant
            t <= chunks,
            n == code@.len(),
            8 * chunks == n,
            out@ == payload_upto(code@, t as int),
        decreases chunks - t,
    {
        proof {
            assert(8 * t + 8 <= n) by (nonlinear_arith)
                requires
                    t < chunks,
                    8 * chunks == n,
            ;
        }
        let base = 8 * t;
        if t > 0 && code[base] == code[base - 8] && code[base + 1] == code[base - 7]
            && code[base + 2] == code[base - 6] && code[base + 3] == code[base - 5]
            && code[base + 4] == code[base - 4] && code[base + 5] == code[base - 3]
            && code[base + 6] == code[base - 2] && code[base + 7] == code[base - 1] {
            out.push(0u8);
            proof {
                assert forall|k: int| 0 <= k < 8 implies #[trigger] code@[8 * (t as int) + k]
                    == code@[8 * ((t as int) - 1) + k] by {
                    assert(code@[base as int] == code@[base as int - 8]);
                    assert(code@[base as int + 1] == code@[base as int - 7]);
                    assert(code@[base as int + 2] == code@[base as int - 6]);
                    assert(code@[base as int + 3] == code@[base as int - 5]);
                    assert(code@[base as int + 4] == code@[base as int - 4]);
                    assert(code@[base as int + 5] == code@[base as int - 3]);
                    assert(code@[base as int + 6] == code@[base as int - 2]);
                    assert(code@[base as int + 7] == code@[base as int - 1]);
                }
                assert(chunk_repeats(code@, t as int));
                assert(chunk_enc(code@, t as int) =~= seq![0u8]);
                assert(out@ =~= payload_upto(code@, t as int + 1));
            }
        } else {
            out.push(1u8);
            out.push(code[base]);
            out.push(code[base + 1]);
            out.push(code[base + 2]);
            out.push(code[base + 3]);
            out.push(code[base + 4]);
            out.push(code[base + 5]);
            out.push(code[base + 6]);
            out.push(code[base + 7]);
            proof {
                if t > 0 && chunk_repeats(code@, t as int) {
                    assert(code@[8 * (t as int) + 0] == code@[8 * ((t as int) - 1) + 0]);
                    assert(code@[8 * (t as int) + 1] == code@[8 * ((t as int) - 1) + 1]);
                    assert(code@[8 * (t as int) + 2] == code@[8 * ((t as int) - 1) + 2]);
                    assert(code@[8 * (t as int) + 3] == code@[8 * ((t as int) - 1) + 3]);
                    assert(code@[8 * (t as int) + 4] == code@[8 * ((t as int) - 1) + 4]);
                    assert(code@[8 * (t as int) + 5] == code@[8 * ((t as int) - 1) + 5]);
                    assert(code@[8 * (t as int) + 6] == code@[8 * ((t as int) - 1) + 6]);
                    assert(code@[8 * (t as int) + 7] == code@[8 * ((t as int) - 1) + 7]);
                    assert(false);
                }
                assert(chunk_enc(code@, t as int) =~= seq![1u8] + code@.subrange(
                    8 * (t as int),
                    8 * (t as int) + 8,
                ));
                assert(out@ =~= payload_upto(code@, t as int + 1));
            }
        }
        t = t + 1;
    }
    Some(out)
}

/// The dependency bytecodes selected for compression: the first occurrence
/// of each content hash that the cache does not already recognize, in
/// dependency-list order.
pub open spec fn pending_codes(deps: Seq<Seq<u8>>, known: Set<u64>) -> Seq<Seq<u8>>
    decreases deps.len(),
{
    if deps.len() == 0 {
        Seq::empty()
    } else if known.contains(hash_of(deps[0])) {
        pending_codes(deps.drop_first(), known)
    } else {
        seq![deps[0]] + pending_codes(deps.drop_first(), known.insert(hash_of(deps[0])))
    }
}

/// The content hashes the compressor records as pending.
pub open spec fn pending_hashes(deps: Seq<Seq<u8>>, known: Set<u64>) -> Seq<u64> {
    pending_codes(deps, known).map_values(|c: Seq<u8>| hash_of(c))
}

/// Dedups a dependency list by content hash, skips the hashes the cache
/// already recognizes, and attempts compression for each remaining
/// dependency, in first-occurrence order.
pub fn plan_compression(deps: &Vec<Vec<u8>>, storage: &crate::storage::StorageOracle) -> (r: Vec<
    CompressedBytecodeInfo,
>)
    ensures
        records_view(r@) == pending_codes(deps.deep_view(), storage.known_set()).map_values(
            |c: Seq<u8>| record_of(c),
        ),
{
    let ghost full = deps.deep_view();
    let ghost k0 = storage.known_set();
    let mut seen: Vec<u64> = Vec::new();
    let mut out: Vec<CompressedBytecodeInfo> = Vec::new();
    let ghost mut done: Seq<Seq<u8>> = Seq::empty();
    let mut i: usize = 0;
    proof {
        assert(full.skip(0) =~= full);
        assert(Seq::<u64>::empty().to_set() =~= Set::<u64>::empty());
        assert(k0.union(Set::<u64>::empty()) =~= k0);
        assert(Seq::<Seq<u8>>::empty() + pending_codes(full, k0) =~= pending_codes(full, k0));
        assert(Seq::<u64>::empty() =~= Seq::<Seq<u8>>::empty().map_values(
            |c: Seq<u8>| hash_of(c),
        ));
        assert(records_view(Seq::<CompressedBytecodeInfo>::empty()) =~= Seq::<
            Seq<u8>,
        >::empty().map_values(|c: Seq<u8>| record_of(c)));
    }
    while i < deps.len()
        invariant
            i <= deps@.len(),
            full == deps.deep_view(),
            k0 == storage.known_set(),
            full.len() == deps@.len(),
            seen@ == done.map_values(|c: Seq<u8>| hash_of(c)),
            records_view(out@) == done.map_values(|c: Seq<u8>| record_of(c)),
            pending_codes(full, k0) == done + pending_codes(
                full.skip(i as int),
                k0.union(seen@.to_set()),
            ),
        decreases deps@.len() - i,
    {
        let ghost rest = full.skip(i as int);
        let ghost kcur = k0.union(seen@.to_set());
        proof {
            assert(rest.len() > 0);
            assert(rest[0] == full[i as int]);
            assert(rest.drop_first() =~= full.skip(i as int + 1));
            assert(full[i as int] == deps@[i as int]@);
        }
        let h = hash_bytecode(&deps[i]);
        let in_seen = hash_list_contains(&seen, h);
        let in_cache = storage.is_bytecode_known(h);
        proof {
            assert(in_seen == seen@.to_set().contains(h));
            assert((in_seen || in_cache) == kcur.contains(h));
        }
        if !(in_seen || in_cache) {
            let payload = compress_bytecode(&deps[i]);
            let rec = CompressedBytecodeInfo { bytecode_hash: h, compressed: payload };
            proof {
                assert(rec@ == record_of(full[i as int]));
            }
            let ghost oldseen = seen@;
            let ghost oldout = out@;
            out.push(rec);
            seen.push(h);
            proof {
                let ghost c = full[i as int];
                let ghost olddone = done;
                done = done.push(c);
                crate::storage::lemma_push_to_set(oldseen, h);
                assert(seen@.to_set() == oldseen.to_set().insert(h));
                assert forall|j: int| 0 <= j < seen@.len() implies seen@[j] == done.map_values(
                    |x: Seq<u8>| hash_of(x),
                )[j] by {
                    if j < oldseen.len() {
                        assert(oldseen[j] == olddone.map_values(|x: Seq<u8>| hash_of(x))[j]);
                    }
                }
                assert(seen@ =~= done.map_values(|x: Seq<u8>| hash_of(x)));
                assert(records_view(oldout).len() == oldout.len());
                assert(olddone.map_values(|x: Seq<u8>| record_of(x)).len() == olddone.len());
                assert(oldout.len() == olddone.len());
                assert(out@.len() == done.len());
                assert forall|j: int| 0 <= j < out@.len() implies records_view(out@)[j]
                    == done.map_values(|x: Seq<u8>| record_of(x))[j] by {
                    if j < oldout.len() {
                        assert(records_view(oldout)[j] == olddone.map_values(
                            |x: Seq<u8>| record_of(x),
                        )[j]);
                    }
                }
                assert(records_view(out@) =~= done.map_values(|x: Seq<u8>| record_of(x)));
                assert(kcur.insert(h) =~= k0.union(seen@.to_set()));
                assert(pending_codes(rest, kcur) =~= seq![c] + pending_codes(
                    rest.drop_first(),
                    kcur.insert(hash_of(c)),
                ));
                assert(olddone + (seq![c] + pending_codes(full.skip(i as int + 1), kcur.insert(h)))
                    =~= done + pending_codes(full.skip(i as int + 1), kcur.insert(h)));
            }
        } else {
            proof {
                assert(pending_codes(rest, kcur) == pending_codes(rest.drop_first(), kcur));
            }
        }
        i = i + 1;
    }
    proof {
        assert(full.skip(full.len() as int) =~= Seq::<Seq<u8>>::empty());
        assert(pending_codes(full, k0) =~= done);
    }
    out
}

/// Linear membership test on a hash list.
fn hash_list_contains(v: &Vec<u64>, h: u64) -> (r: bool)
    ensures
        r == v@.to_set().contains(h),
{
    let mut i: usize = 0;
    while i < v.len()
        invariant
            i <= v@.len(),
            forall|j: int| 0 <= j < i ==> v@[j] != h,
        decreases v@.len() - i,
    {
        if v[i] == h {
            return true;
        }
        i = i + 1;
    }
    proof {
        if v@.to_set().contains(h) {
            let j = choose|j: int| 0 <= j < v@.len() && v@[j] == h;
            assert(v@[j] == h);
        }
    }
    false
}

/// Already-known dependencies never appear in the compressor's pending
/// output: every pending hash is outside the cache's known set.
pub proof fn lemma_pending_not_known(deps: Seq<Seq<u8>>, known: Set<u64>)
    ensures
        forall|j: int|
            0 <= j < pending_hashes(deps, known).len() ==> !known.contains(
                #[trigger] pending_hashes(deps, known)[j],
            ),
    decreases deps.len(),
{
    if deps.len() == 0 {
    } else {
        let h = hash_of(deps[0]);
        let rest = deps.drop_first();
        if known.contains(h) {
            lemma_pending_not_known(rest, known);
            assert(pending_codes(deps, known) == pending_codes(rest, known));
            assert forall|j: int| 0 <= j < pending_hashes(deps, known).len() implies !known
                .contains(#[trigger] pending_hashes(deps, known)[j]) by {
                assert(pending_hashes(deps, known)[j] == pending_hashes(rest, known)[j]);
            }
        } else {
            lemma_pending_not_known(rest, known.insert(h));
            let tail = pending_codes(rest, known.insert(h));
            assert(pending_codes(deps, known) == seq![deps[0]] + tail);
            assert forall|j: int| 0 <= j < pending_hashes(deps, known).len() implies !known
                .contains(#[trigger] pending_hashes(deps, known)[j]) by {
                if j == 0 {
                    assert(pending_hashes(deps, known)[0] == h);
                } else {
                    assert(pending_codes(deps, known)[j] == tail[j - 1]);
                    let tl = pending_hashes(rest, known.insert(h));
                    assert(pending_hashes(deps, known)[j] == tl[j - 1]);
                    assert(!known.insert(h).contains(pending_hashes(rest, known.insert(h))[j - 1]));
                }
            }
        }
    }
}

/// Dependency dedup: the pending hashes are distinct, and the number of
/// compression attempts equals the number of distinct dependency hashes the
/// cache does not already recognize.
pub proof fn lemma_pending_count(deps: Seq<Seq<u8>>, known: Set<u64>)
    requires
        known.finite(),
    ensures
        pending_hashes(deps, known).no_duplicates(),
        pending_hashes(deps, known).to_set() == deps.map_values(|c: Seq<u8>| hash_of(c)).to_set()
            .difference(known),
        pending_codes(deps, known).len() == deps.map_values(|c: Seq<u8>| hash_of(c)).to_set()
            .difference(known).len(),
    decreases deps.len(),
{
    broadcast use vstd::seq_lib::seq_to_set_is_finite;

    let hs = deps.map_values(|c: Seq<u8>| hash_of(c));
    let target = hs.to_set().difference(known);
    if deps.len() == 0 {
        assert(pending_hashes(deps, known) =~= Seq::<u64>::empty());
        assert(target =~= Set::<u64>::empty());
        assert(pending_hashes(deps, known).to_set() =~= Set::<u64>::empty());
    } else {
        let h = hash_of(deps[0]);
        let rest = deps.drop_first();
        let rhs = rest.map_values(|c: Seq<u8>| hash_of(c));
        assert(hs =~= seq![h] + rhs);
        if known.contains(h) {
            lemma_pending_count(rest, known);
            assert(pending_codes(deps, known) == pending_codes(rest, known));
            assert(pending_hashes(deps, known) =~= pending_hashes(rest, known));
            assert(target =~= rhs.to_set().difference(known)) by {
                assert forall|x: u64| #[trigger] hs.to_set().contains(x) && !known.contains(x)
                    implies rhs.to_set().contains(x) by {
                    let j = choose|j: int| 0 <= j < hs.len() && hs[j] == x;
                    assert(j != 0);
                    assert(rhs[j - 1] == x);
                }
                assert forall|x: u64| #[trigger] rhs.to_set().contains(x) implies hs.to_set()
                    .contains(x) by {
                    let j = choose|j: int| 0 <= j < rhs.len() && rhs[j] == x;
                    assert(hs[j + 1] == x);
                }
            }
        } else {
            lemma_pending_count(rest, known.insert(h));
            let tail = pending_hashes(rest, known.insert(h));
            let tailset = rhs.to_set().difference(known.insert(h));
            assert(pending_codes(deps, known) == seq![deps[0]] + pending_codes(
                rest,
                known.insert(h),
            ));
            assert(pending_hashes(deps, known) =~= seq![h] + tail);
            // distinctness: h is not in the tail
            assert(!tail.to_set().contains(h));
            assert forall|j: int| 0 <= j < tail.len() implies tail[j] != h by {
                assert(tail.to_set().contains(tail[j]));
            }
            assert((seq![h] + tail).no_duplicates()) by {
                assert forall|p: int, q: int|
                    0 <= p < (seq![h] + tail).len() && 0 <= q < (seq![h] + tail).len() && p
                        != q implies (seq![h] + tail)[p] != (seq![h] + tail)[q] by {
                    if p == 0 {
                        assert((seq![h] + tail)[q] == tail[q - 1]);
                    } else if q == 0 {
                        assert((seq![h] + tail)[p] == tail[p - 1]);
                    } else {
                        assert((seq![h] + tail)[p] == tail[p - 1]);
                        assert((seq![h] + tail)[q] == tail[q - 1]);
                    }
                }
            }
            // the pending set is the target set
            assert(pending_hashes(deps, known).to_set() =~= target) by {
                assert forall|x: u64| #[trigger] pending_hashes(deps, known).to_set().contains(x)
                    implies target.contains(x) by {
                    let j = choose|j: int|
                        0 <= j < pending_hashes(deps, known).len() && pending_hashes(deps, known)[j]
                            == x;
                    if j == 0 {
                        assert(hs[0] == h);
                        assert(hs.to_set().contains(h));
                    } else {
                        assert(tail[j - 1] == x);
                        assert(tailset.contains(x));
                        let q = choose|q: int| 0 <= q < rhs.len() && rhs[q] == x;
                        assert(hs[q + 1] == x);
                        assert(hs.to_set().contains(x));
                    }
                }
                assert forall|x: u64| #[trigger] target.contains(x) implies pending_hashes(
                    deps,
                    known,
                ).to_set().contains(x) by {
                    if x == h {
                        assert(pending_hashes(deps, known)[0] == h);
                    } else {
                        let j = choose|j: int| 0 <= j < hs.len() && hs[j] == x;
                        assert(j != 0);
                        assert(rhs[j - 1] == x);
                        assert(rhs.to_set().contains(x));
                        assert(tailset.contains(x));
                        assert(tail.to_set().contains(x));
                        let q = choose|q: int| 0 <= q < tail.len() && tail[q] == x;
                        assert(pending_hashes(deps, known)[q + 1] == x);
                    }
                }
            }
            // cardinality
            assert(target =~= tailset.insert(h)) by {
                assert(hs[0] == h);
                assert(hs.to_set().contains(h));
                assert forall|x: u64| #[trigger] target.contains(x) implies tailset.insert(
                    h,
                ).contains(x) by {
                    if x != h {
                        let j = choose|j: int| 0 <= j < hs.len() && hs[j] == x;
                        assert(j != 0);
                        assert(rhs[j - 1] == x);
                        assert(rhs.to_set().contains(x));
                    }
                }
                assert forall|x: u64| #[trigger] tailset.insert(h).contains(x) implies target
                    .contains(x) by {
                    if x != h {
                        let q = choose|q: int| 0 <= q < rhs.len() && rhs[q] == x;
                        assert(hs[q + 1] == x);
                        assert(hs.to_set().contains(x));
                    }
                }
            }
            assert(!tailset.contains(h));
            assert(tailset.finite());
            assert(target.len() == tailset.len() + 1);
            assert(pending_codes(deps, known).len() == 1 + pending_codes(
                rest,
                known.insert(h),
            ).len());
        }
    }
}

} // verus!

