//! A canonical serialization of block execution artifacts.
//!
//! The artifacts are framed as a stream of 64-bit words: every list carries
//! its length in front, and every record is a fixed run of words. Decoding is
//! verified to be the exact inverse of encoding: a decode of an encode gives
//! back the artifacts, identically.

use vstd::prelude::*;

use crate::block_builder::{BlockExecutionArtifacts, BouncerWeights};
use crate::exec_map::{entries_keys_distinct, exec_info_entries, exec_info_map_get_index,
    exec_info_map_insert, exec_info_map_len, exec_info_map_new};
use crate::execution::TxExecutionInfo;
use crate::types::{
    ClassHash, CompiledClassHash, ContractAddress, Felt, Nonce, StorageEntry, ThinStateDiff,
};

verus! {

/// The mathematical image of the artifacts: every list as a sequence of plain
/// values.
pub struct ArtifactsImage {
    pub entries: Seq<(u64, TxExecutionInfo)>,
    pub storage_diffs: Seq<StorageEntry>,
    pub nonces: Seq<(ContractAddress, Nonce)>,
    pub declared_classes: Seq<(ClassHash, CompiledClassHash)>,
    pub deployed_contracts: Seq<(ContractAddress, ClassHash)>,
    pub visited: Seq<(ClassHash, Seq<u64>)>,
    pub weights: BouncerWeights,
}

/// The image of concrete artifacts.
pub open spec fn artifacts_image(a: &BlockExecutionArtifacts) -> ArtifactsImage {
    ArtifactsImage {
        entries: exec_info_entries(a.execution_infos),
        storage_diffs: a.commitment_state_diff.storage_diffs@,
        nonces: a.commitment_state_diff.nonces@,
        declared_classes: a.commitment_state_diff.declared_classes@,
        deployed_contracts: a.commitment_state_diff.deployed_contracts@,
        visited: a.visited_segments_mapping@.map_values(
            |p: (ClassHash, Vec<usize>)| (p.0, p.1@.map_values(|x: usize| x as u64)),
        ),
        weights: a.bouncer_weights,
    }
}

/// A list encoded item by item.
pub open spec fn enc_list<T>(items: Seq<T>, f: spec_fn(T) -> Seq<u64>) -> Seq<u64>
    decreases items.len(),
{
    if items.len() == 0 {
        Seq::empty()
    } else {
        f(items[0]) + enc_list(items.skip(1), f)
    }
}

/// `n` items parsed one after the other.
pub open spec fn parse_items<T>(
    n: nat,
    s: Seq<u64>,
    p: spec_fn(Seq<u64>) -> Option<(T, Seq<u64>)>,
) -> Option<(Seq<T>, Seq<u64>)>
    decreases n,
{
    if n == 0 {
        Some((Seq::empty(), s))
    } else {
        match p(s) {
            None => None,
            Some((x, rest)) => match parse_items((n - 1) as nat, rest, p) {
                None => None,
                Some((xs, rest2)) => Some((seq![x] + xs, rest2)),
            },
        }
    }
}

/// Parsing undoes encoding, item by item and so for whole lists.
pub proof fn lemma_list_round_trip<T>(
    items: Seq<T>,
    f: spec_fn(T) -> Seq<u64>,
    p: spec_fn(Seq<u64>) -> Option<(T, Seq<u64>)>,
    rest: Seq<u64>,
)
    requires
        forall|i: int, r: Seq<u64>|
            0 <= i < items.len() ==> #[trigger] p(f(items[i]) + r) == Some((items[i], r)),
    ensures
        parse_items(items.len(), enc_list(items, f) + rest, p) == Some((items, rest)),
    decreases items.len(),
{
    if items.len() == 0 {
        assert(enc_list(items, f) + rest =~= rest);
        assert(parse_items(0, rest, p) == Some((Seq::<T>::empty(), rest)));
        assert(items =~= Seq::<T>::empty());
    } else {
        let tail = items.skip(1);
        assert forall|i: int, r: Seq<u64>|
            0 <= i < tail.len() implies #[trigger] p(f(tail[i]) + r) == Some((tail[i], r)) by {
            assert(tail[i] == items[i + 1]);
            assert(p(f(items[i + 1]) + r) == Some((items[i + 1], r)));
        }
        lemma_list_round_trip(tail, f, p, rest);
        assert(enc_list(items, f) + rest =~= f(items[0]) + (enc_list(tail, f) + rest));
        assert(p(f(items[0]) + (enc_list(tail, f) + rest)) == Some(
            (items[0], enc_list(tail, f) + rest),
        ));
        assert(seq![items[0]] + tail =~= items);
    }
}

/// The encodings of the record shapes in the stream.
pub open spec fn enc_entry(e: (u64, TxExecutionInfo)) -> Seq<u64> {
    seq![
        e.0,
        if e.1.revert_happened {
            1u64
        } else {
            0u64
        },
        e.1.gas_consumed,
    ]
}

pub open spec fn parse_entry(s: Seq<u64>) -> Option<((u64, TxExecutionInfo), Seq<u64>)> {
    if s.len() >= 3 && (s[1] == 0 || s[1] == 1) {
        Some(
            (
                (s[0], TxExecutionInfo { revert_happened: s[1] == 1, gas_consumed: s[2] }),
                s.skip(3),
            ),
        )
    } else {
        None
    }
}

pub open spec fn enc_storage(e: StorageEntry) -> Seq<u64> {
    seq![e.address.a.v, e.key.v, e.value.v]
}

pub open spec fn parse_storage(s: Seq<u64>) -> Option<(StorageEntry, Seq<u64>)> {
    if s.len() >= 3 {
        Some(
            (
                StorageEntry {
                    address: ContractAddress { a: Felt { v: s[0] } },
                    key: Felt { v: s[1] },
                    value: Felt { v: s[2] },
                },
                s.skip(3),
            ),
        )
    } else {
        None
    }
}

pub open spec fn enc_nonce(e: (ContractAddress, Nonce)) -> Seq<u64> {
    seq![e.0.a.v, e.1.n.v]
}

pub open spec fn parse_nonce(s: Seq<u64>) -> Option<((ContractAddress, Nonce), Seq<u64>)> {
    if s.len() >= 2 {
        Some(
            (
                (ContractAddress { a: Felt { v: s[0] } }, Nonce { n: Felt { v: s[1] } }),
                s.skip(2),
            ),
        )
    } else {
        None
    }
}

pub open spec fn enc_declared(e: (ClassHash, CompiledClassHash)) -> Seq<u64> {
    seq![e.0.h.v, e.1.h.v]
}

pub open spec fn parse_declared(s: Seq<u64>) -> Option<((ClassHash, CompiledClassHash), Seq<u64>)> {
    if s.len() >= 2 {
        Some(
            (
                (ClassHash { h: Felt { v: s[0] } }, CompiledClassHash { h: Felt { v: s[1] } }),
                s.skip(2),
            ),
        )
    } else {
        None
    }
}

pub open spec fn enc_deployed(e: (ContractAddress, ClassHash)) -> Seq<u64> {
    seq![e.0.a.v, e.1.h.v]
}

pub open spec fn parse_deployed(s: Seq<u64>) -> Option<((ContractAddress, ClassHash), Seq<u64>)> {
    if s.len() >= 2 {
        Some(
            (
                (ContractAddress { a: Felt { v: s[0] } }, ClassHash { h: Felt { v: s[1] } }),
                s.skip(2),
            ),
        )
    } else {
        None
    }
}

pub open spec fn enc_word(w: u64) -> Seq<u64> {
    seq![w]
}

pub open spec fn parse_word(s: Seq<u64>) -> Option<(u64, Seq<u64>)> {
    if s.len() >= 1 {
        Some((s[0], s.skip(1)))
    } else {
        None
    }
}

/// A visited-segments record: the class hash, then its offsets with a length
/// in front.
pub open spec fn enc_visited(e: (ClassHash, Seq<u64>)) -> Seq<u64> {
    seq![e.0.h.v, e.1.len() as u64] + enc_list(e.1, |w: u64| enc_word(w))
}

pub open spec fn parse_visited(s: Seq<u64>) -> Option<((ClassHash, Seq<u64>), Seq<u64>)> {
    if s.len() >= 2 {
        let class_hash = ClassHash { h: Felt { v: s[0] } };
        let n = s[1];
        match parse_items(n as nat, s.skip(2), |t: Seq<u64>| parse_word(t)) {
            None => None,
            Some((ws, rest)) => Some(((class_hash, ws), rest)),
        }
    } else {
        None
    }
}

/// The whole artifact stream: each list with its length in front, the weights
/// last.
pub open spec fn artifact_words(v: ArtifactsImage) -> Seq<u64> {
    seq![v.entries.len() as u64] + enc_list(v.entries, |e: (u64, TxExecutionInfo)| enc_entry(e))
        + seq![v.storage_diffs.len() as u64] + enc_list(
        v.storage_diffs,
        |e: StorageEntry| enc_storage(e),
    ) + seq![v.nonces.len() as u64] + enc_list(
        v.nonces,
        |e: (ContractAddress, Nonce)| enc_nonce(e),
    ) + seq![v.declared_classes.len() as u64] + enc_list(
        v.declared_classes,
        |e: (ClassHash, CompiledClassHash)| enc_declared(e),
    ) + seq![v.deployed_contracts.len() as u64] + enc_list(
        v.deployed_contracts,
        |e: (ContractAddress, ClassHash)| enc_deployed(e),
    ) + seq![v.visited.len() as u64] + enc_list(
        v.visited,
        |e: (ClassHash, Seq<u64>)| enc_visited(e),
    ) + seq![
        v.weights.l1_gas,
        v.weights.message_segment_length,
        v.weights.n_events,
        v.weights.n_steps,
        v.weights.state_diff_size,
    ]
}

/// The parser of the artifact stream. Succeeds exactly on well-formed streams
/// and returns the image together with the unconsumed tail.
pub open spec fn parse_artifacts(s: Seq<u64>) -> Option<(ArtifactsImage, Seq<u64>)> {
    match parse_word(s) {
        None => None,
        Some((n_entries, s1)) => match parse_items(
            n_entries as nat,
            s1,
            |t: Seq<u64>| parse_entry(t),
        ) {
            None => None,
            Some((entries, s2)) => match parse_word(s2) {
                None => None,
                Some((n_storage, s3)) => match parse_items(
                    n_storage as nat,
                    s3,
                    |t: Seq<u64>| parse_storage(t),
                ) {
                    None => None,
                    Some((storage_diffs, s4)) => match parse_word(s4) {
                        None => None,
                        Some((n_nonces, s5)) => match parse_items(
                            n_nonces as nat,
                            s5,
                            |t: Seq<u64>| parse_nonce(t),
                        ) {
                            None => None,
                            Some((nonces, s6)) => match parse_word(s6) {
                                None => None,
                                Some((n_declared, s7)) => match parse_items(
                                    n_declared as nat,
                                    s7,
                                    |t: Seq<u64>| parse_declared(t),
                                ) {
                                    None => None,
                                    Some((declared, s8)) => match parse_word(s8) {
                                        None => None,
                                        Some((n_deployed, s9)) => match parse_items(
                                            n_deployed as nat,
                                            s9,
                                            |t: Seq<u64>| parse_deployed(t),
                                        ) {
                                            None => None,
                                            Some((deployed, s10)) => match parse_word(s10) {
                                                None => None,
                                                Some((n_visited, s11)) => match parse_items(
                                                    n_visited as nat,
                                                    s11,
                                                    |t: Seq<u64>| parse_visited(t),
                                                ) {
                                                    None => None,
                                                    Some((visited, s12)) => {
                                                        if s12.len() >= 5 {
                                                            Some(
                                                                (
                                                                    ArtifactsImage {
                                                                        entries,
                                                                        storage_diffs,
                                                                        nonces,
                                                                        declared_classes: declared,
                                                                        deployed_contracts: deployed,
                                                                        visited,
                                                                        weights: BouncerWeights {
                                                                            l1_gas: s12[0],
                                                                            message_segment_length: s12[1],
                                                                            n_events: s12[2],
                                                                            n_steps: s12[3],
                                                                            state_diff_size: s12[4],
                                                                        },
                                                                    },
                                                                    s12.skip(5),
                                                                ),
                                                            )
                                                        } else {
                                                            None
                                                        }
                                                    },
                                                },
                                            },
                                        },
                                    },
                                },
                            },
                        },
                    },
                },
            },
        },
    }
}

/// Serialization round trip: decoding an encoded artifact stream gives back
/// exactly the artifacts image, with nothing left over. Holds whenever each
/// list is short enough to carry its length in one word.
#[verifier::rlimit(100)]
pub proof fn lemma_artifacts_round_trip(v: ArtifactsImage)
    requires
        v.entries.len() <= u64::MAX,
        v.storage_diffs.len() <= u64::MAX,
        v.nonces.len() <= u64::MAX,
        v.declared_classes.len() <= u64::MAX,
        v.deployed_contracts.len() <= u64::MAX,
        v.visited.len() <= u64::MAX,
        forall|i: int| 0 <= i < v.visited.len() ==> (#[trigger] v.visited[i]).1.len() <= u64::MAX,
    ensures
        parse_artifacts(artifact_words(v)) == Some((v, Seq::<u64>::empty())),
{
    let whole = artifact_words(v);
    let tail_weights: Seq<u64> = seq![
        v.weights.l1_gas,
        v.weights.message_segment_length,
        v.weights.n_events,
        v.weights.n_steps,
        v.weights.state_diff_size,
    ];

    // Item-level inverses.
    assert forall|x: (u64, TxExecutionInfo), r: Seq<u64>| #[trigger] parse_entry(enc_entry(x) + r)
        == Some((x, r)) by {
        let s = enc_entry(x) + r;
        assert(s.len() >= 3);
        assert(s[0] == x.0 && s[2] == x.1.gas_consumed);
        assert(s.skip(3) =~= r);
    }
    assert forall|x: StorageEntry, r: Seq<u64>| #[trigger] parse_storage(enc_storage(x) + r)
        == Some((x, r)) by {
        let s = enc_storage(x) + r;
        assert(s.skip(3) =~= r);
    }
    assert forall|x: (ContractAddress, Nonce), r: Seq<u64>| #[trigger] parse_nonce(
        enc_nonce(x) + r,
    ) == Some((x, r)) by {
        let s = enc_nonce(x) + r;
        assert(s.skip(2) =~= r);
    }
    assert forall|x: (ClassHash, CompiledClassHash), r: Seq<u64>| #[trigger] parse_declared(
        enc_declared(x) + r,
    ) == Some((x, r)) by {
        let s = enc_declared(x) + r;
        assert(s.skip(2) =~= r);
    }
    assert forall|x: (ContractAddress, ClassHash), r: Seq<u64>| #[trigger] parse_deployed(
        enc_deployed(x) + r,
    ) == Some((x, r)) by {
        let s = enc_deployed(x) + r;
        assert(s.skip(2) =~= r);
    }
    assert forall|x: u64, r: Seq<u64>| #[trigger] parse_word(enc_word(x) + r) == Some(
        (x, r),
    ) by {
        let s = enc_word(x) + r;
        assert(s.skip(1) =~= r);
    }
    assert forall|x: (ClassHash, Seq<u64>), r: Seq<u64>|
        x.1.len() <= u64::MAX implies #[trigger] parse_visited(enc_visited(x) + r) == Some(
        (x, r),
    ) by {
        let s = enc_visited(x) + r;
        assert(s.len() >= 2);
        assert(s[0] == x.0.h.v && s[1] == x.1.len() as u64);
        assert(s.skip(2) =~= enc_list(x.1, |w: u64| enc_word(w)) + r);
        lemma_list_round_trip(x.1, |w: u64| enc_word(w), |t: Seq<u64>| parse_word(t), r);
    }

    // The stream is consumed section by section.
    let f_entry = |e: (u64, TxExecutionInfo)| enc_entry(e);
    let p_entry = |t: Seq<u64>| parse_entry(t);
    let f_storage = |e: StorageEntry| enc_storage(e);
    let p_storage = |t: Seq<u64>| parse_storage(t);
    let f_nonce = |e: (ContractAddress, Nonce)| enc_nonce(e);
    let p_nonce = |t: Seq<u64>| parse_nonce(t);
    let f_declared = |e: (ClassHash, CompiledClassHash)| enc_declared(e);
    let p_declared = |t: Seq<u64>| parse_declared(t);
    let f_deployed = |e: (ContractAddress, ClassHash)| enc_deployed(e);
    let p_deployed = |t: Seq<u64>| parse_deployed(t);
    let f_visited = |e: (ClassHash, Seq<u64>)| enc_visited(e);
    let p_visited = |t: Seq<u64>| parse_visited(t);

    let r6: Seq<u64> = tail_weights;
    let r5 = seq![v.visited.len() as u64] + enc_list(v.visited, f_visited) + r6;
    let r4 = seq![v.deployed_contracts.len() as u64] + enc_list(v.deployed_contracts, f_deployed)
        + r5;
    let r3 = seq![v.declared_classes.len() as u64] + enc_list(v.declared_classes, f_declared) + r4;
    let r2 = seq![v.nonces.len() as u64] + enc_list(v.nonces, f_nonce) + r3;
    let r1 = seq![v.storage_diffs.len() as u64] + enc_list(v.storage_diffs, f_storage) + r2;

    assert(whole =~= seq![v.entries.len() as u64] + enc_list(v.entries, f_entry) + r1);
    assert(whole[0] == v.entries.len() as u64);
    assert(whole.skip(1) =~= enc_list(v.entries, f_entry) + r1);
    lemma_list_round_trip(v.entries, f_entry, p_entry, r1);

    assert(r1[0] == v.storage_diffs.len() as u64);
    assert(r1.skip(1) =~= enc_list(v.storage_diffs, f_storage) + r2);
    lemma_list_round_trip(v.storage_diffs, f_storage, p_storage, r2);

    assert(r2[0] == v.nonces.len() as u64);
    assert(r2.skip(1) =~= enc_list(v.nonces, f_nonce) + r3);
    lemma_list_round_trip(v.nonces, f_nonce, p_nonce, r3);

    assert(r3[0] == v.declared_classes.len() as u64);
    assert(r3.skip(1) =~= enc_list(v.declared_classes, f_declared) + r4);
    lemma_list_round_trip(v.declared_classes, f_declared, p_declared, r4);

    assert(r4[0] == v.deployed_contracts.len() as u64);
    assert(r4.skip(1) =~= enc_list(v.deployed_contracts, f_deployed) + r5);
    lemma_list_round_trip(v.deployed_contracts, f_deployed, p_deployed, r5);

    assert(r5[0] == v.visited.len() as u64);
    assert(r5.skip(1) =~= enc_list(v.visited, f_visited) + r6);
    assert forall|i: int, r: Seq<u64>|
        0 <= i < v.visited.len() implies #[trigger] p_visited(f_visited(v.visited[i]) + r) == Some(
        (v.visited[i], r),
    ) by {
        assert(v.visited[i].1.len() <= u64::MAX);
    }
    lemma_list_round_trip(v.visited, f_visited, p_visited, r6);

    assert(r6.len() == 5);
    assert(r6.skip(5) =~= Seq::<u64>::empty());
}

/// Appending one item extends the encoding at the end.
pub proof fn lemma_enc_list_snoc<T>(items: Seq<T>, x: T, f: spec_fn(T) -> Seq<u64>)
    ensures
        enc_list(items.push(x), f) == enc_list(items, f) + f(x),
    decreases items.len(),
{
    if items.len() == 0 {
        assert(items.push(x)[0] == x);
        assert(items.push(x).skip(1) =~= Seq::<T>::empty());
        assert(enc_list(Seq::<T>::empty(), f) == Seq::<u64>::empty());
        assert(enc_list(items.push(x), f) == f(x) + Seq::<u64>::empty());
        assert(f(x) + Seq::<u64>::empty() =~= f(x));
        assert(items =~= Seq::<T>::empty());
        assert(enc_list(items, f) + f(x) =~= f(x));
    } else {
        assert(items.push(x)[0] == items[0]);
        assert(items.push(x).skip(1) =~= items.skip(1).push(x));
        lemma_enc_list_snoc(items.skip(1), x, f);
        assert(enc_list(items.push(x), f) == f(items[0]) + enc_list(items.skip(1).push(x), f));
        assert(enc_list(items.skip(1).push(x), f) == enc_list(items.skip(1), f) + f(x));
        assert(f(items[0]) + (enc_list(items.skip(1), f) + f(x)) =~= (f(items[0]) + enc_list(
            items.skip(1),
            f,
        )) + f(x));
    }
}

/// Encodes the artifacts into their canonical word stream.
pub fn encode_artifacts(a: &BlockExecutionArtifacts) -> (r: Vec<u64>)
    requires
        exec_info_entries(a.execution_infos).len() <= u64::MAX,
    ensures
        r@ == artifact_words(artifacts_image(a)),
{
    let mut out: Vec<u64> = Vec::new();

    // Execution entries.
    let n_entries = exec_info_map_len(&a.execution_infos);
    out.push(n_entries as u64);
    let ghost f_entry = |e: (u64, TxExecutionInfo)| enc_entry(e);
    let ghost entries = exec_info_entries(a.execution_infos);
    let mut i: usize = 0;
    while i < n_entries
        invariant
            0 <= i <= n_entries,
            n_entries == entries.len(),
            entries == exec_info_entries(a.execution_infos),
            f_entry == (|e: (u64, TxExecutionInfo)| enc_entry(e)),
            out@ =~= seq![n_entries as u64] + enc_list(entries.take(i as int), f_entry),
        decreases n_entries - i,
    {
        let (k, info) = match exec_info_map_get_index(&a.execution_infos, i) {
            Some(e) => e,
            None => {
                proof {
                    assert(false);
                }
                (0, TxExecutionInfo { revert_happened: false, gas_consumed: 0 })
            },
        };
        proof {
            assert(entries.take(i + 1).drop_last() =~= entries.take(i as int));
            lemma_enc_list_snoc(entries.take(i as int), entries[i as int], f_entry);
            assert(entries.take(i + 1) =~= entries.take(i as int).push(entries[i as int]));
        }
        out.push(k);
        if info.revert_happened {
            out.push(1);
        } else {
            out.push(0);
        }
        out.push(info.gas_consumed);
        proof {
            assert(out@ =~= seq![n_entries as u64] + enc_list(entries.take(i + 1), f_entry));
        }
        i += 1;
    }
    proof {
        assert(entries.take(entries.len() as int) =~= entries);
    }

    // State diff sections.
    encode_storage_section(&mut out, &a.commitment_state_diff.storage_diffs);
    encode_pair_section_nonces(&mut out, &a.commitment_state_diff.nonces);
    encode_pair_section_declared(&mut out, &a.commitment_state_diff.declared_classes);
    encode_pair_section_deployed(&mut out, &a.commitment_state_diff.deployed_contracts);

    // Visited segments.
    let ghost f_visited = |e: (ClassHash, Seq<u64>)| enc_visited(e);
    out.push(a.visited_segments_mapping.len() as u64);
    let ghost visited = artifacts_image(a).visited;
    proof {
        assert(visited.len() == a.visited_segments_mapping@.len());
    }
    let ghost pre_visited_out = out@;
    let mut vi: usize = 0;
    while vi < a.visited_segments_mapping.len()
        invariant
            0 <= vi <= a.visited_segments_mapping@.len(),
            visited == artifacts_image(a).visited,
            visited.len() == a.visited_segments_mapping@.len(),
            f_visited == (|e: (ClassHash, Seq<u64>)| enc_visited(e)),
            out@ =~= pre_visited_out + enc_list(visited.take(vi as int), f_visited),
        decreases a.visited_segments_mapping@.len() - vi,
    {
        proof {
            lemma_enc_list_snoc(visited.take(vi as int), visited[vi as int], f_visited);
            assert(visited.take(vi + 1) =~= visited.take(vi as int).push(visited[vi as int]));
        }
        let ghost pre_record = out@;
        let entry_class = a.visited_segments_mapping[vi].0;
        out.push(entry_class.h.v);
        let pcs = &a.visited_segments_mapping[vi].1;
        out.push(pcs.len() as u64);
        let ghost words = visited[vi as int].1;
        proof {
            assert(words =~= pcs@.map_values(|x: usize| x as u64));
        }
        let mut k: usize = 0;
        let ghost f_word = |w: u64| enc_word(w);
        while k < pcs.len()
            invariant
                0 <= k <= pcs@.len(),
                words == pcs@.map_values(|x: usize| x as u64),
                f_word == (|w: u64| enc_word(w)),
                out@ =~= pre_record + seq![visited[vi as int].0.h.v, words.len() as u64]
                    + enc_list(words.take(k as int), f_word),
                visited[vi as int].0 == entry_class,
                visited.len() == a.visited_segments_mapping@.len(),
                vi < visited.len(),
            decreases pcs@.len() - k,
        {
            proof {
                lemma_enc_list_snoc(words.take(k as int), words[k as int], f_word);
                assert(words.take(k + 1) =~= words.take(k as int).push(words[k as int]));
            }
            out.push(pcs[k] as u64);
            k += 1;
        }
        proof {
            assert(words.take(words.len() as int) =~= words);
            assert(out@ =~= pre_record + enc_visited(visited[vi as int]));
            assert(out@ =~= pre_visited_out + enc_list(visited.take(vi + 1), f_visited));
        }
        vi += 1;
    }
    proof {
        assert(visited.take(visited.len() as int) =~= visited);
    }

    // Weights.
    out.push(a.bouncer_weights.l1_gas);
    out.push(a.bouncer_weights.message_segment_length);
    out.push(a.bouncer_weights.n_events);
    out.push(a.bouncer_weights.n_steps);
    out.push(a.bouncer_weights.state_diff_size);
    proof {
        assert(out@ =~= artifact_words(artifacts_image(a)));
    }
    out
}

/// Encodes the storage-diff section: its length, then each entry.
fn encode_storage_section(out: &mut Vec<u64>, items: &Vec<StorageEntry>)
    ensures
        final (out)@ == old(out)@ + seq![items@.len() as u64] + enc_list(
            items@,
            |e: StorageEntry| enc_storage(e),
        ),
{
    let ghost f = |e: StorageEntry| enc_storage(e);
    out.push(items.len() as u64);
    let ghost base = out@;
    let mut i: usize = 0;
    while i < items.len()
        invariant
            0 <= i <= items@.len(),
            f == (|e: StorageEntry| enc_storage(e)),
            base == old(out)@ + seq![items@.len() as u64],
            out@ =~= base + enc_list(items@.take(i as int), f),
        decreases items@.len() - i,
    {
        proof {
            lemma_enc_list_snoc(items@.take(i as int), items@[i as int], f);
            assert(items@.take(i + 1) =~= items@.take(i as int).push(items@[i as int]));
        }
        out.push(items[i].address.a.v);
        out.push(items[i].key.v);
        out.push(items[i].value.v);
        i += 1;
    }
    proof {
        assert(items@.take(items@.len() as int) =~= items@);
    }
}

/// Encodes the nonces section.
fn encode_pair_section_nonces(out: &mut Vec<u64>, items: &Vec<(ContractAddress, Nonce)>)
    ensures
        final (out)@ == old(out)@ + seq![items@.len() as u64] + enc_list(
            items@,
            |e: (ContractAddress, Nonce)| enc_nonce(e),
        ),
{
    let ghost f = |e: (ContractAddress, Nonce)| enc_nonce(e);
    out.push(items.len() as u64);
    let ghost base = out@;
    let mut i: usize = 0;
    while i < items.len()
        invariant
            0 <= i <= items@.len(),
            f == (|e: (ContractAddress, Nonce)| enc_nonce(e)),
            base == old(out)@ + seq![items@.len() as u64],
            out@ =~= base + enc_list(items@.take(i as int), f),
        decreases items@.len() - i,
    {
        proof {
            lemma_enc_list_snoc(items@.take(i as int), items@[i as int], f);
            assert(items@.take(i + 1) =~= items@.take(i as int).push(items@[i as int]));
        }
        out.push(items[i].0.a.v);
        out.push(items[i].1.n.v);
        i += 1;
    }
    proof {
        assert(items@.take(items@.len() as int) =~= items@);
    }
}

/// Encodes the declared-classes section.
fn encode_pair_section_declared(out: &mut Vec<u64>, items: &Vec<(ClassHash, CompiledClassHash)>)
    ensures
        final (out)@ == old(out)@ + seq![items@.len() as u64] + enc_list(
            items@,
            |e: (ClassHash, CompiledClassHash)| enc_declared(e),
        ),
{
    let ghost f = |e: (ClassHash, CompiledClassHash)| enc_declared(e);
    out.push(items.len() as u64);
    let ghost base = out@;
    let mut i: usize = 0;
    while i < items.len()
        invariant
            0 <= i <= items@.len(),
            f == (|e: (ClassHash, CompiledClassHash)| enc_declared(e)),
            base == old(out)@ + seq![items@.len() as u64],
            out@ =~= base + enc_list(items@.take(i as int), f),
        decreases items@.len() - i,
    {
        proof {
            lemma_enc_list_snoc(items@.take(i as int), items@[i as int], f);
            assert(items@.take(i + 1) =~= items@.take(i as int).push(items@[i as int]));
        }
        out.push(items[i].0.h.v);
        out.push(items[i].1.h.v);
        i += 1;
    }
    proof {
        assert(items@.take(items@.len() as int) =~= items@);
    }
}

/// Encodes the deployed-contracts section.
fn encode_pair_section_deployed(out: &mut Vec<u64>, items: &Vec<(ContractAddress, ClassHash)>)
    ensures
        final (out)@ == old(out)@ + seq![items@.len() as u64] + enc_list(
            items@,
            |e: (ContractAddress, ClassHash)| enc_deployed(e),
        ),
{
    let ghost f = |e: (ContractAddress, ClassHash)| enc_deployed(e);
    out.push(items.len() as u64);
    let ghost base = out@;
    let mut i: usize = 0;
    while i < items.len()
        invariant
            0 <= i <= items@.len(),
            f == (|e: (ContractAddress, ClassHash)| enc_deployed(e)),
            base == old(out)@ + seq![items@.len() as u64],
            out@ =~= base + enc_list(items@.take(i as int), f),
        decreases items@.len() - i,
    {
        proof {
            lemma_enc_list_snoc(items@.take(i as int), items@[i as int], f);
            assert(items@.take(i + 1) =~= items@.take(i as int).push(items@[i as int]));
        }
        out.push(items[i].0.a.v);
        out.push(items[i].1.h.v);
        i += 1;
    }
    proof {
        assert(items@.take(items@.len() as int) =~= items@);
    }
}

/// Whether every visited offset fits the machine's address width.
pub open spec fn visited_fits(visited: Seq<(ClassHash, Seq<u64>)>) -> bool {
    forall|i: int, j: int|
        0 <= i < visited.len() && 0 <= j < (#[trigger] visited[i]).1.len() ==> (
        #[trigger] visited[i].1[j]) <= usize::MAX
}

/// Reads `n` execution entries.
fn read_entries(words: &Vec<u64>, pos: usize, n: u64) -> (r: Option<
    (Vec<(u64, TxExecutionInfo)>, usize),
>)
    requires
        pos <= words@.len(),
    ensures
        ({
            let p = parse_items(n as nat, words@.skip(pos as int), |t: Seq<u64>| parse_entry(t));
            &&& (p is None ==> r is None)
            &&& (p matches Some((xs, rest)) ==> r matches Some(out) && out.0@ == xs && out.1
                <= words@.len() && words@.skip(out.1 as int) == rest)
        }),
{
    let ghost pp = |t: Seq<u64>| parse_entry(t);
    let ghost s0 = words@.skip(pos as int);
    let mut acc: Vec<(u64, TxExecutionInfo)> = Vec::new();
    let mut cur: usize = pos;
    let mut i: u64 = 0;
    while i < n
        invariant
            0 <= i <= n,
            cur <= words@.len(),
            pp == (|t: Seq<u64>| parse_entry(t)),
            s0 == words@.skip(pos as int),
            parse_items(n as nat, s0, pp) == (match parse_items(
                (n - i) as nat,
                words@.skip(cur as int),
                pp,
            ) {
                Some((xs, rest)) => Some((acc@ + xs, rest)),
                None => None::<(Seq<(u64, TxExecutionInfo)>, Seq<u64>)>,
            }),
        decreases n - i,
    {
        let ghost suffix = words@.skip(cur as int);
        if words.len() - cur < 3 || !(words[cur + 1] == 0 || words[cur + 1] == 1) {
            proof {
                assert(suffix.len() == words@.len() - cur);
                assert(parse_entry(suffix) is None);
            }
            return None;
        }
        proof {
            assert(suffix.len() >= 3);
            assert(suffix[0] == words@[cur as int]);
            assert(suffix[1] == words@[cur as int + 1]);
            assert(suffix[2] == words@[cur as int + 2]);
            assert(suffix.skip(3) =~= words@.skip(cur as int + 3));
        }
        let entry = (
            words[cur],
            TxExecutionInfo { revert_happened: words[cur + 1] == 1, gas_consumed: words[cur + 2] },
        );
        let ghost pre_acc = acc@;
        acc.push(entry);
        proof {
            let rest_items = parse_items((n - i - 1) as nat, words@.skip(cur as int + 3), pp);
            match rest_items {
                Some((xs, rest)) => {
                    assert(pre_acc + (seq![entry] + xs) =~= acc@ + xs);
                },
                None => {},
            }
        }
        cur = cur + 3;
        i = i + 1;
    }
    proof {
        assert(parse_items(0, words@.skip(cur as int), pp) == Some(
            (Seq::<(u64, TxExecutionInfo)>::empty(), words@.skip(cur as int)),
        ));
        assert(acc@ + Seq::<(u64, TxExecutionInfo)>::empty() =~= acc@);
    }
    Some((acc, cur))
}

/// Reads `n` three-word storage entries.
fn read_storage(words: &Vec<u64>, pos: usize, n: u64) -> (r: Option<(Vec<StorageEntry>, usize)>)
    requires
        pos <= words@.len(),
    ensures
        ({
            let p = parse_items(n as nat, words@.skip(pos as int), |t: Seq<u64>| parse_storage(t));
            &&& (p is None ==> r is None)
            &&& (p matches Some((xs, rest)) ==> r matches Some(out) && out.0@ == xs && out.1
                <= words@.len() && words@.skip(out.1 as int) == rest)
        }),
{
    let ghost pp = |t: Seq<u64>| parse_storage(t);
    let ghost s0 = words@.skip(pos as int);
    let mut acc: Vec<StorageEntry> = Vec::new();
    let mut cur: usize = pos;
    let mut i: u64 = 0;
    while i < n
        invariant
            0 <= i <= n,
            cur <= words@.len(),
            pp == (|t: Seq<u64>| parse_storage(t)),
            s0 == words@.skip(pos as int),
            parse_items(n as nat, s0, pp) == (match parse_items(
                (n - i) as nat,
                words@.skip(cur as int),
                pp,
            ) {
                Some((xs, rest)) => Some((acc@ + xs, rest)),
                None => None::<(Seq<StorageEntry>, Seq<u64>)>,
            }),
        decreases n - i,
    {
        let ghost suffix = words@.skip(cur as int);
        if words.len() - cur < 3 {
            proof {
                assert(suffix.len() == words@.len() - cur);
                assert(parse_storage(suffix) is None);
            }
            return None;
        }
        proof {
            assert(suffix[0] == words@[cur as int]);
            assert(suffix[1] == words@[cur as int + 1]);
            assert(suffix[2] == words@[cur as int + 2]);
            assert(suffix.skip(3) =~= words@.skip(cur as int + 3));
        }
        let entry = StorageEntry {
            address: ContractAddress { a: Felt { v: words[cur] } },
            key: Felt { v: words[cur + 1] },
            value: Felt { v: words[cur + 2] },
        };
        let ghost pre_acc = acc@;
        acc.push(entry);
        proof {
            match parse_items((n - i - 1) as nat, words@.skip(cur as int + 3), pp) {
                Some((xs, rest)) => {
                    assert(pre_acc + (seq![entry] + xs) =~= acc@ + xs);
                },
                None => {},
            }
        }
        cur = cur + 3;
        i = i + 1;
    }
    proof {
        assert(parse_items(0, words@.skip(cur as int), pp) == Some(
            (Seq::<StorageEntry>::empty(), words@.skip(cur as int)),
        ));
        assert(acc@ + Seq::<StorageEntry>::empty() =~= acc@);
    }
    Some((acc, cur))
}

/// Reads `n` two-word nonce records.
fn read_nonces(words: &Vec<u64>, pos: usize, n: u64) -> (r: Option<
    (Vec<(ContractAddress, Nonce)>, usize),
>)
    requires
        pos <= words@.len(),
    ensures
        ({
            let p = parse_items(n as nat, words@.skip(pos as int), |t: Seq<u64>| parse_nonce(t));
            &&& (p is None ==> r is None)
            &&& (p matches Some((xs, rest)) ==> r matches Some(out) && out.0@ == xs && out.1
                <= words@.len() && words@.skip(out.1 as int) == rest)
        }),
{
    let ghost pp = |t: Seq<u64>| parse_nonce(t);
    let ghost s0 = words@.skip(pos as int);
    let mut acc: Vec<(ContractAddress, Nonce)> = Vec::new();
    let mut cur: usize = pos;
    let mut i: u64 = 0;
    while i < n
        invariant
            0 <= i <= n,
            cur <= words@.len(),
            pp == (|t: Seq<u64>| parse_nonce(t)),
            s0 == words@.skip(pos as int),
            parse_items(n as nat, s0, pp) == (match parse_items(
                (n - i) as nat,
                words@.skip(cur as int),
                pp,
            ) {
                Some((xs, rest)) => Some((acc@ + xs, rest)),
                None => None::<(Seq<(ContractAddress, Nonce)>, Seq<u64>)>,
            }),
        decreases n - i,
    {
        let ghost suffix = words@.skip(cur as int);
        if words.len() - cur < 2 {
            proof {
                assert(suffix.len() == words@.len() - cur);
                assert(parse_nonce(suffix) is None);
            }
            return None;
        }
        proof {
            assert(suffix[0] == words@[cur as int]);
            assert(suffix[1] == words@[cur as int + 1]);
            assert(suffix.skip(2) =~= words@.skip(cur as int + 2));
        }
        let entry = (
            ContractAddress { a: Felt { v: words[cur] } },
            Nonce { n: Felt { v: words[cur + 1] } },
        );
        let ghost pre_acc = acc@;
        acc.push(entry);
        proof {
            match parse_items((n - i - 1) as nat, words@.skip(cur as int + 2), pp) {
                Some((xs, rest)) => {
                    assert(pre_acc + (seq![entry] + xs) =~= acc@ + xs);
                },
                None => {},
            }
        }
        cur = cur + 2;
        i = i + 1;
    }
    proof {
        assert(parse_items(0, words@.skip(cur as int), pp) == Some(
            (Seq::<(ContractAddress, Nonce)>::empty(), words@.skip(cur as int)),
        ));
        assert(acc@ + Seq::<(ContractAddress, Nonce)>::empty() =~= acc@);
    }
    Some((acc, cur))
}

/// Reads `n` two-word declared-class records.
fn read_declared(words: &Vec<u64>, pos: usize, n: u64) -> (r: Option<
    (Vec<(ClassHash, CompiledClassHash)>, usize),
>)
    requires
        pos <= words@.len(),
    ensures
        ({
            let p = parse_items(n as nat, words@.skip(pos as int), |t: Seq<u64>| parse_declared(t));
            &&& (p is None ==> r is None)
            &&& (p matches Some((xs, rest)) ==> r matches Some(out) && out.0@ == xs && out.1
                <= words@.len() && words@.skip(out.1 as int) == rest)
        }),
{
    let ghost pp = |t: Seq<u64>| parse_declared(t);
    let ghost s0 = words@.skip(pos as int);
    let mut acc: Vec<(ClassHash, CompiledClassHash)> = Vec::new();
    let mut cur: usize = pos;
    let mut i: u64 = 0;
    while i < n
        invariant
            0 <= i <= n,
            cur <= words@.len(),
            pp == (|t: Seq<u64>| parse_declared(t)),
            s0 == words@.skip(pos as int),
            parse_items(n as nat, s0, pp) == (match parse_items(
                (n - i) as nat,
                words@.skip(cur as int),
                pp,
            ) {
                Some((xs, rest)) => Some((acc@ + xs, rest)),
                None => None::<(Seq<(ClassHash, CompiledClassHash)>, Seq<u64>)>,
            }),
        decreases n - i,
    {
        let ghost suffix = words@.skip(cur as int);
        if words.len() - cur < 2 {
            proof {
                assert(suffix.len() == words@.len() - cur);
                assert(parse_declared(suffix) is None);
            }
            return None;
        }
        proof {
            assert(suffix[0] == words@[cur as int]);
            assert(suffix[1] == words@[cur as int + 1]);
            assert(suffix.skip(2) =~= words@.skip(cur as int + 2));
        }
        let entry = (
            ClassHash { h: Felt { v: words[cur] } },
            CompiledClassHash { h: Felt { v: words[cur + 1] } },
        );
        let ghost pre_acc = acc@;
        acc.push(entry);
        proof {
            match parse_items((n - i - 1) as nat, words@.skip(cur as int + 2), pp) {
                Some((xs, rest)) => {
                    assert(pre_acc + (seq![entry] + xs) =~= acc@ + xs);
                },
                None => {},
            }
        }
        cur = cur + 2;
        i = i + 1;
    }
    proof {
        assert(parse_items(0, words@.skip(cur as int), pp) == Some(
            (Seq::<(ClassHash, CompiledClassHash)>::empty(), words@.skip(cur as int)),
        ));
        assert(acc@ + Seq::<(ClassHash, CompiledClassHash)>::empty() =~= acc@);
    }
    Some((acc, cur))
}

/// Reads `n` two-word deployed-contract records.
fn read_deployed(words: &Vec<u64>, pos: usize, n: u64) -> (r: Option<
    (Vec<(ContractAddress, ClassHash)>, usize),
>)
    requires
        pos <= words@.len(),
    ensures
        ({
            let p = parse_items(n as nat, words@.skip(pos as int), |t: Seq<u64>| parse_deployed(t));
            &&& (p is None ==> r is None)
            &&& (p matches Some((xs, rest)) ==> r matches Some(out) && out.0@ == xs && out.1
                <= words@.len() && words@.skip(out.1 as int) == rest)
        }),
{
    let ghost pp = |t: Seq<u64>| parse_deployed(t);
    let ghost s0 = words@.skip(pos as int);
    let mut acc: Vec<(ContractAddress, ClassHash)> = Vec::new();
    let mut cur: usize = pos;
    let mut i: u64 = 0;
    while i < n
        invariant
            0 <= i <= n,
            cur <= words@.len(),
            pp == (|t: Seq<u64>| parse_deployed(t)),
            s0 == words@.skip(pos as int),
            parse_items(n as nat, s0, pp) == (match parse_items(
                (n - i) as nat,
                words@.skip(cur as int),
                pp,
            ) {
                Some((xs, rest)) => Some((acc@ + xs, rest)),
                None => None::<(Seq<(ContractAddress, ClassHash)>, Seq<u64>)>,
            }),
        decreases n - i,
    {
        let ghost suffix = words@.skip(cur as int);
        if words.len() - cur < 2 {
            proof {
                assert(suffix.len() == words@.len() - cur);
                assert(parse_deployed(suffix) is None);
            }
            return None;
        }
        proof {
            assert(suffix[0] == words@[cur as int]);
            assert(suffix[1] == words@[cur as int + 1]);
            assert(suffix.skip(2) =~= words@.skip(cur as int + 2));
        }
        let entry = (
            ContractAddress { a: Felt { v: words[cur] } },
            ClassHash { h: Felt { v: words[cur + 1] } },
        );
        let ghost pre_acc = acc@;
        acc.push(entry);
        proof {
            match parse_items((n - i - 1) as nat, words@.skip(cur as int + 2), pp) {
                Some((xs, rest)) => {
                    assert(pre_acc + (seq![entry] + xs) =~= acc@ + xs);
                },
                None => {},
            }
        }
        cur = cur + 2;
        i = i + 1;
    }
    proof {
        assert(parse_items(0, words@.skip(cur as int), pp) == Some(
            (Seq::<(ContractAddress, ClassHash)>::empty(), words@.skip(cur as int)),
        ));
        assert(acc@ + Seq::<(ContractAddress, ClassHash)>::empty() =~= acc@);
    }
    Some((acc, cur))
}

/// Reads `n` visited-segment records; each holds a class hash and its offsets
/// with a length in front. Fails also when an offset does not fit the
/// machine's address width.
fn read_visited(words: &Vec<u64>, pos: usize, n: u64) -> (r: Option<
    (Vec<(ClassHash, Vec<usize>)>, usize),
>)
    requires
        pos <= words@.len(),
    ensures
        ({
            let p = parse_items(n as nat, words@.skip(pos as int), |t: Seq<u64>| parse_visited(t));
            &&& (p is None ==> r is None)
            &&& (p matches Some((xs, rest)) ==> if visited_fits(xs) {
                r matches Some(out) && out.0@.map_values(
                    |q: (ClassHash, Vec<usize>)| (q.0, q.1@.map_values(|x: usize| x as u64)),
                ) == xs && out.1 <= words@.len() && words@.skip(out.1 as int) == rest
            } else {
                r is None
            })
        }),
{
    let ghost pp = |t: Seq<u64>| parse_visited(t);
    let ghost m = |q: (ClassHash, Vec<usize>)| (q.0, q.1@.map_values(|x: usize| x as u64));
    let ghost s0 = words@.skip(pos as int);
    let mut acc: Vec<(ClassHash, Vec<usize>)> = Vec::new();
    let mut cur: usize = pos;
    let mut i: u64 = 0;
    while i < n
        invariant
            0 <= i <= n,
            cur <= words@.len(),
            pp == (|t: Seq<u64>| parse_visited(t)),
            m == (|q: (ClassHash, Vec<usize>)| (q.0, q.1@.map_values(|x: usize| x as u64))),
            s0 == words@.skip(pos as int),
            ({
                match parse_items((n - i) as nat, words@.skip(cur as int), pp) {
                    Some((xs, rest)) => parse_items(n as nat, s0, pp) == Some(
                        (acc@.map_values(m) + xs, rest),
                    ) && visited_fits(acc@.map_values(m)),
                    None => parse_items(n as nat, s0, pp) is None,
                }
            }),
        decreases n - i,
    {
        let ghost suffix = words@.skip(cur as int);
        if words.len() - cur < 2 {
            proof {
                assert(suffix.len() == words@.len() - cur);
                assert(parse_visited(suffix) is None);
            }
            return None;
        }
        proof {
            assert(suffix[0] == words@[cur as int]);
            assert(suffix[1] == words@[cur as int + 1]);
            assert(suffix.skip(2) =~= words@.skip(cur as int + 2));
        }
        let class_hash = ClassHash { h: Felt { v: words[cur] } };
        let count = words[cur + 1];
        let inner_pos = cur + 2;
        // The offsets of this record.
        let ghost wp = |t: Seq<u64>| parse_word(t);
        let mut offsets: Vec<usize> = Vec::new();
        let mut icur: usize = inner_pos;
        let mut k: u64 = 0;
        let mut inner_failed = false;
        loop
            invariant_except_break
                0 <= k <= count,
                inner_pos <= icur <= words@.len(),
                wp == (|t: Seq<u64>| parse_word(t)),
                ({
                    match parse_items((count - k) as nat, words@.skip(icur as int), wp) {
                        Some((ws, rest)) => parse_items(
                            count as nat,
                            words@.skip(inner_pos as int),
                            wp,
                        ) == Some((offsets@.map_values(|x: usize| x as u64) + ws, rest)),
                        None => parse_items(count as nat, words@.skip(inner_pos as int), wp)
                            is None,
                    }
                }),
            ensures
                ({
                    let p = parse_items(count as nat, words@.skip(inner_pos as int), wp);
                    if inner_failed {
                        p is None || (p matches Some((ws, rest)) && !(forall|j: int|
                            0 <= j < ws.len() ==> (#[trigger] ws[j]) <= usize::MAX))
                    } else {
                        p matches Some(ws_rest) && ws_rest.0 == offsets@.map_values(
                            |x: usize| x as u64,
                        ) && icur <= words@.len() && words@.skip(icur as int) == ws_rest.1
                            && (forall|j: int|
                            0 <= j < offsets@.len() ==> (#[trigger] offsets@[j]) as u64
                                <= usize::MAX)
                    }
                }),
            decreases count - k,
        {
            if k == count {
                proof {
                    assert(parse_items(0, words@.skip(icur as int), wp) == Some(
                        (Seq::<u64>::empty(), words@.skip(icur as int)),
                    ));
                    assert(offsets@.map_values(|x: usize| x as u64) + Seq::<u64>::empty()
                        =~= offsets@.map_values(|x: usize| x as u64));
                }
                inner_failed = false;
                break ;
            }
            let ghost isuffix = words@.skip(icur as int);
            if words.len() == icur {
                proof {
                    assert(parse_word(isuffix) is None);
                }
                inner_failed = true;
                break ;
            }
            proof {
                assert(isuffix[0] == words@[icur as int]);
                assert(isuffix.skip(1) =~= words@.skip(icur as int + 1));
            }
            let w = words[icur];
            if w > usize::MAX as u64 {
                proof {
                    lemma_parse_items_word_elem(count as nat, words@.skip(inner_pos as int), k as nat, offsets@.map_values(|x: usize| x as u64), w, icur as int, words@);
                }
                inner_failed = true;
                break ;
            }
            let ghost pre_offsets = offsets@;
            offsets.push(w as usize);
            proof {
                match parse_items((count - k - 1) as nat, words@.skip(icur as int + 1), wp) {
                    Some((ws, rest)) => {
                        assert(pre_offsets.map_values(|x: usize| x as u64) + (seq![w] + ws)
                            =~= offsets@.map_values(|x: usize| x as u64) + ws);
                    },
                    None => {},
                }
            }
            icur = icur + 1;
            k = k + 1;
        }
        if inner_failed {
            proof {
                match parse_items(count as nat, words@.skip(inner_pos as int), wp) {
                    Some((ws, rest)) => {
                        let j = choose|j: int|
                            0 <= j < ws.len() && !((#[trigger] ws[j]) <= usize::MAX);
                        match parse_items((n - i) as nat, suffix, pp) {
                            Some((xs, rest2)) => {
                                assert(xs[0] == (class_hash, ws));
                                let full = acc@.map_values(m) + xs;
                                let pre_len = acc@.map_values(m).len() as int;
                                assert(full[pre_len] == xs[0]);
                                assert(full[pre_len].1[j] > usize::MAX);
                                assert(!visited_fits(full));
                            },
                            None => {},
                        }
                    },
                    None => {},
                }
            }
            return None;
        }
        let entry = (class_hash, offsets);
        let ghost pre_acc = acc@;
        acc.push(entry);
        proof {
            assert(acc@.map_values(m) =~= pre_acc.map_values(m).push(m(entry)));
            match parse_items((n - i - 1) as nat, words@.skip(icur as int), pp) {
                Some((xs, rest)) => {
                    assert(pre_acc.map_values(m) + (seq![m(entry)] + xs) =~= acc@.map_values(m)
                        + xs);
                    assert(visited_fits(acc@.map_values(m)));
                },
                None => {},
            }
        }
        cur = icur;
        i = i + 1;
    }
    proof {
        assert(parse_items(0, words@.skip(cur as int), pp) == Some(
            (Seq::<(ClassHash, Seq<u64>)>::empty(), words@.skip(cur as int)),
        ));
        assert(acc@.map_values(m) + Seq::<(ClassHash, Seq<u64>)>::empty() =~= acc@.map_values(m));
    }
    Some((acc, cur))
}

/// When the next offset word exceeds the address width, the parsed record, if
/// it parses at all, holds an offset beyond it.
proof fn lemma_parse_items_word_elem(
    count: nat,
    s: Seq<u64>,
    k: nat,
    done: Seq<u64>,
    w: u64,
    icur: int,
    words: Seq<u64>,
)
    requires
        k < count,
        w > usize::MAX as u64,
        0 <= icur < words.len(),
        words[icur] == w,
        ({
            match parse_items((count - k) as nat, words.skip(icur), |t: Seq<u64>| parse_word(t)) {
                Some((ws, rest)) => parse_items(count, s, |t: Seq<u64>| parse_word(t)) == Some(
                    (done + ws, rest),
                ),
                None => parse_items(count, s, |t: Seq<u64>| parse_word(t)) is None,
            }
        }),
    ensures
        ({
            match parse_items(count, s, |t: Seq<u64>| parse_word(t)) {
                Some((ws, rest)) => exists|j: int| 0 <= j < ws.len() && (#[trigger] ws[j]) > usize::MAX,
                None => true,
            }
        }),
{
    let wp = |t: Seq<u64>| parse_word(t);
    if k < count {
        let isuffix = words.skip(icur);
        assert(isuffix[0] == w);
        match parse_items((count - k) as nat, isuffix, wp) {
            Some((ws, rest)) => {
                assert(parse_word(isuffix) == Some((w, isuffix.skip(1))));
                match parse_items((count - k - 1) as nat, isuffix.skip(1), wp) {
                    Some((ws2, rest2)) => {
                        assert(ws == seq![w] + ws2);
                        assert(ws[0] == w);
                        match parse_items(count, s, wp) {
                            Some((all, restall)) => {
                                assert(all == done + ws);
                                assert(all[done.len() as int] == w);
                            },
                            None => {},
                        }
                    },
                    None => {},
                }
            },
            None => {},
        }
    }
}

/// Decodes a canonical word stream back into artifacts.
///
/// Succeeds exactly when the stream parses with nothing left over, its entry
/// keys are distinct (as a map's are), and every visited offset fits the
/// machine's address width; the decoded artifacts then have exactly the parsed
/// image. In particular a decode of an encode returns the artifacts
/// identically.
pub fn decode_artifacts(words: &Vec<u64>) -> (r: Option<BlockExecutionArtifacts>)
    ensures
        parse_artifacts(words@) is None ==> r is None,
        parse_artifacts(words@) matches Some((img, rest)) ==> ({
            if rest.len() == 0 && entries_keys_distinct(img.entries) && visited_fits(img.visited) {
                r matches Some(a) && artifacts_image(&a) == img
            } else {
                r is None
            }
        }),
{
    if words.len() == 0 {
        return None;
    }
    let n_entries = words[0];
    proof {
        assert(parse_word(words@) == Some((words@[0], words@.skip(1))));
    }
    let (entries, pos1) = match read_entries(words, 1, n_entries) {
        Some(out) => out,
        None => {
            return None;
        },
    };
    if pos1 >= words.len() {
        return None;
    }
    let n_storage = words[pos1];
    proof {
        assert(parse_word(words@.skip(pos1 as int)) == Some(
            (words@[pos1 as int], words@.skip(pos1 as int).skip(1)),
        ));
        assert(words@.skip(pos1 as int).skip(1) =~= words@.skip(pos1 + 1));
    }
    let (storage_diffs, pos2) = match read_storage(words, pos1 + 1, n_storage) {
        Some(out) => out,
        None => {
            return None;
        },
    };
    if pos2 >= words.len() {
        return None;
    }
    let n_nonces = words[pos2];
    proof {
        assert(parse_word(words@.skip(pos2 as int)) == Some(
            (words@[pos2 as int], words@.skip(pos2 as int).skip(1)),
        ));
        assert(words@.skip(pos2 as int).skip(1) =~= words@.skip(pos2 + 1));
    }
    let (nonces, pos3) = match read_nonces(words, pos2 + 1, n_nonces) {
        Some(out) => out,
        None => {
            return None;
        },
    };
    if pos3 >= words.len() {
        return None;
    }
    let n_declared = words[pos3];
    proof {
        assert(parse_word(words@.skip(pos3 as int)) == Some(
            (words@[pos3 as int], words@.skip(pos3 as int).skip(1)),
        ));
        assert(words@.skip(pos3 as int).skip(1) =~= words@.skip(pos3 + 1));
    }
    let (declared_classes, pos4) = match read_declared(words, pos3 + 1, n_declared) {
        Some(out) => out,
        None => {
            return None;
        },
    };
    if pos4 >= words.len() {
        return None;
    }
    let n_deployed = words[pos4];
    proof {
        assert(parse_word(words@.skip(pos4 as int)) == Some(
            (words@[pos4 as int], words@.skip(pos4 as int).skip(1)),
        ));
        assert(words@.skip(pos4 as int).skip(1) =~= words@.skip(pos4 + 1));
    }
    let (deployed_contracts, pos5) = match read_deployed(words, pos4 + 1, n_deployed) {
        Some(out) => out,
        None => {
            return None;
        },
    };
    if pos5 >= words.len() {
        return None;
    }
    let n_visited = words[pos5];
    proof {
        assert(parse_word(words@.skip(pos5 as int)) == Some(
            (words@[pos5 as int], words@.skip(pos5 as int).skip(1)),
        ));
        assert(words@.skip(pos5 as int).skip(1) =~= words@.skip(pos5 + 1));
    }
    let (visited, pos6) = match read_visited(words, pos5 + 1, n_visited) {
        Some(out) => out,
        None => {
            // Either the records do not parse, or an offset does not fit.
            return None;
        },
    };
    if words.len() - pos6 != 5 {
        proof {
            let tail = words@.skip(pos6 as int);
            assert(tail.len() == words@.len() - pos6);
            if tail.len() >= 5 {
                assert(tail.skip(5).len() > 0);
            }
        }
        return None;
    }
    proof {
        let tail = words@.skip(pos6 as int);
        assert(tail.len() == 5);
        assert(tail[0] == words@[pos6 as int]);
        assert(tail[1] == words@[pos6 as int + 1]);
        assert(tail[2] == words@[pos6 as int + 2]);
        assert(tail[3] == words@[pos6 as int + 3]);
        assert(tail[4] == words@[pos6 as int + 4]);
        assert(tail.skip(5) =~= Seq::<u64>::empty());
    }
    let weights = BouncerWeights {
        l1_gas: words[pos6],
        message_segment_length: words[pos6 + 1],
        n_events: words[pos6 + 2],
        n_steps: words[pos6 + 3],
        state_diff_size: words[pos6 + 4],
    };

    // The entry keys must be distinct to rebuild the map faithfully.
    if !check_keys_distinct(&entries) {
        return None;
    }

    // Rebuild the execution-info map; with distinct keys every insert appends.
    let mut execution_infos = exec_info_map_new();
    let mut k: usize = 0;
    while k < entries.len()
        invariant
            0 <= k <= entries@.len(),
            entries_keys_distinct(entries@),
            exec_info_entries(execution_infos) == entries@.take(k as int),
        decreases entries@.len() - k,
    {
        proof {
            assert forall|j: int|
                0 <= j < entries@.take(k as int).len() implies (#[trigger] entries@.take(
                k as int,
            )[j]).0 != entries@[k as int].0 by {
                assert(entries@.take(k as int)[j] == entries@[j]);
            }
            if crate::exec_map::entries_have_key(entries@.take(k as int), entries@[k as int].0) {
                let j = choose|j: int|
                    0 <= j < entries@.take(k as int).len() && (#[trigger] entries@.take(
                        k as int,
                    )[j]).0 == entries@[k as int].0;
                assert(false);
            }
            assert(entries@.take(k + 1) =~= entries@.take(k as int).push(entries@[k as int]));
        }
        let (key, info) = entries[k];
        exec_info_map_insert(&mut execution_infos, key, info);
        k += 1;
    }
    proof {
        assert(entries@.take(entries@.len() as int) =~= entries@);
    }

    let a = BlockExecutionArtifacts {
        execution_infos,
        commitment_state_diff: ThinStateDiff {
            storage_diffs,
            nonces,
            declared_classes,
            deployed_contracts,
        },
        visited_segments_mapping: visited,
        bouncer_weights: weights,
    };
    proof {
        match parse_artifacts(words@) {
            Some((img, rest)) => {
                assert(artifacts_image(&a).entries =~= img.entries);
                assert(artifacts_image(&a).visited =~= img.visited);
                assert(artifacts_image(&a) == img);
            },
            None => {
                assert(false);
            },
        }
    }
    Some(a)
}

/// Whether the entry keys are pairwise distinct.
fn check_keys_distinct(entries: &Vec<(u64, TxExecutionInfo)>) -> (r: bool)
    ensures
        r == entries_keys_distinct(entries@),
{
    let mut i: usize = 0;
    while i < entries.len()
        invariant
            0 <= i <= entries@.len(),
            forall|a: int, b: int|
                0 <= a < b < i ==> (#[trigger] entries@[a]).0 != (#[trigger] entries@[b]).0,
        decreases entries@.len() - i,
    {
        let mut j: usize = 0;
        while j < i
            invariant
                0 <= j <= i < entries@.len(),
                forall|a: int, b: int|
                    0 <= a < b < i ==> (#[trigger] entries@[a]).0 != (#[trigger] entries@[b]).0,
                forall|a: int| 0 <= a < j ==> (#[trigger] entries@[a]).0 != entries@[i as int].0,
            decreases i - j,
        {
            if entries[j].0 == entries[i].0 {
                proof {
                    assert(0 <= j < i < entries@.len() && entries@[j as int].0 == entries@[i as int].0);
                }
                return false;
            }
            j += 1;
        }
        i += 1;
    }
    true
}

} // verus!
