use crate::http_server::server::{no_repeated_keys, Key, KeyValue, Status};
use crate::http_server::store_values::stored_pairs;
use crate::text::{json_array, json_array_of, texts};
use vstd::prelude::*;

verus! {

/// The next step of a lookup of one key.
pub enum LookupStep {
    /// The lookup is over, with this answer.
    Answer(Result<KeyValue, Status>),
    /// The cache does not hold the key: its file must be read.
    ReadFromDisk(String),
}

/// The first step of a lookup, given what the cache holds for `key`: a value in
/// the cache answers the lookup; otherwise the key's file is to be read.
pub fn get_key(key: String, cached: Option<String>) -> (step: LookupStep)
    ensures
        match cached {
            Some(v) => step matches LookupStep::Answer(Ok(kv)) && kv.key@ == key@ && kv.value@
                == v@,
            None => step matches LookupStep::ReadFromDisk(k) && k@ == key@,
        },
{
    match cached {
        Some(value) => LookupStep::Answer(Ok(KeyValue::new(key, value))),
        None => LookupStep::ReadFromDisk(key),
    }
}

/// The last step of a lookup that went to the disk: the answer is what the read
/// gave; a pair that was read is also to be put in the cache.
pub fn after_disk_read(read: Result<KeyValue, Status>) -> (r: (Result<KeyValue, Status>, Option<KeyValue>))
    ensures
        match read {
            Ok(kv) => {
                &&& r.0 matches Ok(a) && a.key@ == kv.key@ && a.value@ == kv.value@
                &&& r.1 matches Some(c) && c.key@ == kv.key@ && c.value@ == kv.value@
            },
            Err(s) => r.0 == Err::<KeyValue, Status>(s) && r.1 is None,
        },
{
    match read {
        Ok(kv) => {
            let cached = kv.duplicate();
            (Ok(kv), Some(cached))
        },
        Err(s) => (Err(s), None),
    }
}

/// The pairs found among the first `n` lookups, as (key, value), in order.
pub open spec fn found_pairs(results: Seq<Option<Result<KeyValue, Status>>>, n: nat) -> Seq<
    (Seq<char>, Seq<char>),
>
    decreases n,
{
    if n == 0 {
        Seq::empty()
    } else {
        let rest = found_pairs(results, (n - 1) as nat);
        match results[n - 1] {
            Some(Ok(kv)) => rest.push((kv.key@, kv.value@)),
            _ => rest,
        }
    }
}

/// The requested keys among the first `n` whose lookup found nothing (or whose
/// task did not finish), each with the empty value, in order.
pub open spec fn missing_pairs(
    keys: Seq<Key>,
    results: Seq<Option<Result<KeyValue, Status>>>,
    n: nat,
) -> Seq<(Seq<char>, Seq<char>)>
    decreases n,
{
    if n == 0 {
        Seq::empty()
    } else {
        let rest = missing_pairs(keys, results, (n - 1) as nat);
        match results[n - 1] {
            Some(Ok(_)) => rest,
            _ => rest.push((keys[n - 1].key@, Seq::empty())),
        }
    }
}

pub open spec fn pairs_of(kvs: Seq<KeyValue>) -> Seq<(Seq<char>, Seq<char>)> {
    kvs.map_values(|kv: KeyValue| (kv.key@, kv.value@))
}

/// Whether a lookup found a pair.
pub open spec fn lookup_found(r: Option<Result<KeyValue, Status>>) -> bool {
    r matches Some(Ok(_))
}

/// How many of the first `i` lookups found a pair.
pub open spec fn found_before(results: Seq<Option<Result<KeyValue, Status>>>, i: int) -> nat
    decreases i,
{
    if i <= 0 {
        0
    } else {
        found_before(results, i - 1) + if lookup_found(results[i - 1]) {
            1nat
        } else {
            0nat
        }
    }
}

/// The pair a lookup found, as (key, value).
pub open spec fn found_pair_of(r: Option<Result<KeyValue, Status>>) -> (Seq<char>, Seq<char>) {
    match r {
        Some(Ok(kv)) => (kv.key@, kv.value@),
        _ => (Seq::empty(), Seq::empty()),
    }
}

/// Each lookup is answered from its own result: a lookup that found a pair puts
/// that pair, key and value as found, among the pairs found, after the pairs of
/// the lookups before it; every other lookup puts its requested key with the
/// empty value among the keys not found, after those before it. So there are as
/// many pairs found as lookups that found one, and the rest are not found.
pub proof fn lookup_answers_follow_results(
    keys: Seq<Key>,
    results: Seq<Option<Result<KeyValue, Status>>>,
    n: nat,
)
    requires
        n <= keys.len(),
        keys.len() == results.len(),
    ensures
        found_pairs(results, n).len() == found_before(results, n as int),
        missing_pairs(keys, results, n).len() + found_before(results, n as int) == n,
        forall|i: int|
            0 <= i < n && lookup_found(results[i]) ==> found_pairs(results, n)[found_before(
                results,
                i,
            ) as int] == #[trigger] found_pair_of(results[i]),
        forall|i: int|
            0 <= i < n && !lookup_found(results[i]) ==> missing_pairs(keys, results, n)[i
                - found_before(results, i)] == (#[trigger] keys[i].key@, Seq::<char>::empty()),
    decreases n,
{
    if n > 0 {
        let m = (n - 1) as nat;
        lookup_answers_follow_results(keys, results, m);
        lemma_lookup_step(keys, results, m);
        let fpn = found_pairs(results, n);
        let fpm = found_pairs(results, m);
        let mpn = missing_pairs(keys, results, n);
        let mpm = missing_pairs(keys, results, m);
        assert forall|i: int|
            0 <= i < n && lookup_found(results[i]) implies fpn[found_before(
            results,
            i,
        ) as int] == #[trigger] found_pair_of(results[i]) by {
            if i < m {
                lemma_found_before_monotone(results, i + 1, m as int);
                assert(fpm[found_before(results, i) as int] == found_pair_of(results[i]));
            }
        }
        assert forall|i: int|
            0 <= i < n && !lookup_found(results[i]) implies mpn[i - found_before(
            results,
            i,
        )] == (#[trigger] keys[i].key@, Seq::<char>::empty()) by {
            assert(found_before(results, i + 1) == found_before(results, i));
            lemma_found_before_monotone(results, 0, i);
            lemma_found_before_monotone(results, i + 1, n as int);
            if i < m {
                lemma_found_before_monotone(results, i + 1, m as int);
                assert(i - found_before(results, i) < mpm.len());
                assert(mpm[i - found_before(results, i)] == (keys[i].key@, Seq::<char>::empty()));
                if lookup_found(results[m as int]) {
                    assert(mpn == mpm);
                } else {
                    assert(mpn == mpm.push((keys[m as int].key@, Seq::<char>::empty())));
                }
            } else {
                assert(i == m);
                assert(i - found_before(results, i) == mpm.len());
                assert(mpn == mpm.push((keys[m as int].key@, Seq::<char>::empty())));
            }
        }
    }
}

proof fn lemma_lookup_step(keys: Seq<Key>, results: Seq<Option<Result<KeyValue, Status>>>, m: nat)
    requires
        m < keys.len(),
        keys.len() == results.len(),
    ensures
        found_before(results, m as int + 1) == found_before(results, m as int) + if lookup_found(
            results[m as int],
        ) {
            1nat
        } else {
            0nat
        },
        lookup_found(results[m as int]) ==> found_pairs(results, m + 1) == found_pairs(
            results,
            m,
        ).push(found_pair_of(results[m as int])),
        lookup_found(results[m as int]) ==> missing_pairs(keys, results, m + 1) == missing_pairs(
            keys,
            results,
            m,
        ),
        !lookup_found(results[m as int]) ==> found_pairs(results, m + 1) == found_pairs(results, m),
        !lookup_found(results[m as int]) ==> missing_pairs(keys, results, m + 1) == missing_pairs(
            keys,
            results,
            m,
        ).push((keys[m as int].key@, Seq::<char>::empty())),
{
}

proof fn lemma_found_before_monotone(results: Seq<Option<Result<KeyValue, Status>>>, i: int, j: int)
    requires
        0 <= i <= j,
    ensures
        found_before(results, i) <= found_before(results, j),
        found_before(results, j) - found_before(results, i) <= j - i,
    decreases j - i,
{
    if i < j {
        lemma_found_before_monotone(results, i, j - 1);
    }
}

/// The pairs found and the keys not found by the lookups of a request.
pub struct LookupOutcome {
    pub found: Vec<KeyValue>,
    pub not_found: Vec<KeyValue>,
}

/// Sorts the lookups of a request: `results[i]` is the outcome of the lookup of
/// `keys[i]`, `None` when its task did not finish. A key not found is answered
/// with the empty value.
pub fn collect_lookup_results(keys: &Vec<Key>, results: Vec<Option<Result<KeyValue, Status>>>) -> (out: LookupOutcome)
    requires
        keys.len() == results.len(),
    ensures
        pairs_of(out.found@) == found_pairs(results@, keys.len() as nat),
        pairs_of(out.not_found@) == missing_pairs(keys@, results@, keys.len() as nat),
        out.found@.len() == found_before(results@, keys.len() as int),
        out.not_found@.len() + found_before(results@, keys.len() as int) == keys.len(),
        forall|i: int|
            0 <= i < keys.len() && lookup_found(results@[i]) ==> pairs_of(out.found@)[found_before(
                results@,
                i,
            ) as int] == #[trigger] found_pair_of(results@[i]),
        forall|i: int|
            0 <= i < keys.len() && !lookup_found(results@[i]) ==> pairs_of(out.not_found@)[i
                - found_before(results@, i)] == (#[trigger] keys@[i].key@, Seq::<char>::empty()),
{
    proof {
        lookup_answers_follow_results(keys@, results@, keys.len() as nat);
    }
    let mut found: Vec<KeyValue> = Vec::new();
    let mut not_found: Vec<KeyValue> = Vec::new();
    let n = keys.len();
    let mut i: usize = 0;
    while i < n
        invariant
            n == keys.len(),
            n == results.len(),
            i <= n,
            pairs_of(found@) == found_pairs(results@, i as nat),
            pairs_of(not_found@) == missing_pairs(keys@, results@, i as nat),
        decreases n - i,
    {
        let ghost f0 = found@;
        let ghost m0 = not_found@;
        match &results[i] {
            Some(Ok(kv)) => {
                found.push(kv.duplicate());
                assert(pairs_of(found@) =~= pairs_of(f0).push((kv.key@, kv.value@)));
            },
            _ => {
                not_found.push(KeyValue::new(keys[i].key.clone(), String::new()));
                assert(pairs_of(not_found@) =~= pairs_of(m0).push(
                    (keys@[i as int].key@, Seq::empty()),
                ));
            },
        }
        i = i + 1;
    }
    LookupOutcome { found, not_found }
}

/// Every requested key is answered exactly once, when each lookup that found a
/// pair found it under the key that was asked for: the keys of the pairs found
/// and of the keys not found together are the requested keys, as a multiset.
pub proof fn every_looked_up_key_is_answered_once(
    keys: Seq<Key>,
    results: Seq<Option<Result<KeyValue, Status>>>,
)
    requires
        keys.len() == results.len(),
        forall|i: int|
            0 <= i < keys.len() ==> (#[trigger] results[i] matches Some(Ok(kv)) ==> kv.key@
                == keys[i].key@),
    ensures
        (found_pairs(results, keys.len()).map_values(|p: (Seq<char>, Seq<char>)| p.0)
            + missing_pairs(keys, results, keys.len()).map_values(
            |p: (Seq<char>, Seq<char>)| p.0,
        )).to_multiset() == keys.map_values(|k: Key| k.key@).to_multiset(),
{
    lemma_lookups_cover_prefix(keys, results, keys.len());
    assert(keys.map_values(|k: Key| k.key@).take(keys.len() as int) =~= keys.map_values(
        |k: Key| k.key@,
    ));
}

proof fn lemma_lookups_cover_prefix(
    keys: Seq<Key>,
    results: Seq<Option<Result<KeyValue, Status>>>,
    n: nat,
)
    requires
        n <= keys.len(),
        keys.len() == results.len(),
        forall|i: int|
            0 <= i < keys.len() ==> (#[trigger] results[i] matches Some(Ok(kv)) ==> kv.key@
                == keys[i].key@),
    ensures
        (found_pairs(results, n).map_values(|p: (Seq<char>, Seq<char>)| p.0) + missing_pairs(
            keys,
            results,
            n,
        ).map_values(|p: (Seq<char>, Seq<char>)| p.0)).to_multiset() == keys.map_values(
            |k: Key| k.key@,
        ).take(n as int).to_multiset(),
    decreases n,
{
    broadcast use vstd::seq_lib::lemma_multiset_commutative;
    broadcast use vstd::seq_lib::group_to_multiset_ensures;
    broadcast use vstd::multiset::group_multiset_axioms;

    let first = |p: (Seq<char>, Seq<char>)| p.0;
    if n == 0 {
        assert(keys.map_values(|k: Key| k.key@).take(0) =~= Seq::<Seq<char>>::empty());
        assert(found_pairs(results, 0).map_values(first) + missing_pairs(keys, results, 0).map_values(first)
            =~= Seq::<Seq<char>>::empty());
    } else {
        let m = (n - 1) as nat;
        lemma_lookups_cover_prefix(keys, results, m);
        let f = found_pairs(results, m).map_values(first);
        let g = missing_pairs(keys, results, m).map_values(first);
        let k = keys[m as int].key@;
        assert(keys.map_values(|k: Key| k.key@).take(n as int) =~= keys.map_values(
            |k: Key| k.key@,
        ).take(m as int).push(k));
        match results[m as int] {
            Some(Ok(kv)) => {
                assert(found_pairs(results, n).map_values(first) =~= f.push(k));
                assert(missing_pairs(keys, results, n).map_values(first) =~= g);
                assert((f.push(k) + g).to_multiset() =~= f.to_multiset().insert(k).add(
                    g.to_multiset(),
                ));
            },
            _ => {
                assert(found_pairs(results, n).map_values(first) =~= f);
                assert(missing_pairs(keys, results, n).map_values(first) =~= g.push(k));
                assert((f + g.push(k)).to_multiset() =~= f.to_multiset().add(
                    g.to_multiset().insert(k),
                ));
            },
        }
    }
}

/// The entry of the answer for a key that was found with its value.
pub open spec fn found_entry(key: Seq<char>, value: Seq<char>) -> Seq<char> {
    "{\"key\":\""@ + key + "\", \"value\":\""@ + value + "\" \"found\": \"true\"}"@
}

/// The entry of the answer for a key that was not found: its value is empty.
pub open spec fn not_found_entry(key: Seq<char>) -> Seq<char> {
    "{\"key\":\""@ + key + "\", \"value\":\"\", \"found\": \"false\"}"@
}

/// The entries of the answer to a lookup: first the pairs found, then the keys
/// not found.
pub open spec fn lookup_entries(found: Seq<KeyValue>, not_found: Seq<KeyValue>) -> Seq<Seq<char>> {
    found.map_values(|kv: KeyValue| found_entry(kv.key@, kv.value@)) + not_found.map_values(
        |kv: KeyValue| not_found_entry(kv.key@),
    )
}

fn push_lookup_entries(entries: &mut Vec<String>, kvs: &Vec<KeyValue>, found: bool)
    ensures
        texts(final(entries)@) == texts(old(entries)@) + if found {
            kvs@.map_values(|kv: KeyValue| found_entry(kv.key@, kv.value@))
        } else {
            kvs@.map_values(|kv: KeyValue| not_found_entry(kv.key@))
        },
{
    let ghost start = texts(entries@);
    let ghost all = if found {
        kvs@.map_values(|kv: KeyValue| found_entry(kv.key@, kv.value@))
    } else {
        kvs@.map_values(|kv: KeyValue| not_found_entry(kv.key@))
    };
    let n = kvs.len();
    let mut i: usize = 0;
    while i < n
        invariant
            n == kvs.len(),
            i <= n,
            all.len() == n,
            all == (if found {
                kvs@.map_values(|kv: KeyValue| found_entry(kv.key@, kv.value@))
            } else {
                kvs@.map_values(|kv: KeyValue| not_found_entry(kv.key@))
            }),
            texts(entries@) == start + all.take(i as int),
        decreases n - i,
    {
        let ghost e0 = entries@;
        let mut e = String::from_str("{\"key\":\"");
        e.append(kvs[i].key.as_str());
        if found {
            e.append("\", \"value\":\"");
            e.append(kvs[i].value.as_str());
            e.append("\" \"found\": \"true\"}");
        } else {
            e.append("\", \"value\":\"\", \"found\": \"false\"}");
        }
        entries.push(e);
        assert(all.take(i + 1) =~= all.take(i as int).push(all[i as int]));
        assert(texts(entries@) =~= texts(e0).push(e@));
        i = i + 1;
    }
    assert(all.take(n as int) =~= all);
}

/// The answer to a lookup, a JSON array: one entry per pair found, then one per
/// key not found (with the empty value and "found" false).
pub fn get_values_response(found: &Vec<KeyValue>, not_found: &Vec<KeyValue>) -> (response: String)
    ensures
        response@ == json_array(lookup_entries(found@, not_found@)),
{
    let mut entries: Vec<String> = Vec::new();
    push_lookup_entries(&mut entries, found, true);
    push_lookup_entries(&mut entries, not_found, false);
    assert(texts(entries@) =~= lookup_entries(found@, not_found@));
    json_array_of(&entries)
}

/// The cache after the pairs written are put in it, one after another.
pub open spec fn cache_after_store(
    cache: Map<Seq<char>, Seq<char>>,
    pairs: Seq<(Seq<char>, Seq<char>)>,
) -> Map<Seq<char>, Seq<char>>
    decreases pairs.len(),
{
    if pairs.len() == 0 {
        cache
    } else {
        cache_after_store(cache, pairs.drop_last()).insert(pairs.last().0, pairs.last().1)
    }
}

/// The cache after the keys deleted are dropped from it.
pub open spec fn cache_after_delete(cache: Map<Seq<char>, Seq<char>>, evicted: Seq<Seq<char>>) -> Map<
    Seq<char>,
    Seq<char>,
> {
    cache.remove_keys(evicted.to_set())
}

/// A pair reported written by a store request is then in the cache with its value,
/// so that `get_key` answers the key with that value without going to the disk.
pub proof fn stored_pair_is_cached(
    cache: Map<Seq<char>, Seq<char>>,
    kvs: Seq<KeyValue>,
    oks: Seq<bool>,
    i: int,
)
    requires
        kvs.len() == oks.len(),
        no_repeated_keys(kvs),
        0 <= i < kvs.len(),
        oks[i],
    ensures
        cache_after_store(cache, stored_pairs(kvs, oks, kvs.len())).contains_key(kvs[i].key@),
        cache_after_store(cache, stored_pairs(kvs, oks, kvs.len()))[kvs[i].key@] == kvs[i].value@,
{
    lemma_stored_pair_stays(cache, kvs, oks, i, kvs.len());
}

proof fn lemma_stored_pair_stays(
    cache: Map<Seq<char>, Seq<char>>,
    kvs: Seq<KeyValue>,
    oks: Seq<bool>,
    i: int,
    n: nat,
)
    requires
        kvs.len() == oks.len(),
        no_repeated_keys(kvs),
        0 <= i < n <= kvs.len(),
        oks[i],
    ensures
        cache_after_store(cache, stored_pairs(kvs, oks, n)).contains_key(kvs[i].key@),
        cache_after_store(cache, stored_pairs(kvs, oks, n))[kvs[i].key@] == kvs[i].value@,
    decreases n,
{
    let m = (n - 1) as nat;
    let before = stored_pairs(kvs, oks, m);
    if oks[m as int] {
        assert(stored_pairs(kvs, oks, n).drop_last() =~= before);
    } else {
        assert(stored_pairs(kvs, oks, n) == before);
    }
    if i < m {
        lemma_stored_pair_stays(cache, kvs, oks, i, m);
        if oks[m as int] {
            assert(kvs[i].key@ != kvs[m as int].key@);
        }
    }
}

/// A key that a deletion dropped from the cache is no longer in it, so `get_key`
/// goes to the disk for it.
pub proof fn deleted_key_is_not_cached(
    cache: Map<Seq<char>, Seq<char>>,
    evicted: Seq<Seq<char>>,
    key: Seq<char>,
)
    requires
        evicted.contains(key),
    ensures
        !cache_after_delete(cache, evicted).contains_key(key),
{
}

} // verus!
