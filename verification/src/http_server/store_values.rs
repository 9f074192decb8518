use crate::http_server::server::{
    check_for_repeated_key, keys_of, no_repeated_keys, requested, KeyValue, Request, Status,
};
use crate::file_system::operations::key_file_path;
use crate::text::{has_char, json_array, json_array_of, texts};
use vstd::prelude::*;

verus! {

broadcast use vstd::seq_lib::group_to_multiset_ensures;

/// `tokio::task::JoinError`, the error of a task that did not finish, carried as
/// an opaque value: only whether a task result is an error is looked at.
#[verifier::external_type_specification]
#[verifier::external_body]
pub struct ExJoinError(tokio::task::JoinError);

/// A pair may be stored when its key and its value are not empty and its key
/// holds no '/', so that the key names a file directly inside the store.
pub open spec fn valid_key_value(key: Seq<char>, value: Seq<char>) -> bool {
    &&& key.len() > 0
    &&& value.len() > 0
    &&& !key.contains('/')
}

pub open spec fn invalid_pair_text(key: Seq<char>, value: Seq<char>) -> Seq<char> {
    "Bad request, invalid key "@ + key + " or value "@ + value
}

/// Checks a pair before it is written: `Ok` when it may be stored, otherwise
/// an error that names the key and the value.
pub fn validate_key_value(kv: &KeyValue) -> (r: Result<(), String>)
    ensures
        r is Ok <==> valid_key_value(kv.key@, kv.value@),
        r is Ok <==> (kv.key@.len() > 0 && kv.value@.len() > 0 && !kv.key@.contains('/')),
        r matches Err(e) ==> e@ == invalid_pair_text(kv.key@, kv.value@),
{
    if kv.key.as_str().is_empty() || kv.value.as_str().is_empty() || has_char(kv.key.as_str(), '/') {
        let mut msg = String::from_str("Bad request, invalid key ");
        msg.append(kv.key.as_str());
        msg.append(" or value ");
        msg.append(kv.value.as_str());
        Err(msg)
    } else {
        Ok(())
    }
}

/// The check refuses exactly the pairs with an empty key, an empty value or a
/// '/' in the key: any other value, whatever it holds, is accepted, and any key
/// that is not empty and holds no '/'.
pub proof fn pair_check_refuses_only_empty_or_slash(key: Seq<char>, value: Seq<char>)
    ensures
        (key.len() > 0 && value.len() > 0 && !key.contains('/')) ==> valid_key_value(key, value),
        key.len() == 0 ==> !valid_key_value(key, value),
        value.len() == 0 ==> !valid_key_value(key, value),
        key.contains('/') ==> !valid_key_value(key, value),
{
}

/// A pair that passes the check is stored in a file directly inside the store:
/// its path is the store's directory, a '/', and then the key, which holds no
/// further '/'.
pub proof fn accepted_key_stays_in_store(store: Seq<char>, key: Seq<char>, value: Seq<char>)
    requires
        valid_key_value(key, value),
    ensures
        key_file_path(store, key).take(store.len() as int) == store,
        key_file_path(store, key)[store.len() as int] == '/',
        key_file_path(store, key).skip(store.len() as int + 1) == key,
        !key_file_path(store, key).skip(store.len() as int + 1).contains('/'),
        key.len() > 0,
{
    reveal_strlit("/");
    let p = key_file_path(store, key);
    assert(p[store.len() as int] == "/"@[0]);
    assert(p.take(store.len() as int) =~= store);
    assert(p.skip(store.len() as int + 1) =~= key);
}

/// Admits a batch of pairs for storing: `BadRequest` when a key occurs twice.
pub fn admit_batch(kvs: &Vec<KeyValue>) -> (r: Result<(), Status>)
    ensures
        r is Ok <==> no_repeated_keys(kvs@),
        r matches Err(s) ==> s == Status::BadRequest,
{
    if check_for_repeated_key(kvs) {
        Ok(())
    } else {
        Err(Status::BadRequest)
    }
}

/// The pairs that a store request asks to write, in order: a JSON array is
/// refused with `BadRequest` when a key occurs twice in it; a single object is
/// written alone; an object that could not be read as a pair writes nothing.
pub fn pairs_to_store(req: Request<KeyValue>) -> (r: Result<Vec<KeyValue>, Status>)
    ensures
        match req {
            Request::Many(kvs) => if no_repeated_keys(kvs@) {
                r matches Ok(v) && v@ == kvs@
            } else {
                r == Err::<Vec<KeyValue>, Status>(Status::BadRequest)
            },
            _ => r matches Ok(v) && v@ == requested(req),
        },
{
    if let Request::Many(kvs) = &req {
        if let Err(s) = admit_batch(kvs) {
            return Err(s);
        }
    }
    Ok(req.into_items())
}

/// Whether the task that stored a pair finished and reported success.
pub fn extract_failure_success(val: Result<Result<String, String>, tokio::task::JoinError>) -> (ok: bool)
    ensures
        ok == (val matches Ok(r) && r is Ok),
{
    if let Ok(key_value) = val {
        if let Ok(_) = key_value {
            true
        } else {
            false
        }
    } else {
        false
    }
}

/// The keys among the first `n` pairs whose outcome is `wanted`, in order.
pub open spec fn keys_with_outcome(kvs: Seq<KeyValue>, oks: Seq<bool>, wanted: bool, n: nat) -> Seq<
    Seq<char>,
>
    decreases n,
{
    if n == 0 {
        Seq::empty()
    } else {
        let rest = keys_with_outcome(kvs, oks, wanted, (n - 1) as nat);
        if oks[n - 1] == wanted {
            rest.push(kvs[n - 1].key@)
        } else {
            rest
        }
    }
}

/// The pairs among the first `n` whose outcome is success, as (key, value), in order.
pub open spec fn stored_pairs(kvs: Seq<KeyValue>, oks: Seq<bool>, n: nat) -> Seq<
    (Seq<char>, Seq<char>),
>
    decreases n,
{
    if n == 0 {
        Seq::empty()
    } else {
        let rest = stored_pairs(kvs, oks, (n - 1) as nat);
        if oks[n - 1] {
            rest.push((kvs[n - 1].key@, kvs[n - 1].value@))
        } else {
            rest
        }
    }
}

pub open spec fn pair_texts(kvs: Seq<KeyValue>) -> Seq<(Seq<char>, Seq<char>)> {
    kvs.map_values(|kv: KeyValue| (kv.key@, kv.value@))
}

/// How a batch of writes went: the keys written and the keys not written, each in
/// the order of the request, and the pairs written, which the cache takes up.
pub struct StoreOutcome {
    pub modified: Vec<String>,
    pub failed: Vec<String>,
    pub stored: Vec<KeyValue>,
}

/// Sorts the pairs of a batch by the outcome of their writes: `succeeded[i]` is
/// the outcome of `kvs[i]`.
pub fn collect_store_results(kvs: &Vec<KeyValue>, succeeded: &Vec<bool>) -> (out: StoreOutcome)
    requires
        kvs.len() == succeeded.len(),
    ensures
        texts(out.modified@) == keys_with_outcome(kvs@, succeeded@, true, kvs.len() as nat),
        texts(out.failed@) == keys_with_outcome(kvs@, succeeded@, false, kvs.len() as nat),
        pair_texts(out.stored@) == stored_pairs(kvs@, succeeded@, kvs.len() as nat),
{
    let mut modified: Vec<String> = Vec::new();
    let mut failed: Vec<String> = Vec::new();
    let mut stored: Vec<KeyValue> = Vec::new();
    let n = kvs.len();
    let mut i: usize = 0;
    while i < n
        invariant
            n == kvs.len(),
            n == succeeded.len(),
            i <= n,
            texts(modified@) == keys_with_outcome(kvs@, succeeded@, true, i as nat),
            texts(failed@) == keys_with_outcome(kvs@, succeeded@, false, i as nat),
            pair_texts(stored@) == stored_pairs(kvs@, succeeded@, i as nat),
        decreases n - i,
    {
        let ghost m0 = modified@;
        let ghost f0 = failed@;
        let ghost s0 = stored@;
        if succeeded[i] {
            modified.push(kvs[i].key.clone());
            stored.push(kvs[i].duplicate());
            assert(texts(modified@) =~= texts(m0).push(kvs@[i as int].key@));
            assert(pair_texts(stored@) =~= pair_texts(s0).push(
                (kvs@[i as int].key@, kvs@[i as int].value@),
            ));
        } else {
            failed.push(kvs[i].key.clone());
            assert(texts(failed@) =~= texts(f0).push(kvs@[i as int].key@));
        }
        i = i + 1;
    }
    StoreOutcome { modified, failed, stored }
}

/// Every key of the batch is answered exactly once: the keys written and the keys
/// not written together are the keys of the request, as a multiset.
pub proof fn every_stored_key_is_answered_once(kvs: Seq<KeyValue>, oks: Seq<bool>)
    requires
        kvs.len() == oks.len(),
    ensures
        (keys_with_outcome(kvs, oks, true, kvs.len()) + keys_with_outcome(
            kvs,
            oks,
            false,
            kvs.len(),
        )).to_multiset() == keys_of(kvs).to_multiset(),
{
    lemma_outcomes_cover_prefix(kvs, oks, kvs.len());
    assert(keys_of(kvs).take(kvs.len() as int) =~= keys_of(kvs));
}

proof fn lemma_outcomes_cover_prefix(kvs: Seq<KeyValue>, oks: Seq<bool>, n: nat)
    requires
        n <= kvs.len(),
        kvs.len() == oks.len(),
    ensures
        (keys_with_outcome(kvs, oks, true, n) + keys_with_outcome(
            kvs,
            oks,
            false,
            n,
        )).to_multiset() == keys_of(kvs).take(n as int).to_multiset(),
    decreases n,
{
    broadcast use vstd::seq_lib::lemma_multiset_commutative;
    broadcast use vstd::multiset::group_multiset_axioms;

    if n == 0 {
        assert(keys_of(kvs).take(0) =~= Seq::<Seq<char>>::empty());
        assert(keys_with_outcome(kvs, oks, true, 0) + keys_with_outcome(kvs, oks, false, 0)
            =~= Seq::<Seq<char>>::empty());
    } else {
        let m = (n - 1) as nat;
        lemma_outcomes_cover_prefix(kvs, oks, m);
        let t = keys_with_outcome(kvs, oks, true, m);
        let f = keys_with_outcome(kvs, oks, false, m);
        let k = kvs[m as int].key@;
        assert(keys_of(kvs).take(n as int) =~= keys_of(kvs).take(m as int).push(k));
        if oks[m as int] {
            assert((t.push(k) + f).to_multiset() =~= t.to_multiset().insert(k).add(
                f.to_multiset(),
            ));
        } else {
            assert((t + f.push(k)).to_multiset() =~= t.to_multiset().add(
                f.to_multiset().insert(k),
            ));
        }
    }
}

/// One entry of the answer to a store request.
pub open spec fn modified_entry(key: Seq<char>, modified: bool) -> Seq<char> {
    "{\"key\":\""@ + key + if modified {
        "\", \"modified\": \"true\"}"@
    } else {
        "\", \"modified\": \"false\"}"@
    }
}

/// The entries of the answer to a store request: first the keys written, then the
/// keys not written.
pub open spec fn store_entries(modified: Seq<Seq<char>>, failed: Seq<Seq<char>>) -> Seq<
    Seq<char>,
> {
    modified.map_values(|k: Seq<char>| modified_entry(k, true)) + failed.map_values(
        |k: Seq<char>| modified_entry(k, false),
    )
}

fn modified_entry_text(key: &str, modified: bool) -> (e: String)
    ensures
        e@ == modified_entry(key@, modified),
{
    let mut e = String::from_str("{\"key\":\"");
    e.append(key);
    if modified {
        e.append("\", \"modified\": \"true\"}");
    } else {
        e.append("\", \"modified\": \"false\"}");
    }
    e
}

fn push_modified_entries(entries: &mut Vec<String>, keys: &Vec<String>, modified: bool)
    ensures
        texts(final(entries)@) == texts(old(entries)@) + texts(keys@).map_values(
            |k: Seq<char>| modified_entry(k, modified),
        ),
{
    let ghost start = texts(entries@);
    let n = keys.len();
    let mut i: usize = 0;
    while i < n
        invariant
            n == keys.len(),
            i <= n,
            texts(entries@) == start + texts(keys@).take(i as int).map_values(
                |k: Seq<char>| modified_entry(k, modified),
            ),
        decreases n - i,
    {
        let ghost e0 = entries@;
        let e = modified_entry_text(keys[i].as_str(), modified);
        entries.push(e);
        assert(texts(keys@).take(i + 1) =~= texts(keys@).take(i as int).push(keys@[i as int]@));
        assert(texts(entries@) =~= texts(e0).push(e@));
        i = i + 1;
    }
    assert(texts(keys@).take(n as int) =~= texts(keys@));
}

/// The answer to a store request, a JSON array: one entry per key, the keys
/// written first and marked "true", then the keys not written marked "false".
pub fn create_json_response(modified: Vec<String>, failed: Vec<String>) -> (response: String)
    ensures
        response@ == json_array(store_entries(texts(modified@), texts(failed@))),
{
    let mut entries: Vec<String> = Vec::new();
    push_modified_entries(&mut entries, &modified, true);
    push_modified_entries(&mut entries, &failed, false);
    assert(texts(entries@) =~= store_entries(texts(modified@), texts(failed@)));
    json_array_of(&entries)
}

} // verus!
