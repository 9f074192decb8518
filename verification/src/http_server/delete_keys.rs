use crate::http_server::server::Status;
use crate::text::{join, join_strings, json_array, json_array_of, texts};
use vstd::prelude::*;

verus! {

/// The keys deleted among the first `n` results, in order.
pub open spec fn deleted_keys(results: Seq<Result<String, Status>>, n: nat) -> Seq<Seq<char>>
    decreases n,
{
    if n == 0 {
        Seq::empty()
    } else {
        let rest = deleted_keys(results, (n - 1) as nat);
        match results[n - 1] {
            Ok(k) => rest.push(k@),
            Err(_) => rest,
        }
    }
}

/// The requested keys among the first `n` whose deletion failed, in order.
pub open spec fn failed_keys(keys: Seq<String>, results: Seq<Result<String, Status>>, n: nat) -> Seq<
    Seq<char>,
>
    decreases n,
{
    if n == 0 {
        Seq::empty()
    } else {
        let rest = failed_keys(keys, results, (n - 1) as nat);
        match results[n - 1] {
            Ok(_) => rest,
            Err(_) => rest.push(keys[n - 1]@),
        }
    }
}

/// Whether a deletion succeeded.
pub open spec fn deletion_ok(r: Result<String, Status>) -> bool {
    r is Ok
}

/// The key a successful deletion reports.
pub open spec fn ok_key(r: Result<String, Status>) -> Seq<char> {
    match r {
        Ok(k) => k@,
        Err(_) => Seq::empty(),
    }
}

/// How many of the first `i` deletions succeeded.
pub open spec fn ok_before(results: Seq<Result<String, Status>>, i: int) -> nat
    decreases i,
{
    if i <= 0 {
        0
    } else {
        ok_before(results, i - 1) + if deletion_ok(results[i - 1]) {
            1nat
        } else {
            0nat
        }
    }
}

proof fn lemma_ok_before_monotone(results: Seq<Result<String, Status>>, i: int, j: int)
    requires
        0 <= i <= j,
    ensures
        ok_before(results, i) <= ok_before(results, j),
        ok_before(results, j) - ok_before(results, i) <= j - i,
    decreases j - i,
{
    if i < j {
        lemma_ok_before_monotone(results, i, j - 1);
    }
}

proof fn lemma_delete_step(keys: Seq<String>, results: Seq<Result<String, Status>>, m: nat)
    requires
        m < keys.len(),
        keys.len() == results.len(),
    ensures
        ok_before(results, m as int + 1) == ok_before(results, m as int) + if deletion_ok(
            results[m as int],
        ) {
            1nat
        } else {
            0nat
        },
        deletion_ok(results[m as int]) ==> deleted_keys(results, m + 1) == deleted_keys(
            results,
            m,
        ).push(ok_key(results[m as int])),
        deletion_ok(results[m as int]) ==> failed_keys(keys, results, m + 1) == failed_keys(
            keys,
            results,
            m,
        ),
        !deletion_ok(results[m as int]) ==> deleted_keys(results, m + 1) == deleted_keys(
            results,
            m,
        ),
        !deletion_ok(results[m as int]) ==> failed_keys(keys, results, m + 1) == failed_keys(
            keys,
            results,
            m,
        ).push(keys[m as int]@),
{
}

/// Each deletion is answered from its own result: a deletion that succeeded puts
/// the key it reports among the keys deleted, after those of the deletions before
/// it, and never among the failures; a deletion that failed puts its requested
/// key among the failures, after those before it. So there are as many keys
/// deleted as deletions that succeeded, and the rest failed.
pub proof fn delete_answers_follow_results(
    keys: Seq<String>,
    results: Seq<Result<String, Status>>,
    n: nat,
)
    requires
        n <= keys.len(),
        keys.len() == results.len(),
    ensures
        deleted_keys(results, n).len() == ok_before(results, n as int),
        failed_keys(keys, results, n).len() + ok_before(results, n as int) == n,
        forall|i: int|
            0 <= i < n && deletion_ok(results[i]) ==> deleted_keys(results, n)[ok_before(
                results,
                i,
            ) as int] == #[trigger] ok_key(results[i]),
        forall|i: int|
            0 <= i < n && !deletion_ok(results[i]) ==> failed_keys(keys, results, n)[i
                - ok_before(results, i)] == #[trigger] keys[i]@,
    decreases n,
{
    if n > 0 {
        let m = (n - 1) as nat;
        delete_answers_follow_results(keys, results, m);
        lemma_delete_step(keys, results, m);
        let dn = deleted_keys(results, n);
        let dm = deleted_keys(results, m);
        let fnn = failed_keys(keys, results, n);
        let fm = failed_keys(keys, results, m);
        assert forall|i: int|
            0 <= i < n && deletion_ok(results[i]) implies dn[ok_before(results, i) as int]
            == #[trigger] ok_key(results[i]) by {
            if i < m {
                lemma_ok_before_monotone(results, i + 1, m as int);
                assert(dm[ok_before(results, i) as int] == ok_key(results[i]));
            }
        }
        assert forall|i: int|
            0 <= i < n && !deletion_ok(results[i]) implies fnn[i - ok_before(results, i)]
            == #[trigger] keys[i]@ by {
            assert(ok_before(results, i + 1) == ok_before(results, i));
            lemma_ok_before_monotone(results, 0, i);
            lemma_ok_before_monotone(results, i + 1, n as int);
            if i < m {
                lemma_ok_before_monotone(results, i + 1, m as int);
                assert(i - ok_before(results, i) < fm.len());
                assert(fm[i - ok_before(results, i)] == keys[i]@);
                if deletion_ok(results[m as int]) {
                    assert(fnn == fm);
                } else {
                    assert(fnn == fm.push(keys[m as int]@));
                }
            } else {
                assert(i == m);
                assert(i - ok_before(results, i) == fm.len());
                assert(fnn == fm.push(keys[m as int]@));
            }
        }
    }
}

/// Every key of a deletion request is answered exactly once, when each deletion
/// that succeeded reports the key that was asked for: the keys deleted and the
/// keys whose deletion failed together are the requested keys, as a multiset.
pub proof fn every_deletion_is_answered_once(keys: Seq<String>, results: Seq<Result<String, Status>>)
    requires
        keys.len() == results.len(),
        forall|i: int|
            0 <= i < keys.len() ==> (#[trigger] results[i] matches Ok(k) ==> k@ == keys[i]@),
    ensures
        (deleted_keys(results, keys.len()) + failed_keys(keys, results, keys.len())).to_multiset()
            == texts(keys).to_multiset(),
{
    lemma_deletions_cover_prefix(keys, results, keys.len());
    assert(texts(keys).take(keys.len() as int) =~= texts(keys));
}

proof fn lemma_deletions_cover_prefix(keys: Seq<String>, results: Seq<Result<String, Status>>, n: nat)
    requires
        n <= keys.len(),
        keys.len() == results.len(),
        forall|i: int|
            0 <= i < keys.len() ==> (#[trigger] results[i] matches Ok(k) ==> k@ == keys[i]@),
    ensures
        (deleted_keys(results, n) + failed_keys(keys, results, n)).to_multiset() == texts(keys).take(
            n as int,
        ).to_multiset(),
    decreases n,
{
    broadcast use vstd::seq_lib::lemma_multiset_commutative;
    broadcast use vstd::seq_lib::group_to_multiset_ensures;
    broadcast use vstd::multiset::group_multiset_axioms;

    if n == 0 {
        assert(texts(keys).take(0) =~= Seq::<Seq<char>>::empty());
        assert(deleted_keys(results, 0) + failed_keys(keys, results, 0) =~= Seq::<
            Seq<char>,
        >::empty());
    } else {
        let m = (n - 1) as nat;
        lemma_deletions_cover_prefix(keys, results, m);
        let d = deleted_keys(results, m);
        let f = failed_keys(keys, results, m);
        let k = keys[m as int]@;
        assert(texts(keys).take(n as int) =~= texts(keys).take(m as int).push(k));
        match results[m as int] {
            Ok(_) => {
                assert((d.push(k) + f).to_multiset() =~= d.to_multiset().insert(k).add(
                    f.to_multiset(),
                ));
            },
            Err(_) => {
                assert((d + f.push(k)).to_multiset() =~= d.to_multiset().add(
                    f.to_multiset().insert(k),
                ));
            },
        }
    }
}

/// The outcome of the deletions of a request.
pub struct DeleteOutcomes {
    pub deleted: Vec<String>,
    pub failed: Vec<String>,
}

/// Sorts the deletions of a request: `results[i]` is the result of the deletion
/// of `keys[i]`. The keys deleted and the keys whose deletion failed come out
/// each in the order of the request.
pub fn collect_delete_results(keys: &Vec<String>, results: Vec<Result<String, Status>>) -> (out: DeleteOutcomes)
    requires
        keys.len() == results.len(),
    ensures
        texts(out.deleted@) == deleted_keys(results@, results.len() as nat),
        texts(out.failed@) == failed_keys(keys@, results@, results.len() as nat),
        out.deleted@.len() == ok_before(results@, results.len() as int),
        out.failed@.len() + ok_before(results@, results.len() as int) == results.len(),
        forall|i: int|
            0 <= i < results.len() && deletion_ok(results@[i]) ==> texts(out.deleted@)[ok_before(
                results@,
                i,
            ) as int] == #[trigger] ok_key(results@[i]),
        forall|i: int|
            0 <= i < results.len() && !deletion_ok(results@[i]) ==> texts(out.failed@)[i
                - ok_before(results@, i)] == #[trigger] keys@[i]@,
{
    proof {
        delete_answers_follow_results(keys@, results@, results.len() as nat);
    }
    let mut deleted: Vec<String> = Vec::new();
    let mut failed: Vec<String> = Vec::new();
    let n = results.len();
    let mut i: usize = 0;
    while i < n
        invariant
            n == results.len(),
            n == keys.len(),
            i <= n,
            texts(deleted@) == deleted_keys(results@, i as nat),
            texts(failed@) == failed_keys(keys@, results@, i as nat),
        decreases n - i,
    {
        let ghost d0 = deleted@;
        let ghost f0 = failed@;
        match &results[i] {
            Ok(k) => {
                deleted.push(k.clone());
                assert(texts(deleted@) =~= texts(d0).push(k@));
            },
            Err(_) => {
                failed.push(keys[i].clone());
                assert(texts(failed@) =~= texts(f0).push(keys@[i as int]@));
            },
        }
        i = i + 1;
    }
    DeleteOutcomes { deleted, failed }
}

/// The key to drop from the cache after the deletion of a key: the key itself
/// when its file is gone (removed, or not there at all), none when it may remain.
pub fn cache_eviction(result: &Result<String, Status>) -> (evict: Option<String>)
    ensures
        match result {
            Ok(k) => evict matches Some(e) && e@ == k@,
            Err(_) => evict is None,
        },
{
    match result {
        Ok(k) => Some(k.clone()),
        Err(_) => None,
    }
}

/// The entry of the answer for a key that was deleted.
pub open spec fn deleted_entry(key: Seq<char>) -> Seq<char> {
    "{\"key\":\""@ + key + "\", \"deleted\": \"true\"}"@
}

/// The entry of the answer for a key whose deletion failed.
pub open spec fn failed_deletion_entry(key: Seq<char>) -> Seq<char> {
    "{\"key\":\""@ + key + "\", \"deleted\": \"false\"}"@
}

/// The entries of the answer to a deletion request: first the keys deleted, then
/// the keys whose deletion failed.
pub open spec fn delete_entries(deleted: Seq<Seq<char>>, failed: Seq<Seq<char>>) -> Seq<Seq<char>> {
    deleted.map_values(|k: Seq<char>| deleted_entry(k)) + failed.map_values(
        |k: Seq<char>| failed_deletion_entry(k),
    )
}

/// The answer to a deletion request from its entries: a JSON array when the
/// request was one, otherwise the entries joined by commas (a single object for a
/// request of one key).
pub open spec fn delete_answer_text(entries: Seq<Seq<char>>, many: bool) -> Seq<char> {
    if many {
        json_array(entries)
    } else {
        join(entries, ","@)
    }
}

/// The answer to a deletion request: one entry per key deleted marked "true",
/// then one per key whose deletion failed marked "false"; a JSON array when the
/// request was an array (`many`).
pub fn delete_response(deleted: &Vec<String>, failed: &Vec<String>, many: bool) -> (response: String)
    ensures
        response@ == delete_answer_text(delete_entries(texts(deleted@), texts(failed@)), many),
{
    let mut entries: Vec<String> = Vec::new();
    let ghost want = delete_entries(texts(deleted@), texts(failed@));
    let n = deleted.len();
    let mut i: usize = 0;
    while i < n
        invariant
            n == deleted.len(),
            i <= n,
            want == delete_entries(texts(deleted@), texts(failed@)),
            texts(entries@) == want.take(i as int),
        decreases n - i,
    {
        let ghost e0 = entries@;
        let mut e = String::from_str("{\"key\":\"");
        e.append(deleted[i].as_str());
        e.append("\", \"deleted\": \"true\"}");
        entries.push(e);
        assert(want.take(i + 1) =~= want.take(i as int).push(want[i as int]));
        assert(texts(entries@) =~= texts(e0).push(e@));
        i = i + 1;
    }
    let m = failed.len();
    let mut j: usize = 0;
    while j < m
        invariant
            n == deleted.len(),
            m == failed.len(),
            j <= m,
            want == delete_entries(texts(deleted@), texts(failed@)),
            want.len() == n + m,
            texts(entries@) == want.take(n + j),
        decreases m - j,
    {
        let ghost e0 = entries@;
        let mut e = String::from_str("{\"key\":\"");
        e.append(failed[j].as_str());
        e.append("\", \"deleted\": \"false\"}");
        entries.push(e);
        assert(want.take(n + j + 1) =~= want.take(n + j).push(want[n + j]));
        assert(texts(entries@) =~= texts(e0).push(e@));
        j = j + 1;
    }
    assert(want.take(n + m) =~= want);
    if many {
        json_array_of(&entries)
    } else {
        join_strings(&entries, ",")
    }
}

} // verus!
