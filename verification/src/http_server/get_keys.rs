use crate::http_server::server::{Key, Status};
use crate::text::{concat3, json_array, json_array_of, texts};
use vstd::prelude::*;

verus! {

/// The lower-case hexadecimal digit of `d`, for `0 <= d < 16`.
pub open spec fn hex_digit(d: int) -> char {
    if d < 10 {
        ('0' as int + d) as char
    } else {
        ('a' as int + d - 10) as char
    }
}

/// How one character is written inside a JSON string: '"' and '\' behind a
/// backslash; backspace, tab, line feed, form feed and carriage return as
/// `\b \t \n \f \r`; every other character below U+0020 as `\u00` and two
/// lower-case hex digits; any other character as it is.
pub open spec fn escaped_char(c: char) -> Seq<char> {
    if c == '"' {
        seq!['\\', '"']
    } else if c == '\\' {
        seq!['\\', '\\']
    } else if c == '\u{8}' {
        seq!['\\', 'b']
    } else if c == '\t' {
        seq!['\\', 't']
    } else if c == '\n' {
        seq!['\\', 'n']
    } else if c == '\u{c}' {
        seq!['\\', 'f']
    } else if c == '\r' {
        seq!['\\', 'r']
    } else if (c as int) < 0x20 {
        seq!['\\', 'u', '0', '0', hex_digit(c as int / 16), hex_digit(c as int % 16)]
    } else {
        seq![c]
    }
}

/// The characters of a text, each written as inside a JSON string.
pub open spec fn escaped(s: Seq<char>) -> Seq<char>
    decreases s.len(),
{
    if s.len() == 0 {
        Seq::empty()
    } else {
        escaped(s.drop_last()) + escaped_char(s.last())
    }
}

/// The JSON string literal for a text: the escaped text between double quotes.
pub open spec fn json_string(s: Seq<char>) -> Seq<char> {
    seq!['"'] + escaped(s) + seq!['"']
}

/// Calls `serde_json::to_string` on a `str`, which writes the text between double
/// quotes and escapes, byte by byte, '"', '\\' and the bytes below 0x20 as
/// `json_string` says (serde_json's `ESCAPE` table and `write_char_escape`); the
/// bytes of other characters are copied. Serialising a `str` writes into a
/// `Vec<u8>`, which cannot fail, so the `Err` that `unwrap` would panic on does
/// not occur.
#[verifier::external_body]
fn json_quote(s: &str) -> (q: String)
    ensures
        q@ == json_string(s@),
{
    serde_json::to_string(s).unwrap()
}

/// The JSON object for one key: `{"key":<the key as a JSON string>}`.
pub open spec fn key_object(key: Seq<char>) -> Seq<char> {
    "{\"key\":"@ + json_string(key) + "}"@
}

/// The answer listing keys: a JSON array with one object per key, in order
/// (`[]` when there is none).
pub open spec fn keys_json(keys: Seq<Key>) -> Seq<char> {
    json_array(keys.map_values(|k: Key| key_object(k.key@)))
}

/// The answer to a request for keys lists every key found, in order: it is a JSON
/// array of exactly as many objects as keys, the `i`-th naming the `i`-th key.
pub proof fn keys_answer_lists_every_key(keys: Seq<Key>)
    ensures
        keys_json(keys) == json_array(Seq::new(keys.len(), |i: int| key_object(keys[i].key@))),
{
    assert(keys.map_values(|k: Key| key_object(k.key@)) =~= Seq::new(
        keys.len(),
        |i: int| key_object(keys[i].key@),
    ));
}

/// Writes the keys found as the answer to a request for keys.
pub fn keys_response(keys: &Vec<Key>) -> (response: String)
    ensures
        response@ == keys_json(keys@),
        response@ == json_array(Seq::new(keys@.len(), |i: int| key_object(keys@[i].key@))),
{
    proof {
        keys_answer_lists_every_key(keys@);
    }
    let mut entries: Vec<String> = Vec::new();
    let ghost want = keys@.map_values(|k: Key| key_object(k.key@));
    let n = keys.len();
    let mut i: usize = 0;
    while i < n
        invariant
            n == keys.len(),
            i <= n,
            want == keys@.map_values(|k: Key| key_object(k.key@)),
            texts(entries@) == want.take(i as int),
        decreases n - i,
    {
        let ghost e0 = entries@;
        let quoted = json_quote(keys[i].key.as_str());
        let e = concat3("{\"key\":", quoted.as_str(), "}");
        entries.push(e);
        assert(want.take(i + 1) =~= want.take(i as int).push(want[i as int]));
        assert(texts(entries@) =~= texts(e0).push(e@));
        i = i + 1;
    }
    assert(want.take(n as int) =~= want);
    json_array_of(&entries)
}

/// What became of a request for the keys that start with a prefix.
pub enum ListingOutcome {
    /// The body did not name a prefix.
    UnreadableBody,
    /// The task that listed the store did not finish.
    TaskFailed,
    /// The store was listed, with this result.
    Listed(Result<Vec<Key>, Status>),
}

/// The answer to a request for keys: the keys listed, written as a JSON array,
/// or `NotFound` whenever the body, the listing task or the listing itself failed.
pub fn get_keys_result(outcome: ListingOutcome) -> (r: Result<String, Status>)
    ensures
        match outcome {
            ListingOutcome::Listed(Ok(keys)) => r matches Ok(text) && text@ == keys_json(keys@),
            _ => r == Err::<String, Status>(Status::NotFound),
        },
{
    match outcome {
        ListingOutcome::Listed(Ok(keys)) => Ok(keys_response(&keys)),
        _ => Err(Status::NotFound),
    }
}

} // verus!
