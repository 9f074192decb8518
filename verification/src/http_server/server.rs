use vstd::prelude::*;

verus! {

/// A key and the value stored under it.
#[derive(Debug)]
pub struct KeyValue {
    pub key: String,
    pub value: String,
}

/// A key on its own, as requests for reads and deletions name it.
#[derive(Debug)]
pub struct Key {
    pub key: String,
}

impl KeyValue {
    pub fn new(key: String, value: String) -> (kv: KeyValue)
        ensures
            kv.key@ == key@,
            kv.value@ == value@,
    {
        KeyValue { key, value }
    }

    /// A copy of this pair.
    pub fn duplicate(&self) -> (kv: KeyValue)
        ensures
            kv.key@ == self.key@,
            kv.value@ == self.value@,
    {
        KeyValue { key: self.key.clone(), value: self.value.clone() }
    }
}

impl Key {
    pub fn new(key: String) -> (k: Key)
        ensures
            k.key@ == key@,
    {
        Key { key }
    }
}

/// The HTTP statuses with which the store refuses or fails a request.
#[derive(Debug, Clone, Copy, PartialEq, Eq, Structural)]
pub enum Status {
    NotModified,
    BadRequest,
    NotFound,
    InternalServerError,
}

pub open spec fn status_code(s: Status) -> u16 {
    match s {
        Status::NotModified => 304,
        Status::BadRequest => 400,
        Status::NotFound => 404,
        Status::InternalServerError => 500,
    }
}

impl Status {
    /// The numeric HTTP code of the status.
    pub fn code(&self) -> (c: u16)
        ensures
            c == status_code(*self),
    {
        match self {
            Status::NotModified => 304,
            Status::BadRequest => 400,
            Status::NotFound => 404,
            Status::InternalServerError => 500,
        }
    }
}


/// The keys of a sequence of pairs, in order.
pub open spec fn keys_of(kvs: Seq<KeyValue>) -> Seq<Seq<char>> {
    kvs.map_values(|kv: KeyValue| kv.key@)
}

/// No key occurs twice among the pairs.
pub open spec fn no_repeated_keys(kvs: Seq<KeyValue>) -> bool {
    forall|i: int, j: int| 0 <= i < j < kvs.len() ==> kvs[i].key@ != kvs[j].key@
}

/// Whether a batch of pairs can be stored together: true exactly when no key
/// occurs twice in it.
pub fn check_for_repeated_key(kvs: &Vec<KeyValue>) -> (distinct: bool)
    ensures
        distinct == no_repeated_keys(kvs@),
{
    let n = kvs.len();
    let mut i: usize = 0;
    while i < n
        invariant
            n == kvs.len(),
            i <= n,
            forall|a: int, b: int| 0 <= a < b < n && a < i ==> kvs@[a].key@ != kvs@[b].key@,
        decreases n - i,
    {
        let mut j: usize = i + 1;
        while j < n
            invariant
                n == kvs.len(),
                i < n,
                i + 1 <= j <= n,
                forall|a: int, b: int| 0 <= a < b < n && a < i ==> kvs@[a].key@ != kvs@[b].key@,
                forall|b: int| i < b < j ==> kvs@[i as int].key@ != kvs@[b].key@,
            decreases n - j,
        {
            if kvs[i].key == kvs[j].key {
                return false;
            }
            j = j + 1;
        }
        i = i + 1;
    }
    true
}

/// A request body as it was read: one item, a JSON array of items, or an object
/// that could not be read as an item.
pub enum Request<T> {
    One(T),
    Many(Vec<T>),
    Unreadable,
}

/// The items a request asks for, in order: none when the body could not be read.
pub open spec fn requested<T>(req: Request<T>) -> Seq<T> {
    match req {
        Request::One(x) => seq![x],
        Request::Many(v) => v@,
        Request::Unreadable => Seq::empty(),
    }
}

impl<T> Request<T> {
    /// Whether the body was a JSON array.
    pub fn is_many(&self) -> (many: bool)
        ensures
            many == (*self is Many),
    {
        match self {
            Request::Many(_) => true,
            _ => false,
        }
    }

    /// The items the request asks for, in order.
    pub fn into_items(self) -> (items: Vec<T>)
        ensures
            items@ == requested(self),
    {
        match self {
            Request::One(x) => {
                let mut v: Vec<T> = Vec::new();
                v.push(x);
                v
            },
            Request::Many(v) => v,
            Request::Unreadable => Vec::new(),
        }
    }
}

} // verus!
