//! The storage-engine contract: a durable map from text keys to text values,
//! one instance per directory.

pub mod errors;
pub mod sled;

use vstd::prelude::*;
use vstd::utf8::{decode_utf8, encode_utf8, valid_utf8};
use self::errors::KeyValueError;

verus! {

/// A text, character by character.
pub type Text = Seq<char>;

/// What a store holds: for each key, the bytes stored under it.
pub type Contents = Map<Seq<char>, Seq<u8>>;

/// What a lookup finds in a store.
pub enum Lookup {
    /// Nothing is stored under the key.
    Missing,
    /// The stored bytes are the UTF-8 encoding of this text.
    Text(Seq<char>),
    /// Bytes are stored under the key, and they are not valid UTF-8.
    Undecodable,
}

/// What a store that held `contents` holds once `value` was written under
/// `key`: the value's UTF-8 bytes replace whatever was there.
pub open spec fn written(contents: Contents, key: Text, value: Text) -> Contents {
    contents.insert(key, encode_utf8(value))
}

/// What a lookup of `key` finds in a store that holds `contents`.
pub open spec fn lookup(contents: Contents, key: Text) -> Lookup {
    if !contents.contains_key(key) {
        Lookup::Missing
    } else if valid_utf8(contents[key]) {
        Lookup::Text(decode_utf8(contents[key]))
    } else {
        Lookup::Undecodable
    }
}

/// Whether `outcome` is an answer that `get` may give for `key` from a
/// store that holds `contents`. Where the backend can be read, the answer
/// is what `lookup` finds; the backend failing is the one other answer.
pub open spec fn answers(
    contents: Contents,
    key: Text,
    outcome: Result<Option<String>, KeyValueError>,
) -> bool {
    match outcome {
        Ok(None) => lookup(contents, key) == Lookup::Missing,
        Ok(Some(text)) => lookup(contents, key) == Lookup::Text(text@),
        Err(KeyValueError::DeserialzeError { .. }) => lookup(contents, key) == Lookup::Undecodable,
        Err(KeyValueError::ReadError { .. }) => true,
        Err(_) => false,
    }
}

/// A single-tenant durable key-value store, rooted at a directory.
///
/// `contents` is what the store holds, `durable` what it held when a write
/// last reached stable storage. An implementation answers for both.
pub trait KeyValue: Sized {
    /// The directory the store was opened at.
    spec fn root(&self) -> Text;

    /// What the store holds.
    spec fn contents(&self) -> Contents;

    /// What the store held when it was last known to be on stable storage.
    spec fn durable(&self) -> Contents;

    /// Opens the database at `path`, creating it if there is none. Fails
    /// with `OpenError` where the path cannot be used.
    fn new(path: &str) -> (r: Result<Self, KeyValueError>)
        ensures
            r matches Ok(store) ==> store.root() == path@,
            r matches Err(error) ==> error is OpenError,
    ;

    /// The text stored under `key`, or `None` if there is none. Fails with
    /// `DeserialzeError` where the stored bytes are no text and with
    /// `ReadError` where the backend fails.
    fn get(&self, key: String) -> (r: Result<Option<String>, KeyValueError>)
        ensures
            answers(self.contents(), key@, r),
    ;

    /// Stores `value` under `key`, in place of any earlier value. On success
    /// the write has reached stable storage. Fails with `OperationError`
    /// where the backend fails; nothing is known then of what the store
    /// holds.
    fn set(&mut self, key: String, value: String) -> (r: Result<(), KeyValueError>)
        ensures
            final(self).root() == old(self).root(),
            r is Ok ==> final(self).contents() == written(old(self).contents(), key@, value@),
            r is Ok ==> final(self).durable() == final(self).contents(),
            r matches Err(error) ==> error is OperationError,
    ;
}

/// A value that was written is the value that a lookup finds.
pub proof fn lemma_round_trip(contents: Contents, key: Text, value: Text)
    ensures
        lookup(written(contents, key, value), key) == Lookup::Text(value),
{
    vstd::utf8::encode_utf8_valid_utf8(value);
    vstd::utf8::encode_utf8_decode_utf8(value);
}

/// Of two values written under one key, a lookup finds the second.
pub proof fn lemma_last_write_wins(contents: Contents, key: Text, first: Text, second: Text)
    ensures
        written(written(contents, key, first), key, second) == written(contents, key, second),
        lookup(written(written(contents, key, first), key, second), key) == Lookup::Text(second),
{
    lemma_round_trip(written(contents, key, first), key, second);
    assert(written(written(contents, key, first), key, second) =~= written(contents, key, second));
}

/// What `get` may answer for a key once `set` has stored a value under it:
/// that value, unless the backend fails to be read.
pub proof fn lemma_get_after_set(
    contents: Contents,
    key: Text,
    value: Text,
    answer: Result<Option<String>, KeyValueError>,
)
    requires
        answers(written(contents, key, value), key, answer),
    ensures
        answer matches Ok(found) ==> found matches Some(text) && text@ == value,
        answer matches Err(error) ==> error is ReadError,
{
    lemma_round_trip(contents, key, value);
}

/// What `get` may answer for a key under which `set` has stored two values
/// in turn: the second, unless the backend fails to be read.
pub proof fn lemma_get_after_overwrite(
    contents: Contents,
    key: Text,
    first: Text,
    second: Text,
    answer: Result<Option<String>, KeyValueError>,
)
    requires
        answers(written(written(contents, key, first), key, second), key, answer),
    ensures
        answer matches Ok(found) ==> found matches Some(text) && text@ == second,
        answer matches Err(error) ==> error is ReadError,
{
    lemma_last_write_wins(contents, key, first, second);
}

/// What `get` may answer for a key under which nothing is stored: nothing.
/// That is no error; the one error there can be is the backend failing to
/// be read.
pub proof fn lemma_get_missing(
    contents: Contents,
    key: Text,
    answer: Result<Option<String>, KeyValueError>,
)
    requires
        !contents.contains_key(key),
        answers(contents, key, answer),
    ensures
        lookup(contents, key) == Lookup::Missing,
        answer matches Ok(found) ==> found is None,
        answer matches Err(error) ==> error is ReadError,
{
}

} // verus!
