//! The storage engine backed by a sled database.

use vstd::prelude::*;
use vstd::utf8::{decode_utf8, encode_utf8, valid_utf8};
use crate::storage::errors::KeyValueError;
use crate::storage::{answers, written, Contents, KeyValue, Text};
use crate::text::lemma_encoding_injective;

verus! {

/// `sled::Db`, an open database. Where it lies is spoken of through
/// `db_root`, what it holds through `db_contents` and `db_flushed`.
#[verifier::external_type_specification]
#[verifier::external_body]
pub struct ExDb(::sled::Db);

/// The path that a database was opened at.
pub uninterp spec fn db_root(db: ::sled::Db) -> Seq<char>;

/// What a database holds in its default tree: for each key, its value.
pub uninterp spec fn db_contents(db: ::sled::Db) -> Map<Seq<u8>, Seq<u8>>;

/// What a database held when it was last flushed with success.
pub uninterp spec fn db_flushed(db: ::sled::Db) -> Map<Seq<u8>, Seq<u8>>;

/// `sled::open`: opens the database at `path`, creating the directory if it
/// does not exist. Whether it succeeds and what the database holds depend
/// on what is on disk; a database that comes back is the one at `path`.
#[verifier::external_body]
fn open_db(path: &str) -> (r: Result<::sled::Db, ::sled::Error>)
    ensures
        r matches Ok(db) ==> db_root(db) == path@,
{
    ::sled::open(path)
}

/// `Tree::get` on the default tree, with the key's UTF-8 bytes as the key:
/// where it succeeds, the value stored under the key, if there is one.
#[verifier::external_body]
fn db_get(db: &::sled::Db, key: &str) -> (r: Result<Option<Vec<u8>>, ::sled::Error>)
    ensures
        r matches Ok(None) ==> !db_contents(*db).contains_key(encode_utf8(key@)),
        r matches Ok(Some(value)) ==> db_contents(*db).contains_key(encode_utf8(key@))
            && db_contents(*db)[encode_utf8(key@)] == value@,
{
    db.get(key).map(|found| found.map(|value| value.to_vec()))
}

/// `Tree::insert` on the default tree: where it succeeds, `value` is stored
/// under the key's UTF-8 bytes, in place of any earlier value.
#[verifier::external_body]
fn db_insert(db: &mut ::sled::Db, key: &str, value: &[u8]) -> (r: Result<(), ::sled::Error>)
    ensures
        db_root(*final(db)) == db_root(*old(db)),
        r is Ok ==> db_contents(*final(db)) == db_contents(*old(db)).insert(
            encode_utf8(key@),
            value@,
        ),
{
    db.insert(key, value).map(|_| ())
}

/// `Tree::flush`: writes out all dirty buffers and calls fsync. It changes
/// nothing of what the database holds; where it succeeds, all of that is
/// on stable storage.
#[verifier::external_body]
fn db_flush(db: &mut ::sled::Db) -> (r: Result<(), ::sled::Error>)
    ensures
        db_root(*final(db)) == db_root(*old(db)),
        db_contents(*final(db)) == db_contents(*old(db)),
        r is Ok ==> db_flushed(*final(db)) == db_contents(*final(db)),
{
    db.flush().map(|_| ())
}

/// `String::from_utf8` succeeds on exactly the byte vectors that are valid
/// UTF-8, and then returns the text they encode.
pub assume_specification[ String::from_utf8 ](bytes: Vec<u8>) -> (r: Result<
    String,
    std::string::FromUtf8Error,
>)
    ensures
        r is Ok <==> valid_utf8(bytes@),
        r matches Ok(text) ==> text@ == decode_utf8(bytes@),
;

/// The view by text keys of a map by byte keys: under each text, what the
/// map holds under its UTF-8 encoding.
pub open spec fn by_text(bytes: Map<Seq<u8>, Seq<u8>>) -> Contents {
    Map::new(
        |key: Seq<char>| bytes.contains_key(encode_utf8(key)),
        |key: Seq<char>| bytes[encode_utf8(key)],
    )
}

/// A storage engine that keeps its records in a sled database.
pub struct SledKeyValue {
    db: ::sled::Db,
}

impl SledKeyValue {
    /// Turns what the database returned for `key` into the answer of
    /// `get`: a backend error becomes `ReadError`, bytes that are no text
    /// `DeserialzeError`.
    pub fn decode(
        found: Result<Option<Vec<u8>>, ::sled::Error>,
    ) -> (r: Result<Option<String>, KeyValueError>)
        ensures
            found is Err ==> r is Err && r->Err_0 is ReadError,
            found matches Ok(None) ==> r matches Ok(None),
            found matches Ok(Some(bytes)) ==> {
                if valid_utf8(bytes@) {
                    r matches Ok(Some(text)) && text@ == decode_utf8(bytes@)
                } else {
                    r is Err && r->Err_0 is DeserialzeError
                }
            },
    {
        match found {
            Err(source) => Err(KeyValueError::ReadError { source }),
            Ok(None) => Ok(None),
            Ok(Some(bytes)) => match String::from_utf8(bytes) {
                Ok(text) => Ok(Some(text)),
                Err(source) => Err(KeyValueError::DeserialzeError { source }),
            },
        }
    }
}

impl KeyValue for SledKeyValue {
    closed spec fn root(&self) -> Text {
        db_root(self.db)
    }

    closed spec fn contents(&self) -> Contents {
        by_text(db_contents(self.db))
    }

    closed spec fn durable(&self) -> Contents {
        by_text(db_flushed(self.db))
    }

    fn new(path: &str) -> (r: Result<Self, KeyValueError>) {
        match open_db(path) {
            Ok(db) => Ok(SledKeyValue { db }),
            Err(source) => Err(KeyValueError::OpenError { source }),
        }
    }

    fn get(&self, key: String) -> (r: Result<Option<String>, KeyValueError>) {
        let r = SledKeyValue::decode(db_get(&self.db, key.as_str()));
        assert(answers(self.contents(), key@, r));
        r
    }

    fn set(&mut self, key: String, value: String) -> (r: Result<(), KeyValueError>) {
        match db_insert(&mut self.db, key.as_str(), value.as_str().as_bytes()) {
            Ok(()) => {},
            Err(source) => {
                return Err(KeyValueError::OperationError { source });
            },
        }
        proof {
            assert forall|other: Seq<char>| other != key@ implies #[trigger] encode_utf8(other)
                != encode_utf8(key@) by {
                if encode_utf8(other) == encode_utf8(key@) {
                    lemma_encoding_injective(other, key@);
                }
            }
            assert(self.contents() =~= written(old(self).contents(), key@, value@));
        }
        match db_flush(&mut self.db) {
            Ok(()) => Ok(()),
            Err(source) => Err(KeyValueError::OperationError { source }),
        }
    }
}

} // verus!
