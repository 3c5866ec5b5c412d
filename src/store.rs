//! Saving and loading, with the file access left to the caller: a save writes
//! `encode_record`'s text to the path, and a load hands the outcome of reading
//! the path to `finish_load`.
use vstd::prelude::*;
use crate::decode::decode_record;
use crate::format::{parse_record_text, read_record, record_text};
use crate::record::{Record, StoreError};

verus! {

/// What a store of record files holds: the text at each path.
pub type Files = Map<Seq<char>, Seq<char>>;

/// The files after saving the record `(name, value)` at `path`: the file is
/// replaced in full by the record's text.
pub open spec fn after_save(files: Files, path: Seq<char>, name: Seq<char>, value: int) -> Files {
    files.insert(path, record_text(name, value))
}

/// The record that loading `path` gives, if any: none for a missing file.
pub open spec fn load_of(files: Files, path: Seq<char>) -> Option<(Seq<char>, int)> {
    if files.contains_key(path) {
        parse_record_text(files[path])
    } else {
        None
    }
}

/// Completes a load from the outcome of reading the file: a read failure is
/// passed on as `StoreError::Io` with its description, and text that was read
/// is decoded.
pub fn finish_load(read: Result<String, String>) -> (r: Result<Record, StoreError>)
    ensures
        read matches Err(e) ==> r matches Err(StoreError::Io(m)) && m@ == e@,
        read matches Ok(t) ==> match read_record(t@) {
            Ok((name, value)) => r matches Ok(rec) && rec.name@ == name && rec.value == value,
            Err((kind, at)) => r matches Err(StoreError::Decode(e)) && e.kind == kind && e.at
                == at,
        },
{
    match read {
        Err(e) => Err(StoreError::Io(e)),
        Ok(t) => decode_record(t.as_str()),
    }
}

} // verus!
