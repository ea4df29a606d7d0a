//! The decisions of the file store that keeps indexer files in a bucket:
//! under which key an object lies, and what an answer of the bucket means.
//! Talking to the bucket is left to the caller.

use vstd::prelude::*;
use vstd::string::StringSliceAdditionalSpecFns;

verus! {

/// The tag of the store.
pub const TAG: &'static str = "S3";

/// The content type under which files are saved.
pub const CONTENT_TYPE: &'static str = "application/json";

/// Shortest time between two updates of the store, in milliseconds.
pub const MAX_UPDATE_FREQUENCY_MILLIS: u64 = 100;

/// `std::path::Path::join`: the path `directory` with `file` adjoined, as
/// text. What the joined path looks like is left to the platform; nothing
/// is claimed of it.
#[verifier::external_body]
fn join_paths(directory: &str, file: &str) -> String {
    std::path::Path::new(directory).join(file).to_string_lossy().into_owned()
}

/// The key under which a file lies in the bucket: the path of the file,
/// below the directory of the store where it has one.
pub fn get_path(bucket_sub_dir: Option<&str>, file_path: &str) -> (key: String)
    ensures
        bucket_sub_dir.is_none() ==> key@ == file_path@,
{
    match bucket_sub_dir {
        Some(sub_dir) => join_paths(sub_dir, file_path),
        None => file_path.to_owned(),
    }
}

/// The text holds the word at position `at`.
pub open spec fn holds_at(text: Seq<u8>, word: Seq<u8>, at: int) -> bool {
    0 <= at && at + word.len() <= text.len() && text.subrange(at, at + word.len()) == word
}

/// The text holds the word somewhere.
pub open spec fn holds(text: Seq<u8>, word: Seq<u8>) -> bool {
    exists|at: int| holds_at(text, word, at)
}

/// Tells whether the text holds the word at position `at`.
fn matches_at(text: &[u8], word: &[u8], at: usize) -> (b: bool)
    requires
        at + word@.len() <= text@.len(),
    ensures
        b == holds_at(text@, word@, at as int),
{
    let n = text.len();
    let mut i: usize = 0;
    while i < word.len()
        invariant
            i <= word@.len(),
            n == text@.len(),
            at + word@.len() <= text@.len(),
            forall|j: int| 0 <= j < i ==> text@[at + j] == word@[j],
        decreases word.len() - i,
    {
        if text[at + i] != word[i] {
            assert(text@.subrange(at as int, at + word@.len())[i as int] != word@[i as int]);
            return false;
        }
        i = i + 1;
    }
    assert(text@.subrange(at as int, at + word@.len()) =~= word@);
    true
}

/// Tells whether the text holds the word somewhere.
pub fn contains(text: &[u8], word: &[u8]) -> (b: bool)
    ensures
        b == holds(text@, word@),
{
    if word.len() > text.len() {
        return false;
    }
    let last = text.len() - word.len();
    let mut at: usize = 0;
    loop
        invariant
            at <= last,
            last == text@.len() - word@.len(),
            forall|k: int| 0 <= k < at ==> !holds_at(text@, word@, k),
        decreases last - at,
    {
        if matches_at(text, word, at) {
            return true;
        }
        if at == last {
            return false;
        }
        at = at + 1;
    }
}

/// The bytes of `NoSuchKey`.
pub open spec fn no_such_key() -> Seq<u8> {
    seq![0x4eu8, 0x6f, 0x53, 0x75, 0x63, 0x68, 0x4b, 0x65, 0x79]
}

/// The bytes of `NotFound`.
pub open spec fn not_found() -> Seq<u8> {
    seq![0x4eu8, 0x6f, 0x74, 0x46, 0x6f, 0x75, 0x6e, 0x64]
}

/// Tells whether the text of an error of the bucket says that the object
/// is not there: whether it holds `NoSuchKey` or `NotFound`. Such an
/// error means that there is no file, not that reading it failed.
pub fn is_missing_object(error_text: &str) -> (missing: bool)
    ensures
        missing == (holds(error_text.spec_bytes(), no_such_key()) || holds(
            error_text.spec_bytes(),
            not_found(),
        )),
{
    let text = error_text.as_bytes();
    let no_such_key: [u8; 9] = [0x4e, 0x6f, 0x53, 0x75, 0x63, 0x68, 0x4b, 0x65, 0x79];
    let not_found: [u8; 8] = [0x4e, 0x6f, 0x74, 0x46, 0x6f, 0x75, 0x6e, 0x64];
    assert(no_such_key@ =~= self::no_such_key());
    assert(not_found@ =~= self::not_found());
    contains(text, no_such_key.as_slice()) || contains(text, not_found.as_slice())
}

/// Tells whether the store is initialized: whether a listing of the bucket
/// below the directory of the store shows any object or any common prefix.
pub fn is_initialized(contents: usize, common_prefixes: usize) -> (b: bool)
    ensures
        b == (contents != 0 || common_prefixes != 0),
{
    contents != 0 || common_prefixes != 0
}

} // verus!
