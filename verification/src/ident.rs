//! Identifiers of the tree: the root, one directory identifier per conversation
//! name, and the file identifiers that follow a directory's own.

use core::hash::Hasher;
use std::collections::hash_map::DefaultHasher;
use vstd::prelude::*;
use vstd::std_specs::hash::DefaultHasherAdditionalSpecFns;
use vstd::string::StringSliceAdditionalSpecFns;
use vstd::utf8::encode_utf8;

verus! {

/// The identifier of the root directory.
pub const ROOT_INO: u64 = 1;

/// The hash of a conversation name: what the standard library's default
/// hasher, fresh from `new`, makes of the name's UTF-8 bytes followed by the
/// byte `0xff`. These are the bytes that hashing a `str` feeds to a hasher.
pub open spec fn name_hash(name: Seq<char>) -> u64 {
    DefaultHasher::spec_finish(seq![encode_utf8(name), seq![0xffu8]])
}

/// The directory identifier that a hash value stands for. The two smallest
/// hash values share an identifier, so that neither a directory nor the first
/// file after it can take the root's.
pub open spec fn ino_of_hash(hash: u64) -> u64 {
    if hash <= ROOT_INO {
        (ROOT_INO + 1) as u64
    } else {
        hash
    }
}

/// The directory identifier of the conversation called `name`.
pub open spec fn folder_ino_of(name: Seq<char>) -> u64 {
    ino_of_hash(name_hash(name))
}

/// The identifier of the file at position `index` of the directory `dir`.
/// It may lie beyond `u64::MAX`: such a position has no identifier.
pub open spec fn file_ino_of(dir: u64, index: int) -> int {
    dir + 1 + index
}

/// Hashes a conversation name. Every call gives the same value for the same
/// name.
pub fn hash_name(name: &str) -> (hash: u64)
    ensures
        hash == name_hash(name@),
{
    let separator: [u8; 1] = [0xffu8];
    let mut hasher = DefaultHasher::new();
    hasher.write(name.as_bytes());
    hasher.write(separator.as_slice());
    let hash: u64 = hasher.finish();
    proof {
        assert(separator@ =~= seq![0xffu8]);
        assert(hasher@ =~= seq![encode_utf8(name@), seq![0xffu8]]);
    }
    hash
}

/// Turns a hash value into a directory identifier.
pub fn dir_ino_from_hash(hash: u64) -> (ino: u64)
    ensures
        ino == ino_of_hash(hash),
        ino != ROOT_INO,
        ino > ROOT_INO,
{
    if hash <= ROOT_INO {
        ROOT_INO + 1
    } else {
        hash
    }
}

/// The identifier of the file at position `index` under the directory `dir`,
/// or `None` when that identifier would not fit in 64 bits.
pub fn file_ino_at(dir: u64, index: usize) -> (ino: Option<u64>)
    ensures
        match ino {
            Some(i) => i == file_ino_of(dir, index as int),
            None => file_ino_of(dir, index as int) > u64::MAX,
        },
{
    match dir.checked_add(1) {
        Some(first) => first.checked_add(index as u64),
        None => None,
    }
}

/// The root's identifier belongs to the root alone: no conversation name has
/// it as its directory identifier, and no file of a directory has it.
pub proof fn lemma_root_stands_apart(name: Seq<char>, index: int)
    requires
        0 <= index,
    ensures
        folder_ino_of(name) != ROOT_INO,
        file_ino_of(folder_ino_of(name), index) != ROOT_INO,
        file_ino_of(folder_ino_of(name), index) > folder_ino_of(name),
{
}

/// Within one directory, two positions never share a file identifier.
pub proof fn lemma_file_inos_differ(dir: u64, first: int, second: int)
    requires
        first != second,
    ensures
        file_ino_of(dir, first) != file_ino_of(dir, second),
{
}

} // verus!
