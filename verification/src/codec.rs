//! The stored form of the records: a Candid message of at most
//! [`MAX_ENTITY_SIZE`] bytes per record.
//!
//! A record is written as a flat sequence of Candid arguments of primitive
//! types. The time stamp, which may be absent, takes two of them: a flag
//! and a number, the number being 0 where the flag is off.
//!
//! Bytes are the stored form of a record exactly when the record encodes to
//! them. A decoder may read more messages than the encoder writes, so what
//! is read is encoded again and held against the bytes it was read from.

use crate::durable::MAX_VALUE_SIZE;
use crate::entity::{LanguageView, ProgrammingLanguage, Repo, RepoView};
use vstd::prelude::*;

verus! {

/// The largest stored form of a record, in bytes.
pub const MAX_ENTITY_SIZE: usize = MAX_VALUE_SIZE;

/// The Candid message for a repository's six arguments, where there is one.
pub uninterp spec fn repo_record_bytes(
    id: u64,
    language_id: u64,
    repo_name: Seq<char>,
    description: Seq<char>,
    stamped: bool,
    updated_at: u64,
) -> Option<Seq<u8>>;

/// The Candid message for a programming language's four arguments, where
/// there is one.
pub uninterp spec fn language_record_bytes(
    id: u64,
    name: Seq<char>,
    stamped: bool,
    updated_at: u64,
) -> Option<Seq<u8>>;

/// `candid::encode_args` on a repository's six arguments. The message is a
/// function of the arguments. No other six arguments have the same
/// message: `candid::decode_args` gives these back from it. `None` stands
/// for the crate's error.
#[verifier::external_body]
fn write_repo_record(
    id: u64,
    language_id: u64,
    repo_name: &String,
    description: &String,
    stamped: bool,
    updated_at: u64,
) -> (bytes: Option<Vec<u8>>)
    ensures
        bytes matches Some(b) ==> repo_record_bytes(
            id,
            language_id,
            repo_name@,
            description@,
            stamped,
            updated_at,
        ) == Some(b@),
        (bytes matches Some(b) ==> forall|
            id2: u64,
            language_id2: u64,
            repo_name2: Seq<char>,
            description2: Seq<char>,
            stamped2: bool,
            updated_at2: u64,
        |
            #![trigger
                repo_record_bytes(
                    id2,
                    language_id2,
                    repo_name2,
                    description2,
                    stamped2,
                    updated_at2,
                )]
            repo_record_bytes(id2, language_id2, repo_name2, description2, stamped2, updated_at2)
                == Some(b@) ==> (id2, language_id2, repo_name2, description2, stamped2, updated_at2)
                == (id, language_id, repo_name@, description@, stamped, updated_at)),
        bytes is None ==> repo_record_bytes(
            id,
            language_id,
            repo_name@,
            description@,
            stamped,
            updated_at,
        ) is None,
{
    candid::encode_args((id, language_id, repo_name, description, stamped, updated_at)).ok()
}

/// `candid::decode_args` for a repository's six arguments. From the
/// message of six arguments it gives those arguments back, and no others.
/// Of bytes that are no such message nothing is said: what comes of them
/// may differ from one machine to another. `None` stands for the crate's
/// error.
#[verifier::external_body]
fn read_repo_record(bytes: &Vec<u8>) -> (fields: Option<(u64, u64, String, String, bool, u64)>)
    ensures
        match fields {
            Some(f) => forall|
                id: u64,
                language_id: u64,
                repo_name: Seq<char>,
                description: Seq<char>,
                stamped: bool,
                updated_at: u64,
            |
                #![trigger
                    repo_record_bytes(
                        id,
                        language_id,
                        repo_name,
                        description,
                        stamped,
                        updated_at,
                    )]
                repo_record_bytes(id, language_id, repo_name, description, stamped, updated_at)
                    == Some(bytes@) ==> (f.0, f.1, f.2@, f.3@, f.4, f.5) == (
                    id,
                    language_id,
                    repo_name,
                    description,
                    stamped,
                    updated_at,
                ),
            None => forall|
                id: u64,
                language_id: u64,
                repo_name: Seq<char>,
                description: Seq<char>,
                stamped: bool,
                updated_at: u64,
            |
                #![trigger
                    repo_record_bytes(
                        id,
                        language_id,
                        repo_name,
                        description,
                        stamped,
                        updated_at,
                    )]
                repo_record_bytes(id, language_id, repo_name, description, stamped, updated_at)
                    != Some(bytes@),
        },
{
    candid::decode_args(bytes.as_slice()).ok()
}

/// `candid::encode_args` on a programming language's four arguments. The
/// message is a function of the arguments. No other four arguments have
/// the same message: `candid::decode_args` gives these back from it. `None`
/// stands for the crate's error.
#[verifier::external_body]
fn write_language_record(id: u64, name: &String, stamped: bool, updated_at: u64) -> (bytes: Option<
    Vec<u8>,
>)
    ensures
        bytes matches Some(b) ==> language_record_bytes(id, name@, stamped, updated_at) == Some(
            b@,
        ),
        (bytes matches Some(b) ==> forall|
            id2: u64,
            name2: Seq<char>,
            stamped2: bool,
            updated_at2: u64,
        |
            #![trigger language_record_bytes(id2, name2, stamped2, updated_at2)]
            language_record_bytes(id2, name2, stamped2, updated_at2) == Some(b@) ==> (
                id2,
                name2,
                stamped2,
                updated_at2,
            ) == (id, name@, stamped, updated_at)),
        bytes is None ==> language_record_bytes(id, name@, stamped, updated_at) is None,
{
    candid::encode_args((id, name, stamped, updated_at)).ok()
}

/// `candid::decode_args` for a programming language's four arguments. From
/// the message of four arguments it gives those arguments back, and no
/// others. Of bytes that are no such message nothing is said: what comes of
/// them may differ from one machine to another. `None` stands for the
/// crate's error.
#[verifier::external_body]
fn read_language_record(bytes: &Vec<u8>) -> (fields: Option<(u64, String, bool, u64)>)
    ensures
        match fields {
            Some(f) => forall|id: u64, name: Seq<char>, stamped: bool, updated_at: u64|
                #![trigger language_record_bytes(id, name, stamped, updated_at)]
                language_record_bytes(id, name, stamped, updated_at) == Some(bytes@) ==> (
                    f.0,
                    f.1@,
                    f.2,
                    f.3,
                ) == (id, name, stamped, updated_at),
            None => forall|id: u64, name: Seq<char>, stamped: bool, updated_at: u64|
                #![trigger language_record_bytes(id, name, stamped, updated_at)]
                language_record_bytes(id, name, stamped, updated_at) != Some(bytes@),
        },
{
    candid::decode_args(bytes.as_slice()).ok()
}

/// The flag and the number that stand for a time stamp in a record.
pub open spec fn stamp_fields(updated_at: Option<u64>) -> (bool, u64) {
    match updated_at {
        Some(at) => (true, at),
        None => (false, 0),
    }
}

/// The time stamp that a flag and a number stand for. With the flag off,
/// only the number 0 stands for anything.
pub open spec fn stamp_of(stamped: bool, updated_at: u64) -> Option<Option<u64>> {
    if stamped {
        Some(Some(updated_at))
    } else if updated_at == 0 {
        Some(None)
    } else {
        None
    }
}

/// The repository that six decoded arguments make up, if they make one.
pub open spec fn repo_of_record(fields: (u64, u64, Seq<char>, Seq<char>, bool, u64)) -> Option<
    RepoView,
> {
    match stamp_of(fields.4, fields.5) {
        Some(updated_at) => Some(
            RepoView {
                id: fields.0,
                language_id: fields.1,
                repo_name: fields.2,
                description: fields.3,
                updated_at,
            },
        ),
        None => None,
    }
}

/// The programming language that four decoded arguments make up, if they
/// make one.
pub open spec fn language_of_record(fields: (u64, Seq<char>, bool, u64)) -> Option<LanguageView> {
    match stamp_of(fields.2, fields.3) {
        Some(updated_at) => Some(LanguageView { id: fields.0, name: fields.1, updated_at }),
        None => None,
    }
}

/// The Candid message for a repository, where there is one.
pub open spec fn repo_message(repo: RepoView) -> Option<Seq<u8>> {
    repo_record_bytes(
        repo.id,
        repo.language_id,
        repo.repo_name,
        repo.description,
        stamp_fields(repo.updated_at).0,
        stamp_fields(repo.updated_at).1,
    )
}

/// The Candid message for a programming language, where there is one.
pub open spec fn language_message(language: LanguageView) -> Option<Seq<u8>> {
    language_record_bytes(
        language.id,
        language.name,
        stamp_fields(language.updated_at).0,
        stamp_fields(language.updated_at).1,
    )
}

/// The stored form of a repository: its Candid message, where there is one
/// within the size bound.
pub open spec fn repo_encoding(repo: RepoView) -> Option<Seq<u8>> {
    match repo_message(repo) {
        Some(bytes) => if bytes.len() <= MAX_ENTITY_SIZE {
            Some(bytes)
        } else {
            None
        },
        None => None,
    }
}

/// The stored form of a programming language: its Candid message, where
/// there is one within the size bound.
pub open spec fn language_encoding(language: LanguageView) -> Option<Seq<u8>> {
    match language_message(language) {
        Some(bytes) => if bytes.len() <= MAX_ENTITY_SIZE {
            Some(bytes)
        } else {
            None
        },
        None => None,
    }
}

/// The repository that bytes are the stored form of, if they are one.
pub open spec fn repo_decoding(bytes: Seq<u8>) -> Option<RepoView> {
    if exists|repo: RepoView| #[trigger] repo_encoding(repo) == Some(bytes) {
        Some(choose|repo: RepoView| #[trigger] repo_encoding(repo) == Some(bytes))
    } else {
        None
    }
}

/// The programming language that bytes are the stored form of, if they are
/// one.
pub open spec fn language_decoding(bytes: Seq<u8>) -> Option<LanguageView> {
    if exists|language: LanguageView| #[trigger] language_encoding(language) == Some(bytes) {
        Some(choose|language: LanguageView| #[trigger] language_encoding(language) == Some(bytes))
    } else {
        None
    }
}

/// Whether two byte strings are equal.
pub fn same_bytes(one: &Vec<u8>, other: &Vec<u8>) -> (same: bool)
    ensures
        same == (one@ == other@),
{
    if one.len() != other.len() {
        return false;
    }
    let mut i: usize = 0;
    while i < one.len()
        invariant
            0 <= i <= one@.len(),
            one@.len() == other@.len(),
            forall|k: int| 0 <= k < i ==> one@[k] == other@[k],
        decreases one@.len() - i,
    {
        if one[i] != other[i] {
            return false;
        }
        i += 1;
    }
    assert(one@ =~= other@);
    true
}

/// Splits a time stamp into the flag and the number of a record.
pub fn split_stamp(updated_at: Option<u64>) -> (fields: (bool, u64))
    ensures
        fields == stamp_fields(updated_at),
        stamp_of(fields.0, fields.1) == Some(updated_at),
{
    match updated_at {
        Some(at) => (true, at),
        None => (false, 0),
    }
}

/// Joins the flag and the number of a record into a time stamp.
pub fn join_stamp(stamped: bool, updated_at: u64) -> (stamp: Option<Option<u64>>)
    ensures
        stamp == stamp_of(stamped, updated_at),
{
    if stamped {
        Some(Some(updated_at))
    } else if updated_at == 0 {
        Some(None)
    } else {
        None
    }
}

/// Builds a repository from the six arguments of a decoded record.
pub fn repo_from_record(
    id: u64,
    language_id: u64,
    repo_name: String,
    description: String,
    stamped: bool,
    updated_at: u64,
) -> (repo: Option<Repo>)
    ensures
        match repo {
            Some(r) => repo_of_record(
                (id, language_id, repo_name@, description@, stamped, updated_at),
            ) == Some(r@),
            None => repo_of_record((id, language_id, repo_name@, description@, stamped, updated_at))
                is None,
        },
{
    match join_stamp(stamped, updated_at) {
        Some(stamp) => Some(Repo { id, language_id, repo_name, description, updated_at: stamp }),
        None => None,
    }
}

/// Builds a programming language from the four arguments of a decoded
/// record.
pub fn language_from_record(id: u64, name: String, stamped: bool, updated_at: u64) -> (language:
    Option<ProgrammingLanguage>)
    ensures
        match language {
            Some(l) => language_of_record((id, name@, stamped, updated_at)) == Some(l@),
            None => language_of_record((id, name@, stamped, updated_at)) is None,
        },
{
    match join_stamp(stamped, updated_at) {
        Some(stamp) => Some(ProgrammingLanguage { id, name, updated_at: stamp }),
        None => None,
    }
}

/// Encodes a repository. The answer is `None` exactly where the repository
/// has no stored form; any bytes returned are the stored form of this
/// repository and of no other.
pub fn encode_repo(repo: &Repo) -> (bytes: Option<Vec<u8>>)
    ensures
        match bytes {
            Some(b) => repo_encoding(repo@) == Some(b@) && repo_decoding(b@) == Some(repo@)
                && b@.len() <= MAX_ENTITY_SIZE,
            None => repo_encoding(repo@) is None,
        },
{
    let (stamped, at) = split_stamp(repo.updated_at);
    match write_repo_record(
        repo.id,
        repo.language_id,
        &repo.repo_name,
        &repo.description,
        stamped,
        at,
    ) {
        Some(bytes) => if bytes.len() <= MAX_ENTITY_SIZE {
            proof {
                assert forall|other: RepoView| #[trigger]
                    repo_encoding(other) == Some(bytes@) implies other == repo@ by {
                    assert(repo_message(other) == Some(bytes@));
                }
            }
            Some(bytes)
        } else {
            None
        },
        None => None,
    }
}

/// Decodes a repository from its stored form. The answer is `None` exactly
/// where the bytes are not the stored form of any repository.
pub fn decode_repo(bytes: &Vec<u8>) -> (repo: Option<Repo>)
    ensures
        match repo {
            Some(r) => repo_decoding(bytes@) == Some(r@) && repo_encoding(r@) == Some(bytes@),
            None => repo_decoding(bytes@) is None,
        },
{
    let read = match read_repo_record(bytes) {
        Some((id, language_id, repo_name, description, stamped, updated_at)) => repo_from_record(
            id,
            language_id,
            repo_name,
            description,
            stamped,
            updated_at,
        ),
        None => None,
    };
    let decoded = match read {
        Some(repo) => match encode_repo(&repo) {
            Some(again) => if same_bytes(&again, bytes) {
                Some(repo)
            } else {
                None
            },
            None => None,
        },
        None => None,
    };
    proof {
        if decoded is None {
            assert forall|other: RepoView| #[trigger]
                repo_encoding(other) != Some(bytes@) by {
                if repo_encoding(other) == Some(bytes@) {
                    assert(repo_message(other) == Some(bytes@));
                    assert(read is Some && read->Some_0@ == other);
                }
            }
        }
    }
    decoded
}

/// Encodes a programming language. The answer is `None` exactly where the
/// language has no stored form; any bytes returned are the stored form of
/// this language and of no other.
pub fn encode_language(language: &ProgrammingLanguage) -> (bytes: Option<Vec<u8>>)
    ensures
        match bytes {
            Some(b) => language_encoding(language@) == Some(b@) && language_decoding(b@) == Some(
                language@,
            ) && b@.len() <= MAX_ENTITY_SIZE,
            None => language_encoding(language@) is None,
        },
{
    let (stamped, at) = split_stamp(language.updated_at);
    match write_language_record(language.id, &language.name, stamped, at) {
        Some(bytes) => if bytes.len() <= MAX_ENTITY_SIZE {
            proof {
                assert forall|other: LanguageView| #[trigger]
                    language_encoding(other) == Some(bytes@) implies other == language@ by {
                    assert(language_message(other) == Some(bytes@));
                }
            }
            Some(bytes)
        } else {
            None
        },
        None => None,
    }
}

/// Decodes a programming language from its stored form. The answer is
/// `None` exactly where the bytes are not the stored form of any language.
pub fn decode_language(bytes: &Vec<u8>) -> (language: Option<ProgrammingLanguage>)
    ensures
        match language {
            Some(l) => language_decoding(bytes@) == Some(l@) && language_encoding(l@) == Some(
                bytes@,
            ),
            None => language_decoding(bytes@) is None,
        },
{
    let read = match read_language_record(bytes) {
        Some((id, name, stamped, updated_at)) => language_from_record(
            id,
            name,
            stamped,
            updated_at,
        ),
        None => None,
    };
    let decoded = match read {
        Some(language) => match encode_language(&language) {
            Some(again) => if same_bytes(&again, bytes) {
                Some(language)
            } else {
                None
            },
            None => None,
        },
        None => None,
    };
    proof {
        if decoded is None {
            assert forall|other: LanguageView| #[trigger]
                language_encoding(other) != Some(bytes@) by {
                if language_encoding(other) == Some(bytes@) {
                    assert(language_message(other) == Some(bytes@));
                    assert(read is Some && read->Some_0@ == other);
                }
            }
        }
    }
    decoded
}

} // verus!
