use repo_manage::codec::{
    decode_language, decode_repo, encode_language, encode_repo, join_stamp, language_from_record,
    repo_from_record, same_bytes, split_stamp, MAX_ENTITY_SIZE,
};
use repo_manage::entity::{ProgrammingLanguage, Repo};

fn sample_repo() -> Repo {
    Repo {
        id: 3,
        language_id: 0x0102,
        repo_name: "ab".to_string(),
        description: "c".to_string(),
        updated_at: Some(9),
    }
}

fn sample_language() -> ProgrammingLanguage {
    ProgrammingLanguage { id: 5, name: "Rust".to_string(), updated_at: None }
}

#[test]
fn the_size_bound_is_1024_bytes() {
    assert_eq!(MAX_ENTITY_SIZE, 1024);
}

#[test]
fn encode_repo_writes_a_candid_message() {
    let bytes = encode_repo(&sample_repo()).unwrap();
    let mut expected = b"DIDL".to_vec();
    expected.extend_from_slice(&[0, 6, 0x78, 0x78, 0x71, 0x71, 0x7e, 0x78]);
    expected.extend_from_slice(&[3, 0, 0, 0, 0, 0, 0, 0]);
    expected.extend_from_slice(&[2, 1, 0, 0, 0, 0, 0, 0]);
    expected.extend_from_slice(&[2, b'a', b'b']);
    expected.extend_from_slice(&[1, b'c']);
    expected.push(1);
    expected.extend_from_slice(&[9, 0, 0, 0, 0, 0, 0, 0]);
    assert_eq!(bytes, expected);
}

#[test]
fn encode_language_writes_a_candid_message() {
    let bytes = encode_language(&sample_language()).unwrap();
    let mut expected = b"DIDL".to_vec();
    expected.extend_from_slice(&[0, 4, 0x78, 0x71, 0x7e, 0x78]);
    expected.extend_from_slice(&[5, 0, 0, 0, 0, 0, 0, 0]);
    expected.extend_from_slice(&[4, b'R', b'u', b's', b't']);
    expected.push(0);
    expected.extend_from_slice(&[0, 0, 0, 0, 0, 0, 0, 0]);
    assert_eq!(bytes, expected);
}

#[test]
fn decode_repo_undoes_encode_repo() {
    let repo = sample_repo();
    assert_eq!(decode_repo(&encode_repo(&repo).unwrap()), Some(repo));
    let unstamped = Repo { updated_at: None, ..sample_repo() };
    assert_eq!(decode_repo(&encode_repo(&unstamped).unwrap()), Some(unstamped));
    let wide = Repo {
        id: u64::MAX,
        language_id: u64::MAX,
        repo_name: "Ünïcødé 名前".to_string(),
        description: String::new(),
        updated_at: Some(u64::MAX),
    };
    assert_eq!(decode_repo(&encode_repo(&wide).unwrap()), Some(wide));
}

#[test]
fn decode_language_undoes_encode_language() {
    let language = sample_language();
    assert_eq!(decode_language(&encode_language(&language).unwrap()), Some(language));
    let stamped = ProgrammingLanguage { updated_at: Some(0), ..sample_language() };
    assert_eq!(decode_language(&encode_language(&stamped).unwrap()), Some(stamped));
}

#[test]
fn encode_keeps_to_the_size_bound() {
    let fits = Repo { repo_name: "n".repeat(983), description: "d".to_string(), ..sample_repo() };
    assert_eq!(encode_repo(&fits).unwrap().len(), 1024);
    let too_long =
        Repo { repo_name: "n".repeat(984), description: "d".to_string(), ..sample_repo() };
    assert_eq!(encode_repo(&too_long), None);
    let language = ProgrammingLanguage { name: "n".repeat(995), ..sample_language() };
    assert_eq!(encode_language(&language).unwrap().len(), 1024);
    let too_long = ProgrammingLanguage { name: "n".repeat(996), ..sample_language() };
    assert_eq!(encode_language(&too_long), None);
}

#[test]
fn decode_turns_down_what_is_no_stored_form() {
    assert_eq!(decode_repo(&Vec::new()), None);
    assert_eq!(decode_repo(&b"DIDL".to_vec()), None);
    assert_eq!(decode_repo(&vec![0xff; 64]), None);
    assert_eq!(decode_language(&Vec::new()), None);
    assert_eq!(decode_language(&vec![7; 12]), None);
}

#[test]
fn decode_tells_the_two_kinds_apart() {
    let repo_bytes = encode_repo(&sample_repo()).unwrap();
    let language_bytes = encode_language(&sample_language()).unwrap();
    assert_eq!(decode_language(&repo_bytes), None);
    assert_eq!(decode_repo(&language_bytes), None);
}

#[test]
fn decode_turns_down_trailing_bytes() {
    let mut bytes = encode_repo(&sample_repo()).unwrap();
    bytes.push(0);
    assert_eq!(decode_repo(&bytes), None);
    let mut bytes = encode_repo(&sample_repo()).unwrap();
    bytes.pop();
    assert_eq!(decode_repo(&bytes), None);
}

#[test]
fn decode_turns_down_a_number_without_its_flag() {
    let bytes = candid::encode_args((3u64, 4u64, "ab", "c", false, 9u64)).unwrap();
    assert_eq!(decode_repo(&bytes), None);
    let bytes = candid::encode_args((3u64, 4u64, "ab", "c", false, 0u64)).unwrap();
    assert_eq!(
        decode_repo(&bytes),
        Some(Repo {
            id: 3,
            language_id: 4,
            repo_name: "ab".to_string(),
            description: "c".to_string(),
            updated_at: None,
        })
    );
    let bytes = candid::encode_args((5u64, "Rust", false, 1u64)).unwrap();
    assert_eq!(decode_language(&bytes), None);
}

#[test]
fn decode_turns_down_a_message_with_more_arguments() {
    let bytes = candid::encode_args((3u64, 4u64, "ab", "c", true, 9u64, 5u64)).unwrap();
    assert_eq!(decode_repo(&bytes), None);
    let nulls: Vec<()> = vec![(); 3];
    let bytes = candid::encode_args((3u64, 4u64, "ab", "c", true, 9u64, nulls)).unwrap();
    assert_eq!(decode_repo(&bytes), None);
    let bytes = candid::encode_args((5u64, "Rust", true, 9u64, "more")).unwrap();
    assert_eq!(decode_language(&bytes), None);
}

#[test]
fn byte_strings_are_compared_byte_by_byte() {
    assert!(same_bytes(&vec![], &vec![]));
    assert!(same_bytes(&vec![1, 2, 3], &vec![1, 2, 3]));
    assert!(!same_bytes(&vec![1, 2, 3], &vec![1, 2, 4]));
    assert!(!same_bytes(&vec![1, 2, 3], &vec![1, 2]));
    assert!(!same_bytes(&vec![], &vec![0]));
}

#[test]
fn decode_turns_down_a_message_over_the_size_bound() {
    let bytes = candid::encode_args((3u64, 4u64, "n".repeat(984), "d", true, 9u64)).unwrap();
    assert_eq!(bytes.len(), 1025);
    assert_eq!(decode_repo(&bytes), None);
    let bytes = candid::encode_args((5u64, "n".repeat(996), true, 9u64)).unwrap();
    assert_eq!(bytes.len(), 1025);
    assert_eq!(decode_language(&bytes), None);
}

#[test]
fn stamps_split_into_flag_and_number() {
    assert_eq!(split_stamp(None), (false, 0));
    assert_eq!(split_stamp(Some(0)), (true, 0));
    assert_eq!(split_stamp(Some(77)), (true, 77));
}

#[test]
fn flag_and_number_join_into_a_stamp() {
    assert_eq!(join_stamp(true, 77), Some(Some(77)));
    assert_eq!(join_stamp(true, 0), Some(Some(0)));
    assert_eq!(join_stamp(false, 0), Some(None));
    assert_eq!(join_stamp(false, 77), None);
}

#[test]
fn records_make_up_entities() {
    assert_eq!(
        repo_from_record(3, 0x0102, "ab".to_string(), "c".to_string(), true, 9),
        Some(sample_repo())
    );
    assert_eq!(repo_from_record(3, 4, "ab".to_string(), "c".to_string(), false, 9), None);
    assert_eq!(language_from_record(5, "Rust".to_string(), false, 0), Some(sample_language()));
    assert_eq!(language_from_record(5, "Rust".to_string(), false, 1), None);
}

/// A text of `len` characters drawn from one-, two-, three- and four-byte
/// characters, by a fixed linear congruence.
fn mixed_text(seed: &mut u64, len: usize) -> String {
    let alphabet = ['a', 'Z', '0', ' ', '\n', '\0', 'é', 'ß', '名', '前', '€', '🦀', '𝄞'];
    let mut text = String::new();
    for _ in 0..len {
        *seed = seed.wrapping_mul(6364136223846793005).wrapping_add(1442695040888963407);
        text.push(alphabet[(*seed >> 33) as usize % alphabet.len()]);
    }
    text
}

#[test]
fn decode_undoes_encode_for_many_records() {
    let mut seed = 7u64;
    for round in 0..300usize {
        let repo = Repo {
            id: seed,
            language_id: seed.rotate_left(17),
            repo_name: mixed_text(&mut seed, round % 90),
            description: mixed_text(&mut seed, (round * 7) % 110),
            updated_at: if round % 3 == 0 { None } else { Some(seed ^ 0xffff) },
        };
        let bytes = encode_repo(&repo).unwrap();
        assert!(bytes.len() <= MAX_ENTITY_SIZE);
        assert_eq!(decode_repo(&bytes), Some(repo));
        let language = ProgrammingLanguage {
            id: seed,
            name: mixed_text(&mut seed, round % 200),
            updated_at: if round % 2 == 0 { None } else { Some(seed >> 3) },
        };
        let bytes = encode_language(&language).unwrap();
        assert!(bytes.len() <= MAX_ENTITY_SIZE);
        assert_eq!(decode_language(&bytes), Some(language));
    }
}
