use repo_manage::entity::{
    Error, Fault, ProgrammingLanguage, ProgrammingLanguagePayload, RepoPayload,
};
use repo_manage::languages::{add_language, get_all_languages, get_language, update_language};
use repo_manage::repos::{create_repo, get_all_repos, get_repo};
use repo_manage::store::Store;

fn empty_store() -> Store {
    Store::init().unwrap().0
}

fn named(name: &str) -> ProgrammingLanguagePayload {
    ProgrammingLanguagePayload { name: name.to_string() }
}

fn language(id: u64, name: &str, at: u64) -> ProgrammingLanguage {
    ProgrammingLanguage { id, name: name.to_string(), updated_at: Some(at) }
}

fn language_not_found(id: u64) -> Error {
    Error::NotFound { entity: "ProgrammingLanguage".to_string(), id }
}

#[test]
fn add_language_answers_the_new_record() {
    let mut store = empty_store();
    assert_eq!(add_language(&mut store, named("Rust"), 11), Ok(Ok(language(0, "Rust", 11))));
    assert_eq!(get_language(&store, 0), Ok(language(0, "Rust", 11)));
}

#[test]
fn add_language_turns_down_an_empty_name() {
    let mut store = empty_store();
    assert_eq!(
        add_language(&mut store, named(""), 11),
        Ok(Err(Error::CreateFail { msg: "Invalid language name".to_string() }))
    );
    assert_eq!(get_all_languages(&store), Err(language_not_found(0)));
    assert_eq!(store.peek_id(), 0);
    assert_eq!(add_language(&mut store, named("Rust"), 12), Ok(Ok(language(0, "Rust", 12))));
}

#[test]
fn add_language_does_not_trim() {
    let mut store = empty_store();
    assert_eq!(add_language(&mut store, named(" "), 11), Ok(Ok(language(0, " ", 11))));
}

#[test]
fn get_language_reports_a_missing_record() {
    let mut store = empty_store();
    add_language(&mut store, named("Rust"), 11).unwrap().unwrap();
    assert_eq!(get_language(&store, 999), Err(language_not_found(999)));
}

#[test]
fn get_all_languages_of_an_empty_store_is_not_found_zero() {
    let store = empty_store();
    assert_eq!(get_all_languages(&store), Err(language_not_found(0)));
}

#[test]
fn get_all_languages_lists_in_ascending_order() {
    let mut store = empty_store();
    for n in 0..25u64 {
        add_language(&mut store, named("language"), n).unwrap().unwrap();
    }
    update_language(&mut store, 20, named("renamed"), 99).unwrap().unwrap();
    let list = get_all_languages(&store).unwrap();
    let ids: Vec<u64> = list.iter().map(|l| l.id).collect();
    assert_eq!(ids, (0..25u64).collect::<Vec<u64>>());
    assert_eq!(list[20], language(20, "renamed", 99));
    assert_eq!(list[24], language(24, "language", 24));
}

#[test]
fn update_language_replaces_the_name() {
    let mut store = empty_store();
    add_language(&mut store, named("Rust"), 11).unwrap().unwrap();
    add_language(&mut store, named("Go"), 12).unwrap().unwrap();
    assert_eq!(
        update_language(&mut store, 0, named("Verus"), 20),
        Ok(Ok(language(0, "Verus", 20)))
    );
    assert_eq!(get_language(&store, 0), Ok(language(0, "Verus", 20)));
    assert_eq!(get_language(&store, 1), Ok(language(1, "Go", 12)));
    assert_eq!(store.peek_id(), 2);
}

#[test]
fn update_language_with_an_empty_name_changes_nothing() {
    let mut store = empty_store();
    add_language(&mut store, named("Rust"), 11).unwrap().unwrap();
    assert_eq!(
        update_language(&mut store, 0, named(""), 20),
        Ok(Err(Error::UpdateFail { msg: "Invalid language name".to_string() }))
    );
    assert_eq!(get_language(&store, 0), Ok(language(0, "Rust", 11)));
}

#[test]
fn update_language_checks_then_looks() {
    let mut store = empty_store();
    assert_eq!(
        update_language(&mut store, 9, named(""), 20),
        Ok(Err(Error::UpdateFail { msg: "Invalid language name".to_string() }))
    );
    assert_eq!(update_language(&mut store, 9, named("Go"), 20), Ok(Err(language_not_found(9))));
}

#[test]
fn update_language_reports_a_missing_record() {
    let mut store = empty_store();
    assert_eq!(
        update_language(&mut store, 4, named("Rust"), 20),
        Ok(Err(language_not_found(4)))
    );
    assert_eq!(get_all_languages(&store), Err(language_not_found(0)));
}

#[test]
fn both_kinds_share_one_counter() {
    let mut store = empty_store();
    let repo = RepoPayload {
        language_id: 1,
        repo_name: "x".to_string(),
        description: "y".to_string(),
    };
    let first = add_language(&mut store, named("Rust"), 1).unwrap().unwrap();
    let second = create_repo(&mut store, repo.clone(), 2).unwrap().unwrap();
    let third = add_language(&mut store, named("Go"), 3).unwrap().unwrap();
    let fourth = create_repo(&mut store, repo, 4).unwrap().unwrap();
    assert_eq!((first.id, second.id, third.id, fourth.id), (0, 1, 2, 3));
    assert_eq!(get_all_languages(&store).unwrap().len(), 2);
    assert_eq!(get_all_repos(&store).unwrap().len(), 2);
}

#[test]
fn the_two_collections_are_apart() {
    let mut store = empty_store();
    add_language(&mut store, named("Rust"), 1).unwrap().unwrap();
    assert_eq!(get_repo(&store, 0), Err(Error::NotFound { entity: "Repo".to_string(), id: 0 }));
    assert_eq!(get_all_repos(&store), Err(Error::NotFound { entity: "Repo".to_string(), id: 0 }));
}

#[test]
fn add_language_stops_on_a_record_too_large_to_store() {
    let mut store = empty_store();
    let long = "n".repeat(996);
    assert_eq!(add_language(&mut store, named(&long), 1), Err(Fault::NotStorable));
    assert_eq!(store.peek_id(), 0);
    let fits = "n".repeat(995);
    assert_eq!(add_language(&mut store, named(&fits), 1), Ok(Ok(language(0, &fits, 1))));
}

#[test]
fn update_language_stops_on_a_record_too_large_to_store() {
    let mut store = empty_store();
    add_language(&mut store, named("Rust"), 1).unwrap().unwrap();
    let long = "n".repeat(5_000);
    assert_eq!(update_language(&mut store, 0, named(&long), 2), Err(Fault::NotStorable));
    assert_eq!(get_language(&store, 0), Ok(language(0, "Rust", 1)));
}
