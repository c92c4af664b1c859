use repo_manage::entity::{Error, Fault, Repo, RepoPayload};
use repo_manage::repos::{
    create_repo, delete_repo, get_all_repos, get_repo, update_repo,
    update_repo_description, update_repo_name,
};
use repo_manage::store::Store;

fn fresh() -> Store {
    Store::init().unwrap().0
}

fn payload(language_id: u64, repo_name: &str, description: &str) -> RepoPayload {
    RepoPayload {
        language_id,
        repo_name: repo_name.to_string(),
        description: description.to_string(),
    }
}

fn repo(id: u64, language_id: u64, repo_name: &str, description: &str, at: u64) -> Repo {
    Repo {
        id,
        language_id,
        repo_name: repo_name.to_string(),
        description: description.to_string(),
        updated_at: Some(at),
    }
}

fn not_found(id: u64) -> Error {
    Error::NotFound { entity: "Repo".to_string(), id }
}

#[test]
fn create_repo_answers_the_new_record() {
    let mut store = fresh();
    let made = create_repo(&mut store, payload(1, "x", "y"), 42);
    assert_eq!(made, Ok(Ok(repo(0, 1, "x", "y", 42))));
}

#[test]
fn create_repo_turns_down_an_empty_name() {
    let mut store = fresh();
    assert_eq!(
        create_repo(&mut store, payload(1, "", "y"), 42),
        Ok(Err(Error::CreateFail { msg: "Invalid repo name".to_string() }))
    );
    assert_eq!(get_all_repos(&store), Err(not_found(0)));
    assert_eq!(store.peek_id(), 0);
}

#[test]
fn create_repo_turns_down_an_empty_description() {
    let mut store = fresh();
    assert_eq!(
        create_repo(&mut store, payload(1, "x", ""), 42),
        Ok(Err(Error::CreateFail { msg: "Invalid description".to_string() }))
    );
    assert_eq!(store.peek_id(), 0);
}

#[test]
fn create_repo_names_the_first_invalid_field() {
    let mut store = fresh();
    assert_eq!(
        create_repo(&mut store, payload(1, "", ""), 42),
        Ok(Err(Error::CreateFail { msg: "Invalid repo name".to_string() }))
    );
}

#[test]
fn create_repo_does_not_trim() {
    let mut store = fresh();
    assert_eq!(
        create_repo(&mut store, payload(1, " ", "\t"), 42),
        Ok(Ok(repo(0, 1, " ", "\t", 42)))
    );
}

#[test]
fn create_repo_does_not_check_the_language() {
    let mut store = fresh();
    let made = create_repo(&mut store, payload(u64::MAX, "x", "y"), 0);
    assert_eq!(made, Ok(Ok(repo(0, u64::MAX, "x", "y", 0))));
}

#[test]
fn created_repo_is_found_as_answered() {
    let mut store = fresh();
    let first =
        create_repo(&mut store, payload(7, "verus", "a verifier"), 1_000).unwrap().unwrap();
    let second = create_repo(&mut store, payload(8, "z3", "a solver"), 2_000).unwrap().unwrap();
    assert_eq!(get_repo(&store, first.id), Ok(first));
    assert_eq!(get_repo(&store, second.id), Ok(second.clone()));
    assert_eq!(second, repo(1, 8, "z3", "a solver", 2_000));
}

#[test]
fn get_repo_reports_a_missing_record() {
    let mut store = fresh();
    create_repo(&mut store, payload(1, "x", "y"), 42).unwrap().unwrap();
    assert_eq!(get_repo(&store, 999), Err(not_found(999)));
}

#[test]
fn get_all_repos_of_an_empty_store_is_not_found_zero() {
    let store = fresh();
    assert_eq!(get_all_repos(&store), Err(not_found(0)));
}

#[test]
fn get_all_repos_lists_in_ascending_order() {
    let mut store = fresh();
    for n in 0..40u64 {
        let made = create_repo(&mut store, payload(n, "name", "text"), n * 10).unwrap().unwrap();
        assert_eq!(made.id, n);
    }
    for id in [3u64, 17, 39, 0] {
        assert!(delete_repo(&mut store, id).is_ok());
    }
    update_repo_name(&mut store, 5, "renamed".to_string(), 777).unwrap().unwrap();
    let list = get_all_repos(&store).unwrap();
    let ids: Vec<u64> = list.iter().map(|r| r.id).collect();
    let expected: Vec<u64> = (0..40u64).filter(|id| ![3u64, 17, 39, 0].contains(id)).collect();
    assert_eq!(ids, expected);
    assert_eq!(list[3], repo(5, 5, "renamed", "text", 777));
    assert_eq!(list[0], repo(1, 1, "name", "text", 10));
}

#[test]
fn get_all_repos_holds_a_created_record() {
    let mut store = fresh();
    let made = create_repo(&mut store, payload(1, "x", "y"), 42).unwrap().unwrap();
    assert_eq!(get_all_repos(&store), Ok(vec![made]));
}

#[test]
fn update_repo_replaces_the_chosen_fields() {
    let mut store = fresh();
    create_repo(&mut store, payload(1, "x", "y"), 42).unwrap().unwrap();
    create_repo(&mut store, payload(2, "other", "untouched"), 43).unwrap().unwrap();
    let updated = update_repo(&mut store, 0, payload(9, "new name", "new text"), 100);
    assert_eq!(updated, Ok(Ok(repo(0, 9, "new name", "new text", 100))));
    assert_eq!(get_repo(&store, 0), Ok(repo(0, 9, "new name", "new text", 100)));
    assert_eq!(get_repo(&store, 1), Ok(repo(1, 2, "other", "untouched", 43)));
    assert_eq!(store.peek_id(), 2);
}

#[test]
fn update_repo_turns_down_invalid_payloads_before_looking() {
    let mut store = fresh();
    assert_eq!(
        update_repo(&mut store, 5, payload(1, "", "y"), 1),
        Ok(Err(Error::UpdateFail { msg: "Invalid repo name".to_string() }))
    );
    assert_eq!(
        update_repo(&mut store, 5, payload(1, "x", ""), 1),
        Ok(Err(Error::UpdateFail { msg: "Invalid description".to_string() }))
    );
    assert_eq!(update_repo(&mut store, 5, payload(1, "x", "y"), 1), Ok(Err(not_found(5))));
}

#[test]
fn update_repo_name_keeps_the_other_fields() {
    let mut store = fresh();
    create_repo(&mut store, payload(4, "x", "y"), 42).unwrap().unwrap();
    assert_eq!(
        update_repo_name(&mut store, 0, "renamed".to_string(), 50),
        Ok(Ok(repo(0, 4, "renamed", "y", 50)))
    );
    assert_eq!(get_repo(&store, 0), Ok(repo(0, 4, "renamed", "y", 50)));
}

#[test]
fn update_repo_name_with_an_empty_name_changes_nothing() {
    let mut store = fresh();
    let made = create_repo(&mut store, payload(1, "x", "y"), 42).unwrap().unwrap();
    assert_eq!(
        update_repo_name(&mut store, 0, String::new(), 50),
        Ok(Err(Error::UpdateFail { msg: "Invalid repo name".to_string() }))
    );
    assert_eq!(get_repo(&store, 0), Ok(made));
}

#[test]
fn update_repo_name_reports_a_missing_record() {
    let mut store = fresh();
    assert_eq!(update_repo_name(&mut store, 3, "n".to_string(), 50), Ok(Err(not_found(3))));
    assert_eq!(
        update_repo_name(&mut store, 3, String::new(), 50),
        Ok(Err(Error::UpdateFail { msg: "Invalid repo name".to_string() }))
    );
}

#[test]
fn update_repo_description_keeps_the_other_fields() {
    let mut store = fresh();
    create_repo(&mut store, payload(4, "x", "y"), 42).unwrap().unwrap();
    assert_eq!(
        update_repo_description(&mut store, 0, "described".to_string(), 60),
        Ok(Ok(repo(0, 4, "x", "described", 60)))
    );
    assert_eq!(get_repo(&store, 0), Ok(repo(0, 4, "x", "described", 60)));
}

#[test]
fn update_repo_description_checks_then_looks() {
    let mut store = fresh();
    let made = create_repo(&mut store, payload(1, "x", "y"), 42).unwrap().unwrap();
    assert_eq!(
        update_repo_description(&mut store, 0, String::new(), 60),
        Ok(Err(Error::UpdateFail { msg: "Invalid description".to_string() }))
    );
    assert_eq!(get_repo(&store, 0), Ok(made));
    assert_eq!(
        update_repo_description(&mut store, 1, "d".to_string(), 60),
        Ok(Err(not_found(1)))
    );
}

#[test]
fn update_sets_the_stamp_even_to_an_earlier_time() {
    let mut store = fresh();
    create_repo(&mut store, payload(1, "x", "y"), 42).unwrap().unwrap();
    let updated = update_repo_name(&mut store, 0, "n".to_string(), 7).unwrap().unwrap();
    assert_eq!(updated.updated_at, Some(7));
    let again = update_repo_name(&mut store, 0, "m".to_string(), 8).unwrap().unwrap();
    assert!(again.updated_at > updated.updated_at);
}

#[test]
fn delete_repo_answers_the_record_and_removes_it() {
    let mut store = fresh();
    let made = create_repo(&mut store, payload(1, "x", "y"), 42).unwrap().unwrap();
    let kept = create_repo(&mut store, payload(1, "k", "l"), 43).unwrap().unwrap();
    assert_eq!(delete_repo(&mut store, 0), Ok(made));
    assert_eq!(get_repo(&store, 0), Err(not_found(0)));
    assert_eq!(delete_repo(&mut store, 0), Err(not_found(0)));
    assert_eq!(get_all_repos(&store), Ok(vec![kept]));
}

#[test]
fn delete_repo_reports_a_missing_record() {
    let mut store = fresh();
    assert_eq!(delete_repo(&mut store, 12), Err(not_found(12)));
}

#[test]
fn deleting_the_last_repo_empties_the_listing() {
    let mut store = fresh();
    create_repo(&mut store, payload(1, "x", "y"), 42).unwrap().unwrap();
    delete_repo(&mut store, 0).unwrap();
    assert_eq!(get_all_repos(&store), Err(not_found(0)));
}

#[test]
fn a_deleted_identifier_is_not_handed_out_again() {
    let mut store = fresh();
    create_repo(&mut store, payload(1, "x", "y"), 42).unwrap().unwrap();
    delete_repo(&mut store, 0).unwrap();
    let next = create_repo(&mut store, payload(1, "x", "y"), 43).unwrap().unwrap();
    assert_eq!(next.id, 1);
}

#[test]
fn create_repo_stops_on_a_record_too_large_to_store() {
    let mut store = fresh();
    let long = "n".repeat(2_000);
    assert_eq!(create_repo(&mut store, payload(1, &long, "y"), 42), Err(Fault::NotStorable));
    assert_eq!(store.peek_id(), 0);
    assert_eq!(get_all_repos(&store), Err(not_found(0)));
    let made = create_repo(&mut store, payload(1, "x", "y"), 43).unwrap().unwrap();
    assert_eq!(made.id, 0);
}

#[test]
fn update_stops_on_a_record_too_large_to_store() {
    let mut store = fresh();
    let made = create_repo(&mut store, payload(1, "x", "y"), 42).unwrap().unwrap();
    let long = "d".repeat(1_024);
    assert_eq!(
        update_repo_description(&mut store, 0, long.clone(), 50),
        Err(Fault::NotStorable)
    );
    assert_eq!(update_repo_name(&mut store, 0, long.clone(), 50), Err(Fault::NotStorable));
    assert_eq!(update_repo(&mut store, 0, payload(1, "x", &long), 50), Err(Fault::NotStorable));
    assert_eq!(get_repo(&store, 0), Ok(made));
}

#[test]
fn the_largest_repo_that_fits_is_stored() {
    // Around the two texts the stored form has 37 bytes, and each text is
    // preceded by its length: one byte up to 127, two from there on.
    let mut store = fresh();
    let name = "n".repeat(983);
    let made = create_repo(&mut store, payload(1, &name, "d"), 42).unwrap().unwrap();
    assert_eq!(get_repo(&store, 0), Ok(made));
    let longer = "n".repeat(984);
    assert_eq!(create_repo(&mut store, payload(1, &longer, "d"), 42), Err(Fault::NotStorable));
}
