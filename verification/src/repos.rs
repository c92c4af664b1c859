//! The repository service: create, read, update and delete over the
//! repositories of a [`Store`].
//!
//! What each operation answers and leaves behind is a function of the
//! store's view, the request and the time, written out on [`StoreState`].
//! The time is the caller's to read: an operation stamps the time it is
//! given.

use crate::codec::{encode_repo, repo_encoding};
use crate::entity::{
    invalid_description, invalid_repo_name, repo_kind, repo_reply, repo_views, Error, ErrorView,
    Fault, Repo, RepoPayload, RepoPayloadView, RepoView,
};
use crate::store::{
    _all_repos, _get_repo, do_insert_repo, do_remove_repo, lists_repos, write_repo, Store,
    StoreState,
};
use vstd::prelude::*;

verus! {

/// What a repository operation comes to: the record or the error answered,
/// or the fault that stopped it.
pub type RepoOutcome = Result<Result<RepoView, ErrorView>, Fault>;

/// The views of what a repository operation returned.
pub open spec fn repo_outcome(returned: Result<Result<Repo, Error>, Fault>) -> RepoOutcome {
    match returned {
        Ok(Ok(repo)) => Ok(Ok(repo@)),
        Ok(Err(error)) => Ok(Err(error@)),
        Err(fault) => Err(fault),
    }
}

/// The views of the answer to a listing of the repositories.
pub open spec fn repo_list_reply(reply: Result<Vec<Repo>, Error>) -> Result<
    Seq<RepoView>,
    ErrorView,
> {
    match reply {
        Ok(list) => Ok(repo_views(list@)),
        Err(error) => Err(error@),
    }
}

/// The message for the first invalid field of a payload: the name, then
/// the description. A field is invalid exactly when it is empty.
pub open spec fn payload_flaw(payload: RepoPayloadView) -> Option<Seq<char>> {
    if payload.repo_name.len() == 0 {
        Some(invalid_repo_name())
    } else if payload.description.len() == 0 {
        Some(invalid_description())
    } else {
        None
    }
}

/// The error for a repository that is not stored under `id`.
pub open spec fn repo_not_found(id: u64) -> ErrorView {
    ErrorView::NotFound { entity: repo_kind(), id }
}

impl StoreState {
    /// The answer to a lookup of the repository under `id`.
    pub open spec fn get_repo(self, id: u64) -> Result<RepoView, ErrorView> {
        if self.repos.contains_key(id) {
            Ok(self.repos[id])
        } else {
            Err(repo_not_found(id))
        }
    }

    /// Whether `reply` is the answer to a listing of the repositories: all
    /// of them in ascending order of the identifiers, or, where there is
    /// none, the error for the identifier 0.
    pub open spec fn answers_all_repos(self, reply: Result<Seq<RepoView>, ErrorView>) -> bool {
        match reply {
            Ok(list) => list.len() > 0 && lists_repos(self.repos, list),
            Err(error) => error == repo_not_found(0) && forall|key: u64|
                !self.repos.contains_key(key),
        }
    }

    /// The repository that a creation makes of a payload at time `now`.
    pub open spec fn new_repo(self, payload: RepoPayloadView, now: u64) -> RepoView {
        RepoView {
            id: self.next_id,
            language_id: payload.language_id,
            repo_name: payload.repo_name,
            description: payload.description,
            updated_at: Some(now),
        }
    }

    /// The repository under `id` with every chosen field replaced.
    pub open spec fn revised_repo(self, id: u64, payload: RepoPayloadView, now: u64) -> RepoView {
        RepoView {
            id: self.repos[id].id,
            language_id: payload.language_id,
            repo_name: payload.repo_name,
            description: payload.description,
            updated_at: Some(now),
        }
    }

    /// The repository under `id` with another name.
    pub open spec fn renamed_repo(self, id: u64, repo_name: Seq<char>, now: u64) -> RepoView {
        RepoView { repo_name, updated_at: Some(now), ..self.repos[id] }
    }

    /// The repository under `id` with another description.
    pub open spec fn redescribed_repo(self, id: u64, description: Seq<char>, now: u64) -> RepoView {
        RepoView { description, updated_at: Some(now), ..self.repos[id] }
    }

    /// What storing `repo` in place of the one under its identifier comes
    /// to: the repository is answered and stored, unless it has no stored
    /// form.
    pub open spec fn replace_repo(self, repo: RepoView) -> (RepoOutcome, StoreState) {
        if repo_encoding(repo) is None {
            (Err(Fault::NotStorable), self)
        } else {
            (Ok(Ok(repo)), self.with_repo(repo))
        }
    }

    /// What a creation comes to.
    pub open spec fn create_repo(self, payload: RepoPayloadView, now: u64) -> (
        RepoOutcome,
        StoreState,
    ) {
        match payload_flaw(payload) {
            Some(msg) => (Ok(Err(ErrorView::CreateFail { msg })), self),
            None => {
                let repo = self.new_repo(payload, now);
                if repo_encoding(repo) is None {
                    (Err(Fault::NotStorable), self)
                } else if self.next_id == u64::MAX {
                    (Err(Fault::IdsExhausted), self)
                } else {
                    (Ok(Ok(repo)), self.advanced().with_repo(repo))
                }
            },
        }
    }

    /// What a full update comes to.
    pub open spec fn update_repo(self, id: u64, payload: RepoPayloadView, now: u64) -> (
        RepoOutcome,
        StoreState,
    ) {
        match payload_flaw(payload) {
            Some(msg) => (Ok(Err(ErrorView::UpdateFail { msg })), self),
            None => if self.repos.contains_key(id) {
                self.replace_repo(self.revised_repo(id, payload, now))
            } else {
                (Ok(Err(repo_not_found(id))), self)
            },
        }
    }

    /// What an update of the name comes to.
    pub open spec fn update_repo_name(self, id: u64, repo_name: Seq<char>, now: u64) -> (
        RepoOutcome,
        StoreState,
    ) {
        if repo_name.len() == 0 {
            (Ok(Err(ErrorView::UpdateFail { msg: invalid_repo_name() })), self)
        } else if self.repos.contains_key(id) {
            self.replace_repo(self.renamed_repo(id, repo_name, now))
        } else {
            (Ok(Err(repo_not_found(id))), self)
        }
    }

    /// What an update of the description comes to.
    pub open spec fn update_repo_description(self, id: u64, description: Seq<char>, now: u64) -> (
        RepoOutcome,
        StoreState,
    ) {
        if description.len() == 0 {
            (Ok(Err(ErrorView::UpdateFail { msg: invalid_description() })), self)
        } else if self.repos.contains_key(id) {
            self.replace_repo(self.redescribed_repo(id, description, now))
        } else {
            (Ok(Err(repo_not_found(id))), self)
        }
    }

    /// What a deletion comes to.
    pub open spec fn delete_repo(self, id: u64) -> (Result<RepoView, ErrorView>, StoreState) {
        (self.get_repo(id), self.without_repo(id))
    }
}

/// The repository stored under `id`, or `NotFound` for the kind `Repo`.
pub fn get_repo(store: &Store, id: u64) -> (reply: Result<Repo, Error>)
    requires
        store.wf(),
    ensures
        repo_reply(reply) == store@.get_repo(id),
{
    match _get_repo(store, &id) {
        Some(repo) => Ok(repo),
        None => Err(Error::not_found("Repo", id)),
    }
}

/// Every repository, in ascending order of the identifiers, or `NotFound`
/// for the kind `Repo` and the identifier 0 where there is none.
pub fn get_all_repos(store: &Store) -> (reply: Result<Vec<Repo>, Error>)
    requires
        store.wf(),
    ensures
        store@.answers_all_repos(repo_list_reply(reply)),
{
    let list = _all_repos(store);
    if list.len() > 0 {
        Ok(list)
    } else {
        Err(Error::not_found("Repo", 0))
    }
}

/// Creates a repository of a payload, stamped with the time `now`: checks
/// the payload, takes the next identifier, and stores the new record.
pub fn create_repo(store: &mut Store, payload: RepoPayload, now: u64) -> (returned: Result<
    Result<Repo, Error>,
    Fault,
>)
    requires
        old(store).wf(),
    ensures
        final(store).wf(),
        (repo_outcome(returned), final(store)@) == old(store)@.create_repo(payload@, now),
{
    if payload.repo_name.as_str().is_empty() {
        return Ok(Err(Error::create_fail("Invalid repo name")));
    }
    if payload.description.as_str().is_empty() {
        return Ok(Err(Error::create_fail("Invalid description")));
    }
    let repo = Repo {
        id: store.peek_id(),
        language_id: payload.language_id,
        repo_name: payload.repo_name,
        description: payload.description,
        updated_at: Some(now),
    };
    match encode_repo(&repo) {
        Some(bytes) => match store.next_id() {
            Ok(_) => {
                write_repo(store, &repo, &bytes);
                Ok(Ok(repo))
            },
            Err(fault) => Err(fault),
        },
        None => Err(Fault::NotStorable),
    }
}

/// Replaces every chosen field of the repository under `id`, stamped with
/// the time `now`.
pub fn update_repo(store: &mut Store, id: u64, payload: RepoPayload, now: u64) -> (returned:
    Result<Result<Repo, Error>, Fault>)
    requires
        old(store).wf(),
    ensures
        final(store).wf(),
        (repo_outcome(returned), final(store)@) == old(store)@.update_repo(id, payload@, now),
{
    if payload.repo_name.as_str().is_empty() {
        return Ok(Err(Error::update_fail("Invalid repo name")));
    }
    if payload.description.as_str().is_empty() {
        return Ok(Err(Error::update_fail("Invalid description")));
    }
    match _get_repo(store, &id) {
        Some(mut repo) => {
            repo.language_id = payload.language_id;
            repo.repo_name = payload.repo_name;
            repo.description = payload.description;
            repo.updated_at = Some(now);
            replace(store, repo)
        },
        None => Ok(Err(Error::not_found("Repo", id))),
    }
}

/// Replaces the name of the repository under `id`, stamped with the time
/// `now`.
pub fn update_repo_name(store: &mut Store, id: u64, repo_name: String, now: u64) -> (returned:
    Result<Result<Repo, Error>, Fault>)
    requires
        old(store).wf(),
    ensures
        final(store).wf(),
        (repo_outcome(returned), final(store)@) == old(store)@.update_repo_name(
            id,
            repo_name@,
            now,
        ),
{
    if repo_name.as_str().is_empty() {
        return Ok(Err(Error::update_fail("Invalid repo name")));
    }
    match _get_repo(store, &id) {
        Some(mut repo) => {
            repo.repo_name = repo_name;
            repo.updated_at = Some(now);
            replace(store, repo)
        },
        None => Ok(Err(Error::not_found("Repo", id))),
    }
}

/// Replaces the description of the repository under `id`, stamped with the
/// time `now`.
pub fn update_repo_description(
    store: &mut Store,
    id: u64,
    description: String,
    now: u64,
) -> (returned: Result<Result<Repo, Error>, Fault>)
    requires
        old(store).wf(),
    ensures
        final(store).wf(),
        (repo_outcome(returned), final(store)@) == old(store)@.update_repo_description(
            id,
            description@,
            now,
        ),
{
    if description.as_str().is_empty() {
        return Ok(Err(Error::update_fail("Invalid description")));
    }
    match _get_repo(store, &id) {
        Some(mut repo) => {
            repo.description = description;
            repo.updated_at = Some(now);
            replace(store, repo)
        },
        None => Ok(Err(Error::not_found("Repo", id))),
    }
}

/// Stores a changed repository in place of the one it was read from.
fn replace(store: &mut Store, repo: Repo) -> (returned: Result<Result<Repo, Error>, Fault>)
    requires
        old(store).wf(),
        old(store)@.repos.contains_key(repo.id),
    ensures
        final(store).wf(),
        (repo_outcome(returned), final(store)@) == old(store)@.replace_repo(repo@),
{
    match do_insert_repo(store, &repo) {
        Ok(_) => Ok(Ok(repo)),
        Err(fault) => Err(fault),
    }
}

/// Removes the repository under `id` and answers it, or `NotFound` for the
/// kind `Repo`.
pub fn delete_repo(store: &mut Store, id: u64) -> (reply: Result<Repo, Error>)
    requires
        old(store).wf(),
    ensures
        final(store).wf(),
        (repo_reply(reply), final(store)@) == old(store)@.delete_repo(id),
{
    match do_remove_repo(store, &id) {
        Some(repo) => Ok(repo),
        None => Err(Error::not_found("Repo", id)),
    }
}

} // verus!
