//! What holds of the services whatever the store and the request, proved
//! from the functions on [`StoreState`] that the services' contracts are
//! written in.
//!
//! The laws of creations and updates speak of the requests that are due a
//! record: a valid payload, a record that has a stored form, and, for a
//! creation, an identifier left to hand out.

use crate::codec::{language_encoding, repo_encoding};
use crate::entity::{
    invalid_description, invalid_language_name, invalid_repo_name, ErrorView, Fault,
    LanguageView, RepoPayloadView, RepoView,
};
use crate::languages::language_not_found;
use crate::repos::repo_not_found;
use crate::store::{lists_languages, lists_repos, StoreState};
use vstd::prelude::*;

verus! {

/// One change of the store: an identifier is handed out, a record is
/// stored under an identifier that was handed out, or a repository is
/// removed. Every operation of the services is made of such changes.
pub open spec fn changes(pre: StoreState, post: StoreState) -> bool {
    ||| pre.next_id < u64::MAX && post == pre.advanced()
    ||| exists|repo: RepoView| repo.id < pre.next_id && post == #[trigger] pre.with_repo(repo)
    ||| exists|language: LanguageView|
        language.id < pre.next_id && post == #[trigger] pre.with_language(language)
    ||| exists|id: u64| post == #[trigger] pre.without_repo(id)
}

/// `states` is a history of the store: each state comes from the one
/// before it by one change.
pub open spec fn is_history(states: Seq<StoreState>) -> bool {
    forall|i: int|
        0 <= i < states.len() - 1 ==> changes(#[trigger] states[i], states[i + 1])
}

/// The store can get from `pre` to `post`.
pub open spec fn reaches(pre: StoreState, post: StoreState) -> bool {
    exists|states: Seq<StoreState>|
        #![trigger is_history(states)]
        states.len() > 0 && is_history(states) && states[0] == pre && states.last() == post
}

/// A creation of a repository is due a record: the payload is valid, the
/// new record has a stored form, and an identifier is left.
pub open spec fn can_create_repo(pre: StoreState, payload: RepoPayloadView, now: u64) -> bool {
    &&& payload.repo_name.len() > 0
    &&& payload.description.len() > 0
    &&& repo_encoding(pre.new_repo(payload, now)) is Some
    &&& pre.next_id < u64::MAX
}

/// A creation of a programming language is due a record: the name is
/// valid, the new record has a stored form, and an identifier is left.
pub open spec fn can_add_language(pre: StoreState, name: Seq<char>, now: u64) -> bool {
    &&& name.len() > 0
    &&& language_encoding(pre.new_language(name, now)) is Some
    &&& pre.next_id < u64::MAX
}

/// A creation, of a repository or of a programming language, took the
/// store from `pre` to `post` and gave the new record the identifier `id`.
pub open spec fn issues(pre: StoreState, post: StoreState, id: u64) -> bool {
    &&& id == pre.next_id
    &&& {
        ||| exists|payload: RepoPayloadView, now: u64|
            can_create_repo(pre, payload, now) && post == (#[trigger] pre.create_repo(
                payload,
                now,
            )).1
        ||| exists|name: Seq<char>, now: u64|
            can_add_language(pre, name, now) && post == (#[trigger] pre.add_language(name, now)).1
    }
}

/// A creation of a repository that is due a record answers the record of
/// the payload, with the store's next identifier and the time of the call.
/// The record is then found under its identifier, equal in every field to
/// what was answered; the next identifier has gone up by one; nothing else
/// has changed.
pub proof fn law_create_repo_stores_what_it_answers(
    pre: StoreState,
    payload: RepoPayloadView,
    now: u64,
)
    requires
        can_create_repo(pre, payload, now),
    ensures
        ({
            let repo = RepoView {
                id: pre.next_id,
                language_id: payload.language_id,
                repo_name: payload.repo_name,
                description: payload.description,
                updated_at: Some(now),
            };
            let (outcome, post) = pre.create_repo(payload, now);
            &&& outcome == Ok::<Result<RepoView, ErrorView>, Fault>(Ok(repo))
            &&& post.get_repo(repo.id) == Ok::<RepoView, ErrorView>(repo)
            &&& post.next_id == pre.next_id + 1
            &&& post.languages == pre.languages
            &&& forall|other: u64|
                other != repo.id ==> #[trigger] post.get_repo(other) == pre.get_repo(other)
        }),
{
}

/// A creation of a programming language that is due a record answers the
/// record of the name, with the store's next identifier and the time of the
/// call. The record is then found under its identifier, equal in every
/// field to what was answered; the next identifier has gone up by one;
/// nothing else has changed.
pub proof fn law_add_language_stores_what_it_answers(pre: StoreState, name: Seq<char>, now: u64)
    requires
        can_add_language(pre, name, now),
    ensures
        ({
            let language = LanguageView { id: pre.next_id, name, updated_at: Some(now) };
            let (outcome, post) = pre.add_language(name, now);
            &&& outcome == Ok::<Result<LanguageView, ErrorView>, Fault>(Ok(language))
            &&& post.get_language(language.id) == Ok::<LanguageView, ErrorView>(language)
            &&& post.next_id == pre.next_id + 1
            &&& post.repos == pre.repos
            &&& forall|other: u64|
                other != language.id ==> #[trigger] post.get_language(other) == pre.get_language(
                    other,
                )
        }),
{
}

/// A creation hands out the store's next identifier and moves the next
/// identifier up by one. Where every stored identifier was handed out, no
/// record carries the new one yet.
pub proof fn law_creation_takes_the_next_identifier(pre: StoreState, post: StoreState, id: u64)
    requires
        issues(pre, post, id),
    ensures
        id == pre.next_id,
        post.next_id == id + 1,
        pre.issued() ==> !pre.repos.contains_key(id) && !pre.languages.contains_key(id),
{
}

/// The first creation in a fresh store hands out the identifier 0.
pub proof fn law_identifiers_start_at_zero(payload: RepoPayloadView, name: Seq<char>, now: u64)
    ensures
        can_create_repo(StoreState::fresh(), payload, now) ==> (StoreState::fresh().create_repo(
            payload,
            now,
        ).0 matches Ok(Ok(repo)) && repo.id == 0),
        can_add_language(StoreState::fresh(), name, now) ==> (StoreState::fresh().add_language(
            name,
            now,
        ).0 matches Ok(Ok(language)) && language.id == 0),
{
}

/// Two creations in a row, of either kind, hand out two identifiers in a
/// row.
pub proof fn law_successive_creations_count_up(
    pre: StoreState,
    payload: RepoPayloadView,
    name: Seq<char>,
    now: u64,
    later: u64,
)
    ensures
        ({
            let between = pre.create_repo(payload, now).1;
            can_create_repo(pre, payload, now) && can_add_language(between, name, later) ==> {
                &&& pre.create_repo(payload, now).0 matches Ok(Ok(repo)) && repo.id == pre.next_id
                &&& between.add_language(name, later).0 matches Ok(Ok(language)) && language.id
                    == pre.next_id + 1
            }
        }),
        ({
            let between = pre.add_language(name, now).1;
            can_add_language(pre, name, now) && can_create_repo(between, payload, later) ==> {
                &&& pre.add_language(name, now).0 matches Ok(Ok(language)) && language.id
                    == pre.next_id
                &&& between.create_repo(payload, later).0 matches Ok(Ok(repo)) && repo.id
                    == pre.next_id + 1
            }
        }),
        ({
            let between = pre.create_repo(payload, now).1;
            can_create_repo(pre, payload, now) && can_create_repo(between, payload, later) ==> {
                &&& pre.create_repo(payload, now).0 matches Ok(Ok(repo)) && repo.id == pre.next_id
                &&& between.create_repo(payload, later).0 matches Ok(Ok(repo)) && repo.id
                    == pre.next_id + 1
            }
        }),
        ({
            let between = pre.add_language(name, now).1;
            can_add_language(pre, name, now) && can_add_language(between, name, later) ==> {
                &&& pre.add_language(name, now).0 matches Ok(Ok(language)) && language.id
                    == pre.next_id
                &&& between.add_language(name, later).0 matches Ok(Ok(language)) && language.id
                    == pre.next_id + 1
            }
        }),
{
}

/// The next identifier never goes down, and the invariant of the view is
/// kept, however the store changes.
pub proof fn law_history_keeps_order(states: Seq<StoreState>, i: int, j: int)
    requires
        is_history(states),
        0 <= i <= j < states.len(),
    ensures
        states[i].next_id <= states[j].next_id,
        states[i].inv() ==> states[j].inv(),
    decreases j - i,
{
    if i < j {
        law_history_keeps_order(states, i, j - 1);
        assert(changes(states[j - 1], states[j - 1 + 1]));
    }
}

/// The store gets from `pre` to `post` by the one change between them.
pub proof fn lemma_one_change_reaches(pre: StoreState, post: StoreState)
    requires
        changes(pre, post),
    ensures
        reaches(pre, post),
{
    let states = seq![pre, post];
    assert(states[0] == pre && states[1] == post);
    assert(is_history(states));
    assert(states.last() == post);
}

/// Getting from one state to another is reflexive and transitive: the
/// store gets from every state to itself, and from a first state to a third
/// wherever it gets from the first to a second and from the second to the
/// third.
pub proof fn law_reaching_composes(first: StoreState, second: StoreState, third: StoreState)
    ensures
        reaches(first, first),
        reaches(first, second) && reaches(second, third) ==> reaches(first, third),
{
    let alone = seq![first];
    assert(is_history(alone));
    assert(alone[0] == first && alone.last() == first);
    if reaches(first, second) && reaches(second, third) {
        let head = choose|states: Seq<StoreState>|
            #![trigger is_history(states)]
            states.len() > 0 && is_history(states) && states[0] == first && states.last()
                == second;
        let tail = choose|states: Seq<StoreState>|
            #![trigger is_history(states)]
            states.len() > 0 && is_history(states) && states[0] == second && states.last()
                == third;
        let whole = head + tail.subrange(1, tail.len() as int);
        assert forall|i: int| 0 <= i < whole.len() - 1 implies changes(
            #[trigger] whole[i],
            whole[i + 1],
        ) by {
            if i < head.len() - 1 {
                assert(changes(head[i], head[i + 1]));
            } else {
                let k = i - head.len() + 1;
                assert(changes(tail[k], tail[k + 1]));
                assert(whole[i + 1] == tail[k + 1]);
                assert(whole[i] == tail[k]);
            }
        }
        assert(is_history(whole));
        assert(whole[0] == first);
        assert(whole.last() == third);
    }
}

/// The store gets from the state before a creation to the state after it:
/// a creation is an identifier handed out and a record stored.
pub proof fn law_creation_is_two_changes(pre: StoreState, post: StoreState, id: u64)
    requires
        issues(pre, post, id),
    ensures
        reaches(pre, post),
{
    let mid = pre.advanced();
    assert(changes(pre, mid));
    if exists|payload: RepoPayloadView, now: u64|
        can_create_repo(pre, payload, now) && post == (#[trigger] pre.create_repo(payload, now)).1 {
        let (payload, now) = choose|payload: RepoPayloadView, now: u64|
            can_create_repo(pre, payload, now) && post == (#[trigger] pre.create_repo(
                payload,
                now,
            )).1;
        assert(post == mid.with_repo(pre.new_repo(payload, now)));
    } else {
        let (name, now) = choose|name: Seq<char>, now: u64|
            can_add_language(pre, name, now) && post == (#[trigger] pre.add_language(name, now)).1;
        assert(post == mid.with_language(pre.new_language(name, now)));
    }
    assert(changes(mid, post));
    lemma_one_change_reaches(pre, mid);
    lemma_one_change_reaches(mid, post);
    law_reaching_composes(pre, mid, post);
}

/// The store gets from the state before any update or deletion to the
/// state after it, whatever the operation came to.
pub proof fn law_operations_are_changes(
    pre: StoreState,
    id: u64,
    payload: RepoPayloadView,
    now: u64,
)
    requires
        pre.inv(),
    ensures
        reaches(pre, pre.update_repo(id, payload, now).1),
        reaches(pre, pre.update_repo_name(id, payload.repo_name, now).1),
        reaches(pre, pre.update_repo_description(id, payload.description, now).1),
        reaches(pre, pre.update_language(id, payload.repo_name, now).1),
        reaches(pre, pre.delete_repo(id).1),
{
    law_reaching_composes(pre, pre, pre);
    lemma_replacing_reaches(pre, pre.revised_repo(id, payload, now));
    lemma_replacing_reaches(pre, pre.renamed_repo(id, payload.repo_name, now));
    lemma_replacing_reaches(pre, pre.redescribed_repo(id, payload.description, now));
    let language = pre.renamed_language(id, payload.repo_name, now);
    if pre.languages.contains_key(id) {
        lemma_one_change_reaches(pre, pre.with_language(language));
    }
    lemma_one_change_reaches(pre, pre.without_repo(id));
}

/// The store gets to itself with a repository stored under an identifier
/// that was handed out.
proof fn lemma_replacing_reaches(pre: StoreState, repo: RepoView)
    ensures
        repo.id < pre.next_id ==> reaches(pre, pre.with_repo(repo)),
        reaches(pre, pre),
{
    law_reaching_composes(pre, pre, pre);
    if repo.id < pre.next_id {
        lemma_one_change_reaches(pre, pre.with_repo(repo));
    }
}

/// Identifiers go strictly up from one creation to any later one, whatever
/// the kinds of the two records and whatever happened to the store in
/// between: an identifier is never handed out twice, not even after its
/// record was deleted.
pub proof fn law_identifiers_increase(
    before_first: StoreState,
    after_first: StoreState,
    first: u64,
    before_second: StoreState,
    after_second: StoreState,
    second: u64,
)
    requires
        issues(before_first, after_first, first),
        reaches(after_first, before_second),
        issues(before_second, after_second, second),
    ensures
        first < second,
{
    let states = choose|states: Seq<StoreState>|
        #![trigger is_history(states)]
        states.len() > 0 && is_history(states) && states[0] == after_first && states.last()
            == before_second;
    law_history_keeps_order(states, 0, states.len() - 1);
}

/// `post` is `pre` with `repo` as the repository under `id`, and with
/// nothing else changed.
pub open spec fn stores_only_repo(
    pre: StoreState,
    id: u64,
    repo: RepoView,
    post: StoreState,
) -> bool {
    &&& repo.id == id
    &&& post == pre.with_repo(repo)
    &&& post.get_repo(id) == Ok::<RepoView, ErrorView>(repo)
    &&& post.next_id == pre.next_id
    &&& post.languages == pre.languages
    &&& forall|other: u64| other != id ==> #[trigger] post.get_repo(other) == pre.get_repo(other)
}

/// `post` is `pre` with `language` as the programming language under `id`,
/// and with nothing else changed.
pub open spec fn stores_only_language(
    pre: StoreState,
    id: u64,
    language: LanguageView,
    post: StoreState,
) -> bool {
    &&& language.id == id
    &&& post == pre.with_language(language)
    &&& post.get_language(id) == Ok::<LanguageView, ErrorView>(language)
    &&& post.next_id == pre.next_id
    &&& post.repos == pre.repos
    &&& forall|other: u64|
        other != id ==> #[trigger] post.get_language(other) == pre.get_language(other)
}

/// A full update that is due a record answers the record under `id` with
/// every chosen field replaced and the time of the call as its stamp. The
/// record is then found under `id`; every other record, and the next
/// identifier, stay as they were.
pub proof fn law_update_repo_replaces_the_chosen_fields(
    pre: StoreState,
    id: u64,
    payload: RepoPayloadView,
    now: u64,
)
    requires
        pre.keyed(),
        pre.repos.contains_key(id),
        payload.repo_name.len() > 0,
        payload.description.len() > 0,
        repo_encoding(pre.revised_repo(id, payload, now)) is Some,
    ensures
        ({
            let repo = RepoView {
                id,
                language_id: payload.language_id,
                repo_name: payload.repo_name,
                description: payload.description,
                updated_at: Some(now),
            };
            let (outcome, post) = pre.update_repo(id, payload, now);
            &&& outcome == Ok::<Result<RepoView, ErrorView>, Fault>(Ok(repo))
            &&& stores_only_repo(pre, id, repo, post)
        }),
{
}

/// An update of the name that is due a record answers the record under
/// `id` with the new name and the time of the call as its stamp, and every
/// other field as it was. The record is then found under `id`; every other
/// record, and the next identifier, stay as they were.
pub proof fn law_update_repo_name_replaces_the_name(
    pre: StoreState,
    id: u64,
    repo_name: Seq<char>,
    now: u64,
)
    requires
        pre.keyed(),
        pre.repos.contains_key(id),
        repo_name.len() > 0,
        repo_encoding(pre.renamed_repo(id, repo_name, now)) is Some,
    ensures
        ({
            let repo = RepoView {
                id,
                language_id: pre.repos[id].language_id,
                repo_name,
                description: pre.repos[id].description,
                updated_at: Some(now),
            };
            let (outcome, post) = pre.update_repo_name(id, repo_name, now);
            &&& outcome == Ok::<Result<RepoView, ErrorView>, Fault>(Ok(repo))
            &&& stores_only_repo(pre, id, repo, post)
        }),
{
}

/// An update of the description that is due a record answers the record
/// under `id` with the new description and the time of the call as its
/// stamp, and every other field as it was. The record is then found under
/// `id`; every other record, and the next identifier, stay as they were.
pub proof fn law_update_repo_description_replaces_the_description(
    pre: StoreState,
    id: u64,
    description: Seq<char>,
    now: u64,
)
    requires
        pre.keyed(),
        pre.repos.contains_key(id),
        description.len() > 0,
        repo_encoding(pre.redescribed_repo(id, description, now)) is Some,
    ensures
        ({
            let repo = RepoView {
                id,
                language_id: pre.repos[id].language_id,
                repo_name: pre.repos[id].repo_name,
                description,
                updated_at: Some(now),
            };
            let (outcome, post) = pre.update_repo_description(id, description, now);
            &&& outcome == Ok::<Result<RepoView, ErrorView>, Fault>(Ok(repo))
            &&& stores_only_repo(pre, id, repo, post)
        }),
{
}

/// An update of a programming language that is due a record answers the
/// record under `id` with the new name and the time of the call as its
/// stamp. The record is then found under `id`; every other record, and the
/// next identifier, stay as they were.
pub proof fn law_update_language_replaces_the_name(
    pre: StoreState,
    id: u64,
    name: Seq<char>,
    now: u64,
)
    requires
        pre.keyed(),
        pre.languages.contains_key(id),
        name.len() > 0,
        language_encoding(pre.renamed_language(id, name, now)) is Some,
    ensures
        ({
            let language = LanguageView { id, name, updated_at: Some(now) };
            let (outcome, post) = pre.update_language(id, name, now);
            &&& outcome == Ok::<Result<LanguageView, ErrorView>, Fault>(Ok(language))
            &&& stores_only_language(pre, id, language, post)
        }),
{
}

/// The time stamp of an updated record is the time of the call, and so is
/// later than the stamp it replaces wherever the call is later.
pub proof fn law_later_update_has_later_stamp(
    pre: StoreState,
    id: u64,
    payload: RepoPayloadView,
    now: u64,
    before: u64,
)
    requires
        before < now,
    ensures
        pre.repos.contains_key(id) && pre.repos[id].updated_at == Some(before) ==> {
            &&& pre.update_repo(id, payload, now).0 matches Ok(Ok(repo)) ==> (repo.updated_at
                matches Some(after) && before < after)
            &&& pre.update_repo_name(id, payload.repo_name, now).0 matches Ok(Ok(repo)) ==> (
            repo.updated_at matches Some(after) && before < after)
            &&& pre.update_repo_description(id, payload.description, now).0 matches Ok(Ok(repo))
                ==> (repo.updated_at matches Some(after) && before < after)
        },
        pre.languages.contains_key(id) && pre.languages[id].updated_at == Some(before) ==> (
        pre.update_language(id, payload.repo_name, now).0 matches Ok(Ok(language)) ==> (
        language.updated_at matches Some(after) && before < after)),
{
}

/// Every operation of the services keeps the invariant of the view: where
/// every record was stored under its own identifier, and every such
/// identifier had been handed out, the same holds afterwards, whatever the
/// operation came to.
pub proof fn law_services_keep_the_invariant(
    pre: StoreState,
    id: u64,
    payload: RepoPayloadView,
    now: u64,
)
    requires
        pre.inv(),
    ensures
        pre.create_repo(payload, now).1.inv(),
        pre.update_repo(id, payload, now).1.inv(),
        pre.update_repo_name(id, payload.repo_name, now).1.inv(),
        pre.update_repo_description(id, payload.description, now).1.inv(),
        pre.delete_repo(id).1.inv(),
        pre.add_language(payload.repo_name, now).1.inv(),
        pre.update_language(id, payload.repo_name, now).1.inv(),
{
}

/// Storing a record is idempotent: storing it a second time changes
/// nothing.
pub proof fn law_storing_is_idempotent(pre: StoreState, repo: RepoView, language: LanguageView)
    ensures
        pre.with_repo(repo).with_repo(repo) == pre.with_repo(repo),
        pre.with_language(language).with_language(language) == pre.with_language(language),
{
    assert(pre.repos.insert(repo.id, repo).insert(repo.id, repo) =~= pre.repos.insert(
        repo.id,
        repo,
    ));
    assert(pre.languages.insert(language.id, language).insert(language.id, language)
        =~= pre.languages.insert(language.id, language));
}

/// A request with an empty field is turned down, with the message for the
/// first such field, and leaves the store as it was: no identifier is
/// taken, and no record is looked for.
pub proof fn law_invalid_payload_is_turned_down(
    pre: StoreState,
    id: u64,
    payload: RepoPayloadView,
    name: Seq<char>,
    now: u64,
)
    ensures
        payload.repo_name.len() == 0 ==> {
            &&& pre.create_repo(payload, now) == (
                Ok::<Result<RepoView, ErrorView>, Fault>(
                    Err(ErrorView::CreateFail { msg: invalid_repo_name() }),
                ),
                pre,
            )
            &&& pre.update_repo(id, payload, now) == (
                Ok::<Result<RepoView, ErrorView>, Fault>(
                    Err(ErrorView::UpdateFail { msg: invalid_repo_name() }),
                ),
                pre,
            )
            &&& pre.update_repo_name(id, payload.repo_name, now) == (
                Ok::<Result<RepoView, ErrorView>, Fault>(
                    Err(ErrorView::UpdateFail { msg: invalid_repo_name() }),
                ),
                pre,
            )
        },
        payload.repo_name.len() > 0 && payload.description.len() == 0 ==> {
            &&& pre.create_repo(payload, now) == (
                Ok::<Result<RepoView, ErrorView>, Fault>(
                    Err(ErrorView::CreateFail { msg: invalid_description() }),
                ),
                pre,
            )
            &&& pre.update_repo(id, payload, now) == (
                Ok::<Result<RepoView, ErrorView>, Fault>(
                    Err(ErrorView::UpdateFail { msg: invalid_description() }),
                ),
                pre,
            )
        },
        payload.description.len() == 0 ==> pre.update_repo_description(
            id,
            payload.description,
            now,
        ) == (
            Ok::<Result<RepoView, ErrorView>, Fault>(
                Err(ErrorView::UpdateFail { msg: invalid_description() }),
            ),
            pre,
        ),
        name.len() == 0 ==> {
            &&& pre.add_language(name, now) == (
                Ok::<Result<LanguageView, ErrorView>, Fault>(
                    Err(ErrorView::CreateFail { msg: invalid_language_name() }),
                ),
                pre,
            )
            &&& pre.update_language(id, name, now) == (
                Ok::<Result<LanguageView, ErrorView>, Fault>(
                    Err(ErrorView::UpdateFail { msg: invalid_language_name() }),
                ),
                pre,
            )
        },
{
}

/// An update that is turned down, for its payload or for want of the
/// record, leaves the store as it was.
pub proof fn law_refused_update_changes_nothing(
    pre: StoreState,
    id: u64,
    payload: RepoPayloadView,
    now: u64,
)
    ensures
        pre.update_repo(id, payload, now).0 is Ok || pre.update_repo(id, payload, now).1 == pre,
        pre.update_repo(id, payload, now).0 matches Ok(Err(_)) ==> pre.update_repo(
            id,
            payload,
            now,
        ).1 == pre,
        pre.update_repo_name(id, payload.repo_name, now).0 matches Ok(Err(_))
            ==> pre.update_repo_name(id, payload.repo_name, now).1 == pre,
        pre.update_repo_description(id, payload.description, now).0 matches Ok(Err(_))
            ==> pre.update_repo_description(id, payload.description, now).1 == pre,
        pre.update_language(id, payload.repo_name, now).0 matches Ok(Err(_))
            ==> pre.update_language(id, payload.repo_name, now).1 == pre,
{
}

/// A deletion answers the repository that was stored, and a lookup of the
/// same identifier then answers that it is not found. Nothing else
/// changes.
pub proof fn law_deleted_repo_is_gone(pre: StoreState, id: u64)
    requires
        pre.repos.contains_key(id),
    ensures
        pre.delete_repo(id).0 == Ok::<RepoView, ErrorView>(pre.repos[id]),
        pre.delete_repo(id).1.get_repo(id) == Err::<RepoView, ErrorView>(repo_not_found(id)),
        pre.delete_repo(id).1.next_id == pre.next_id,
        pre.delete_repo(id).1.languages == pre.languages,
        forall|other: u64|
            other != id ==> #[trigger] pre.delete_repo(id).1.get_repo(other) == pre.get_repo(
                other,
            ),
{
}

/// A listing of an empty collection is the error for the identifier 0:
/// in a fresh store, both listings are.
pub proof fn law_empty_store_lists_nothing(
    all_repos: Result<Seq<RepoView>, ErrorView>,
    all_languages: Result<Seq<LanguageView>, ErrorView>,
)
    requires
        StoreState::fresh().answers_all_repos(all_repos),
        StoreState::fresh().answers_all_languages(all_languages),
    ensures
        all_repos == Err::<Seq<RepoView>, ErrorView>(repo_not_found(0)),
        all_languages == Err::<Seq<LanguageView>, ErrorView>(language_not_found(0)),
{
    if all_repos is Ok {
        let list = all_repos->Ok_0;
        assert(StoreState::fresh().repos.contains_key(list[0].id));
    }
    if all_languages is Ok {
        let list = all_languages->Ok_0;
        assert(StoreState::fresh().languages.contains_key(list[0].id));
    }
}

/// After a repository was created, the listing of the repositories is a
/// list that holds it.
pub proof fn law_created_repo_is_listed(
    pre: StoreState,
    payload: RepoPayloadView,
    now: u64,
    all_repos: Result<Seq<RepoView>, ErrorView>,
)
    requires
        can_create_repo(pre, payload, now),
        pre.create_repo(payload, now).1.answers_all_repos(all_repos),
    ensures
        all_repos matches Ok(list) && list.len() > 0 && list.contains(pre.new_repo(payload, now)),
{
    let repo = pre.new_repo(payload, now);
    let post = pre.create_repo(payload, now).1;
    assert(post.repos.contains_key(repo.id));
    let list = all_repos->Ok_0;
    let i = choose|i: int| 0 <= i < list.len() && (#[trigger] list[i]).id == repo.id;
    assert(list[i] == repo);
}

/// After a programming language was created, the listing of the languages
/// is a list that holds it.
pub proof fn law_added_language_is_listed(
    pre: StoreState,
    name: Seq<char>,
    now: u64,
    all_languages: Result<Seq<LanguageView>, ErrorView>,
)
    requires
        can_add_language(pre, name, now),
        pre.add_language(name, now).1.answers_all_languages(all_languages),
    ensures
        all_languages matches Ok(list) && list.len() > 0 && list.contains(
            pre.new_language(name, now),
        ),
{
    let language = pre.new_language(name, now);
    let post = pre.add_language(name, now).1;
    assert(post.languages.contains_key(language.id));
    let list = all_languages->Ok_0;
    let i = choose|i: int| 0 <= i < list.len() && (#[trigger] list[i]).id == language.id;
    assert(list[i] == language);
}

/// Two lists of identifiers that go strictly up and have the same members
/// are one list.
pub proof fn lemma_ascending_lists_agree(a: Seq<u64>, b: Seq<u64>)
    requires
        forall|i: int, j: int| 0 <= i < j < a.len() ==> a[i] < a[j],
        forall|i: int, j: int| 0 <= i < j < b.len() ==> b[i] < b[j],
        forall|i: int| 0 <= i < a.len() ==> b.contains(#[trigger] a[i]),
        forall|i: int| 0 <= i < b.len() ==> a.contains(#[trigger] b[i]),
    ensures
        a == b,
    decreases a.len(),
{
    if a.len() == 0 {
        if b.len() > 0 {
            assert(a.contains(b[0]));
        }
        assert(a =~= b);
    } else {
        assert(b.contains(a[0]));
        assert(b.len() > 0);
        let last_a = a.last();
        let last_b = b.last();
        assert(b.contains(last_a));
        assert(a.contains(last_b));
        let ia = choose|i: int| 0 <= i < a.len() && a[i] == last_b;
        let ib = choose|i: int| 0 <= i < b.len() && b[i] == last_a;
        assert(last_a == last_b) by {
            if ia < a.len() - 1 {
                assert(a[ia] < a[a.len() - 1]);
            }
            if ib < b.len() - 1 {
                assert(b[ib] < b[b.len() - 1]);
            }
        }
        let shorter_a = a.drop_last();
        let shorter_b = b.drop_last();
        assert forall|i: int| 0 <= i < shorter_a.len() implies shorter_b.contains(
            #[trigger] shorter_a[i],
        ) by {
            assert(b.contains(a[i]));
            let k = choose|k: int| 0 <= k < b.len() && b[k] == a[i];
            assert(a[i] < a[a.len() - 1]);
            assert(k < b.len() - 1);
            assert(shorter_b[k] == a[i]);
        }
        assert forall|i: int| 0 <= i < shorter_b.len() implies shorter_a.contains(
            #[trigger] shorter_b[i],
        ) by {
            assert(a.contains(b[i]));
            let k = choose|k: int| 0 <= k < a.len() && a[k] == b[i];
            assert(b[i] < b[b.len() - 1]);
            assert(k < a.len() - 1);
            assert(shorter_a[k] == b[i]);
        }
        lemma_ascending_lists_agree(shorter_a, shorter_b);
        assert(a =~= shorter_a.push(last_a));
        assert(b =~= shorter_b.push(last_b));
    }
}

/// A collection has one listing: two lists that hold every repository of
/// the same collection once, in ascending order, are equal.
pub proof fn law_repos_have_one_listing(
    repos: Map<u64, RepoView>,
    one: Seq<RepoView>,
    other: Seq<RepoView>,
)
    requires
        lists_repos(repos, one),
        lists_repos(repos, other),
    ensures
        one == other,
{
    let a = one.map_values(|repo: RepoView| repo.id);
    let b = other.map_values(|repo: RepoView| repo.id);
    assert forall|i: int| 0 <= i < a.len() implies b.contains(#[trigger] a[i]) by {
        assert(repos.contains_key(one[i].id));
        let k = choose|k: int| 0 <= k < other.len() && (#[trigger] other[k]).id == one[i].id;
        assert(b[k] == a[i]);
    }
    assert forall|i: int| 0 <= i < b.len() implies a.contains(#[trigger] b[i]) by {
        assert(repos.contains_key(other[i].id));
        let k = choose|k: int| 0 <= k < one.len() && (#[trigger] one[k]).id == other[i].id;
        assert(a[k] == b[i]);
    }
    assert forall|i: int, j: int| 0 <= i < j < a.len() implies a[i] < a[j] by {
        assert(one[i].id < one[j].id);
    }
    assert forall|i: int, j: int| 0 <= i < j < b.len() implies b[i] < b[j] by {
        assert(other[i].id < other[j].id);
    }
    lemma_ascending_lists_agree(a, b);
    assert(one.len() == a.len() && other.len() == b.len());
    assert forall|i: int| 0 <= i < one.len() implies one[i] == other[i] by {
        assert(a[i] == b[i]);
        assert(repos[one[i].id] == one[i]);
        assert(repos[other[i].id] == other[i]);
    }
    assert(one =~= other);
}

/// A collection has one listing: two lists that hold every programming
/// language of the same collection once, in ascending order, are equal.
pub proof fn law_languages_have_one_listing(
    languages: Map<u64, LanguageView>,
    one: Seq<LanguageView>,
    other: Seq<LanguageView>,
)
    requires
        lists_languages(languages, one),
        lists_languages(languages, other),
    ensures
        one == other,
{
    let a = one.map_values(|language: LanguageView| language.id);
    let b = other.map_values(|language: LanguageView| language.id);
    assert forall|i: int| 0 <= i < a.len() implies b.contains(#[trigger] a[i]) by {
        assert(languages.contains_key(one[i].id));
        let k = choose|k: int| 0 <= k < other.len() && (#[trigger] other[k]).id == one[i].id;
        assert(b[k] == a[i]);
    }
    assert forall|i: int| 0 <= i < b.len() implies a.contains(#[trigger] b[i]) by {
        assert(languages.contains_key(other[i].id));
        let k = choose|k: int| 0 <= k < one.len() && (#[trigger] one[k]).id == other[i].id;
        assert(a[k] == b[i]);
    }
    assert forall|i: int, j: int| 0 <= i < j < a.len() implies a[i] < a[j] by {
        assert(one[i].id < one[j].id);
    }
    assert forall|i: int, j: int| 0 <= i < j < b.len() implies b[i] < b[j] by {
        assert(other[i].id < other[j].id);
    }
    lemma_ascending_lists_agree(a, b);
    assert(one.len() == a.len() && other.len() == b.len());
    assert forall|i: int| 0 <= i < one.len() implies one[i] == other[i] by {
        assert(a[i] == b[i]);
        assert(languages[one[i].id] == one[i]);
        assert(languages[other[i].id] == other[i]);
    }
    assert(one =~= other);
}

} // verus!
