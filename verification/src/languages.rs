//! The language service: create, read and update over the programming
//! languages of a [`Store`]. Languages are never deleted. A name is invalid
//! exactly when it is empty; it is not trimmed.
//!
//! What each operation answers and leaves behind is a function of the
//! store's view, the request and the time, written out on [`StoreState`].

use crate::codec::{encode_language, language_encoding};
use crate::entity::{
    invalid_language_name, language_kind, language_reply, language_views, Error, ErrorView,
    Fault, LanguageView, ProgrammingLanguage, ProgrammingLanguagePayload,
};
use crate::store::{
    _all_languages, _get_language, do_insert_language, lists_languages, write_language, Store,
    StoreState,
};
use vstd::prelude::*;

verus! {

/// What a language operation comes to: the record or the error answered,
/// or the fault that stopped it.
pub type LanguageOutcome = Result<Result<LanguageView, ErrorView>, Fault>;

/// The views of what a language operation returned.
pub open spec fn language_outcome(
    returned: Result<Result<ProgrammingLanguage, Error>, Fault>,
) -> LanguageOutcome {
    match returned {
        Ok(Ok(language)) => Ok(Ok(language@)),
        Ok(Err(error)) => Ok(Err(error@)),
        Err(fault) => Err(fault),
    }
}

/// The views of the answer to a listing of the programming languages.
pub open spec fn language_list_reply(reply: Result<Vec<ProgrammingLanguage>, Error>) -> Result<
    Seq<LanguageView>,
    ErrorView,
> {
    match reply {
        Ok(list) => Ok(language_views(list@)),
        Err(error) => Err(error@),
    }
}

/// The error for a programming language that is not stored under `id`.
pub open spec fn language_not_found(id: u64) -> ErrorView {
    ErrorView::NotFound { entity: language_kind(), id }
}

impl StoreState {
    /// The answer to a lookup of the programming language under `id`.
    pub open spec fn get_language(self, id: u64) -> Result<LanguageView, ErrorView> {
        if self.languages.contains_key(id) {
            Ok(self.languages[id])
        } else {
            Err(language_not_found(id))
        }
    }

    /// Whether `reply` is the answer to a listing of the programming
    /// languages: all of them in ascending order of the identifiers, or,
    /// where there is none, the error for the identifier 0.
    pub open spec fn answers_all_languages(
        self,
        reply: Result<Seq<LanguageView>, ErrorView>,
    ) -> bool {
        match reply {
            Ok(list) => list.len() > 0 && lists_languages(self.languages, list),
            Err(error) => error == language_not_found(0) && forall|key: u64|
                !self.languages.contains_key(key),
        }
    }

    /// The programming language that a creation makes of a name at time
    /// `now`.
    pub open spec fn new_language(self, name: Seq<char>, now: u64) -> LanguageView {
        LanguageView { id: self.next_id, name, updated_at: Some(now) }
    }

    /// The programming language under `id` with another name.
    pub open spec fn renamed_language(self, id: u64, name: Seq<char>, now: u64) -> LanguageView {
        LanguageView { name, updated_at: Some(now), ..self.languages[id] }
    }

    /// What a creation comes to. An empty name is turned down before an
    /// identifier is taken.
    pub open spec fn add_language(self, name: Seq<char>, now: u64) -> (
        LanguageOutcome,
        StoreState,
    ) {
        let language = self.new_language(name, now);
        if name.len() == 0 {
            (Ok(Err(ErrorView::CreateFail { msg: invalid_language_name() })), self)
        } else if language_encoding(language) is None {
            (Err(Fault::NotStorable), self)
        } else if self.next_id == u64::MAX {
            (Err(Fault::IdsExhausted), self)
        } else {
            (Ok(Ok(language)), self.advanced().with_language(language))
        }
    }

    /// What an update comes to. An empty name is turned down before the
    /// record is looked for.
    pub open spec fn update_language(self, id: u64, name: Seq<char>, now: u64) -> (
        LanguageOutcome,
        StoreState,
    ) {
        if name.len() == 0 {
            (Ok(Err(ErrorView::UpdateFail { msg: invalid_language_name() })), self)
        } else if self.languages.contains_key(id) {
            let language = self.renamed_language(id, name, now);
            if language_encoding(language) is None {
                (Err(Fault::NotStorable), self)
            } else {
                (Ok(Ok(language)), self.with_language(language))
            }
        } else {
            (Ok(Err(language_not_found(id))), self)
        }
    }
}

/// The programming language stored under `id`, or `NotFound` for the kind
/// `ProgrammingLanguage`.
pub fn get_language(store: &Store, id: u64) -> (reply: Result<ProgrammingLanguage, Error>)
    requires
        store.wf(),
    ensures
        language_reply(reply) == store@.get_language(id),
{
    match _get_language(store, &id) {
        Some(language) => Ok(language),
        None => Err(Error::not_found("ProgrammingLanguage", id)),
    }
}

/// Every programming language, in ascending order of the identifiers, or
/// `NotFound` for the kind `ProgrammingLanguage` and the identifier 0 where
/// there is none.
pub fn get_all_languages(store: &Store) -> (reply: Result<Vec<ProgrammingLanguage>, Error>)
    requires
        store.wf(),
    ensures
        store@.answers_all_languages(language_list_reply(reply)),
{
    let list = _all_languages(store);
    if list.len() > 0 {
        Ok(list)
    } else {
        Err(Error::not_found("ProgrammingLanguage", 0))
    }
}

/// Creates a programming language of a payload, stamped with the time
/// `now`: checks the payload, takes the next identifier, and stores the new
/// record.
pub fn add_language(
    store: &mut Store,
    payload: ProgrammingLanguagePayload,
    now: u64,
) -> (returned: Result<Result<ProgrammingLanguage, Error>, Fault>)
    requires
        old(store).wf(),
    ensures
        final(store).wf(),
        (language_outcome(returned), final(store)@) == old(store)@.add_language(payload@, now),
{
    if payload.name.as_str().is_empty() {
        return Ok(Err(Error::create_fail("Invalid language name")));
    }
    let language = ProgrammingLanguage {
        id: store.peek_id(),
        name: payload.name,
        updated_at: Some(now),
    };
    match encode_language(&language) {
        Some(bytes) => match store.next_id() {
            Ok(_) => {
                write_language(store, &language, &bytes);
                Ok(Ok(language))
            },
            Err(fault) => Err(fault),
        },
        None => Err(Fault::NotStorable),
    }
}

/// Replaces the name of the programming language under `id`, stamped with
/// the time `now`.
pub fn update_language(
    store: &mut Store,
    id: u64,
    payload: ProgrammingLanguagePayload,
    now: u64,
) -> (returned: Result<Result<ProgrammingLanguage, Error>, Fault>)
    requires
        old(store).wf(),
    ensures
        final(store).wf(),
        (language_outcome(returned), final(store)@) == old(store)@.update_language(
            id,
            payload@,
            now,
        ),
{
    if payload.name.as_str().is_empty() {
        return Ok(Err(Error::update_fail("Invalid language name")));
    }
    match _get_language(store, &id) {
        Some(mut language) => {
            language.name = payload.name;
            language.updated_at = Some(now);
            match do_insert_language(store, &language) {
                Ok(_) => Ok(Ok(language)),
                Err(fault) => Err(fault),
            }
        },
        None => Ok(Err(Error::not_found("ProgrammingLanguage", id))),
    }
}

} // verus!
