//! The records the store keeps, the payloads that create and update them,
//! and the errors the services answer with.

use vstd::prelude::*;

verus! {

/// A software repository.
#[derive(Clone, Debug, PartialEq, Eq)]
pub struct Repo {
    /// Unique, and fixed once assigned.
    pub id: u64,
    /// The language the repository is tagged with. Not checked against the
    /// stored languages.
    pub language_id: u64,
    pub repo_name: String,
    pub description: String,
    /// When the record was last written, in nanoseconds.
    pub updated_at: Option<u64>,
}

/// A programming language.
#[derive(Clone, Debug, PartialEq, Eq)]
pub struct ProgrammingLanguage {
    /// Unique, and fixed once assigned.
    pub id: u64,
    pub name: String,
    /// When the record was last written, in nanoseconds.
    pub updated_at: Option<u64>,
}

/// The fields of a repository that a caller chooses.
#[derive(Clone, Debug, PartialEq, Eq)]
pub struct RepoPayload {
    pub language_id: u64,
    pub repo_name: String,
    pub description: String,
}

/// The fields of a programming language that a caller chooses.
#[derive(Clone, Debug, PartialEq, Eq)]
pub struct ProgrammingLanguagePayload {
    pub name: String,
}

/// What a service answers when it turns a request down.
#[derive(Clone, Debug, PartialEq, Eq)]
pub enum Error {
    /// No record of kind `entity` is stored under `id`; with `id` 0, also
    /// the answer to a listing of an empty collection.
    NotFound { entity: String, id: u64 },
    /// A payload for a new record has an invalid field; `msg` names it.
    CreateFail { msg: String },
    /// A payload for an update has an invalid field; `msg` names it.
    UpdateFail { msg: String },
}

/// Why an operation could not be carried out at all. These are not answers
/// to the caller: the store is left as it was, and the host is expected to
/// abort the call.
#[derive(Clone, Copy, Debug, PartialEq, Eq, Structural)]
pub enum Fault {
    /// The record has no encoding, or one longer than the stored maximum.
    NotStorable,
    /// Every identifier has been handed out.
    IdsExhausted,
    /// The advanced counter could not be written to durable memory.
    CounterNotSaved,
    /// The durable memory holds no usable counter.
    NoCounter,
    /// A stored value is not the stored form of a record with that key.
    Corrupt,
}

/// A [`Repo`] as a mathematical value.
pub struct RepoView {
    pub id: u64,
    pub language_id: u64,
    pub repo_name: Seq<char>,
    pub description: Seq<char>,
    pub updated_at: Option<u64>,
}

/// A [`ProgrammingLanguage`] as a mathematical value.
pub struct LanguageView {
    pub id: u64,
    pub name: Seq<char>,
    pub updated_at: Option<u64>,
}

/// A [`RepoPayload`] as a mathematical value.
pub struct RepoPayloadView {
    pub language_id: u64,
    pub repo_name: Seq<char>,
    pub description: Seq<char>,
}

/// An [`Error`] as a mathematical value.
pub enum ErrorView {
    NotFound { entity: Seq<char>, id: u64 },
    CreateFail { msg: Seq<char> },
    UpdateFail { msg: Seq<char> },
}

impl View for Repo {
    type V = RepoView;

    open spec fn view(&self) -> RepoView {
        RepoView {
            id: self.id,
            language_id: self.language_id,
            repo_name: self.repo_name@,
            description: self.description@,
            updated_at: self.updated_at,
        }
    }
}

impl View for ProgrammingLanguage {
    type V = LanguageView;

    open spec fn view(&self) -> LanguageView {
        LanguageView { id: self.id, name: self.name@, updated_at: self.updated_at }
    }
}

impl View for RepoPayload {
    type V = RepoPayloadView;

    open spec fn view(&self) -> RepoPayloadView {
        RepoPayloadView {
            language_id: self.language_id,
            repo_name: self.repo_name@,
            description: self.description@,
        }
    }
}

impl View for ProgrammingLanguagePayload {
    type V = Seq<char>;

    open spec fn view(&self) -> Seq<char> {
        self.name@
    }
}

impl View for Error {
    type V = ErrorView;

    open spec fn view(&self) -> ErrorView {
        match self {
            Error::NotFound { entity, id } => ErrorView::NotFound { entity: entity@, id: *id },
            Error::CreateFail { msg } => ErrorView::CreateFail { msg: msg@ },
            Error::UpdateFail { msg } => ErrorView::UpdateFail { msg: msg@ },
        }
    }
}

/// The kind name under which repositories are reported missing.
pub open spec fn repo_kind() -> Seq<char> {
    "Repo"@
}

/// The kind name under which programming languages are reported missing.
pub open spec fn language_kind() -> Seq<char> {
    "ProgrammingLanguage"@
}

/// The message for an empty repository name.
pub open spec fn invalid_repo_name() -> Seq<char> {
    "Invalid repo name"@
}

/// The message for an empty description.
pub open spec fn invalid_description() -> Seq<char> {
    "Invalid description"@
}

/// The message for an empty name of a programming language.
pub open spec fn invalid_language_name() -> Seq<char> {
    "Invalid language name"@
}

/// The views of an answer that carries a repository.
pub open spec fn repo_reply(reply: Result<Repo, Error>) -> Result<RepoView, ErrorView> {
    match reply {
        Ok(repo) => Ok(repo@),
        Err(error) => Err(error@),
    }
}

/// The views of an answer that carries a programming language.
pub open spec fn language_reply(reply: Result<ProgrammingLanguage, Error>) -> Result<
    LanguageView,
    ErrorView,
> {
    match reply {
        Ok(language) => Ok(language@),
        Err(error) => Err(error@),
    }
}

/// The views of a list of repositories, in the list's order.
pub open spec fn repo_views(repos: Seq<Repo>) -> Seq<RepoView> {
    repos.map_values(|repo: Repo| repo@)
}

/// The views of a list of programming languages, in the list's order.
pub open spec fn language_views(languages: Seq<ProgrammingLanguage>) -> Seq<LanguageView> {
    languages.map_values(|language: ProgrammingLanguage| language@)
}

impl Default for Repo {
    /// The repository with the identifier 0, empty texts and no time stamp.
    fn default() -> (repo: Repo)
        ensures
            repo@ == (RepoView {
                id: 0,
                language_id: 0,
                repo_name: Seq::empty(),
                description: Seq::empty(),
                updated_at: None,
            }),
    {
        Repo {
            id: 0,
            language_id: 0,
            repo_name: String::new(),
            description: String::new(),
            updated_at: None,
        }
    }
}

impl Default for ProgrammingLanguage {
    /// The programming language with the identifier 0, an empty name and no
    /// time stamp.
    fn default() -> (language: ProgrammingLanguage)
        ensures
            language@ == (LanguageView { id: 0, name: Seq::empty(), updated_at: None }),
    {
        ProgrammingLanguage { id: 0, name: String::new(), updated_at: None }
    }
}

impl Default for RepoPayload {
    /// The payload with the language 0 and empty texts.
    fn default() -> (payload: RepoPayload)
        ensures
            payload@ == (RepoPayloadView {
                language_id: 0,
                repo_name: Seq::empty(),
                description: Seq::empty(),
            }),
    {
        RepoPayload { language_id: 0, repo_name: String::new(), description: String::new() }
    }
}

impl Default for ProgrammingLanguagePayload {
    /// The payload with an empty name.
    fn default() -> (payload: ProgrammingLanguagePayload)
        ensures
            payload@ == Seq::<char>::empty(),
    {
        ProgrammingLanguagePayload { name: String::new() }
    }
}

impl Error {
    /// The error for a record of kind `entity` that is not stored under `id`.
    pub fn not_found(entity: &str, id: u64) -> (error: Error)
        ensures
            error@ == (ErrorView::NotFound { entity: entity@, id }),
    {
        Error::NotFound { entity: entity.to_owned(), id }
    }

    /// The error for a new record's payload with an invalid field.
    pub fn create_fail(msg: &str) -> (error: Error)
        ensures
            error@ == (ErrorView::CreateFail { msg: msg@ }),
    {
        Error::CreateFail { msg: msg.to_owned() }
    }

    /// The error for an update's payload with an invalid field.
    pub fn update_fail(msg: &str) -> (error: Error)
        ensures
            error@ == (ErrorView::UpdateFail { msg: msg@ }),
    {
        Error::UpdateFail { msg: msg.to_owned() }
    }
}

} // verus!
