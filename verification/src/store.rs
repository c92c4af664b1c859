//! The store: one identifier counter and two collections, each in a region
//! of its own of one durable memory.
//!
//! The store is seen through its view, a [`StoreState`]: the next identifier
//! and two maps from identifier to record. What the collections hold in
//! memory are the records' stored forms; a store is well formed when every
//! stored value is the stored form of a record that carries its own key.
//! That every key has been handed out by the counter is a predicate of
//! its own, [`StoreState::issued`], which the services keep.

use crate::codec::{
    decode_language, decode_repo, encode_language, encode_repo, language_decoding,
    language_encoding, repo_decoding, repo_encoding, MAX_ENTITY_SIZE,
};
use crate::durable::{
    cell_tag, cell_value, map_contents, map_tag, ByteMap, IdCell, Partitioner,
};
use crate::entity::{
    language_views, repo_views, Fault, LanguageView, ProgrammingLanguage, Repo, RepoView,
};
use vstd::prelude::*;

verus! {

/// The tag of the region that holds the identifier counter.
pub const COUNTER_REGION: u8 = 0;

/// The tag of the region that holds the repositories.
pub const REPO_REGION: u8 = 1;

/// The tag of the region that holds the programming languages.
pub const LANGUAGE_REGION: u8 = 2;

/// The identifier counter and the two collections.
pub struct Store {
    counter: IdCell,
    repos: ByteMap,
    languages: ByteMap,
}

/// A [`Store`] as a mathematical value.
pub struct StoreState {
    /// The identifier that the next creation is given.
    pub next_id: u64,
    pub repos: Map<u64, RepoView>,
    pub languages: Map<u64, LanguageView>,
}

/// The repositories that a collection's stored values stand for.
pub open spec fn stored_repos(contents: Map<u64, Seq<u8>>) -> Map<u64, RepoView> {
    Map::new(
        |key: u64| contents.contains_key(key),
        |key: u64| repo_decoding(contents[key]).unwrap(),
    )
}

/// The programming languages that a collection's stored values stand for.
pub open spec fn stored_languages(contents: Map<u64, Seq<u8>>) -> Map<u64, LanguageView> {
    Map::new(
        |key: u64| contents.contains_key(key),
        |key: u64| language_decoding(contents[key]).unwrap(),
    )
}

/// The value is the stored form of a repository that carries `key`.
pub open spec fn repo_entry_sound(key: u64, value: Seq<u8>) -> bool {
    repo_decoding(value) matches Some(repo) && repo.id == key
}

/// The value is the stored form of a programming language that carries
/// `key`.
pub open spec fn language_entry_sound(key: u64, value: Seq<u8>) -> bool {
    language_decoding(value) matches Some(language) && language.id == key
}

/// Every stored value is the stored form of a repository that carries its
/// key.
pub open spec fn repos_sound(contents: Map<u64, Seq<u8>>) -> bool {
    forall|key: u64| #[trigger]
        contents.contains_key(key) ==> repo_entry_sound(key, contents[key])
}

/// Every stored value is the stored form of a programming language that
/// carries its key.
pub open spec fn languages_sound(contents: Map<u64, Seq<u8>>) -> bool {
    forall|key: u64| #[trigger]
        contents.contains_key(key) ==> language_entry_sound(key, contents[key])
}

/// `list` holds every repository of `repos` once, in ascending order of the
/// identifiers.
pub open spec fn lists_repos(repos: Map<u64, RepoView>, list: Seq<RepoView>) -> bool {
    &&& forall|i: int|
        0 <= i < list.len() ==> repos.contains_key((#[trigger] list[i]).id) && repos[list[i].id]
            == list[i]
    &&& forall|i: int, j: int|
        0 <= i < j < list.len() ==> (#[trigger] list[i]).id < (#[trigger] list[j]).id
    &&& forall|key: u64| #[trigger]
        repos.contains_key(key) ==> exists|i: int|
            0 <= i < list.len() && (#[trigger] list[i]).id == key
}

/// `list` holds every programming language of `languages` once, in
/// ascending order of the identifiers.
pub open spec fn lists_languages(
    languages: Map<u64, LanguageView>,
    list: Seq<LanguageView>,
) -> bool {
    &&& forall|i: int|
        0 <= i < list.len() ==> languages.contains_key((#[trigger] list[i]).id)
            && languages[list[i].id] == list[i]
    &&& forall|i: int, j: int|
        0 <= i < j < list.len() ==> (#[trigger] list[i]).id < (#[trigger] list[j]).id
    &&& forall|key: u64| #[trigger]
        languages.contains_key(key) ==> exists|i: int|
            0 <= i < list.len() && (#[trigger] list[i]).id == key
}

impl StoreState {
    /// The store before anything was created in it.
    pub open spec fn fresh() -> StoreState {
        StoreState { next_id: 0, repos: Map::empty(), languages: Map::empty() }
    }

    /// Every record is stored under its own identifier.
    pub open spec fn keyed(self) -> bool {
        &&& forall|key: u64| #[trigger] self.repos.contains_key(key) ==> self.repos[key].id == key
        &&& forall|key: u64| #[trigger]
            self.languages.contains_key(key) ==> self.languages[key].id == key
    }

    /// Every identifier under which a record is stored has been handed out:
    /// it is below the next one.
    pub open spec fn issued(self) -> bool {
        &&& forall|key: u64| #[trigger] self.repos.contains_key(key) ==> key < self.next_id
        &&& forall|key: u64| #[trigger] self.languages.contains_key(key) ==> key < self.next_id
    }

    /// Every record is stored under its own identifier, and every such
    /// identifier has been handed out.
    pub open spec fn inv(self) -> bool {
        self.keyed() && self.issued()
    }

    /// The store after one identifier was handed out.
    pub open spec fn advanced(self) -> StoreState
        recommends
            self.next_id < u64::MAX,
    {
        StoreState { next_id: (self.next_id + 1) as u64, ..self }
    }

    /// The store with `repo` stored under its identifier.
    pub open spec fn with_repo(self, repo: RepoView) -> StoreState {
        StoreState { repos: self.repos.insert(repo.id, repo), ..self }
    }

    /// The store with `language` stored under its identifier.
    pub open spec fn with_language(self, language: LanguageView) -> StoreState {
        StoreState { languages: self.languages.insert(language.id, language), ..self }
    }

    /// The store without the repository under `id`.
    pub open spec fn without_repo(self, id: u64) -> StoreState {
        StoreState { repos: self.repos.remove(id), ..self }
    }
}

impl View for Store {
    type V = StoreState;

    closed spec fn view(&self) -> StoreState {
        StoreState {
            next_id: cell_value(self.counter),
            repos: stored_repos(map_contents(self.repos)),
            languages: stored_languages(map_contents(self.languages)),
        }
    }
}

impl Store {
    /// What is in durable memory stands for the view, value by value.
    pub closed spec fn sound(&self) -> bool {
        &&& repos_sound(map_contents(self.repos))
        &&& languages_sound(map_contents(self.languages))
    }

    /// The tags of the regions that hold the counter, the repositories and
    /// the programming languages, in this order.
    pub closed spec fn regions(&self) -> (u8, u8, u8) {
        (cell_tag(self.counter), map_tag(self.repos), map_tag(self.languages))
    }

    /// The store is well formed: the counter is in region 0, the
    /// repositories are in region 1 and the programming languages in region
    /// 2, what is in durable memory stands for the view, and every record of
    /// the view is stored under its own identifier.
    pub open spec fn wf(&self) -> bool {
        &&& self.regions() == (COUNTER_REGION, REPO_REGION, LANGUAGE_REGION)
        &&& self.sound()
        &&& self@.keyed()
    }

    /// The stored forms of the repositories, as durable memory holds them.
    pub closed spec fn repo_bytes(&self) -> Map<u64, Seq<u8>> {
        map_contents(self.repos)
    }

    /// The stored forms of the programming languages, as durable memory
    /// holds them.
    pub closed spec fn language_bytes(&self) -> Map<u64, Seq<u8>> {
        map_contents(self.languages)
    }

    /// What a sound store holds in durable memory is, key by key, a stored
    /// form of the record in its view: no longer than the size bound, and
    /// decoding to that record.
    pub proof fn law_stored_forms_are_bounded(&self)
        requires
            self.sound(),
        ensures
            self.repo_bytes().dom() == self@.repos.dom(),
            self.language_bytes().dom() == self@.languages.dom(),
            forall|key: u64| #[trigger]
                self@.repos.contains_key(key) ==> {
                    &&& self.repo_bytes()[key].len() <= MAX_ENTITY_SIZE
                    &&& repo_decoding(self.repo_bytes()[key]) == Some(self@.repos[key])
                },
            forall|key: u64| #[trigger]
                self@.languages.contains_key(key) ==> {
                    &&& self.language_bytes()[key].len() <= MAX_ENTITY_SIZE
                    &&& language_decoding(self.language_bytes()[key]) == Some(
                        self@.languages[key],
                    )
                },
    {
        assert(self.repo_bytes().dom() =~= self@.repos.dom());
        assert(self.language_bytes().dom() =~= self@.languages.dom());
        assert forall|key: u64| #[trigger] self@.repos.contains_key(key) implies {
            &&& self.repo_bytes()[key].len() <= MAX_ENTITY_SIZE
            &&& repo_decoding(self.repo_bytes()[key]) == Some(self@.repos[key])
        } by {
            assert(map_contents(self.repos).contains_key(key));
        }
        assert forall|key: u64| #[trigger] self@.languages.contains_key(key) implies {
            &&& self.language_bytes()[key].len() <= MAX_ENTITY_SIZE
            &&& language_decoding(self.language_bytes()[key]) == Some(self@.languages[key])
        } by {
            assert(map_contents(self.languages).contains_key(key));
        }
    }

    /// Opens the store that the process's durable memory holds: the counter
    /// in region 0 with 0 as its first value, the repositories in region 1,
    /// the programming languages in region 2. The stored values are checked
    /// one by one, and a store is returned only where each is the stored
    /// form of a record under its own key.
    ///
    /// With the store comes whether the three regions were blank, that is,
    /// held nothing yet: the store is then the fresh one.
    ///
    /// A process opens one store, once. On a canister the durable memory is
    /// the one stable memory, and a second store over it would write under
    /// the first: what is stated of either would no longer hold.
    ///
    /// Memory laid out by other means than this store is beyond what is
    /// verified here: on it, the structures underneath may abort.
    pub fn init() -> (opened: Result<(Store, bool), Fault>)
        ensures
            match opened {
                Ok((store, blank)) => store.wf() && (blank ==> store@ == StoreState::fresh()),
                Err(fault) => fault == Fault::NoCounter || fault == Fault::Corrupt,
            },
    {
        let partitioner = Partitioner::open();
        let counter_region = partitioner.region(COUNTER_REGION);
        let repo_region = partitioner.region(REPO_REGION);
        let language_region = partitioner.region(LANGUAGE_REGION);
        let blank = counter_region.pages() == 0 && repo_region.pages() == 0
            && language_region.pages() == 0;
        match IdCell::init(counter_region, 0) {
            Some(counter) => {
                let repos = ByteMap::init(repo_region);
                let languages = ByteMap::init(language_region);
                match Store::assemble(counter, repos, languages) {
                    Ok(store) => {
                        assert(blank ==> store@.repos =~= StoreState::fresh().repos
                            && store@.languages =~= StoreState::fresh().languages);
                        Ok((store, blank))
                    },
                    Err(fault) => Err(fault),
                }
            },
            None => Err(Fault::NoCounter),
        }
    }

    /// Makes a store of a counter and two collections, if what the
    /// collections hold is sound.
    fn assemble(counter: IdCell, repos: ByteMap, languages: ByteMap) -> (made: Result<Store, Fault>)
        requires
            cell_tag(counter) == COUNTER_REGION,
            map_tag(repos) == REPO_REGION,
            map_tag(languages) == LANGUAGE_REGION,
        ensures
            match made {
                Ok(store) => store.wf() && store@ == (StoreState {
                    next_id: cell_value(counter),
                    repos: stored_repos(map_contents(repos)),
                    languages: stored_languages(map_contents(languages)),
                }),
                Err(fault) => fault == Fault::Corrupt,
            },
            made is Ok <==> repos_sound(map_contents(repos)) && languages_sound(
                map_contents(languages),
            ),
    {
        if repos_are_sound(&repos) && languages_are_sound(&languages) {
            Ok(Store { counter, repos, languages })
        } else {
            Err(Fault::Corrupt)
        }
    }

    /// The identifier that the next allocation hands out.
    pub fn peek_id(&self) -> (id: u64)
        ensures
            id == self@.next_id,
    {
        self.counter.get()
    }

    /// Whether every identifier under which a record is stored has been
    /// handed out.
    pub fn ids_issued(&self) -> (issued: bool)
        requires
            self.wf(),
        ensures
            issued == self@.issued(),
    {
        let next_id = self.counter.get();
        let issued = keys_below(&self.repos, next_id) && keys_below(&self.languages, next_id);
        proof {
            if issued {
                assert forall|key: u64| #[trigger] self@.repos.contains_key(key) implies key
                    < self@.next_id by {
                    assert(map_contents(self.repos).contains_key(key));
                }
                assert forall|key: u64| #[trigger] self@.languages.contains_key(key) implies key
                    < self@.next_id by {
                    assert(map_contents(self.languages).contains_key(key));
                }
            } else if !all_below(map_contents(self.repos), next_id) {
                let key = choose|key: u64| #[trigger]
                    map_contents(self.repos).contains_key(key) && key >= next_id;
                assert(self@.repos.contains_key(key));
            } else {
                let key = choose|key: u64| #[trigger]
                    map_contents(self.languages).contains_key(key) && key >= next_id;
                assert(self@.languages.contains_key(key));
            }
        }
        issued
    }

    /// Hands out the next identifier: reads the counter, writes the counter
    /// advanced by one to durable memory, and returns the value read. No
    /// identifier is handed out twice; after the last one, nothing is
    /// handed out and nothing changes.
    pub fn next_id(&mut self) -> (issued: Result<u64, Fault>)
        requires
            old(self).wf(),
        ensures
            final(self).wf(),
            issued == (if old(self)@.next_id == u64::MAX {
                Err::<u64, Fault>(Fault::IdsExhausted)
            } else {
                Ok(old(self)@.next_id)
            }),
            final(self)@ == (if issued is Ok {
                old(self)@.advanced()
            } else {
                old(self)@
            }),
    {
        let current = self.counter.get();
        match next_counter(current) {
            Ok(next) => {
                let written = self.counter.set(next);
                issued_id(current, written)
            },
            Err(fault) => Err(fault),
        }
    }
}

/// Every key of a collection is below `bound`.
pub open spec fn all_below(contents: Map<u64, Seq<u8>>, bound: u64) -> bool {
    forall|key: u64| #[trigger] contents.contains_key(key) ==> key < bound
}

/// The counter after `current`, or the fault that there is none.
pub fn next_counter(current: u64) -> (next: Result<u64, Fault>)
    ensures
        next == (if current == u64::MAX {
            Err::<u64, Fault>(Fault::IdsExhausted)
        } else {
            Ok((current + 1) as u64)
        }),
{
    if current == u64::MAX {
        Err(Fault::IdsExhausted)
    } else {
        Ok(current + 1)
    }
}

/// What an allocation comes to, given the counter's value before it and
/// what the write of the advanced counter returned: the value read where
/// the write went through, a fault where it did not.
pub fn issued_id(current: u64, written: Option<u64>) -> (issued: Result<u64, Fault>)
    ensures
        issued == (match written {
            Some(_) => Ok::<u64, Fault>(current),
            None => Err(Fault::CounterNotSaved),
        }),
{
    match written {
        Some(_) => Ok(current),
        None => Err(Fault::CounterNotSaved),
    }
}

/// Whether `bytes` are the stored form of a repository that carries `key`.
pub fn holds_repo(key: u64, bytes: &Vec<u8>) -> (sound: bool)
    ensures
        sound == repo_entry_sound(key, bytes@),
{
    match decode_repo(bytes) {
        Some(repo) => repo.id == key,
        None => false,
    }
}

/// Whether `bytes` are the stored form of a programming language that
/// carries `key`.
pub fn holds_language(key: u64, bytes: &Vec<u8>) -> (sound: bool)
    ensures
        sound == language_entry_sound(key, bytes@),
{
    match decode_language(bytes) {
        Some(language) => language.id == key,
        None => false,
    }
}

/// The repository stored under `id`, if there is one.
pub fn _get_repo(store: &Store, id: &u64) -> (found: Option<Repo>)
    requires
        store.wf(),
    ensures
        match found {
            Some(repo) => store@.repos.contains_key(*id) && store@.repos[*id] == repo@,
            None => !store@.repos.contains_key(*id),
        },
{
    match store.repos.get(*id) {
        Some(bytes) => {
            let repo = decode_repo(&bytes);
            assert(repo_entry_sound(*id, bytes@));
            repo
        },
        None => None,
    }
}

/// The programming language stored under `id`, if there is one.
pub fn _get_language(store: &Store, id: &u64) -> (found: Option<ProgrammingLanguage>)
    requires
        store.wf(),
    ensures
        match found {
            Some(language) => store@.languages.contains_key(*id) && store@.languages[*id]
                == language@,
            None => !store@.languages.contains_key(*id),
        },
{
    match store.languages.get(*id) {
        Some(bytes) => {
            let language = decode_language(&bytes);
            assert(language_entry_sound(*id, bytes@));
            language
        },
        None => None,
    }
}

/// Stores `repo` under its identifier: inserts it, or puts it in place of
/// what was stored there. Nothing else changes, and a second call with the
/// same repository changes nothing. A repository without a stored form is
/// turned down, and the store is left as it was.
pub fn do_insert_repo(store: &mut Store, repo: &Repo) -> (put: Result<(), Fault>)
    requires
        old(store).wf(),
    ensures
        final(store).wf(),
        put == (if repo_encoding(repo@) is None {
            Err::<(), Fault>(Fault::NotStorable)
        } else {
            Ok(())
        }),
        final(store)@ == (if put is Ok {
            old(store)@.with_repo(repo@)
        } else {
            old(store)@
        }),
{
    match encode_repo(repo) {
        Some(bytes) => {
            write_repo(store, repo, &bytes);
            Ok(())
        },
        None => Err(Fault::NotStorable),
    }
}

/// Stores `language` under its identifier: inserts it, or puts it in place
/// of what was stored there. Nothing else changes, and a second call with
/// the same language changes nothing. A language without a stored form is
/// turned down, and the store is left as it was.
pub fn do_insert_language(store: &mut Store, language: &ProgrammingLanguage) -> (put: Result<
    (),
    Fault,
>)
    requires
        old(store).wf(),
    ensures
        final(store).wf(),
        put == (if language_encoding(language@) is None {
            Err::<(), Fault>(Fault::NotStorable)
        } else {
            Ok(())
        }),
        final(store)@ == (if put is Ok {
            old(store)@.with_language(language@)
        } else {
            old(store)@
        }),
{
    match encode_language(language) {
        Some(bytes) => {
            write_language(store, language, &bytes);
            Ok(())
        },
        None => Err(Fault::NotStorable),
    }
}

/// Removes the repository stored under `id` and returns it, if there was
/// one.
pub fn do_remove_repo(store: &mut Store, id: &u64) -> (taken: Option<Repo>)
    requires
        old(store).wf(),
    ensures
        final(store).wf(),
        final(store)@ == old(store)@.without_repo(*id),
        match taken {
            Some(repo) => old(store)@.repos.contains_key(*id) && old(store)@.repos[*id] == repo@,
            None => !old(store)@.repos.contains_key(*id),
        },
{
    let removed = store.repos.remove(*id);
    assert(store@.repos =~= old(store)@.without_repo(*id).repos);
    match removed {
        Some(bytes) => {
            let repo = decode_repo(&bytes);
            assert(repo_entry_sound(*id, bytes@));
            repo
        },
        None => None,
    }
}

/// Every repository, in ascending order of the identifiers.
pub fn _all_repos(store: &Store) -> (list: Vec<Repo>)
    requires
        store.wf(),
    ensures
        lists_repos(store@.repos, repo_views(list@)),
{
    let entries = store.repos.entries();
    let mut list: Vec<Repo> = Vec::new();
    let mut i: usize = 0;
    while i < entries.len()
        invariant
            0 <= i <= entries@.len(),
            list@.len() == i,
            store.wf(),
            forall|k: int|
                0 <= k < entries@.len() ==> map_contents(store.repos).contains_key(
                    (#[trigger] entries@[k]).0,
                ) && map_contents(store.repos)[entries@[k].0] == entries@[k].1@,
            forall|k: int|
                0 <= k < i ==> (#[trigger] list@[k])@ == store@.repos[entries@[k].0]
                    && list@[k].id == entries@[k].0,
        decreases entries@.len() - i,
    {
        let decoded = decode_repo(&entries[i].1);
        assert(repo_entry_sound(entries@[i as int].0, entries@[i as int].1@));
        match decoded {
            Some(repo) => {
                list.push(repo);
            },
            None => {},
        }
        i += 1;
    }
    proof {
        let views = repo_views(list@);
        assert forall|key: u64| #[trigger] store@.repos.contains_key(key) implies exists|k: int|
            0 <= k < views.len() && (#[trigger] views[k]).id == key by {
            let k = choose|k: int| 0 <= k < entries@.len() && (#[trigger] entries@[k]).0 == key;
            assert(views[k].id == key);
        }
    }
    list
}

/// Every programming language, in ascending order of the identifiers.
pub fn _all_languages(store: &Store) -> (list: Vec<ProgrammingLanguage>)
    requires
        store.wf(),
    ensures
        lists_languages(store@.languages, language_views(list@)),
{
    let entries = store.languages.entries();
    let mut list: Vec<ProgrammingLanguage> = Vec::new();
    let mut i: usize = 0;
    while i < entries.len()
        invariant
            0 <= i <= entries@.len(),
            list@.len() == i,
            store.wf(),
            forall|k: int|
                0 <= k < entries@.len() ==> map_contents(store.languages).contains_key(
                    (#[trigger] entries@[k]).0,
                ) && map_contents(store.languages)[entries@[k].0] == entries@[k].1@,
            forall|k: int|
                0 <= k < i ==> (#[trigger] list@[k])@ == store@.languages[entries@[k].0]
                    && list@[k].id == entries@[k].0,
        decreases entries@.len() - i,
    {
        let decoded = decode_language(&entries[i].1);
        assert(language_entry_sound(entries@[i as int].0, entries@[i as int].1@));
        match decoded {
            Some(language) => {
                list.push(language);
            },
            None => {},
        }
        i += 1;
    }
    proof {
        let views = language_views(list@);
        assert forall|key: u64| #[trigger]
            store@.languages.contains_key(key) implies exists|k: int|
            0 <= k < views.len() && (#[trigger] views[k]).id == key by {
            let k = choose|k: int| 0 <= k < entries@.len() && (#[trigger] entries@[k]).0 == key;
            assert(views[k].id == key);
        }
    }
    list
}

/// Stores a repository of which the stored form is at hand.
pub(crate) fn write_repo(store: &mut Store, repo: &Repo, bytes: &Vec<u8>)
    requires
        old(store).wf(),
        repo_encoding(repo@) == Some(bytes@),
        repo_decoding(bytes@) == Some(repo@),
    ensures
        final(store).wf(),
        final(store)@ == old(store)@.with_repo(repo@),
{
    store.repos.insert(repo.id, bytes);
    assert(store@.repos =~= old(store)@.with_repo(repo@).repos);
}

/// Stores a programming language of which the stored form is at hand.
pub(crate) fn write_language(store: &mut Store, language: &ProgrammingLanguage, bytes: &Vec<u8>)
    requires
        old(store).wf(),
        language_encoding(language@) == Some(bytes@),
        language_decoding(bytes@) == Some(language@),
    ensures
        final(store).wf(),
        final(store)@ == old(store)@.with_language(language@),
{
    store.languages.insert(language.id, bytes);
    assert(store@.languages =~= old(store)@.with_language(language@).languages);
}

/// Whether every key of a collection is below `bound`.
fn keys_below(map: &ByteMap, bound: u64) -> (below: bool)
    ensures
        below == all_below(map_contents(*map), bound),
{
    let entries = map.entries();
    let mut i: usize = 0;
    while i < entries.len()
        invariant
            0 <= i <= entries@.len(),
            forall|k: int|
                0 <= k < entries@.len() ==> map_contents(*map).contains_key(
                    (#[trigger] entries@[k]).0,
                ),
            forall|k: int| 0 <= k < i ==> (#[trigger] entries@[k]).0 < bound,
        decreases entries@.len() - i,
    {
        if entries[i].0 >= bound {
            assert(map_contents(*map).contains_key(entries@[i as int].0));
            return false;
        }
        i += 1;
    }
    proof {
        assert forall|key: u64| #[trigger] map_contents(*map).contains_key(key) implies key
            < bound by {
            let k = choose|k: int| 0 <= k < entries@.len() && (#[trigger] entries@[k]).0 == key;
            assert(entries@[k].0 < bound);
        }
    }
    true
}

/// Whether every value of a collection is the stored form of a repository
/// that carries its key.
fn repos_are_sound(repos: &ByteMap) -> (sound: bool)
    ensures
        sound == repos_sound(map_contents(*repos)),
{
    let entries = repos.entries();
    let mut i: usize = 0;
    while i < entries.len()
        invariant
            0 <= i <= entries@.len(),
            forall|k: int|
                0 <= k < entries@.len() ==> map_contents(*repos).contains_key(
                    (#[trigger] entries@[k]).0,
                ) && map_contents(*repos)[entries@[k].0] == entries@[k].1@,
            forall|k: int|
                0 <= k < i ==> repo_entry_sound((#[trigger] entries@[k]).0, entries@[k].1@),
        decreases entries@.len() - i,
    {
        if !holds_repo(entries[i].0, &entries[i].1) {
            assert(!repo_entry_sound(entries@[i as int].0, entries@[i as int].1@));
            return false;
        }
        i += 1;
    }
    proof {
        assert forall|key: u64| #[trigger] map_contents(*repos).contains_key(key) implies
            repo_entry_sound(key, map_contents(*repos)[key]) by {
            let k = choose|k: int| 0 <= k < entries@.len() && (#[trigger] entries@[k]).0 == key;
            assert(repo_entry_sound(entries@[k].0, entries@[k].1@));
        }
    }
    true
}

/// Whether every value of a collection is the stored form of a programming
/// language that carries its key.
fn languages_are_sound(languages: &ByteMap) -> (sound: bool)
    ensures
        sound == languages_sound(map_contents(*languages)),
{
    let entries = languages.entries();
    let mut i: usize = 0;
    while i < entries.len()
        invariant
            0 <= i <= entries@.len(),
            forall|k: int|
                0 <= k < entries@.len() ==> map_contents(*languages).contains_key(
                    (#[trigger] entries@[k]).0,
                ) && map_contents(*languages)[entries@[k].0] == entries@[k].1@,
            forall|k: int|
                0 <= k < i ==> language_entry_sound((#[trigger] entries@[k]).0, entries@[k].1@),
        decreases entries@.len() - i,
    {
        if !holds_language(entries[i].0, &entries[i].1) {
            assert(!language_entry_sound(entries@[i as int].0, entries@[i as int].1@));
            return false;
        }
        i += 1;
    }
    proof {
        assert forall|key: u64| #[trigger] map_contents(*languages).contains_key(key) implies
            language_entry_sound(key, map_contents(*languages)[key]) by {
            let k = choose|k: int| 0 <= k < entries@.len() && (#[trigger] entries@[k]).0 == key;
            assert(language_entry_sound(entries@[k].0, entries@[k].1@));
        }
    }
    true
}

} // verus!
