use vstd::prelude::*;

use crate::error::I18nError;
use crate::provider::{StaticFileProvider, WatchProvider};
use crate::shared::{share, shared_snapshot, SharedTable};
use crate::structure::{expected_kind, load_structure, FileStructure, LoadedLocale};
use crate::table::{
    keys_unique, lemma_map_of_dom, lemma_map_of_update, lemma_map_of_value, lemma_push_new_key, map_of,
};
use crate::view::{Data, UnWatchData};

verus! {

/// One locale: its shared table and the single provider that keeps it current.
pub struct Holder {
    messages: SharedTable,
    locale: String,
    provider: Box<dyn WatchProvider>,
    /// The provider slot holds the static provider that `new` put there.
    static_slot: Ghost<bool>,
    /// The provider in the slot was activated, and its activation succeeded.
    activated: Ghost<bool>,
}

impl Holder {
    pub closed spec fn locale_id(&self) -> Seq<char> {
        self.locale@
    }

    pub closed spec fn table(&self) -> SharedTable {
        self.messages
    }

    /// The provider slot still holds the static provider.
    pub closed spec fn holds_static_provider(&self) -> bool {
        self.static_slot@
    }

    /// The installed provider has been activated successfully.
    pub closed spec fn is_activated(&self) -> bool {
        self.activated@
    }

    /// An entry for a loaded document, with the static provider installed
    /// and not yet activated.
    pub fn new(loaded: LoadedLocale) -> (r: Holder)
        requires
            loaded.table.wf(),
        ensures
            r.locale_id() == loaded.locale@,
            r.holds_static_provider(),
            !r.is_activated(),
    {
        Holder {
            messages: share(loaded.table),
            locale: loaded.locale,
            provider: Box::new(StaticFileProvider {}),
            static_slot: Ghost(true),
            activated: Ghost(false),
        }
    }

    /// The same entry with `provider` in the provider slot, not activated.
    pub fn with_provider(self, provider: Box<dyn WatchProvider>) -> (r: Holder)
        ensures
            r.locale_id() == self.locale_id(),
            r.table() == self.table(),
            !r.holds_static_provider(),
            !r.is_activated(),
    {
        Holder {
            messages: self.messages,
            locale: self.locale,
            provider,
            static_slot: Ghost(false),
            activated: Ghost(false),
        }
    }

    /// The locale identifier.
    pub fn locale(&self) -> (r: &String)
        ensures
            r@ == self.locale_id(),
    {
        &self.locale
    }

    /// A handle on the shared table, for live views and providers.
    pub fn messages(&self) -> (r: SharedTable)
        ensures
            r == self.table(),
    {
        self.messages.clone()
    }

    /// A copy of the table as it stands now.
    pub fn snapshot(&self) -> (r: UnWatchData) {
        UnWatchData::from_table(shared_snapshot(&self.messages))
    }

    /// Activates the installed provider.
    pub fn activate(&mut self) -> (r: Result<(), I18nError>)
        ensures
            final(self).locale_id() == old(self).locale_id(),
            final(self).table() == old(self).table(),
            final(self).holds_static_provider() == old(self).holds_static_provider(),
            final(self).is_activated() == (r is Ok),
    {
        let r = self.provider.watch();
        self.activated = Ghost(r is Ok);
        r
    }

    /// Retires the current provider and installs `provider`: it is pointed at
    /// this entry's table, then activated. An error of either step is
    /// returned and leaves `provider` installed.
    pub fn install_provider(&mut self, provider: Box<dyn WatchProvider>) -> (r: Result<(), I18nError>)
        ensures
            final(self).locale_id() == old(self).locale_id(),
            final(self).table() == old(self).table(),
            !final(self).holds_static_provider(),
            final(self).is_activated() == (r is Ok),
    {
        self.provider = provider;
        self.static_slot = Ghost(false);
        self.activated = Ghost(false);
        let shared = self.messages.clone();
        match self.provider.set_data(shared) {
            Ok(()) => {},
            Err(e) => {
                return Err(e);
            },
        }
        let r = self.provider.watch();
        self.activated = Ghost(r is Ok);
        r
    }
}

impl WatchProvider for Holder {
    fn watch(&mut self) -> (r: Result<(), I18nError>) {
        self.activate()
    }

    fn set_data(&mut self, data: SharedTable) -> (r: Result<(), I18nError>) {
        self.messages = data;
        Ok(())
    }
}

/// The registry: locale identifiers, each unique, with their entries.
pub struct InternationalCore {
    holders: Vec<(String, Holder)>,
}

/// Whether a bundled document loads: it parsed and its header is right.
pub open spec fn document_loads(d: Result<FileStructure, String>) -> bool {
    d matches Ok(s) && s.kind@ == expected_kind()
}

/// `e` is the error that loading the bundled document `d` gives.
pub open spec fn bundle_error(d: Result<FileStructure, String>, e: I18nError) -> bool {
    match d {
        Err(cause) => e matches I18nError::InvalidStructure { path: p, cause: c } && p@.len() == 0
            && c@ == cause@,
        Ok(s) => s.kind@ != expected_kind() && (e matches I18nError::InvalidHeader { path: p }
            && p@.len() == 0),
    }
}

/// A loading outcome that a directory build skips.
pub open spec fn is_skipped(x: Result<Holder, I18nError>) -> bool {
    x matches Err(e) && e.is_skippable()
}

/// Among the first `n` loading outcomes, the one at `i` is the last that
/// yields an entry for locale `l`.
pub open spec fn last_entry_for(s: Seq<Result<Holder, I18nError>>, n: int, l: Seq<char>, i: int) -> bool {
    &&& 0 <= i < n <= s.len()
    &&& loads_locale(s[i], l)
    &&& forall|j: int| i < j < n ==> !loads_locale(#[trigger] s[j], l)
}

/// A loading outcome that stops a directory build.
pub open spec fn is_fatal(x: Result<Holder, I18nError>) -> bool {
    x matches Err(e) && !e.is_skippable()
}

/// A loading outcome that yields an entry for locale `l`.
pub open spec fn loads_locale(x: Result<Holder, I18nError>, l: Seq<char>) -> bool {
    x matches Ok(h) && h.locale_id() == l
}

/// A parsed document that declares locale `l`.
pub open spec fn names_locale(d: Result<FileStructure, String>, l: Seq<char>) -> bool {
    d matches Ok(s) && s.locale@ == l
}

impl InternationalCore {
    pub closed spec fn entries(&self) -> Seq<(Seq<char>, Holder)> {
        self.holders@.map_values(|p: (String, Holder)| (p.0@, p.1))
    }

    pub closed spec fn wf(&self) -> bool {
        keys_unique(self.entries())
    }

    /// Each registered locale identifier with its entry.
    pub open spec fn view(&self) -> Map<Seq<char>, Holder> {
        map_of(self.entries())
    }

    proof fn lemma_view_dom(&self, k: Seq<char>)
        ensures
            self@.contains_key(k) <==> exists|i: int|
                0 <= i < self.holders@.len() && #[trigger] self.holders@[i].0@ == k,
    {
        lemma_map_of_dom(self.entries(), k);
        if self@.contains_key(k) {
            let i = choose|i: int| 0 <= i < self.entries().len() && self.entries()[i].0 == k;
            assert(self.holders@[i].0@ == k);
        }
        if exists|i: int| 0 <= i < self.holders@.len() && #[trigger] self.holders@[i].0@ == k {
            let i = choose|i: int| 0 <= i < self.holders@.len() && #[trigger] self.holders@[i].0@ == k;
            assert(self.entries()[i].0 == k);
        }
    }

    /// A registry with no locales.
    pub fn empty() -> (r: InternationalCore)
        ensures
            r.wf(),
            r@ == Map::<Seq<char>, Holder>::empty(),
    {
        let r = InternationalCore { holders: Vec::new() };
        assert(r.entries() =~= Seq::<(Seq<char>, Holder)>::empty());
        r
    }

    fn find(&self, locale: &str) -> (r: Option<usize>)
        requires
            self.wf(),
        ensures
            match r {
                Some(i) => i < self.holders@.len() && self.holders@[i as int].0@ == locale@
                    && self@.contains_key(locale@) && self@[locale@] == self.holders@[i as int].1,
                None => !self@.contains_key(locale@),
            },
    {
        let wanted = locale.to_owned();
        let mut i: usize = 0;
        while i < self.holders.len()
            invariant
                self.wf(),
                i <= self.holders@.len(),
                wanted@ == locale@,
                forall|j: int| 0 <= j < i ==> self.holders@[j].0@ != locale@,
            decreases self.holders@.len() - i,
        {
            if self.holders[i].0 == wanted {
                proof {
                    assert(self.entries()[i as int] == (self.holders@[i as int].0@, self.holders@[i as int].1));
                    lemma_map_of_value(self.entries(), i as int);
                }
                return Some(i);
            }
            i = i + 1;
        }
        proof {
            self.lemma_view_dom(locale@);
        }
        None
    }

    /// Registers `holder` under `locale`, replacing any entry already there.
    fn put(&mut self, locale: String, holder: Holder)
        requires
            old(self).wf(),
        ensures
            final(self).wf(),
            final(self)@ == old(self)@.insert(locale@, holder),
    {
        let ghost before = self.entries();
        match self.find(locale.as_str()) {
            Some(i) => {
                proof {
                    lemma_map_of_update(before, i as int, holder);
                }
                self.holders.set(i, (locale, holder));
                assert(self.entries() =~= before.update(i as int, (before[i as int].0, holder)));
            },
            None => {
                proof {
                    lemma_push_new_key(before, locale@, holder);
                }
                self.holders.push((locale, holder));
                assert(self.entries() =~= before.push((locale@, holder)));
            },
        }
    }

    /// Builds a registry from the outcome of loading each file of a
    /// directory. Files refused for their extension are skipped; any other
    /// error stops the build. Each loaded entry's provider is activated, and
    /// an activation error stops the build too. When two entries name the
    /// same locale, the later one stays.
    pub fn new(loaded: Vec<Result<Holder, I18nError>>) -> (r: Result<InternationalCore, I18nError>)
        ensures
            (exists|i: int| 0 <= i < loaded@.len() && is_fatal(#[trigger] loaded@[i])) ==> r is Err,
            r matches Err(e) ==> exists|i: int|
                0 <= i < loaded@.len() && ((is_fatal(#[trigger] loaded@[i]) && loaded@[i] == Err::<
                    Holder,
                    I18nError,
                >(e)) || loaded@[i] is Ok) && forall|j: int| 0 <= j < i ==> !is_fatal(#[trigger] loaded@[j]),
            (forall|i: int| 0 <= i < loaded@.len() ==> is_skipped(#[trigger] loaded@[i])) ==> (r matches Ok(
                c,
            ) && c@.dom() == Set::<Seq<char>>::empty()),
            r matches Ok(c) ==> c.wf() && forall|l: Seq<char>| c@.contains_key(l) <==> exists|i: int|
                0 <= i < loaded@.len() && loads_locale(#[trigger] loaded@[i], l),
            r matches Ok(c) ==> forall|l: Seq<char>| #[trigger] c@.contains_key(l) ==> c@[l].locale_id() == l
                && c@[l].is_activated() && exists|i: int|
                last_entry_for(loaded@, loaded@.len() as int, l, i) && c@[l].table()
                    == loaded@[i]->Ok_0.table(),
    {
        let mut core = InternationalCore::empty();
        let mut rest = loaded;
        let ghost all = rest@;
        let n = rest.len();
        let mut i: usize = 0;
        while i < n
            invariant
                all == loaded@,
                n == all.len(),
                0 <= i <= all.len(),
                rest@ == all.subrange(i as int, all.len() as int),
                core.wf(),
                forall|l: Seq<char>| #[trigger] core@.contains_key(l) ==> core@[l].locale_id() == l
                    && core@[l].is_activated() && exists|k: int|
                    last_entry_for(all, i as int, l, k) && core@[l].table() == all[k]->Ok_0.table(),
                forall|j: int| 0 <= j < i ==> !is_fatal(#[trigger] all[j]),
                forall|l: Seq<char>| core@.contains_key(l) <==> exists|j: int|
                    0 <= j < i && loads_locale(#[trigger] all[j], l),
            decreases n - i,
        {
            let item = rest.remove(0);
            assert(item == all[i as int]);
            match item {
                Ok(mut holder) => {
                    assert(!is_skipped(all[i as int]));
                    match holder.activate() {
                        Ok(()) => {},
                        Err(e) => {
                            return Err(e);
                        },
                    }
                    let locale = holder.locale.clone();
                    let ghost before = core@;
                    core.put(locale, holder);
                    proof {
                        let n = i as int + 1;
                        assert forall|l: Seq<char>| #[trigger] core@.contains_key(l) implies core@[l].locale_id()
                            == l && core@[l].is_activated() && exists|k: int|
                            last_entry_for(all, n, l, k) && core@[l].table() == all[k]->Ok_0.table() by {
                            if l == locale@ {
                                assert(last_entry_for(all, n, l, i as int));
                            } else {
                                assert(before.contains_key(l));
                                let k = choose|k: int|
                                    last_entry_for(all, i as int, l, k) && before[l].table() == all[k]->Ok_0.table();
                                assert(last_entry_for(all, n, l, k));
                            }
                        }
                    }
                },
                Err(e) => {
                    if !e.skippable() {
                        assert(!is_skipped(all[i as int]));
                        return Err(e);
                    }
                    proof {
                        assert forall|l: Seq<char>| #[trigger] core@.contains_key(l) implies exists|k: int|
                            last_entry_for(all, i as int + 1, l, k) && core@[l].table() == all[k]->Ok_0.table() by {
                            let k = choose|k: int|
                                last_entry_for(all, i as int, l, k) && core@[l].table() == all[k]->Ok_0.table();
                            assert(last_entry_for(all, i as int + 1, l, k));
                        }
                    }
                },
            }
            i = i + 1;
        }
        Ok(core)
    }

    /// Builds a registry from documents bundled with the program. Every entry
    /// gets the static provider, whatever its document asks for; no provider
    /// is activated. A document that does not parse, or whose header is
    /// wrong, stops the build. When two documents name the same locale, the
    /// later one stays.
    pub fn from_bundle(docs: Vec<Result<FileStructure, String>>) -> (r: Result<InternationalCore, I18nError>)
        ensures
            r is Ok <==> forall|i: int| 0 <= i < docs@.len() ==> document_loads(#[trigger] docs@[i]),
            r matches Err(e) ==> exists|i: int|
                0 <= i < docs@.len() && bundle_error(#[trigger] docs@[i], e) && forall|j: int|
                    0 <= j < i ==> document_loads(#[trigger] docs@[j]),
            r matches Ok(c) ==> c.wf() && forall|l: Seq<char>| c@.contains_key(l) <==> exists|i: int|
                0 <= i < docs@.len() && names_locale(#[trigger] docs@[i], l),
            r matches Ok(c) ==> forall|l: Seq<char>| #[trigger] c@.contains_key(l) ==> c@[l].locale_id() == l
                && c@[l].holds_static_provider() && !c@[l].is_activated(),
    {
        let mut core = InternationalCore::empty();
        let mut rest = docs;
        let ghost all = rest@;
        let n = rest.len();
        let mut i: usize = 0;
        while i < n
            invariant
                all == docs@,
                n == all.len(),
                0 <= i <= all.len(),
                rest@ == all.subrange(i as int, all.len() as int),
                core.wf(),
                forall|l: Seq<char>| #[trigger] core@.contains_key(l) ==> core@[l].locale_id() == l
                    && core@[l].holds_static_provider() && !core@[l].is_activated(),
                forall|j: int| 0 <= j < i ==> document_loads(#[trigger] all[j]),
                forall|l: Seq<char>| core@.contains_key(l) <==> exists|j: int|
                    0 <= j < i && names_locale(#[trigger] all[j], l),
            decreases n - i,
        {
            let doc = rest.remove(0);
            assert(doc == all[i as int]);
            let outcome = load_structure(doc, None);
            assert(outcome is Ok <==> document_loads(all[i as int]));
            assert(outcome matches Err(e) ==> bundle_error(all[i as int], e));
            match outcome {
                Ok(loaded) => {
                    let holder = Holder::new(loaded);
                    let locale = holder.locale.clone();
                    core.put(locale, holder);
                },
                Err(e) => {
                    return Err(e);
                },
            }
            i = i + 1;
        }
        Ok(core)
    }

    /// A live view of `locale`'s table, if the locale is registered.
    pub fn get_by_locale(&self, locale: &str) -> (r: Option<Data>)
        requires
            self.wf(),
        ensures
            r is Some <==> self@.contains_key(locale@),
            r matches Some(d) ==> d.table() == self@[locale@].table(),
    {
        match self.find(locale) {
            Some(i) => Some(Data::new(self.holders[i].1.messages())),
            None => None,
        }
    }

    /// A snapshot of `locale`'s table, if the locale is registered.
    pub fn get_by_locale_state(&self, locale: &str) -> (r: Option<UnWatchData>)
        requires
            self.wf(),
        ensures
            r is Some <==> self@.contains_key(locale@),
    {
        match self.find(locale) {
            Some(i) => Some(self.holders[i].1.snapshot()),
            None => None,
        }
    }

    /// Installs `provider` for `locale`: it is pointed at the locale's table
    /// and activated, and its errors are returned. An unknown locale is
    /// refused with `LocaleNotFound` and nothing changes.
    pub fn add_provider(&mut self, locale: &str, provider: Box<dyn WatchProvider>) -> (r: Result<(), I18nError>)
        requires
            old(self).wf(),
        ensures
            final(self).wf(),
            final(self)@.dom() == old(self)@.dom(),
            !old(self)@.contains_key(locale@) ==> final(self)@ == old(self)@ && (r matches Err(
                I18nError::LocaleNotFound { locale: l },
            ) && l@ == locale@),
            old(self)@.contains_key(locale@) ==> final(self)@[locale@].table() == old(self)@[locale@].table()
                && final(self)@[locale@].locale_id() == old(self)@[locale@].locale_id()
                && forall|k: Seq<char>| k != locale@ && #[trigger] old(self)@.contains_key(k) ==> final(self)@[k]
                    == old(self)@[k],
    {
        match self.find(locale) {
            Some(i) => {
                let ghost before = self.entries();
                let (name, mut holder) = self.holders.remove(i);
                let r = holder.install_provider(provider);
                proof {
                    lemma_map_of_update(before, i as int, holder);
                }
                self.holders.insert(i, (name, holder));
                assert(self.entries() =~= before.update(i as int, (before[i as int].0, holder)));
                r
            },
            None => Err(I18nError::LocaleNotFound { locale: locale.to_owned() }),
        }
    }

    /// Registers `holder` under `locale`. A locale already registered is
    /// refused with `DuplicateLocale` and its entry stays as it was.
    pub fn add_locale(&mut self, locale: &str, holder: Holder) -> (r: Result<(), I18nError>)
        requires
            old(self).wf(),
        ensures
            final(self).wf(),
            old(self)@.contains_key(locale@) ==> final(self)@ == old(self)@ && (r matches Err(
                I18nError::DuplicateLocale { locale: l },
            ) && l@ == locale@),
            !old(self)@.contains_key(locale@) ==> r is Ok && final(self)@ == old(self)@.insert(
                locale@,
                holder,
            ),
    {
        match self.find(locale) {
            Some(_) => Err(I18nError::DuplicateLocale { locale: locale.to_owned() }),
            None => {
                self.put(locale.to_owned(), holder);
                Ok(())
            },
        }
    }
}

} // verus!
