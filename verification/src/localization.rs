//! The localization state of a process as one value: the translation store,
//! which may not be loaded yet, and the cache of stable strings that is
//! emptied on every switch of language.

use crate::language::{lemma_tag_spellings, Language};
use crate::manager::{I18nManager, LocaleSources, Store};
use crate::substitution::texts;
use crate::translations::Translations;
use vstd::prelude::*;

verus! {

/// What begins every cache key of a language: its tag and a colon.
pub open spec fn key_prefix(lang: Language) -> Seq<char> {
    lang.tag() + seq![':']
}

/// The cache key for a lookup key in a language.
pub open spec fn composite_key(lang: Language, key: Seq<char>) -> Seq<char> {
    key_prefix(lang) + key
}

/// What the localization state holds: the store, once it is loaded, and the
/// cached strings by composite key.
pub struct LocalizationState {
    pub store: Option<Store>,
    pub cache: Map<Seq<char>, Seq<char>>,
}

impl LocalizationState {
    /// The state before the store is loaded, with nothing cached.
    pub open spec fn unloaded() -> LocalizationState {
        LocalizationState { store: None, cache: Map::empty() }
    }

    /// The language in effect: that of the store, and English while there is
    /// no store.
    pub open spec fn active_language(self) -> Language {
        match self.store {
            Some(store) => store.language,
            None => Language::English,
        }
    }

    /// The text for a key: what the store gives, and the key itself while
    /// there is no store.
    pub open spec fn lookup(self, key: Seq<char>) -> Seq<char> {
        match self.store {
            Some(store) => store.lookup(key),
            None => key,
        }
    }

    /// The text for a key with arguments substituted, and the key itself,
    /// untouched, while there is no store.
    pub open spec fn lookup_with_args(self, key: Seq<char>, args: Seq<Seq<char>>) -> Seq<char> {
        match self.store {
            Some(store) => store.lookup_with_args(key, args),
            None => key,
        }
    }

    /// Every cached string is filed under a composite key of the language in
    /// effect and equals what a lookup of that key gives now.
    pub open spec fn consistent(self) -> bool {
        let prefix = key_prefix(self.active_language());
        forall|cached: Seq<char>| #[trigger]
            self.cache.contains_key(cached) ==> prefix.is_prefix_of(cached) && self.cache[cached]
                == self.lookup(cached.skip(prefix.len() as int))
    }

    /// The string that is cached for a key in the language in effect, if one
    /// is.
    pub open spec fn cached(self, key: Seq<char>) -> Option<Seq<char>> {
        let cache_key = composite_key(self.active_language(), key);
        if self.cache.contains_key(cache_key) {
            Some(self.cache[cache_key])
        } else {
            None
        }
    }

    /// A stable lookup: the cached string on a hit; on a miss the text that a
    /// lookup gives, which is then cached. Returns the state after the call
    /// and the string.
    pub open spec fn get_stable(self, key: Seq<char>) -> (LocalizationState, Seq<char>) {
        match self.cached(key) {
            Some(text) => (self, text),
            None => {
                let cache_key = composite_key(self.active_language(), key);
                let text = self.lookup(key);
                (LocalizationState { cache: self.cache.insert(cache_key, text), ..self }, text)
            },
        }
    }

    /// The state with every cached string discarded.
    pub open spec fn invalidate_all(self) -> LocalizationState {
        LocalizationState { cache: Map::empty(), ..self }
    }

    /// The state after a switch to `lang`: the store, if there is one, has
    /// `lang` active, and nothing is cached any more.
    pub open spec fn set_active_language(self, lang: Language) -> LocalizationState {
        LocalizationState {
            store: match self.store {
                Some(store) => Some(store.switched(lang)),
                None => None,
            },
            cache: Map::empty(),
        }
    }
}

/// The localization state.
pub struct Localization {
    manager: Option<I18nManager>,
    stable: Translations,
}

impl View for Localization {
    type V = LocalizationState;

    closed spec fn view(&self) -> LocalizationState {
        LocalizationState {
            store: match self.manager {
                Some(manager) => Some(manager@),
                None => None,
            },
            cache: self.stable@,
        }
    }
}

impl Localization {
    /// A state whose store is not loaded yet.
    pub fn new() -> (state: Localization)
        ensures
            state@ == LocalizationState::unloaded(),
            state@.consistent(),
    {
        Localization { manager: None, stable: Translations::new() }
    }

    /// A state over a store that is already at hand.
    pub fn with_manager(manager: I18nManager) -> (state: Localization)
        ensures
            state@ == (LocalizationState { store: Some(manager@), cache: Map::empty() }),
            state@.consistent(),
    {
        Localization { manager: Some(manager), stable: Translations::new() }
    }

    /// Tells whether the store has been loaded.
    pub fn is_initialized(&self) -> (loaded: bool)
        ensures
            loaded == self@.store.is_some(),
    {
        self.manager.is_some()
    }

    /// The number of strings that are cached.
    pub fn cached_entries(&self) -> (count: usize)
        ensures
            count == self@.cache.len(),
    {
        self.stable.len()
    }

    /// The string that is cached for `key` in the active language, if one
    /// is. The state is only read, so callers that share it can ask at the
    /// same time.
    pub fn cached(&self, key: &str) -> (hit: Option<String>)
        ensures
            match hit {
                Some(text) => self@.cached(key@) == Some(text@),
                None => self@.cached(key@).is_none(),
            },
    {
        let cache_key = composite_key_text(get_language(self), key);
        self.cached_under(cache_key.as_str())
    }

    fn cached_under(&self, cache_key: &str) -> (hit: Option<String>)
        ensures
            match hit {
                Some(text) => self@.cache.contains_key(cache_key@) && self@.cache[cache_key@]
                    == text@,
                None => !self@.cache.contains_key(cache_key@),
            },
    {
        match self.stable.get(cache_key) {
            Some(text) => Some(text.clone()),
            None => None,
        }
    }
}

/// Loads the store from the JSON texts. This is done once: a state whose
/// store is loaded already is not accepted. Strings cached before the store
/// was there are discarded.
pub fn init(state: &mut Localization, sources: &LocaleSources)
    requires
        old(state)@.store is None,
    ensures
        final(state)@ == (LocalizationState {
            store: Some(Store::loaded(*sources)),
            cache: Map::empty(),
        }),
        final(state)@.consistent(),
{
    state.manager = Some(I18nManager::new(sources));
    state.stable.clear();
}

/// Switches the active language and then empties the cache of stable
/// strings, also where the language is the one that was active. While there
/// is no store only the cache is emptied.
pub fn set_language(state: &mut Localization, lang: Language)
    ensures
        final(state)@ == old(state)@.set_active_language(lang),
        final(state)@.cache == Map::<Seq<char>, Seq<char>>::empty(),
        final(state)@.consistent(),
{
    match &mut state.manager {
        Some(manager) => manager.set_language(lang),
        None => {},
    }
    clear_static_cache(state);
}

/// The language in effect: the store's active language, and English while
/// there is no store.
pub fn get_language(state: &Localization) -> (lang: Language)
    ensures
        lang == state@.active_language(),
{
    match &state.manager {
        Some(manager) => manager.get_language(),
        None => Language::English,
    }
}

/// The text for `key` in the active language; `key` itself where the table
/// has no entry or there is no store.
pub fn t(state: &Localization, key: &str) -> (text: String)
    ensures
        text@ == state@.lookup(key@),
{
    match &state.manager {
        Some(manager) => manager.translate(key),
        None => String::from_str(key),
    }
}

/// The text for `key` with the arguments substituted for their placeholders;
/// `key` itself, untouched, while there is no store.
pub fn t_args(state: &Localization, key: &str, args: &[&str]) -> (text: String)
    ensures
        text@ == state@.lookup_with_args(key@, texts(args@)),
{
    match &state.manager {
        Some(manager) => manager.translate_with_args(key, args),
        None => String::from_str(key),
    }
}

/// Writes the cache key for a lookup key in a language.
fn composite_key_text(lang: Language, key: &str) -> (cache_key: String)
    ensures
        cache_key@ == composite_key(lang, key@),
{
    let mut cache_key = String::from_str(lang.as_str());
    cache_key.append(":");
    cache_key.append(key);
    proof {
        reveal_strlit(":");
    }
    cache_key
}

/// The text for `key` as a string of its own, which stays valid whatever
/// happens to the state afterwards. A string cached for the active language
/// is handed out again; otherwise the text is looked up and cached. In a
/// consistent state, and every state that this module hands out is one,
/// the result is what a lookup gives at the time of the call.
pub fn t_static(state: &mut Localization, key: &str) -> (text: String)
    ensures
        (final(state)@, text@) == old(state)@.get_stable(key@),
        old(state)@.consistent() ==> text@ == old(state)@.lookup(key@),
        old(state)@.consistent() ==> final(state)@.consistent(),
{
    let cache_key = composite_key_text(get_language(state), key);
    proof {
        if state@.consistent() {
            lemma_get_stable(state@, key@);
        }
    }
    match state.cached_under(cache_key.as_str()) {
        Some(text) => text,
        None => {
            let text = t(state, key);
            state.stable.insert(cache_key, text.clone());
            text
        },
    }
}

/// Discards every cached string.
pub fn clear_static_cache(state: &mut Localization)
    ensures
        final(state)@ == old(state)@.invalidate_all(),
        final(state)@.consistent(),
{
    state.stable.clear();
}

/// In a consistent state a stable lookup gives what a lookup gives, caches
/// nothing else, and leaves the state consistent.
pub proof fn lemma_get_stable(state: LocalizationState, key: Seq<char>)
    requires
        state.consistent(),
    ensures
        state.cached(key) matches Some(text) ==> text == state.lookup(key),
        state.get_stable(key).1 == state.lookup(key),
        state.get_stable(key).0.consistent(),
        state.get_stable(key).0.store == state.store,
        state.get_stable(key).0.cache.contains_key(composite_key(state.active_language(), key)),
{
    let prefix = key_prefix(state.active_language());
    let cache_key = composite_key(state.active_language(), key);
    assert(cache_key.skip(prefix.len() as int) == key);
    assert(prefix.is_prefix_of(cache_key)) by {
        assert(cache_key.subrange(0, prefix.len() as int) == prefix);
    }
}

/// After a switch of language nothing is cached: no entry of the language
/// that was active survives, nor any other.
pub proof fn lemma_switch_discards_all(state: LocalizationState, lang: Language)
    ensures
        state.set_active_language(lang).cache.len() == 0,
        forall|cached: Seq<char>| !state.set_active_language(lang).cache.contains_key(cached),
        state.set_active_language(lang).consistent(),
        state.invalidate_all().consistent(),
{
}

/// Cache consistency across a switch: whatever a stable lookup of a key gave
/// before, after a switch to `lang` the stable lookup of the same key gives
/// what the table of `lang` gives, or the key where that table has no entry.
pub proof fn lemma_stable_lookup_across_switch(
    state: LocalizationState,
    key: Seq<char>,
    lang: Language,
)
    requires
        state.consistent(),
    ensures
        ({
            let before = state.get_stable(key);
            let switched = before.0.set_active_language(lang);
            let after = switched.get_stable(key);
            &&& after.1 == switched.lookup(key)
            &&& state.store matches Some(store) ==> after.1 == store.lookup_in(lang, key)
            &&& state.store is None ==> after.1 == key
        }),
{
    lemma_get_stable(state, key);
    let switched = state.get_stable(key).0.set_active_language(lang);
    lemma_switch_discards_all(state.get_stable(key).0, lang);
    lemma_get_stable(switched, key);
}

/// A composite key tells its language and its lookup key: two of them are
/// equal only where both parts are.
pub proof fn lemma_composite_key_injective(
    a: Language,
    key_a: Seq<char>,
    b: Language,
    key_b: Seq<char>,
)
    requires
        composite_key(a, key_a) == composite_key(b, key_b),
    ensures
        a == b,
        key_a == key_b,
{
    lemma_tag_spellings();
    let ca = composite_key(a, key_a);
    let cb = composite_key(b, key_b);
    assert(ca[0] == a.tag()[0]);
    assert(cb[0] == b.tag()[0]);
    assert(ca[2] == if a.tag().len() == 2 { ':' } else { '-' });
    assert(cb[2] == if b.tag().len() == 2 { ':' } else { '-' });
    if a.tag().len() == 5 {
        assert(ca[3] == a.tag()[3]);
        assert(cb[3] == b.tag()[3]);
    }
    assert(a == b);
    let n = key_prefix(a).len() as int;
    assert(key_a == ca.skip(n));
    assert(key_b == cb.skip(n));
}

/// A call that may change the state.
pub enum Operation {
    /// A stable lookup of a key.
    StableLookup(Seq<char>),
    /// A switch to a language.
    SetLanguage(Language),
    /// The emptying of the cache.
    ClearCache,
}

impl LocalizationState {
    /// The state after one call.
    pub open spec fn after(self, operation: Operation) -> LocalizationState {
        match operation {
            Operation::StableLookup(key) => self.get_stable(key).0,
            Operation::SetLanguage(lang) => self.set_active_language(lang),
            Operation::ClearCache => self.invalidate_all(),
        }
    }

    /// The state after a series of calls, made one after the other.
    pub open spec fn after_all(self, operations: Seq<Operation>) -> LocalizationState
        decreases operations.len(),
    {
        if operations.len() == 0 {
            self
        } else {
            self.after_all(operations.drop_last()).after(operations.last())
        }
    }
}

/// Whatever calls are made and in whatever order, the cache never holds a
/// string that differs from what a lookup gives: after any series of calls
/// the state is consistent, and a stable lookup in it returns what a lookup
/// in it returns.
pub proof fn lemma_every_history_is_consistent(
    state: LocalizationState,
    operations: Seq<Operation>,
    key: Seq<char>,
)
    requires
        state.consistent(),
    ensures
        state.after_all(operations).consistent(),
        state.after_all(operations).get_stable(key).1 == state.after_all(operations).lookup(key),
    decreases operations.len(),
{
    if operations.len() > 0 {
        let before = state.after_all(operations.drop_last());
        lemma_every_history_is_consistent(state, operations.drop_last(), key);
        match operations.last() {
            Operation::StableLookup(looked_up) => lemma_get_stable(before, looked_up),
            Operation::SetLanguage(lang) => lemma_switch_discards_all(before, lang),
            Operation::ClearCache => lemma_switch_discards_all(before, Language::English),
        }
    }
    lemma_get_stable(state.after_all(operations), key);
}

} // verus!
