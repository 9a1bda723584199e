//! The browser client's locale: its string tables, the current language,
//! and the English fallback. Persisting the chosen language is the
//! client shell's task; the logic here is pure.

use vstd::prelude::*;
use crate::locale::{Language, Translations, TranslationInserter, spec_lookup, spec_missing_key};
use crate::text::{apply_args, spec_apply_args};

pub mod cs;
pub mod en;

verus! {

/// Collects the key/value pairs of one language table.
pub struct Helper {
    entries: Vec<(String, String)>,
}

impl View for Helper {
    type V = Seq<(Seq<char>, Seq<char>)>;

    closed spec fn view(&self) -> Seq<(Seq<char>, Seq<char>)> {
        self.entries@.map_values(|e: (String, String)| (e.0@, e.1@))
    }
}

impl Helper {
    pub fn new() -> (r: Helper)
        ensures
            r@ =~= Seq::<(Seq<char>, Seq<char>)>::empty(),
    {
        Helper { entries: Vec::new() }
    }

    pub fn add(&mut self, key: &str, value: &str)
        ensures
            final(self)@ == old(self)@.push((key@, value@)),
    {
        self.entries.push((key.to_owned(), value.to_owned()));
        proof {
            assert(final(self)@ =~= old(self)@.push((key@, value@)));
        }
    }

    /// Folds the collected pairs into the table, under one language.
    pub fn into_translations(self, lang: Language, translations: Translations) -> (r:
        Translations)
        ensures
            r@.len() == translations@.len() + self@.len(),
    {
        let ghost base = translations@.len();
        let mut ins = TranslationInserter::new(lang, translations);
        let n = self.entries.len();
        let mut i: usize = 0;
        while i < n
            invariant
                n == self.entries@.len(),
                n == self@.len(),
                i <= n,
                ins.spec_lang() == lang,
                ins.spec_translations().len() == base + i,
            decreases n - i,
        {
            let e = &self.entries[i];
            ins.add(e.0.as_str(), e.1.as_str());
            i = i + 1;
        }
        ins.done()
    }
}

/// The client's locale state: the tables and the chosen language.
#[derive(Debug)]
pub struct LocaleManager {
    translations: Translations,
    current_language: Language,
}

impl LocaleManager {
    pub closed spec fn spec_translations(self) -> Seq<(Language, Seq<char>, Seq<char>)> {
        self.translations@
    }

    pub closed spec fn spec_current(self) -> Language {
        self.current_language
    }

    /// Builds the tables; the chosen language starts at English and the
    /// client shell may set a stored one afterwards.
    pub fn new() -> (r: LocaleManager)
        ensures
            r.spec_current() == Language::English,
    {
        let mut h = Helper::new();
        en::load(&mut h);
        let translations = h.into_translations(Language::English, Translations::new());
        let mut h = Helper::new();
        cs::load(&mut h);
        let translations = h.into_translations(Language::Czech, translations);
        LocaleManager { translations, current_language: Language::English }
    }

    pub fn get_current_language(&self) -> (r: &Language)
        ensures
            *r == self.spec_current(),
    {
        &self.current_language
    }

    pub fn set_language(&mut self, lang: Language)
        ensures
            final(self).spec_current() == lang,
            final(self).spec_translations() == old(self).spec_translations(),
    {
        self.current_language = lang;
    }

    /// What a key renders to in `lang`: the entry, else the English
    /// entry, else the missing-key marker.
    pub open spec fn spec_render(self, lang: Language, key: Seq<char>) -> Seq<char> {
        match spec_lookup(self.spec_translations(), lang, key) {
            Some(v) => v,
            None => match spec_lookup(self.spec_translations(), Language::English, key) {
                Some(v) => v,
                None => spec_missing_key(key),
            },
        }
    }

    pub fn get_for_language(&self, lang: &Language, key: &str) -> (r: String)
        ensures
            r@ == self.spec_render(*lang, key@),
    {
        match self.translations.lookup(lang, key) {
            Some(v) => v,
            None => self.translations.get(&Language::English, key),
        }
    }

    pub fn get(&self, key: &str) -> (r: String)
        ensures
            r@ == self.spec_render(self.spec_current(), key@),
    {
        let lang = self.current_language;
        self.get_for_language(&lang, key)
    }

    /// The rendered key with its `{}` holes filled from `args`.
    pub fn get_formatted(&self, key: &str, args: &[&str]) -> (r: String)
        ensures
            r@ == spec_apply_args(
                self.spec_render(self.spec_current(), key@),
                args@.map_values(|a: &str| a@),
            ),
    {
        let template = self.get(key);
        apply_args(template.as_str(), args)
    }

    pub fn available_languages(&self) -> (r: Vec<Language>)
        ensures
            r@ == seq![Language::English, Language::Czech],
    {
        let mut v: Vec<Language> = Vec::new();
        v.push(Language::English);
        v.push(Language::Czech);
        proof {
            assert(v@ =~= seq![Language::English, Language::Czech]);
        }
        v
    }
}

impl Default for LocaleManager {
    fn default() -> (r: Self)
        ensures
            r.spec_current() == Language::English,
    {
        LocaleManager::new()
    }
}

/// Whether a language switch needs the user's confirmation: only when it
/// really changes the language and a game would be lost.
pub fn should_show_language_dialog(
    current: &Language,
    target_lang: Language,
    has_active_game: bool,
) -> (r: bool)
    ensures
        r == (*current != target_lang && has_active_game),
{
    if *current == target_lang {
        return false;
    }
    has_active_game
}

/// Switches the manager to the given language.
pub fn switch_language(manager: &mut LocaleManager, lang: Language)
    ensures
        final(manager).spec_current() == lang,
{
    manager.set_language(lang);
}

} // verus!
