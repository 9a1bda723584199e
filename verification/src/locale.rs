//! Languages of the game and the translation tables shared by server and
//! client logic.

use vstd::prelude::*;
use crate::text::{lower_of, lowercase, str_eq};

verus! {

#[derive(Debug, Clone, Copy, PartialEq, Eq, Hash, Structural)]
pub enum Language {
    English,
    Czech,
}

impl Language {
    /// The language a lower-cased name stands for.
    pub open spec fn spec_from_code(s: Seq<char>) -> Option<Language> {
        if s == "en"@ || s == "english"@ {
            Some(Language::English)
        } else if s == "cs"@ || s == "czech"@ || s == "\u{10D}esky"@ || s == "cesky"@ {
            Some(Language::Czech)
        } else {
            None
        }
    }

    /// The language named by an already lower-cased string.
    pub fn from_lowered(s: &str) -> (r: Option<Language>)
        ensures
            r == Self::spec_from_code(s@),
    {
        if str_eq(s, "en") || str_eq(s, "english") {
            Some(Language::English)
        } else if str_eq(s, "cs") || str_eq(s, "czech") || str_eq(s, "\u{10D}esky")
            || str_eq(s, "cesky") {
            Some(Language::Czech)
        } else {
            None
        }
    }

    /// The language named by `s`, compared case-insensitively.
    pub fn from_str(s: &str) -> (r: Option<Language>)
        ensures
            r == Self::spec_from_code(lower_of(s@)),
    {
        let lowered = lowercase(s);
        Self::from_lowered(lowered.as_str())
    }

    pub fn to_instruction(&self) -> (r: &'static str)
        ensures
            self is English ==> r@ == "English"@,
            self is Czech ==> r@ == "Czech"@,
    {
        match self {
            Language::English => "English",
            Language::Czech => "Czech",
        }
    }

    pub fn to_code(&self) -> (r: &'static str)
        ensures
            self is English ==> r@ == "en"@,
            self is Czech ==> r@ == "cs"@,
    {
        match self {
            Language::English => "en",
            Language::Czech => "cs",
        }
    }

    pub fn to_display_name(&self) -> (r: &'static str)
        ensures
            self is English ==> r@ == "English"@,
            self is Czech ==> r@ == "\u{10C}esky"@,
    {
        match self {
            Language::English => "English",
            Language::Czech => "\u{10C}esky",
        }
    }
}

impl Default for Language {
    fn default() -> (r: Self)
        ensures
            r == Language::English,
    {
        Language::English
    }
}

/// One translation entry: language, key, value.
#[derive(Debug)]
pub struct Entry {
    pub lang: Language,
    pub key: String,
    pub value: String,
}

impl View for Entry {
    type V = (Language, Seq<char>, Seq<char>);

    open spec fn view(&self) -> (Language, Seq<char>, Seq<char>) {
        (self.lang, self.key@, self.value@)
    }
}

/// A flat association list of translations; a later entry for the same
/// language and key wins, as an insert into a map would.
#[derive(Debug)]
pub struct Translations {
    translations: Vec<Entry>,
}

/// The value of the last entry for `lang` and `key`, if there is one.
pub open spec fn spec_lookup(
    s: Seq<(Language, Seq<char>, Seq<char>)>,
    lang: Language,
    key: Seq<char>,
) -> Option<Seq<char>>
    decreases s.len(),
{
    if s.len() == 0 {
        None
    } else if s.last().0 == lang && s.last().1 == key {
        Some(s.last().2)
    } else {
        spec_lookup(s.drop_last(), lang, key)
    }
}

impl View for Translations {
    type V = Seq<(Language, Seq<char>, Seq<char>)>;

    closed spec fn view(&self) -> Seq<(Language, Seq<char>, Seq<char>)> {
        self.translations@.map_values(|e: Entry| e@)
    }
}

/// The text a missing key falls back to: `MISSING_LOCALE_KEY[<key>]`.
pub open spec fn spec_missing_key(key: Seq<char>) -> Seq<char> {
    "MISSING_LOCALE_KEY["@ + key + "]"@
}

impl Translations {
    pub fn new() -> (r: Translations)
        ensures
            r@ =~= Seq::<(Language, Seq<char>, Seq<char>)>::empty(),
    {
        Translations { translations: Vec::new() }
    }

    /// The translation of `key` in `lang`, or the missing-key marker.
    pub fn get(&self, lang: &Language, key: &str) -> (r: String)
        ensures
            match spec_lookup(self@, *lang, key@) {
                Some(v) => r@ == v,
                None => r@ == spec_missing_key(key@),
            },
    {
        let n = self.translations.len();
        let mut i: usize = n;
        proof {
            assert(self@.take(n as int) =~= self@);
        }
        while i > 0
            invariant
                n == self.translations.len(),
                i <= n,
                spec_lookup(self@, *lang, key@) == spec_lookup(
                    self@.take(i as int),
                    *lang,
                    key@,
                ),
            decreases i,
        {
            let ghost pre = self@.take(i as int);
            i = i - 1;
            let e = &self.translations[i];
            proof {
                assert(pre.drop_last() =~= self@.take(i as int));
                assert(pre.last() == self@[i as int]);
            }
            if e.lang == *lang && str_eq(e.key.as_str(), key) {
                return e.value.clone();
            }
        }
        proof {
            assert(self@.take(0) =~= Seq::<(Language, Seq<char>, Seq<char>)>::empty());
        }
        let mut r = String::new();
        r.append("MISSING_LOCALE_KEY[");
        r.append(key);
        r.append("]");
        r
    }

    /// The translation of `key` in `lang`, if the table holds one.
    pub fn lookup(&self, lang: &Language, key: &str) -> (r: Option<String>)
        ensures
            match r {
                Some(v) => spec_lookup(self@, *lang, key@) == Some(v@),
                None => spec_lookup(self@, *lang, key@) is None,
            },
    {
        let n = self.translations.len();
        let mut i: usize = n;
        proof {
            assert(self@.take(n as int) =~= self@);
        }
        while i > 0
            invariant
                n == self.translations.len(),
                i <= n,
                spec_lookup(self@, *lang, key@) == spec_lookup(
                    self@.take(i as int),
                    *lang,
                    key@,
                ),
            decreases i,
        {
            let ghost pre = self@.take(i as int);
            i = i - 1;
            let e = &self.translations[i];
            proof {
                assert(pre.drop_last() =~= self@.take(i as int));
                assert(pre.last() == self@[i as int]);
            }
            if e.lang == *lang && str_eq(e.key.as_str(), key) {
                return Some(e.value.clone());
            }
        }
        proof {
            assert(self@.take(0) =~= Seq::<(Language, Seq<char>, Seq<char>)>::empty());
        }
        None
    }

    /// Appends an entry; it shadows any earlier one for the same pair.
    fn add(&mut self, lang: Language, key: &str, value: &str)
        ensures
            final(self)@ == old(self)@.push((lang, key@, value@)),
    {
        let e = Entry { lang, key: key.to_owned(), value: value.to_owned() };
        self.translations.push(e);
        proof {
            assert(final(self)@ =~= old(self)@.push((lang, key@, value@)));
        }
    }
}

/// Adds entries for one fixed language into a translation table it owns.
pub struct TranslationInserter {
    translations: Translations,
    lang: Language,
}

impl TranslationInserter {
    pub closed spec fn spec_lang(self) -> Language {
        self.lang
    }

    pub closed spec fn spec_translations(self) -> Seq<(Language, Seq<char>, Seq<char>)> {
        self.translations@
    }

    /// Takes the table over; `done` hands it back.
    pub fn new(lang: Language, translations: Translations) -> (r: TranslationInserter)
        ensures
            r.spec_lang() == lang,
            r.spec_translations() == translations@,
    {
        TranslationInserter { lang, translations }
    }

    pub fn add(&mut self, key: &str, value: &str)
        ensures
            final(self).spec_lang() == old(self).spec_lang(),
            final(self).spec_translations() == old(self).spec_translations().push(
                (old(self).spec_lang(), key@, value@),
            ),
    {
        self.translations.add(self.lang, key, value);
    }

    pub fn done(self) -> (r: Translations)
        ensures
            r@ == self.spec_translations(),
    {
        self.translations
    }
}

/// A thing that can render itself as text in a given language.
pub trait Localizer {
    fn to_localized_string(&self, lang: &Language) -> String;
}

} // verus!
