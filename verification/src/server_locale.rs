//! The server's locale tables: user-facing strings per language, and the
//! identity lists the games draw their hidden subjects from. Reading the
//! identity files is I/O and happens outside the library; their content
//! arrives here as one string.

use vstd::prelude::*;
use crate::config::Config;
use crate::locale::{Language, TranslationInserter, Translations, spec_lookup, spec_missing_key};
use crate::rng::random_below;
use crate::text::{apply_args, spec_apply_args, spec_trim, trim_str};

verus! {

/// The lines of `s`, split at every newline; a trailing newline opens no
/// extra line.
pub open spec fn spec_lines(s: Seq<char>) -> Seq<Seq<char>>
    decreases s.len(),
{
    if s.len() == 0 {
        Seq::empty()
    } else {
        let rest = spec_lines(s.skip(1));
        if s[0] == '\n' {
            seq![Seq::<char>::empty()] + rest
        } else {
            if rest.len() == 0 {
                seq![seq![s[0]]]
            } else {
                seq![seq![s[0]] + rest[0]] + rest.skip(1)
            }
        }
    }
}

/// The identity names of a file: its lines trimmed, dropping empty ones
/// and comments.
pub open spec fn spec_clean_lines(ls: Seq<Seq<char>>) -> Seq<Seq<char>>
    decreases ls.len(),
{
    if ls.len() == 0 {
        Seq::empty()
    } else {
        let t = spec_trim(ls[0]);
        (if t.len() > 0 && t[0] != '#' {
            seq![t]
        } else {
            Seq::empty()
        }) + spec_clean_lines(ls.skip(1))
    }
}

/// The hidden identities one language offers.
#[derive(Debug)]
pub struct Identities {
    pub list: Vec<String>,
}

impl View for Identities {
    type V = Seq<Seq<char>>;

    open spec fn view(&self) -> Seq<Seq<char>> {
        self.list@.map_values(|s: String| s@)
    }
}

impl Identities {
    /// Reads an identities file's content: one name per line, trimmed;
    /// blank lines and `#` comments are skipped. A file with no names is
    /// refused.
    pub fn parse(content: &str) -> (r: Option<Identities>)
        ensures
            match r {
                Some(ids) => ids@ == spec_clean_lines(spec_lines(content@)) && ids@.len() > 0,
                None => spec_clean_lines(spec_lines(content@)).len() == 0,
            },
    {
        let lines = split_lines(content);
        let mut list: Vec<String> = Vec::new();
        let n = lines.len();
        let ghost linevs = lines@.map_values(|s: String| s@);
        let mut i: usize = 0;
        proof {
            assert(linevs.skip(0) =~= linevs);
        }
        while i < n
            invariant
                n == lines@.len(),
                i <= n,
                linevs == lines@.map_values(|s: String| s@),
                spec_clean_lines(linevs) =~= list@.map_values(|s: String| s@)
                    + spec_clean_lines(linevs.skip(i as int)),
            decreases n - i,
        {
            let ghost pre = list@.map_values(|s: String| s@);
            proof {
                assert(linevs.skip(i as int)[0] == linevs[i as int]);
                assert(linevs.skip(i as int).skip(1) =~= linevs.skip(i + 1));
            }
            let t = trim_str(lines[i].as_str());
            if t.unicode_len() > 0 && t.get_char(0) != '#' {
                list.push(t.to_owned());
                proof {
                    assert(list@.map_values(|s: String| s@) =~= pre + seq![spec_trim(
                        linevs[i as int],
                    )]);
                }
            }
            i = i + 1;
            proof {
                assert(spec_clean_lines(linevs) =~= list@.map_values(|s: String| s@)
                    + spec_clean_lines(linevs.skip(i as int)));
            }
        }
        proof {
            assert(linevs.skip(n as int) =~= Seq::<Seq<char>>::empty());
            assert(spec_clean_lines(linevs) =~= list@.map_values(|s: String| s@));
        }
        if list.len() == 0 {
            return None;
        }
        Some(Identities { list })
    }
}

/// Splits on every newline, as the lines of a text file are read.
fn split_lines(s: &str) -> (r: Vec<String>)
    ensures
        r@.map_values(|l: String| l@) == spec_lines(s@),
{
    let n = s.unicode_len();
    let mut done: Vec<String> = Vec::new();
    let mut cur = String::new();
    let mut i: usize = 0;
    proof {
        assert(s@.skip(0) =~= s@);
        let l0 = spec_lines(s@);
        if l0.len() > 0 {
            assert(Seq::<char>::empty() + l0[0] =~= l0[0]);
        }
        assert(spec_lines(s@) =~~= done@.map_values(|l: String| l@) + spec_glue(
            cur@,
            spec_lines(s@.skip(0)),
        ));
    }
    while i < n
        invariant
            n == s@.len(),
            i <= n,
            spec_lines(s@) =~~= done@.map_values(|l: String| l@) + spec_glue(
                cur@,
                spec_lines(s@.skip(i as int)),
            ),
        decreases n - i,
    {
        let ghost predone = done@.map_values(|l: String| l@);
        let ghost precur = cur@;
        let ghost tailv = s@.skip(i as int);
        proof {
            assert(tailv[0] == s@[i as int]);
            assert(tailv.skip(1) =~= s@.skip(i + 1));
        }
        let c = s.get_char(i);
        if c == '\n' {
            done.push(cur);
            cur = String::new();
            proof {
                assert(done@.map_values(|l: String| l@) =~= predone.push(precur));
                assert(spec_glue(precur, spec_lines(tailv)) =~~= seq![precur] + spec_glue(
                    Seq::<char>::empty(),
                    spec_lines(s@.skip(i + 1)),
                ));
                assert(predone.push(precur) + spec_glue(
                    Seq::<char>::empty(),
                    spec_lines(s@.skip(i + 1)),
                ) =~~= predone + (seq![precur] + spec_glue(
                    Seq::<char>::empty(),
                    spec_lines(s@.skip(i + 1)),
                )));
            }
        } else {
            crate::text::push_char(&mut cur, c);
            proof {
                let rest = spec_lines(s@.skip(i + 1));
                if rest.len() == 0 {
                    assert(spec_lines(tailv) =~~= seq![seq![s@[i as int]]]);
                    assert(spec_glue(precur, spec_lines(tailv)) =~~= seq![precur.push(
                        s@[i as int],
                    )]);
                    assert(spec_glue(cur@, rest) =~~= seq![precur.push(s@[i as int])]);
                } else {
                    assert(spec_lines(tailv) =~~= seq![seq![s@[i as int]] + rest[0]]
                        + rest.skip(1));
                    assert(spec_glue(precur, spec_lines(tailv))[0] =~~= precur.push(
                        s@[i as int],
                    ) + rest[0]);
                    assert(spec_glue(precur, spec_lines(tailv)) =~~= spec_glue(cur@, rest));
                }
            }
        }
        i = i + 1;
    }
    proof {
        assert(s@.skip(n as int) =~= Seq::<char>::empty());
    }
    if !cur.as_str().is_empty() {
        done.push(cur);
    }
    proof {
        assert(done@.map_values(|l: String| l@) =~~= spec_lines(s@));
    }
    done
}

/// Glues an open line fragment onto the front of already split lines.
pub open spec fn spec_glue(cur: Seq<char>, ls: Seq<Seq<char>>) -> Seq<Seq<char>> {
    if ls.len() == 0 {
        if cur.len() > 0 {
            seq![cur]
        } else {
            Seq::empty()
        }
    } else {
        seq![cur + ls[0]] + ls.skip(1)
    }
}

/// The server's localized strings and identity lists, built explicitly and
/// handed to the handlers by reference.
#[derive(Debug)]
pub struct LocaleManager {
    translations: Translations,
    identities: Vec<(Language, Identities)>,
}

impl LocaleManager {
    pub closed spec fn spec_translations(self) -> Seq<(Language, Seq<char>, Seq<char>)> {
        self.translations@
    }

    pub closed spec fn spec_identities(self) -> Seq<(Language, Seq<Seq<char>>)> {
        self.identities@.map_values(|e: (Language, Identities)| (e.0, e.1@))
    }

    /// The identity list of a language: the first entry that names it.
    pub open spec fn spec_identities_of(self, lang: Language) -> Option<Seq<Seq<char>>> {
        spec_assoc(self.spec_identities(), lang)
    }

    /// Builds the translation tables. Identity lists arrive later, read
    /// from disk by the embedding program and handed in as plain content.
    pub fn new(_config: &Config) -> (r: LocaleManager)
        ensures
            r.spec_identities() =~= Seq::<(Language, Seq<Seq<char>>)>::empty(),
    {
        let translations = Translations::new();
        let translations = Self::load_english(translations);
        let translations = Self::load_czech(translations);
        LocaleManager { translations, identities: Vec::new() }
    }

    fn load_english(translations: Translations) -> Translations {
        let mut i = TranslationInserter::new(Language::English, translations);
        i.add("error.invalid_token", "invalid token");
        i.add("error.pending", "pending");
        i.add("error.game_not_found", "game not found");
        i.add("error.invalid_input", "invalid input");
        i.add("error.internal_server_error", "internal server error");
        i.add("error.timeout", "timeout");
        i.add("error.not_found", "Not found");
        i.add("game.final_answer", "I'm {}");
        i.add("game.weird_question", "Weird question, skip...");
        i.add("game.gpt_fallback", "UNABLE; this is weird");
        i.add("cheat.im_loser", "IM LOSER");
        i.add("cheat.i_am_loser", "I AM LOSER");
        i.add("cheat.im_a_loser", "IM A LOSER");
        i.done()
    }

    fn load_czech(translations: Translations) -> Translations {
        let mut i = TranslationInserter::new(Language::Czech, translations);
        i.add("error.invalid_token", "neplatn\u{FD} token");
        i.add("error.pending", "\u{10D}ek\u{E1} se");
        i.add("error.game_not_found", "hra nenalezena");
        i.add("error.invalid_input", "neplatn\u{FD} vstup");
        i.add("error.internal_server_error", "vnit\u{159}n\u{ED} chyba serveru");
        i.add("error.timeout", "\u{10D}asov\u{FD} limit");
        i.add("error.not_found", "Nenalezeno");
        i.add("game.final_answer", "Jsem {}");
        i.add("game.weird_question", "Podivn\u{E1} ot\u{E1}zka, p\u{159}esko\u{10D}it...");
        i.add("game.gpt_fallback", "NEMOHU; to je divn\u{E9}");
        i.add("cheat.im_loser", "JSEM PORA\u{17D}EN\u{DD}");
        i.add("cheat.i_am_loser", "J\u{C1} JSEM PORA\u{17D}EN\u{DD}");
        i.add("cheat.im_a_loser", "JSEM NE\u{DA}SP\u{11A}\u{160}N\u{DD}");
        i.done()
    }

    /// Hands a language its identity list, replacing an earlier one.
    pub fn set_identities(&mut self, lang: Language, ids: Identities)
        ensures
            final(self).spec_translations() == old(self).spec_translations(),
            final(self).spec_identities_of(lang) == Some(ids@),
            forall|l: Language| l != lang ==> final(self).spec_identities_of(l) == old(
                self,
            ).spec_identities_of(l),
    {
        let n = self.identities.len();
        let mut i: usize = 0;
        while i < n
            invariant
                n == self.identities@.len(),
                i <= n,
                self.spec_translations() == old(self).spec_translations(),
                self.spec_identities() == old(self).spec_identities(),
                forall|j: int| 0 <= j < i ==> self.spec_identities()[j].0 != lang,
            decreases n - i,
        {
            if self.identities[i].0 == lang {
                let ghost oldids = self.spec_identities();
                self.identities.remove(i);
                self.identities.insert(i, (lang, ids));
                proof {
                    assert(self.spec_identities() =~= oldids.update(
                        i as int,
                        (lang, self.spec_identities()[i as int].1),
                    ));
                    lemma_assoc_update(oldids, self.spec_identities(), i as int, lang);
                }
                return;
            }
            i = i + 1;
        }
        let ghost oldids = self.spec_identities();
        self.identities.push((lang, ids));
        proof {
            assert(self.spec_identities() =~= oldids.push(
                self.spec_identities()[oldids.len() as int],
            ));
            lemma_assoc_push(oldids, self.spec_identities(), lang);
        }
    }

    pub fn get(&self, lang: &Language, key: &str) -> (r: String)
        ensures
            match spec_lookup(self.spec_translations(), *lang, key@) {
                Some(v) => r@ == v,
                None => r@ == spec_missing_key(key@),
            },
    {
        self.translations.get(lang, key)
    }

    /// The translation with its `{}` holes filled from `args`.
    pub fn get_formatted(&self, lang: &Language, key: &str, args: &[&str]) -> (r: String)
        ensures
            r@ == spec_apply_args(
                match spec_lookup(self.spec_translations(), *lang, key@) {
                    Some(v) => v,
                    None => spec_missing_key(key@),
                },
                args@.map_values(|a: &str| a@),
            ),
    {
        let template = self.get(lang, key);
        apply_args(template.as_str(), args)
    }

    /// The phrases that concede the game, in the given language.
    pub fn get_cheat_phrases(&self, lang: &Language) -> (r: Vec<String>)
        ensures
            r@.len() == 3,
            r@.map_values(|s: String| s@) == seq![
                spec_phrase(self.spec_translations(), *lang, "cheat.im_loser"@),
                spec_phrase(self.spec_translations(), *lang, "cheat.i_am_loser"@),
                spec_phrase(self.spec_translations(), *lang, "cheat.im_a_loser"@),
            ],
    {
        let mut v: Vec<String> = Vec::new();
        v.push(self.get(lang, "cheat.im_loser"));
        v.push(self.get(lang, "cheat.i_am_loser"));
        v.push(self.get(lang, "cheat.im_a_loser"));
        proof {
            assert(v@.map_values(|s: String| s@) =~= seq![
                spec_phrase(self.spec_translations(), *lang, "cheat.im_loser"@),
                spec_phrase(self.spec_translations(), *lang, "cheat.i_am_loser"@),
                spec_phrase(self.spec_translations(), *lang, "cheat.im_a_loser"@),
            ]);
        }
        v
    }

    pub fn available_languages(&self) -> (r: Vec<Language>)
        ensures
            r@ == seq![Language::English, Language::Czech],
    {
        let mut v: Vec<Language> = Vec::new();
        v.push(Language::English);
        v.push(Language::Czech);
        proof {
            assert(v@ =~= seq![Language::English, Language::Czech]);
        }
        v
    }

    pub fn get_identities(&self, lang: &Language) -> (r: Option<&Identities>)
        ensures
            match r {
                Some(ids) => self.spec_identities_of(*lang) == Some(ids@),
                None => self.spec_identities_of(*lang) is None,
            },
    {
        let n = self.identities.len();
        let mut i: usize = 0;
        proof {
            assert(self.spec_identities().skip(0) =~= self.spec_identities());
        }
        while i < n
            invariant
                n == self.identities@.len(),
                i <= n,
                spec_assoc(self.spec_identities(), *lang) == spec_assoc(
                    self.spec_identities().skip(i as int),
                    *lang,
                ),
            decreases n - i,
        {
            proof {
                assert(self.spec_identities().skip(i as int)[0] == self.spec_identities()[
                    i as int]);
                assert(self.spec_identities().skip(i as int).skip(1) =~= self.spec_identities()
                    .skip(i + 1));
            }
            if self.identities[i].0 == *lang {
                return Some(&self.identities[i].1);
            }
            i = i + 1;
        }
        proof {
            assert(self.spec_identities().skip(n as int) =~= Seq::<(
                Language,
                Seq<Seq<char>>,
            )>::empty());
        }
        None
    }

    /// Some identity of the language, drawn at random; `None` when the
    /// language has no identities to offer.
    pub fn get_random_identity(&self, lang: &Language) -> (r: Option<String>)
        ensures
            match r {
                Some(s) => {
                    &&& self.spec_identities_of(*lang) is Some
                    &&& exists|i: int|
                        0 <= i < (self.spec_identities_of(*lang)->0).len() && s@ == (
                        self.spec_identities_of(*lang)->0)[i]
                },
                None => self.spec_identities_of(*lang) is None || (self.spec_identities_of(
                    *lang,
                )->0).len() == 0,
            },
    {
        let ids = match self.get_identities(lang) {
            Some(ids) => ids,
            None => {
                return None;
            },
        };
        if ids.list.len() == 0 {
            return None;
        }
        let i = random_below(ids.list.len());
        let s = ids.list[i].clone();
        proof {
            let all = self.spec_identities_of(*lang)->0;
            assert(all[i as int] == ids.list@[i as int]@);
            assert(0 <= i < all.len() && s@ == all[i as int]);
        }
        Some(s)
    }
}

/// The translation a key settles on: the table's entry or the marker.
pub open spec fn spec_phrase(
    table: Seq<(Language, Seq<char>, Seq<char>)>,
    lang: Language,
    key: Seq<char>,
) -> Seq<char> {
    match spec_lookup(table, lang, key) {
        Some(v) => v,
        None => spec_missing_key(key),
    }
}

/// First-match association lookup by language.
pub open spec fn spec_assoc(
    entries: Seq<(Language, Seq<Seq<char>>)>,
    lang: Language,
) -> Option<Seq<Seq<char>>>
    decreases entries.len(),
{
    if entries.len() == 0 {
        None
    } else if entries[0].0 == lang {
        Some(entries[0].1)
    } else {
        spec_assoc(entries.skip(1), lang)
    }
}

proof fn lemma_assoc_update(
    olds: Seq<(Language, Seq<Seq<char>>)>,
    news: Seq<(Language, Seq<Seq<char>>)>,
    i: int,
    lang: Language,
)
    requires
        0 <= i < olds.len(),
        news == olds.update(i, (lang, news[i].1)),
        olds[i].0 == lang,
        forall|j: int| 0 <= j < i ==> olds[j].0 != lang,
    ensures
        spec_assoc(news, lang) == Some(news[i].1),
        forall|l: Language| l != lang ==> spec_assoc(news, l) == spec_assoc(olds, l),
    decreases i,
{
    if i == 0 {
        assert(news[0].0 == lang);
        assert forall|l: Language| l != lang implies spec_assoc(news, l) == spec_assoc(
            olds,
            l,
        ) by {
            assert(news.skip(1) =~= olds.skip(1));
            assert(spec_assoc(news, l) == spec_assoc(news.skip(1), l));
            assert(spec_assoc(olds, l) == spec_assoc(olds.skip(1), l));
        }
    } else {
        assert(news[0] == olds[0]);
        assert(news.skip(1) =~= olds.skip(1).update(i - 1, (lang, news[i].1)));
        assert(news.skip(1)[i - 1] == news[i]);
        lemma_assoc_update(olds.skip(1), news.skip(1), i - 1, lang);
        assert(spec_assoc(news, lang) == spec_assoc(news.skip(1), lang));
        assert forall|l: Language| l != lang implies spec_assoc(news, l) == spec_assoc(
            olds,
            l,
        ) by {
            assert(spec_assoc(news, l) == if news[0].0 == l {
                Some(news[0].1)
            } else {
                spec_assoc(news.skip(1), l)
            });
            assert(spec_assoc(olds, l) == if olds[0].0 == l {
                Some(olds[0].1)
            } else {
                spec_assoc(olds.skip(1), l)
            });
        }
    }
}

proof fn lemma_assoc_push(
    olds: Seq<(Language, Seq<Seq<char>>)>,
    news: Seq<(Language, Seq<Seq<char>>)>,
    lang: Language,
)
    requires
        news == olds.push(news[olds.len() as int]),
        news[olds.len() as int].0 == lang,
        forall|j: int| 0 <= j < olds.len() ==> olds[j].0 != lang,
    ensures
        spec_assoc(news, lang) == Some(news[olds.len() as int].1),
        forall|l: Language| l != lang ==> spec_assoc(news, l) == spec_assoc(olds, l),
    decreases olds.len(),
{
    if olds.len() == 0 {
        assert(news[0].0 == lang);
        assert forall|l: Language| l != lang implies spec_assoc(news, l) == spec_assoc(
            olds,
            l,
        ) by {
            assert(news.skip(1) =~= Seq::<(Language, Seq<Seq<char>>)>::empty());
            assert(spec_assoc(news, l) == spec_assoc(news.skip(1), l));
            assert(spec_assoc(news.skip(1), l) == None::<Seq<Seq<char>>>);
        }
    } else {
        assert(news[0] == olds[0]);
        assert(news.skip(1) =~= olds.skip(1).push(news[olds.len() as int]));
        assert(news.skip(1)[olds.skip(1).len() as int] == news[olds.len() as int]);
        lemma_assoc_push(olds.skip(1), news.skip(1), lang);
        assert(spec_assoc(news, lang) == spec_assoc(news.skip(1), lang));
        assert forall|l: Language| l != lang implies spec_assoc(news, l) == spec_assoc(
            olds,
            l,
        ) by {
            assert(spec_assoc(news, l) == if news[0].0 == l {
                Some(news[0].1)
            } else {
                spec_assoc(news.skip(1), l)
            });
            assert(spec_assoc(olds, l) == if olds[0].0 == l {
                Some(olds[0].1)
            } else {
                spec_assoc(olds.skip(1), l)
            });
        }
    }
}

} // verus!
