//! Translation catalogs: the supported languages, the current one, lookups
//! that fall back to English and then to the key itself, and `%{name}`
//! interpolation.
use vstd::prelude::*;
use std::collections::HashMap;
use crate::text::{chars_of, extend_chars, extend_str, str_eq, chars_eq, first_occurrence, occurs_at, contains_seq};

verus! {

/// How many languages the client ships.
pub const LANG_COUNT: usize = 15;

/// The language code at position `i` of the language table.
pub open spec fn lang_code(i: int) -> Seq<char> {
    if i == 0 { "en"@ }
    else if i == 1 { "pl"@ }
    else if i == 2 { "cs"@ }
    else if i == 3 { "sk"@ }
    else if i == 4 { "de"@ }
    else if i == 5 { "es"@ }
    else if i == 6 { "uk"@ }
    else if i == 7 { "it"@ }
    else if i == 8 { "fr"@ }
    else if i == 9 { "ro"@ }
    else if i == 10 { "hu"@ }
    else if i == 11 { "be"@ }
    else if i == 12 { "ru"@ }
    else if i == 13 { "bg"@ }
    else { "sr"@ }
}

/// The native name of the language at position `i` of the language table.
pub open spec fn lang_name(i: int) -> Seq<char> {
    if i == 0 { "English"@ }
    else if i == 1 { "Polski"@ }
    else if i == 2 { "Čeština"@ }
    else if i == 3 { "Slovenčina"@ }
    else if i == 4 { "Deutsch"@ }
    else if i == 5 { "Español"@ }
    else if i == 6 { "Українська"@ }
    else if i == 7 { "Italiano"@ }
    else if i == 8 { "Français"@ }
    else if i == 9 { "Română"@ }
    else if i == 10 { "Magyar"@ }
    else if i == 11 { "Беларуская"@ }
    else if i == 12 { "Русский"@ }
    else if i == 13 { "Български"@ }
    else { "Српски"@ }
}

/// The language table: code and native name of each supported language.
pub fn lang_at(i: usize) -> (res: (&'static str, &'static str))
    requires
        i < LANG_COUNT,
    ensures
        res.0@ == lang_code(i as int),
        res.1@ == lang_name(i as int),
{
    match i {
        0 => ("en", "English"),
        1 => ("pl", "Polski"),
        2 => ("cs", "Čeština"),
        3 => ("sk", "Slovenčina"),
        4 => ("de", "Deutsch"),
        5 => ("es", "Español"),
        6 => ("uk", "Українська"),
        7 => ("it", "Italiano"),
        8 => ("fr", "Français"),
        9 => ("ro", "Română"),
        10 => ("hu", "Magyar"),
        11 => ("be", "Беларуская"),
        12 => ("ru", "Русский"),
        13 => ("bg", "Български"),
        _ => ("sr", "Српски"),
    }
}

/// The supported languages, code and native name, in menu order.
pub fn languages() -> (res: Vec<(&'static str, &'static str)>)
    ensures
        res@.len() == LANG_COUNT,
        forall|i: int| 0 <= i < LANG_COUNT ==> (#[trigger] res@[i]).0@ == lang_code(i),
        forall|i: int| 0 <= i < LANG_COUNT ==> (#[trigger] res@[i]).1@ == lang_name(i),
{
    let mut res: Vec<(&'static str, &'static str)> = Vec::new();
    let mut i: usize = 0;
    while i < LANG_COUNT
        invariant
            i <= LANG_COUNT,
            res@.len() == i,
            forall|k: int| 0 <= k < i ==> (#[trigger] res@[k]).0@ == lang_code(k),
            forall|k: int| 0 <= k < i ==> (#[trigger] res@[k]).1@ == lang_name(k),
        decreases LANG_COUNT - i,
    {
        res.push(lang_at(i));
        i += 1;
    }
    res
}

/// The index of the first language with this code, or 0 (English).
pub open spec fn lang_index(code: Seq<char>) -> nat {
    if exists|i: int| 0 <= i < LANG_COUNT && lang_code(i) == code {
        choose|i: nat| i < LANG_COUNT && lang_code(i as int) == code
            && forall|k: int| 0 <= k < i ==> lang_code(k) != code
    } else {
        0
    }
}

/// One translated string: language, key and text.
pub struct Entry {
    pub lang: String,
    pub key: String,
    pub value: String,
}

/// The language, key and text of an entry.
pub open spec fn entry_view(e: Entry) -> (Seq<char>, Seq<char>, Seq<char>) {
    (e.lang@, e.key@, e.value@)
}

/// The text stored for a language and key: the first entry that has both.
pub open spec fn lookup(es: Seq<(Seq<char>, Seq<char>, Seq<char>)>, lang: Seq<char>, key: Seq<char>) -> Option<Seq<char>>
    decreases es.len(),
{
    if es.len() == 0 {
        None
    } else if es[0].0 == lang && es[0].1 == key {
        Some(es[0].2)
    } else {
        lookup(es.drop_first(), lang, key)
    }
}

/// The entries after storing `value` for `lang` and `key`: the first
/// matching entry is replaced, or the entry is appended.
pub open spec fn store(es: Seq<(Seq<char>, Seq<char>, Seq<char>)>, lang: Seq<char>, key: Seq<char>, value: Seq<char>) -> Seq<(Seq<char>, Seq<char>, Seq<char>)>
    decreases es.len(),
{
    if es.len() == 0 {
        seq![(lang, key, value)]
    } else if es[0].0 == lang && es[0].1 == key {
        es.update(0, (lang, key, value))
    } else {
        seq![es[0]] + store(es.drop_first(), lang, key, value)
    }
}

/// Reading back what was stored gives what was stored, and other keys
/// and languages keep their texts.
pub proof fn lemma_store_lookup(es: Seq<(Seq<char>, Seq<char>, Seq<char>)>, lang: Seq<char>, key: Seq<char>, value: Seq<char>, l2: Seq<char>, k2: Seq<char>)
    ensures
        lookup(store(es, lang, key, value), l2, k2) == (if l2 == lang && k2 == key { Some(value) } else { lookup(es, l2, k2) }),
    decreases es.len(),
{
    if es.len() == 0 {
        assert(store(es, lang, key, value).drop_first() =~= es);
    } else {
        if es[0].0 == lang && es[0].1 == key {
            assert(store(es, lang, key, value).drop_first() =~= es.drop_first());
            assert(store(es, lang, key, value)[0] == (lang, key, value));
        } else {
            lemma_store_lookup(es.drop_first(), lang, key, value, l2, k2);
            assert((seq![es[0]] + store(es.drop_first(), lang, key, value)).drop_first() =~= store(es.drop_first(), lang, key, value));
        }
    }
}

/// The translation catalog: the current language and every entry that was
/// registered.
pub struct Catalog {
    current: usize,
    entries: Vec<Entry>,
}

/// The mathematical content of a catalog.
pub struct CatalogView {
    pub current: nat,
    pub entries: Seq<(Seq<char>, Seq<char>, Seq<char>)>,
}

impl View for Catalog {
    type V = CatalogView;

    closed spec fn view(&self) -> CatalogView {
        CatalogView { current: self.current as nat, entries: self.entries@.map_values(|e: Entry| entry_view(e)) }
    }
}

/// The code of the current language.
pub open spec fn current_code(c: CatalogView) -> Seq<char> {
    if c.current < LANG_COUNT { lang_code(c.current as int) } else { lang_code(0) }
}

/// What `tr` answers: the current language's text, else the English text,
/// else the key itself.
pub open spec fn translate(c: CatalogView, key: Seq<char>) -> Seq<char> {
    match lookup(c.entries, current_code(c), key) {
        Some(v) => v,
        None => match lookup(c.entries, "en"@, key) {
            Some(v) => v,
            None => key,
        },
    }
}

/// The first argument with this name, if any.
pub open spec fn arg_lookup(args: Seq<(Seq<char>, Seq<char>)>, name: Seq<char>) -> Option<Seq<char>>
    decreases args.len(),
{
    if args.len() == 0 {
        None
    } else if args[0].0 == name {
        Some(args[0].1)
    } else {
        arg_lookup(args.drop_first(), name)
    }
}

/// Fills `%{name}` placeholders: each is replaced by the first argument of
/// that name; a placeholder with no such argument stays as it is, and a
/// `%{` with no closing `}` ends the substitution there.
#[verifier::opaque]
pub open spec fn interpolate(t: Seq<char>, args: Seq<(Seq<char>, Seq<char>)>) -> Seq<char>
    decreases t.len(),
{
    match first_occurrence(t, "%{"@) {
        None => t,
        Some(pos) => {
            let after = t.skip(pos + 2);
            match first_occurrence(after, "}"@) {
                None => t,
                Some(close) => {
                    if 0 <= pos && pos + 2 <= t.len() && 0 <= close < after.len() {
                        t.take(pos) + substitution(after.take(close), args) + interpolate(after.skip(close + 1), args)
                    } else {
                        t
                    }
                },
            }
        },
    }
}

/// The names and values of interpolation arguments.
pub open spec fn args_view(args: Seq<(&str, &str)>) -> Seq<(Seq<char>, Seq<char>)> {
    args.map_values(|a: (&str, &str)| (a.0@, a.1@))
}

/// What `serde_json::from_str::<HashMap<String, String>>` yields for a text:
/// the object's keys and string values, or nothing when the text is not a
/// JSON object of strings.
pub uninterp spec fn json_string_map(text: Seq<char>) -> Option<Map<Seq<char>, Seq<char>>>;

/// The key/value pairs hold no key twice.
pub open spec fn distinct_keys(ps: Seq<(Seq<char>, Seq<char>)>) -> bool {
    forall|a: int, b: int| 0 <= a < b < ps.len() ==> ps[a].0 != ps[b].0
}

/// The pairs hold exactly the keys and values of the map.
pub open spec fn pairs_are_map(ps: Seq<(Seq<char>, Seq<char>)>, m: Map<Seq<char>, Seq<char>>) -> bool {
    &&& distinct_keys(ps)
    &&& forall|i: int| 0 <= i < ps.len() ==> m.contains_key(#[trigger] ps[i].0) && m[ps[i].0] == ps[i].1
    &&& forall|k: Seq<char>| m.contains_key(k) ==> exists|i: int| 0 <= i < ps.len() && #[trigger] ps[i].0 == k
}

/// The pairs of a JSON dictionary, in no particular order.
pub open spec fn pair_view(ps: Seq<(String, String)>) -> Seq<(Seq<char>, Seq<char>)> {
    ps.map_values(|p: (String, String)| (p.0@, p.1@))
}

/// Parses a dictionary with `serde_json::from_str` into a `HashMap` of
/// strings and hands out its pairs. The result is named by
/// `json_string_map`; its pairs hold each key once, as a map's do.
#[verifier::external_body]
fn parse_dictionary(text: &str) -> (res: Option<Vec<(String, String)>>)
    ensures
        res is Some <==> json_string_map(text@) is Some,
        res matches Some(ps) ==> pairs_are_map(pair_view(ps@), json_string_map(text@)->0),
{
    match serde_json::from_str::<HashMap<String, String>>(text) {
        Ok(m) => Some(m.into_iter().collect()),
        Err(_) => None,
    }
}

/// The entries after storing every pair of a dictionary for a language.
pub open spec fn store_all(es: Seq<(Seq<char>, Seq<char>, Seq<char>)>, lang: Seq<char>, ps: Seq<(Seq<char>, Seq<char>)>) -> Seq<(Seq<char>, Seq<char>, Seq<char>)>
    decreases ps.len(),
{
    if ps.len() == 0 {
        es
    } else {
        store(store_all(es, lang, ps.drop_last()), lang, ps.last().0, ps.last().1)
    }
}

/// Registering a dictionary: each key it holds now reads as the
/// dictionary's text for that language; everything else reads as before.
pub proof fn lemma_register_lookup(es: Seq<(Seq<char>, Seq<char>, Seq<char>)>, lang: Seq<char>, m: Map<Seq<char>, Seq<char>>, ps: Seq<(Seq<char>, Seq<char>)>, l2: Seq<char>, k2: Seq<char>)
    requires
        pairs_are_map(ps, m),
    ensures
        lookup(store_all(es, lang, ps), l2, k2) == (if l2 == lang && m.contains_key(k2) { Some(m[k2]) } else { lookup(es, l2, k2) }),
    decreases ps.len(),
{
    if ps.len() > 0 {
        let init = ps.drop_last();
        let last = ps.last();
        let m2 = m.remove(last.0);
        assert forall|i: int| 0 <= i < init.len() implies m2.contains_key(#[trigger] init[i].0) && m2[init[i].0] == init[i].1 by {
            assert(init[i] == ps[i]);
            assert(ps[i].0 != ps[ps.len() - 1].0);
        }
        assert forall|k: Seq<char>| m2.contains_key(k) implies exists|i: int| 0 <= i < init.len() && #[trigger] init[i].0 == k by {
            let i = choose|i: int| 0 <= i < ps.len() && #[trigger] ps[i].0 == k;
            assert(i != ps.len() - 1);
            assert(init[i] == ps[i]);
        }
        assert(pairs_are_map(init, m2));
        lemma_register_lookup(es, lang, m2, init, l2, k2);
        lemma_store_lookup(store_all(es, lang, init), lang, last.0, last.1, l2, k2);
        assert(m.contains_key(last.0) && m[last.0] == last.1);
    } else {
        assert forall|k: Seq<char>| !m.contains_key(k) by {
            if m.contains_key(k) {
                let i = choose|i: int| 0 <= i < ps.len() && #[trigger] ps[i].0 == k;
            }
        }
    }
}

/// One dictionary to register: language code and JSON text.
pub open spec fn dict_view(d: (&str, &str)) -> (Seq<char>, Seq<char>) {
    (d.0@, d.1@)
}

/// The entries after registering dictionaries in order; a dictionary whose
/// text is not a JSON object of strings is skipped.
pub open spec fn register_spec(es: Seq<(Seq<char>, Seq<char>, Seq<char>)>, ds: Seq<(Seq<char>, Seq<char>)>) -> spec_fn(Seq<char>, Seq<char>) -> Option<Seq<char>>
    decreases ds.len(),
{
    if ds.len() == 0 {
        |l: Seq<char>, k: Seq<char>| lookup(es, l, k)
    } else {
        let before = register_spec(es, ds.drop_last());
        let d = ds.last();
        match json_string_map(d.1) {
            None => before,
            Some(m) => |l: Seq<char>, k: Seq<char>| if l == d.0 && m.contains_key(k) { Some(m[k]) } else { before(l, k) },
        }
    }
}

impl Catalog {
    /// An empty catalog in English.
    pub fn new() -> (res: Catalog)
        ensures
            res@.current == 0,
            res@.entries == Seq::<(Seq<char>, Seq<char>, Seq<char>)>::empty(),
    {
        let res = Catalog { current: 0, entries: Vec::new() };
        assert(res@.entries =~= Seq::<(Seq<char>, Seq<char>, Seq<char>)>::empty());
        res
    }

    /// The code of the current language.
    pub fn current_lang(&self) -> (res: &'static str)
        ensures
            res@ == current_code(self@),
    {
        if self.current < LANG_COUNT { lang_at(self.current).0 } else { lang_at(0).0 }
    }

    /// Switches to the language with this code, or to English when the
    /// code is not in the table.
    pub fn set_lang(&mut self, code: &str)
        ensures
            final(self)@.current == lang_index(code@),
            final(self)@.entries == old(self)@.entries,
    {
        let mut i: usize = 0;
        while i < LANG_COUNT
            invariant
                i <= LANG_COUNT,
                *self == *old(self),
                forall|k: int| 0 <= k < i ==> lang_code(k) != code@,
            decreases LANG_COUNT - i,
        {
            if str_eq(lang_at(i).0, code) {
                proof {
                    assert(exists|x: int| 0 <= x < LANG_COUNT && lang_code(x) == code@) by {
                        assert(lang_code(i as int) == code@);
                    }
                    let c = choose|x: nat| x < LANG_COUNT && lang_code(x as int) == code@
                        && forall|k: int| 0 <= k < x ==> lang_code(k) != code@;
                    assert((i as nat) < LANG_COUNT && lang_code(i as int) == code@
                        && forall|k: int| 0 <= k < i ==> lang_code(k) != code@);
                    if c < i {
                    } else if c > i {
                        assert(lang_code(i as int) != code@);
                    }
                }
                self.current = i;
                return;
            }
            i += 1;
        }
        self.current = 0;
    }

    /// Stores one translated string.
    fn store_entry(&mut self, lang: &str, key: &str, value: &str)
        ensures
            final(self)@.current == old(self)@.current,
            final(self)@.entries == store(old(self)@.entries, lang@, key@, value@),
    {
        let ghost es = self@.entries;
        let mut i: usize = 0;
        while i < self.entries.len()
            invariant
                i <= self.entries.len(),
                *self == *old(self),
                self@.entries == es,
                forall|k: int| 0 <= k < i ==> !(es[k].0 == lang@ && es[k].1 == key@),
            decreases self.entries.len() - i,
        {
            if str_eq(self.entries[i].lang.as_str(), lang) && str_eq(self.entries[i].key.as_str(), key) {
                let e = Entry { lang: lang.to_owned(), key: key.to_owned(), value: value.to_owned() };
                self.entries.set(i, e);
                proof {
                    lemma_store_prefix(es, lang@, key@, value@, i as int);
                    assert(self@.entries =~= es.update(i as int, (lang@, key@, value@)));
                }
                return;
            }
            i += 1;
        }
        let e = Entry { lang: lang.to_owned(), key: key.to_owned(), value: value.to_owned() };
        self.entries.push(e);
        proof {
            lemma_store_absent(es, lang@, key@, value@);
            assert(self@.entries =~= es.push((lang@, key@, value@)));
        }
    }

    /// The stored text for a language and key, if any.
    fn find(&self, lang: &str, key: &str) -> (res: Option<&String>)
        ensures
            match res {
                Some(v) => lookup(self@.entries, lang@, key@) == Some(v@),
                None => lookup(self@.entries, lang@, key@) is None,
            },
    {
        let ghost es = self@.entries;
        assert(es.skip(0) =~= es);
        let mut i: usize = 0;
        while i < self.entries.len()
            invariant
                i <= self.entries.len(),
                self@.entries == es,
                lookup(es, lang@, key@) == lookup(es.skip(i as int), lang@, key@),
            decreases self.entries.len() - i,
        {
            assert(es.skip(i as int)[0] == entry_view(self.entries@[i as int]));
            if str_eq(self.entries[i].lang.as_str(), lang) && str_eq(self.entries[i].key.as_str(), key) {
                return Some(&self.entries[i].value);
            }
            assert(es.skip(i as int).drop_first() =~= es.skip(i + 1));
            i += 1;
        }
        None
    }

    /// The text for a key in the current language, falling back to English
    /// and then to the key itself.
    pub fn tr(&self, key: &str) -> (res: String)
        ensures
            res@ == translate(self@, key@),
    {
        let cur = self.current_lang();
        if let Some(v) = self.find(cur, key) {
            return v.clone();
        }
        if let Some(v) = self.find("en", key) {
            return v.clone();
        }
        key.to_owned()
    }

    /// The text for a key with `%{name}` placeholders filled in from `args`.
    pub fn trf(&self, key: &str, args: &[(&str, &str)]) -> (res: String)
        ensures
            res@ == interpolate(translate(self@, key@), args_view(args@)),
    {
        let template = self.tr(key);
        let t = chars_of(template.as_str());
        let out = interpolate_chars(t.as_slice(), args);
        crate::text::string_from_chars(out.as_slice())
    }

    /// Stores the texts of a parsed dictionary for a language, one pair
    /// after the other; a later text for a key replaces an earlier one.
    pub fn store_pairs(&mut self, lang: &str, pairs: &Vec<(String, String)>)
        ensures
            final(self)@.current == old(self)@.current,
            final(self)@.entries == store_all(old(self)@.entries, lang@, pair_view(pairs@)),
    {
        let ghost before = self@.entries;
        let mut j: usize = 0;
        while j < pairs.len()
            invariant
                j <= pairs.len(),
                self@.current == old(self)@.current,
                self@.entries == store_all(before, lang@, pair_view(pairs@).take(j as int)),
            decreases pairs.len() - j,
        {
            let (k, v) = &pairs[j];
            self.store_entry(lang, k.as_str(), v.as_str());
            assert(pair_view(pairs@).take(j + 1).drop_last() =~= pair_view(pairs@).take(j as int));
            j += 1;
        }
        assert(pair_view(pairs@).take(pairs@.len() as int) =~= pair_view(pairs@));
    }

    /// Registers dictionaries, each a language code and a JSON object of
    /// texts; a text that is not such an object is skipped.
    pub fn register(&mut self, dicts: &[(&str, &str)])
        ensures
            final(self)@.current == old(self)@.current,
            forall|l: Seq<char>, k: Seq<char>| #[trigger] lookup(final(self)@.entries, l, k)
                == (register_spec(old(self)@.entries, dicts@.map_values(|d: (&str, &str)| dict_view(d))))(l, k),
    {
        let ghost es0 = self@.entries;
        let ghost ds = dicts@.map_values(|d: (&str, &str)| dict_view(d));
        let mut i: usize = 0;
        while i < dicts.len()
            invariant
                i <= dicts.len(),
                self@.current == old(self)@.current,
                es0 == old(self)@.entries,
                ds == dicts@.map_values(|d: (&str, &str)| dict_view(d)),
                forall|l: Seq<char>, k: Seq<char>| #[trigger] lookup(self@.entries, l, k) == (register_spec(es0, ds.take(i as int)))(l, k),
            decreases dicts.len() - i,
        {
            let (lang, json) = dicts[i];
            assert(ds.take(i + 1).drop_last() =~= ds.take(i as int));
            assert(ds.take(i + 1).last() == dict_view(dicts@[i as int]));
            match parse_dictionary(json) {
                None => {},
                Some(pairs) => {
                    let ghost before = self@.entries;
                    let ghost m = json_string_map(json@)->0;
                    self.store_pairs(lang, &pairs);
                    assert forall|l: Seq<char>, k: Seq<char>| #[trigger] lookup(self@.entries, l, k) == (register_spec(es0, ds.take(i + 1)))(l, k) by {
                        lemma_register_lookup(before, lang@, m, pair_view(pairs@), l, k);
                    }
                },
            }
            i += 1;
        }
        assert(ds.take(dicts@.len() as int) =~= ds);
    }
}

proof fn lemma_store_prefix(es: Seq<(Seq<char>, Seq<char>, Seq<char>)>, lang: Seq<char>, key: Seq<char>, value: Seq<char>, i: int)
    requires
        0 <= i < es.len(),
        es[i].0 == lang && es[i].1 == key,
        forall|k: int| 0 <= k < i ==> !(es[k].0 == lang && es[k].1 == key),
    ensures
        store(es, lang, key, value) == es.update(i, (lang, key, value)),
    decreases i,
{
    if i > 0 {
        assert forall|k: int| 0 <= k < i - 1 implies !(es.drop_first()[k].0 == lang && es.drop_first()[k].1 == key) by {
            assert(es.drop_first()[k] == es[k + 1]);
        }
        lemma_store_prefix(es.drop_first(), lang, key, value, i - 1);
        assert(seq![es[0]] + es.drop_first().update(i - 1, (lang, key, value)) =~= es.update(i, (lang, key, value)));
    }
}

proof fn lemma_store_absent(es: Seq<(Seq<char>, Seq<char>, Seq<char>)>, lang: Seq<char>, key: Seq<char>, value: Seq<char>)
    requires
        forall|k: int| 0 <= k < es.len() ==> !(es[k].0 == lang && es[k].1 == key),
    ensures
        store(es, lang, key, value) == es.push((lang, key, value)),
    decreases es.len(),
{
    if es.len() > 0 {
        assert forall|k: int| 0 <= k < es.len() - 1 implies !(es.drop_first()[k].0 == lang && es.drop_first()[k].1 == key) by {
            assert(es.drop_first()[k] == es[k + 1]);
        }
        lemma_store_absent(es.drop_first(), lang, key, value);
        assert(seq![es[0]] + es.drop_first().push((lang, key, value)) =~= es.push((lang, key, value)));
    } else {
        assert(seq![(lang, key, value)] =~= es.push((lang, key, value)));
    }
}

/// The value of the first argument with this name.
fn find_arg<'a>(args: &[(&'a str, &'a str)], name: &[char]) -> (res: Option<&'a str>)
    ensures
        match res {
            Some(v) => arg_lookup(args_view(args@), name@) == Some(v@),
            None => arg_lookup(args_view(args@), name@) is None,
        },
{
    let ghost av = args_view(args@);
    assert(av.skip(0) =~= av);
    let mut i: usize = 0;
    while i < args.len()
        invariant
            i <= args.len(),
            av == args_view(args@),
            arg_lookup(av, name@) == arg_lookup(av.skip(i as int), name@),
        decreases args.len() - i,
    {
        let (n, v) = args[i];
        let nc = chars_of(n);
        assert(av.skip(i as int)[0] == (n@, v@));
        if chars_eq(nc.as_slice(), name) {
            return Some(v);
        }
        assert(av.skip(i as int).drop_first() =~= av.skip(i + 1));
        i += 1;
    }
    None
}

/// The characters of `s` from position `k` on.
fn skip_chars(s: &[char], k: usize) -> (res: Vec<char>)
    requires
        k <= s.len(),
    ensures
        res@ == s@.skip(k as int),
{
    let mut res: Vec<char> = Vec::new();
    let mut i: usize = k;
    while i < s.len()
        invariant
            k <= i <= s.len(),
            res@ == s@.subrange(k as int, i as int),
        decreases s.len() - i,
    {
        res.push(s[i]);
        assert(s@.subrange(k as int, i + 1) =~= s@.subrange(k as int, i as int).push(s@[i as int]));
        i += 1;
    }
    assert(res@ =~= s@.skip(k as int));
    res
}

/// The first `k` characters of `s`.
fn take_chars(s: &[char], k: usize) -> (res: Vec<char>)
    requires
        k <= s.len(),
    ensures
        res@ == s@.take(k as int),
{
    let mut res: Vec<char> = Vec::new();
    let mut i: usize = 0;
    while i < k
        invariant
            i <= k <= s.len(),
            res@ == s@.take(i as int),
        decreases k - i,
    {
        res.push(s[i]);
        assert(s@.take(i + 1) =~= s@.take(i as int).push(s@[i as int]));
        i += 1;
    }
    res
}

proof fn lemma_interpolate_step(t: Seq<char>, av: Seq<(Seq<char>, Seq<char>)>, pos: int, close: int)
    requires
        first_occurrence(t, "%{"@) == Some(pos),
        0 <= pos && pos + 2 <= t.len(),
        first_occurrence(t.skip(pos + 2), "}"@) == Some(close),
        0 <= close < t.skip(pos + 2).len(),
    ensures
        interpolate(t, av) == t.take(pos) + substitution(t.skip(pos + 2).take(close), av)
            + interpolate(t.skip(pos + 2).skip(close + 1), av),
{
    reveal(interpolate);
}

proof fn lemma_interpolate_done(t: Seq<char>, av: Seq<(Seq<char>, Seq<char>)>)
    requires
        first_occurrence(t, "%{"@) is None || (first_occurrence(t, "%{"@) matches Some(pos)
            && 0 <= pos && pos + 2 <= t.len() && first_occurrence(t.skip(pos + 2), "}"@) is None),
    ensures
        interpolate(t, av) == t,
{
    reveal(interpolate);
}

/// Where `needle` occurs at `w`, some occurrence has none before it.
proof fn lemma_earliest_occurrence(s: Seq<char>, needle: Seq<char>, w: int)
    requires
        occurs_at(s, needle, w),
    ensures
        exists|a: int| occurs_at(s, needle, a) && forall|k: int| 0 <= k < a ==> !occurs_at(s, needle, k),
    decreases w,
{
    if exists|k: int| 0 <= k < w && occurs_at(s, needle, k) {
        let k = choose|k: int| 0 <= k < w && occurs_at(s, needle, k);
        lemma_earliest_occurrence(s, needle, k);
    } else {
        assert(occurs_at(s, needle, w) && forall|k: int| 0 <= k < w ==> !occurs_at(s, needle, k));
    }
}

/// The first occurrence, where there is one, is an occurrence.
proof fn lemma_first_occurrence_occurs(s: Seq<char>, needle: Seq<char>)
    ensures
        first_occurrence(s, needle) matches Some(at) ==> occurs_at(s, needle, at),
{
    if contains_seq(s, needle) {
        let w = choose|at: int| occurs_at(s, needle, at);
        lemma_earliest_occurrence(s, needle, w);
    }
}

/// A text cut around a placeholder is the text again.
proof fn lemma_placeholder_reassembles(t: Seq<char>, pos: int, close: int)
    requires
        occurs_at(t, "%{"@, pos),
        occurs_at(t.skip(pos + 2), "}"@, close),
    ensures
        t == t.take(pos) + ("%{"@ + t.skip(pos + 2).take(close) + "}"@) + t.skip(pos + 2).skip(close + 1),
{
    reveal_strlit("%{");
    reveal_strlit("}");
    let after = t.skip(pos + 2);
    let name = after.take(close);
    let rest = after.skip(close + 1);
    let r = t.take(pos) + ("%{"@ + name + "}"@) + rest;
    assert(r.len() == t.len());
    assert forall|i: int| 0 <= i < t.len() implies t[i] == r[i] by {
        if i < pos {
        } else if i < pos + 2 {
            assert(t[i] == t.subrange(pos, pos + 2)[i - pos]);
        } else if i < pos + 2 + close {
            assert(t[i] == after[i - pos - 2]);
        } else if i == pos + 2 + close {
            assert(t[i] == after[close]);
            assert(after[close] == after.subrange(close, close + 1)[0]);
        } else {
            assert(t[i] == after[i - pos - 2]);
        }
    }
    assert(t =~= r);
}

/// A closed placeholder whose tail interpolates to itself leaves the
/// whole text as it is when there are no arguments.
#[verifier::rlimit(60)]
proof fn lemma_no_args_placeholder(t: Seq<char>, pos: int, close: int)
    requires
        first_occurrence(t, "%{"@) == Some(pos),
        occurs_at(t, "%{"@, pos),
        first_occurrence(t.skip(pos + 2), "}"@) == Some(close),
        occurs_at(t.skip(pos + 2), "}"@, close),
        interpolate(t.skip(pos + 2).skip(close + 1), Seq::empty()) == t.skip(pos + 2).skip(close + 1),
    ensures
        interpolate(t, Seq::empty()) == t,
{
    let av = Seq::<(Seq<char>, Seq<char>)>::empty();
    reveal_strlit("%{");
    reveal_strlit("}");
    lemma_interpolate_step(t, av, pos, close);
    let name = t.skip(pos + 2).take(close);
    assert(substitution(name, av) == "%{"@ + name + "}"@);
    lemma_placeholder_reassembles(t, pos, close);
}

/// With no arguments, interpolation leaves a text as it is: every
/// placeholder stays, and an unclosed `%{` keeps the rest of the text.
pub proof fn lemma_interpolate_no_args(t: Seq<char>)
    ensures
        interpolate(t, Seq::empty()) == t,
    decreases t.len(),
{
    let av = Seq::<(Seq<char>, Seq<char>)>::empty();
    lemma_first_occurrence_occurs(t, "%{"@);
    if first_occurrence(t, "%{"@) is None {
        lemma_interpolate_done(t, av);
    } else {
        let pos = first_occurrence(t, "%{"@)->0;
        assert("%{"@.len() == 2) by { reveal_strlit("%{"); }
        let after = t.skip(pos + 2);
        lemma_first_occurrence_occurs(after, "}"@);
        if first_occurrence(after, "}"@) is None {
            lemma_interpolate_done(t, av);
        } else {
            let close = first_occurrence(after, "}"@)->0;
            assert("}"@.len() == 1) by { reveal_strlit("}"); }
            let rest = after.skip(close + 1);
            lemma_interpolate_no_args(rest);
            lemma_no_args_placeholder(t, pos, close);
        }
    }
}

/// Formatting a key with no arguments gives the same text as translating
/// it: `trf(key, &[])` and `tr(key)` agree for every catalog and key.
pub proof fn lemma_trf_without_args(c: CatalogView, key: Seq<char>)
    ensures
        interpolate(translate(c, key), args_view(Seq::<(&str, &str)>::empty())) == translate(c, key),
{
    assert(args_view(Seq::<(&str, &str)>::empty()) =~= Seq::<(Seq<char>, Seq<char>)>::empty());
    lemma_interpolate_no_args(translate(c, key));
}

/// What a placeholder named `name` becomes.
pub open spec fn substitution(name: Seq<char>, args: Seq<(Seq<char>, Seq<char>)>) -> Seq<char> {
    match arg_lookup(args, name) {
        Some(v) => v,
        None => "%{"@ + name + "}"@,
    }
}

fn substitute(name: &[char], args: &[(&str, &str)]) -> (res: Vec<char>)
    ensures
        res@ == substitution(name@, args_view(args@)),
{
    match find_arg(args, name) {
        Some(v) => chars_of(v),
        None => {
            let mut piece = chars_of("%{");
            extend_chars(&mut piece, name);
            extend_str(&mut piece, "}");
            piece
        },
    }
}

/// Handles the first placeholder of `rest`: what precedes it and its
/// substitution go to `out`, and the text after it is handed back; `None`
/// when no placeholder is left and `out` has taken the rest.
fn interpolate_step(rest: &[char], args: &[(&str, &str)], out: &mut Vec<char>) -> (res: Option<Vec<char>>)
    ensures
        match res {
            None => final(out)@ == old(out)@ + interpolate(rest@, args_view(args@)),
            Some(r) => r@.len() < rest@.len()
                && final(out)@ + interpolate(r@, args_view(args@)) == old(out)@ + interpolate(rest@, args_view(args@)),
        },
{
    let ghost av = args_view(args@);
    let open = chars_of("%{");
    let close_c = chars_of("}");
    proof {
        reveal_strlit("%{");
        reveal_strlit("}");
    }
    let found = crate::text::find_chars(rest, open.as_slice());
    if found.is_none() {
        extend_chars(out, rest);
        proof { lemma_interpolate_done(rest@, av); }
        return None;
    }
    let pos = found.unwrap();
    assert(pos + 2 <= rest.len());
    let after = skip_chars(rest, pos + 2);
    let found_close = crate::text::find_chars(after.as_slice(), close_c.as_slice());
    if found_close.is_none() {
        extend_chars(out, rest);
        proof { lemma_interpolate_done(rest@, av); }
        return None;
    }
    let close = found_close.unwrap();
    assert(close + 1 <= after.len());
    let head = take_chars(rest, pos);
    let name = take_chars(after.as_slice(), close);
    let piece = substitute(name.as_slice(), args);
    let r = skip_chars(after.as_slice(), close + 1);
    let ghost o = out@;
    extend_chars(out, head.as_slice());
    extend_chars(out, piece.as_slice());
    proof {
        lemma_interpolate_step(rest@, av, pos as int, close as int);
        assert(out@ + interpolate(r@, av) =~= o + (head@ + piece@ + interpolate(r@, av)));
    }
    Some(r)
}

/// Fills `%{name}` placeholders of a template.
pub fn interpolate_chars(t: &[char], args: &[(&str, &str)]) -> (res: Vec<char>)
    ensures
        res@ == interpolate(t@, args_view(args@)),
{
    let mut out: Vec<char> = Vec::new();
    let mut rest: Vec<char> = skip_chars(t, 0);
    let ghost av = args_view(args@);
    assert(out@ + interpolate(rest@, av) =~= interpolate(t@, av)) by {
        assert(rest@ =~= t@);
    }
    loop
        invariant
            av == args_view(args@),
            out@ + interpolate(rest@, av) == interpolate(t@, av),
        decreases rest@.len(),
    {
        match interpolate_step(rest.as_slice(), args, &mut out) {
            None => {
                return out;
            },
            Some(r) => {
                rest = r;
            },
        }
    }
}

} // verus!
