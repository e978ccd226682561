//! Translation catalogs: one map from keys to texts per locale, and a bundle that
//! looks a key up in the requested locale, then in the default locale, and falls
//! back to the key itself.

use vstd::prelude::*;

use crate::locale::LocaleId;
use crate::text::str_eq;

verus! {

#[verifier::external_type_specification]
#[verifier::external_body]
pub struct ExJsonError(serde_json::Error);

/// The object of strings that a JSON text holds, or `None` when the text is not
/// a JSON object whose values are all strings. A repeated key keeps its last value.
pub uninterp spec fn json_string_map(source: Seq<char>) -> Option<Map<Seq<char>, Seq<char>>>;

/// Entries as (key, text) character sequences.
pub open spec fn entry_views(e: Seq<(String, String)>) -> Seq<(Seq<char>, Seq<char>)> {
    e.map_values(|p: (String, String)| (p.0@, p.1@))
}

/// No key occurs twice.
pub open spec fn keys_distinct(e: Seq<(Seq<char>, Seq<char>)>) -> bool {
    forall|i: int, j: int| 0 <= i < j < e.len() ==> e[i].0 != e[j].0
}

/// The map that a list of entries with distinct keys stands for.
pub open spec fn entry_map(e: Seq<(Seq<char>, Seq<char>)>) -> Map<Seq<char>, Seq<char>>
    decreases e.len(),
{
    if e.len() == 0 {
        Map::empty()
    } else {
        entry_map(e.drop_last()).insert(e.last().0, e.last().1)
    }
}

/// `serde_json::from_str` into a `HashMap<String, String>`, its entries handed out
/// as a list. The contract claims that the parse succeeds exactly when the source is
/// a JSON object of strings, that the list holds that object's entries, each key
/// once, and nothing else. The order of the list (hash-map order) is left unsaid.
#[verifier::external_body]
fn parse_json_string_map(source: &str) -> (r: Result<Vec<(String, String)>, serde_json::Error>)
    ensures
        match r {
            Ok(entries) => {
                &&& json_string_map(source@) == Some(entry_map(entry_views(entries@)))
                &&& keys_distinct(entry_views(entries@))
            },
            Err(_) => json_string_map(source@) is None,
        },
{
    match serde_json::from_str::<std::collections::HashMap<String, String>>(source) {
        Ok(map) => Ok(map.into_iter().collect()),
        Err(err) => Err(err),
    }
}

pub proof fn lemma_entry_map_contains(e: Seq<(Seq<char>, Seq<char>)>, k: Seq<char>)
    ensures
        entry_map(e).contains_key(k) <==> exists|i: int| 0 <= i < e.len() && e[i].0 == k,
    decreases e.len(),
{
    if e.len() > 0 {
        lemma_entry_map_contains(e.drop_last(), k);
        if exists|i: int| 0 <= i < e.drop_last().len() && e.drop_last()[i].0 == k {
            let i = choose|i: int| 0 <= i < e.drop_last().len() && e.drop_last()[i].0 == k;
            assert(e[i].0 == k);
        }
        if exists|i: int| 0 <= i < e.len() && e[i].0 == k {
            let i = choose|i: int| 0 <= i < e.len() && e[i].0 == k;
            if i < e.len() - 1 {
                assert(e.drop_last()[i].0 == k);
            }
        }
    }
}

pub proof fn lemma_entry_map_at(e: Seq<(Seq<char>, Seq<char>)>, i: int)
    requires
        keys_distinct(e),
        0 <= i < e.len(),
    ensures
        entry_map(e).contains_key(e[i].0),
        entry_map(e)[e[i].0] == e[i].1,
    decreases e.len(),
{
    if i < e.len() - 1 {
        assert(e.drop_last()[i] == e[i]);
        lemma_entry_map_at(e.drop_last(), i);
        assert(e.last().0 != e[i].0);
    }
}

/// The texts of one locale.
#[derive(Debug)]
pub struct Catalog {
    locale: LocaleId,
    entries: Vec<(String, String)>,
}

/// Why a catalog or a bundle could not be built.
#[derive(Debug)]
pub enum CatalogError {
    InvalidJson { locale: LocaleId, source: serde_json::Error },
    EmptyKey { locale: LocaleId },
    DuplicateLocale(LocaleId),
    MissingDefault(LocaleId),
}

impl View for Catalog {
    type V = Map<Seq<char>, Seq<char>>;

    closed spec fn view(&self) -> Map<Seq<char>, Seq<char>> {
        entry_map(entry_views(self.entries@))
    }
}

impl Catalog {
    #[verifier::type_invariant]
    spec fn well_formed(self) -> bool {
        &&& keys_distinct(entry_views(self.entries@))
        &&& forall|i: int| 0 <= i < self.entries@.len() ==> (#[trigger] self.entries@[i]).0@.len() > 0
    }

    /// The locale of this catalog, as a spec value.
    pub closed spec fn locale_spec(&self) -> LocaleId {
        self.locale
    }

    /// Builds the catalog of `locale` from a JSON object of strings.
    pub fn from_json(locale: LocaleId, source: &str) -> (r: Result<Catalog, CatalogError>)
        ensures
            match r {
                Ok(c) => {
                    &&& c.locale_spec() == locale
                    &&& json_string_map(source@) == Some(c@)
                    &&& !c@.contains_key(Seq::empty())
                },
                Err(CatalogError::InvalidJson { locale: l, .. }) => l == locale && json_string_map(
                    source@,
                ) is None,
                Err(CatalogError::EmptyKey { locale: l }) => {
                    &&& l == locale
                    &&& json_string_map(source@) matches Some(m)
                    &&& m.contains_key(Seq::empty())
                },
                Err(_) => false,
            },
    {
        let entries = match parse_json_string_map(source) {
            Ok(entries) => entries,
            Err(err) => return Err(CatalogError::InvalidJson { locale, source: err }),
        };
        let ghost e = entry_views(entries@);
        let mut i: usize = 0;
        while i < entries.len()
            invariant
                e == entry_views(entries@),
                json_string_map(source@) == Some(entry_map(e)),
                keys_distinct(e),
                i <= entries@.len(),
                forall|k: int| 0 <= k < i ==> (#[trigger] entries@[k]).0@.len() > 0,
            decreases entries@.len() - i,
        {
            if entries[i].0.as_str().is_empty() {
                proof {
                    assert(e[i as int].0 =~= Seq::<char>::empty());
                    lemma_entry_map_contains(e, Seq::empty());
                    assert(entry_map(e).contains_key(Seq::empty()));
                    assert(json_string_map(source@) == Some(entry_map(e)));
                }
                return Err(CatalogError::EmptyKey { locale });
            }
            i = i + 1;
        }
        proof {
            lemma_entry_map_contains(e, Seq::empty());
            if exists|k: int| 0 <= k < e.len() && e[k].0 == Seq::<char>::empty() {
                let k = choose|k: int| 0 <= k < e.len() && e[k].0 == Seq::<char>::empty();
                assert(entries@[k].0@.len() > 0);
            }
        }
        Ok(Catalog { locale, entries })
    }

    /// The locale of this catalog.
    pub fn locale(&self) -> (r: LocaleId)
        ensures
            r == self.locale_spec(),
    {
        self.locale
    }

    /// The text of `key`, if this catalog has one.
    pub fn get(&self, key: &str) -> (r: Option<&str>)
        ensures
            match r {
                Some(text) => self@.contains_key(key@) && self@[key@] == text@,
                None => !self@.contains_key(key@),
            },
    {
        proof {
            use_type_invariant(self);
        }
        let ghost e = entry_views(self.entries@);
        let mut i: usize = 0;
        while i < self.entries.len()
            invariant
                e == entry_views(self.entries@),
                keys_distinct(e),
                i <= self.entries@.len(),
                forall|k: int| 0 <= k < i ==> e[k].0 != key@,
            decreases self.entries@.len() - i,
        {
            if str_eq(self.entries[i].0.as_str(), key) {
                proof {
                    lemma_entry_map_at(e, i as int);
                }
                return Some(self.entries[i].1.as_str());
            }
            i = i + 1;
        }
        proof {
            lemma_entry_map_contains(e, key@);
        }
        None
    }
}

/// Where the text of a lookup came from.
#[derive(Clone, Copy, Debug, PartialEq, Eq, Structural)]
pub enum TranslationSource {
    RequestedLocale,
    DefaultLocale,
    Key,
}

/// The text of a lookup and where it came from.
#[derive(Debug, PartialEq, Eq)]
pub struct TranslationLookup<'a> {
    pub text: &'a str,
    pub source: TranslationSource,
}

/// The catalogs of all bundled locales, with a default locale that has one.
#[derive(Debug)]
pub struct CatalogBundle {
    default_locale: LocaleId,
    catalogs: Vec<Catalog>,
}

/// The locales of a list of catalogs, in order.
pub open spec fn catalog_locales(c: Seq<Catalog>) -> Seq<LocaleId> {
    c.map_values(|x: Catalog| x.locale_spec())
}

/// Whether the locale at `i` occurs at an earlier index.
pub open spec fn repeats_earlier(l: Seq<LocaleId>, i: int) -> bool {
    exists|j: int| 0 <= j < i && l[j] == l[i]
}

/// The first index whose locale occurs at an earlier index.
pub open spec fn first_repeated_locale(l: Seq<LocaleId>) -> Option<int> {
    if exists|i: int| 0 <= i < l.len() && #[trigger] repeats_earlier(l, i) {
        Some(
            choose|i: int|
                {
                    &&& 0 <= i < l.len()
                    &&& #[trigger] repeats_earlier(l, i)
                    &&& forall|k: int| 0 <= k < i ==> !repeats_earlier(l, k)
                },
        )
    } else {
        None
    }
}

/// The catalog map of the catalog of `locale` in a list, if any.
pub open spec fn catalog_map_of(c: Seq<Catalog>, locale: LocaleId) -> Option<Map<Seq<char>, Seq<char>>> {
    if exists|i: int| 0 <= i < c.len() && c[i].locale_spec() == locale {
        Some(c[choose|i: int| 0 <= i < c.len() && c[i].locale_spec() == locale]@)
    } else {
        None
    }
}

/// The text that looking `key` up in `locale` yields, and where it comes from.
pub open spec fn lookup_spec(
    catalogs: spec_fn(LocaleId) -> Option<Map<Seq<char>, Seq<char>>>,
    default_locale: LocaleId,
    locale: LocaleId,
    key: Seq<char>,
) -> (Seq<char>, TranslationSource) {
    if catalogs(locale) is Some && catalogs(locale)->0.contains_key(key) {
        (catalogs(locale)->0[key], TranslationSource::RequestedLocale)
    } else if catalogs(default_locale) is Some && catalogs(default_locale)->0.contains_key(key) {
        (catalogs(default_locale)->0[key], TranslationSource::DefaultLocale)
    } else {
        (key, TranslationSource::Key)
    }
}

impl CatalogBundle {
    #[verifier::type_invariant]
    spec fn well_formed(self) -> bool {
        &&& first_repeated_locale(catalog_locales(self.catalogs@)) is None
        &&& catalog_locales(self.catalogs@).contains(self.default_locale)
    }

    /// The default locale, as a spec value.
    pub closed spec fn default_locale_spec(&self) -> LocaleId {
        self.default_locale
    }

    /// The catalog map of `locale` in this bundle, if it has one.
    pub closed spec fn catalog(&self, locale: LocaleId) -> Option<Map<Seq<char>, Seq<char>>> {
        catalog_map_of(self.catalogs@, locale)
    }

    /// Bundles `catalogs`, no two of one locale, with `default_locale` among them.
    pub fn new(default_locale: LocaleId, catalogs: Vec<Catalog>) -> (r: Result<CatalogBundle, CatalogError>)
        ensures
            match first_repeated_locale(catalog_locales(catalogs@)) {
                Some(i) => r matches Err(CatalogError::DuplicateLocale(l)) && l
                    == catalogs@[i].locale_spec(),
                None => if !catalog_locales(catalogs@).contains(default_locale) {
                    r matches Err(CatalogError::MissingDefault(l)) && l == default_locale
                } else {
                    r matches Ok(b) && b.default_locale_spec() == default_locale && forall|
                        l: LocaleId,
                    | #[trigger] b.catalog(l) == catalog_map_of(catalogs@, l)
                },
            },
    {
        let ghost locs = catalog_locales(catalogs@);
        let mut i: usize = 0;
        while i < catalogs.len()
            invariant
                locs == catalog_locales(catalogs@),
                i <= catalogs@.len(),
                forall|k: int| 0 <= k < i ==> !repeats_earlier(locs, k),
            decreases catalogs@.len() - i,
        {
            let l = catalogs[i].locale();
            let found = position_of_locale(&catalogs, i, l);
            if found < i {
                proof {
                    assert(locs[found as int] == locs[i as int]);
                    lemma_first_repeated_is(locs, i as int);
                }
                return Err(CatalogError::DuplicateLocale(l));
            }
            assert(!repeats_earlier(locs, i as int));
            i = i + 1;
        }
        proof {
            lemma_no_repeated(locs);
        }
        let d = position_of_locale(&catalogs, catalogs.len(), default_locale);
        if d < catalogs.len() {
            Ok(CatalogBundle { default_locale, catalogs })
        } else {
            assert(!locs.contains(default_locale));
            Err(CatalogError::MissingDefault(default_locale))
        }
    }

    fn find_catalog(&self, locale: LocaleId) -> (r: Option<&Catalog>)
        ensures
            match r {
                Some(c) => self.catalog(locale) == Some(c@),
                None => self.catalog(locale) is None,
            },
    {
        proof {
            use_type_invariant(self);
        }
        let ghost locs = catalog_locales(self.catalogs@);
        let mut i: usize = 0;
        while i < self.catalogs.len()
            invariant
                locs == catalog_locales(self.catalogs@),
                first_repeated_locale(locs) is None,
                i <= self.catalogs@.len(),
                forall|q: int| 0 <= q < i ==> locs[q] != locale,
            decreases self.catalogs@.len() - i,
        {
            if self.catalogs[i].locale() == locale {
                proof {
                    assert(locs[i as int] == locale);
                    let j = choose|j: int|
                        0 <= j < self.catalogs@.len() && self.catalogs@[j].locale_spec() == locale;
                    assert(locs[j] == locale);
                    lemma_distinct_locales(locs, i as int, j);
                }
                return Some(&self.catalogs[i]);
            }
            i = i + 1;
        }
        proof {
            if exists|j: int| 0 <= j < self.catalogs@.len() && self.catalogs@[j].locale_spec() == locale {
                let j = choose|j: int|
                    0 <= j < self.catalogs@.len() && self.catalogs@[j].locale_spec() == locale;
                assert(locs[j] == locale);
            }
        }
        None
    }

    /// Looks `key` up in `locale`, then in the default locale; falls back to the key.
    pub fn lookup<'a>(&'a self, locale: LocaleId, key: &'a str) -> (r: TranslationLookup<'a>)
        ensures
            (r.text@, r.source) == lookup_spec(
                |l: LocaleId| self.catalog(l),
                self.default_locale_spec(),
                locale,
                key@,
            ),
    {
        if let Some(catalog) = self.find_catalog(locale) {
            if let Some(text) = catalog.get(key) {
                return TranslationLookup { text, source: TranslationSource::RequestedLocale };
            }
        }
        if let Some(catalog) = self.find_catalog(self.default_locale) {
            if let Some(text) = catalog.get(key) {
                return TranslationLookup { text, source: TranslationSource::DefaultLocale };
            }
        }
        TranslationLookup { text: key, source: TranslationSource::Key }
    }

    /// The text of `key` in `locale` (see [`CatalogBundle::lookup`]).
    pub fn text<'a>(&'a self, locale: LocaleId, key: &'a str) -> (r: &'a str)
        ensures
            r@ == lookup_spec(
                |l: LocaleId| self.catalog(l),
                self.default_locale_spec(),
                locale,
                key@,
            ).0,
    {
        self.lookup(locale, key).text
    }
}

/// The first index below `n` whose catalog has `locale`, or `n` when none does.
fn position_of_locale(catalogs: &Vec<Catalog>, n: usize, locale: LocaleId) -> (r: usize)
    requires
        n <= catalogs@.len(),
    ensures
        r <= n,
        r < n ==> catalog_locales(catalogs@)[r as int] == locale,
        forall|q: int| 0 <= q < r ==> catalog_locales(catalogs@)[q] != locale,
{
    let ghost locs = catalog_locales(catalogs@);
    let mut i: usize = 0;
    while i < n
        invariant
            locs == catalog_locales(catalogs@),
            n <= catalogs@.len(),
            i <= n,
            forall|q: int| 0 <= q < i ==> locs[q] != locale,
        decreases n - i,
    {
        if catalogs[i].locale() == locale {
            return i;
        }
        i = i + 1;
    }
    i
}

proof fn lemma_distinct_locales(l: Seq<LocaleId>, i: int, j: int)
    requires
        first_repeated_locale(l) is None,
        0 <= i < l.len(),
        0 <= j < l.len(),
        l[i] == l[j],
    ensures
        i == j,
{
    if i < j {
        assert(repeats_earlier(l, j));
    } else if j < i {
        assert(repeats_earlier(l, i));
    }
}

proof fn lemma_first_repeated_is(l: Seq<LocaleId>, i: int)
    requires
        0 <= i < l.len(),
        exists|j: int| 0 <= j < i && l[j] == l[i],
        forall|k: int| 0 <= k < i ==> !repeats_earlier(l, k),
    ensures
        first_repeated_locale(l) == Some(i),
{
    assert(repeats_earlier(l, i));
    let c = choose|c: int|
        {
            &&& 0 <= c < l.len()
            &&& #[trigger] repeats_earlier(l, c)
            &&& forall|k: int| 0 <= k < c ==> !repeats_earlier(l, k)
        };
    if c < i {
        assert(!repeats_earlier(l, c));
    } else if c > i {
        assert(!repeats_earlier(l, i));
    }
}

proof fn lemma_no_repeated(l: Seq<LocaleId>)
    requires
        forall|k: int| 0 <= k < l.len() ==> !repeats_earlier(l, k),
    ensures
        first_repeated_locale(l) is None,
{
}

} // verus!
