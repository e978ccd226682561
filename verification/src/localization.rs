//! How the app picks and fills in its texts: the current locale, lookups with a
//! fallback, and the system locale candidates read from the environment.

use vstd::prelude::*;

use crate::catalog::{lookup_spec, CatalogBundle, TranslationSource};
use crate::locale::{language_key, AppLanguage, LocaleId};
use crate::template::{arg_views, outcome_of, replace_placeholders, template_outcome, TemplateError};
use crate::text::{
    chars_of, first_index_of, lemma_first_index_of, string_from_chars, trim, trim_bounds,
};

verus! {

/// The text of `key` in `locale` in a bundle.
pub open spec fn bundle_text(b: &CatalogBundle, locale: LocaleId, key: Seq<char>) -> Seq<char> {
    lookup_spec(|l: LocaleId| b.catalog(l), b.default_locale_spec(), locale, key).0
}

/// Whether a bundle has a text for `key` in `locale` or in its default locale.
pub open spec fn bundle_has(b: &CatalogBundle, locale: LocaleId, key: Seq<char>) -> bool {
    lookup_spec(|l: LocaleId| b.catalog(l), b.default_locale_spec(), locale, key).1
        != TranslationSource::Key
}

/// The text of `key` in `locale`, or the key itself when no catalog has it.
pub fn text_for_locale(bundle: &CatalogBundle, locale: LocaleId, key: &str) -> (r: String)
    ensures
        r@ == bundle_text(bundle, locale, key@),
{
    bundle.text(locale, key).to_owned()
}

/// The text of `key` in `locale`, or `fallback` when neither the locale nor the
/// default locale has the key.
pub fn text_for_app_or(bundle: &CatalogBundle, locale: LocaleId, key: &str, fallback: &str) -> (r: String)
    ensures
        r@ == if bundle_has(bundle, locale, key@) {
            bundle_text(bundle, locale, key@)
        } else {
            fallback@
        },
{
    let lookup = bundle.lookup(locale, key);
    if lookup.source == TranslationSource::Key {
        fallback.to_owned()
    } else {
        lookup.text.to_owned()
    }
}

/// The label of a language option in `locale`.
pub fn language_option_label(bundle: &CatalogBundle, locale: LocaleId, language: AppLanguage) -> (r: String)
    ensures
        r@ == bundle_text(bundle, locale, language_key(language)@),
{
    text_for_locale(bundle, locale, language.translation_key())
}

/// The text of `key` in `locale` with its placeholders filled in from `args`.
pub fn text_for_locale_with_args(
    bundle: &CatalogBundle,
    locale: LocaleId,
    key: &str,
    args: &[(&str, &str)],
) -> (r: Result<String, TemplateError>)
    ensures
        outcome_of(r) == template_outcome(bundle_text(bundle, locale, key@), arg_views(args@)),
{
    let text = bundle.text(locale, key);
    replace_placeholders(text, args)
}

/// A trimmed part, if anything is left of it.
pub open spec fn keep_nonblank(part: Seq<char>) -> Seq<Seq<char>> {
    if trim(part).len() > 0 {
        seq![trim(part)]
    } else {
        Seq::empty()
    }
}

/// The parts of a `:`-separated list, trimmed, blank ones left out.
pub open spec fn split_list(s: Seq<char>) -> Seq<Seq<char>>
    decreases s.len(),
{
    match first_index_of(s, ':') {
        None => keep_nonblank(s),
        Some(i) => {
            proof {
                lemma_first_index_of(s, ':');
            }
            keep_nonblank(s.take(i)) + split_list(s.skip(i + 1))
        },
    }
}

/// The candidates that one variable contributes: `LANGUAGE` is a `:`-separated list,
/// the others hold one name.
pub open spec fn variable_candidates(value: Option<Seq<char>>, is_list: bool) -> Seq<Seq<char>> {
    match value {
        None => Seq::empty(),
        Some(v) => if is_list {
            split_list(v)
        } else {
            keep_nonblank(v)
        },
    }
}

/// The locale candidates of the environment, from `LANGUAGE`, `LC_ALL`, `LC_MESSAGES`
/// and `LANG`, in that order.
pub open spec fn environment_candidates(
    language: Option<Seq<char>>,
    lc_all: Option<Seq<char>>,
    lc_messages: Option<Seq<char>>,
    lang: Option<Seq<char>>,
) -> Seq<Seq<char>> {
    variable_candidates(language, true) + variable_candidates(lc_all, false) + variable_candidates(
        lc_messages,
        false,
    ) + variable_candidates(lang, false)
}

pub open spec fn opt_view(o: Option<String>) -> Option<Seq<char>> {
    match o {
        Some(s) => Some(s@),
        None => None,
    }
}

pub open spec fn views(v: Seq<String>) -> Seq<Seq<char>> {
    v.map_values(|s: String| s@)
}

/// Appends the trimmed characters of `v` from `lo` up to `hi`, if any are left.
fn push_nonblank(out: &mut Vec<String>, v: &Vec<char>, lo: usize, hi: usize)
    requires
        lo <= hi <= v@.len(),
    ensures
        views(final(out)@) == views(old(out)@) + keep_nonblank(v@.subrange(lo as int, hi as int)),
{
    let part: Vec<char> = copy_range(v, lo, hi);
    let (a, b) = trim_bounds(&part);
    if a < b {
        let s = string_from_chars(&part, a, b);
        out.push(s);
        assert(views(out@) =~= views(old(out)@) + keep_nonblank(v@.subrange(lo as int, hi as int)));
    } else {
        assert(views(out@) =~= views(old(out)@) + keep_nonblank(v@.subrange(lo as int, hi as int)));
    }
}

fn copy_range(v: &Vec<char>, lo: usize, hi: usize) -> (r: Vec<char>)
    requires
        lo <= hi <= v@.len(),
    ensures
        r@ == v@.subrange(lo as int, hi as int),
{
    let mut r: Vec<char> = Vec::new();
    let mut k = lo;
    while k < hi
        invariant
            lo <= k <= hi <= v@.len(),
            r@ == v@.subrange(lo as int, k as int),
        decreases hi - k,
    {
        r.push(v[k]);
        k = k + 1;
        assert(r@ =~= v@.subrange(lo as int, k as int));
    }
    r
}

/// Appends the candidates of one variable's value.
fn push_variable(out: &mut Vec<String>, value: Option<String>, is_list: bool)
    ensures
        views(final(out)@) == views(old(out)@) + variable_candidates(opt_view(value), is_list),
{
    let text = match value {
        Some(text) => text,
        None => {
            assert(views(out@) =~= views(old(out)@) + Seq::<Seq<char>>::empty());
            return;
        },
    };
    let v = chars_of(text.as_str());
    let n = v.len();
    if !is_list {
        push_nonblank(out, &v, 0, n);
        assert(v@.subrange(0, n as int) =~= v@);
        return;
    }
    let ghost start = views(out@);
    let mut pos: usize = 0;
    assert(v@.skip(0) =~= v@);
    loop
        invariant
            n == v@.len(),
            opt_view(value) == Some(v@),
            is_list,
            start == views(old(out)@),
            pos <= n,
            start + split_list(v@) == views(out@) + split_list(v@.skip(pos as int)),
        decreases n - pos,
    {
        let ghost rest = v@.skip(pos as int);
        let mut j = pos;
        while j < n && v[j] != ':'
            invariant
                pos <= j <= n,
                n == v@.len(),
                forall|k: int| pos <= k < j ==> v@[k] != ':',
            decreases n - j,
        {
            j = j + 1;
        }
        proof {
            lemma_first_index_of(rest, ':');
            if j < n {
                assert(rest[j - pos] == ':');
            }
            match first_index_of(rest, ':') {
                Some(i) => {
                    if i < j - pos {
                        assert(rest[i] == v@[pos + i]);
                    }
                    if j == n || i > j - pos {
                        assert(rest[j - pos] == ':');
                    }
                },
                None => {
                    if j < n {
                        assert(rest[j - pos] == ':');
                    }
                },
            }
            assert(rest.take(j - pos) =~= v@.subrange(pos as int, j as int));
        }
        let ghost before = views(out@);
        push_nonblank(out, &v, pos, j);
        if j == n {
            proof {
                assert(rest =~= v@.subrange(pos as int, j as int));
                assert(start + split_list(v@) =~= views(out@));
            }
            return;
        }
        proof {
            assert(rest.skip(j - pos + 1) =~= v@.skip(j + 1));
            assert(views(out@) + split_list(v@.skip(j + 1)) =~= before + split_list(rest));
        }
        pos = j + 1;
    }
}

/// The locale candidates of the environment, given the values of `LANGUAGE`,
/// `LC_ALL`, `LC_MESSAGES` and `LANG`.
pub fn locale_candidates_from_values(
    language: Option<String>,
    lc_all: Option<String>,
    lc_messages: Option<String>,
    lang: Option<String>,
) -> (r: Vec<String>)
    ensures
        views(r@) == environment_candidates(
            opt_view(language),
            opt_view(lc_all),
            opt_view(lc_messages),
            opt_view(lang),
        ),
{
    let mut out: Vec<String> = Vec::new();
    assert(views(out@) =~= Seq::<Seq<char>>::empty());
    push_variable(&mut out, language, true);
    push_variable(&mut out, lc_all, false);
    push_variable(&mut out, lc_messages, false);
    push_variable(&mut out, lang, false);
    assert(views(out@) =~= environment_candidates(
        opt_view(language),
        opt_view(lc_all),
        opt_view(lc_messages),
        opt_view(lang),
    ));
    out
}

/// The locale candidates of the environment, reading each variable through `get`.
pub fn environment_locale_candidates_from(get: impl Fn(&str) -> Option<String>) -> (r: Vec<String>)
    requires
        forall|key: &str| get.requires((key,)),
    ensures
        exists|language: Option<String>, lc_all: Option<String>, lc_messages: Option<String>, lang: Option<String>|
            {
                &&& get.ensures(("LANGUAGE",), language)
                &&& get.ensures(("LC_ALL",), lc_all)
                &&& get.ensures(("LC_MESSAGES",), lc_messages)
                &&& get.ensures(("LANG",), lang)
                &&& views(r@) == environment_candidates(
                    opt_view(language),
                    opt_view(lc_all),
                    opt_view(lc_messages),
                    opt_view(lang),
                )
            },
{
    let language = get("LANGUAGE");
    let lc_all = get("LC_ALL");
    let lc_messages = get("LC_MESSAGES");
    let lang = get("LANG");
    let ghost (g0, g1, g2, g3) = (language, lc_all, lc_messages, lang);
    let r = locale_candidates_from_values(language, lc_all, lc_messages, lang);
    assert(get.ensures(("LANGUAGE",), g0));
    r
}

/// Whether two lists of strings hold the same strings in the same order.
fn same_strings(a: &Vec<String>, b: &Vec<String>) -> (r: bool)
    ensures
        r == (views(a@) == views(b@)),
{
    if a.len() != b.len() {
        assert(views(a@).len() != views(b@).len());
        return false;
    }
    let mut i: usize = 0;
    while i < a.len()
        invariant
            a@.len() == b@.len(),
            i <= a@.len(),
            forall|k: int| 0 <= k < i ==> a@[k]@ == b@[k]@,
        decreases a@.len() - i,
    {
        if a[i] != b[i] {
            assert(views(a@)[i as int] != views(b@)[i as int]);
            return false;
        }
        i = i + 1;
    }
    assert(views(a@) =~= views(b@));
    true
}

/// Stores `new_candidates` in the cache; returns whether they differ from what it held.
pub fn replace_system_locale_candidates(cache: &mut Vec<String>, new_candidates: Vec<String>) -> (changed: bool)
    ensures
        changed == (views(old(cache)@) != views(new_candidates@)),
        views(final(cache)@) == views(new_candidates@),
{
    if same_strings(cache, &new_candidates) {
        false
    } else {
        *cache = new_candidates;
        true
    }
}

/// Refreshes the cached system locale candidates when the language follows the system;
/// returns whether the cache changed.
pub fn refresh_system_locale_candidates_if_needed(
    language: AppLanguage,
    cache: &mut Vec<String>,
    read_candidates: impl Fn() -> Vec<String>,
) -> (changed: bool)
    requires
        read_candidates.requires(()),
    ensures
        language != AppLanguage::System ==> !changed && final(cache)@ == old(cache)@,
        language == AppLanguage::System ==> exists|fresh: Vec<String>|
            {
                &&& read_candidates.ensures((), fresh)
                &&& views(final(cache)@) == views(fresh@)
                &&& changed == (views(old(cache)@) != views(fresh@))
            },
{
    if language == AppLanguage::System {
        let fresh = read_candidates();
        let ghost g = fresh;
        let changed = replace_system_locale_candidates(cache, fresh);
        assert(read_candidates.ensures((), g));
        changed
    } else {
        false
    }
}

/// The text that UTF-16 code units stand for, when they are valid UTF-16: a unit
/// outside the surrogates `D800`–`DFFF` is its own character; a high surrogate
/// (`D800`–`DBFF`) followed by a low one (`DC00`–`DFFF`) is the character
/// `10000 + (high - D800) * 400 + (low - DC00)` (hexadecimal); any other surrogate makes
/// the units invalid.
pub open spec fn utf16_text(units: Seq<u16>) -> Option<Seq<char>>
    decreases units.len(),
{
    if units.len() == 0 {
        Some(seq![])
    } else {
        let u = units[0] as int;
        if u < 0xD800 || u > 0xDFFF {
            match utf16_text(units.skip(1)) {
                Some(rest) => Some(seq![u as char] + rest),
                None => None,
            }
        } else if u <= 0xDBFF && units.len() >= 2 && 0xDC00 <= units[1] <= 0xDFFF {
            let c = 0x10000 + (u - 0xD800) * 0x400 + (units[1] - 0xDC00);
            match utf16_text(units.skip(2)) {
                Some(rest) => Some(seq![c as char] + rest),
                None => None,
            }
        } else {
            None
        }
    }
}

/// `String::from_utf16` from std: the text of `units`, decoded as `utf16_text` states,
/// or `None` (its error) when they are not valid UTF-16.
#[verifier::external_body]
fn string_from_utf16(units: &[u16]) -> (r: Option<String>)
    ensures
        match r {
            Some(s) => utf16_text(units@) == Some(s@),
            None => utf16_text(units@) is None,
        },
{
    String::from_utf16(units).ok()
}

/// The parts of `s` before the last NUL, and the part after it.
pub open spec fn nul_split_acc(s: Seq<u16>) -> (Seq<Seq<u16>>, Seq<u16>)
    decreases s.len(),
{
    if s.len() == 0 {
        (seq![], seq![])
    } else {
        let (done, cur) = nul_split_acc(s.drop_last());
        if s.last() == 0 {
            (done.push(cur), seq![])
        } else {
            (done, cur.push(s.last()))
        }
    }
}

/// The NUL-separated parts of `s`, empty ones included.
pub open spec fn nul_split(s: Seq<u16>) -> Seq<Seq<u16>> {
    nul_split_acc(s).0.push(nul_split_acc(s).1)
}

/// The texts of the non-empty parts that are valid UTF-16, in order.
pub open spec fn decoded_parts(parts: Seq<Seq<u16>>) -> Seq<Seq<char>>
    decreases parts.len(),
{
    if parts.len() == 0 {
        seq![]
    } else {
        let prev = decoded_parts(parts.drop_last());
        let last = parts.last();
        if last.len() == 0 {
            prev
        } else {
            match utf16_text(last) {
                Some(t) => prev.push(t),
                None => prev,
            }
        }
    }
}

fn push_decoded(out: &mut Vec<String>, cur: &Vec<u16>)
    ensures
        views(final(out)@) == if cur@.len() == 0 {
            views(old(out)@)
        } else {
            match utf16_text(cur@) {
                Some(t) => views(old(out)@).push(t),
                None => views(old(out)@),
            }
        },
{
    if cur.len() > 0 {
        match string_from_utf16(cur.as_slice()) {
            Some(t) => {
                let ghost before = out@;
                out.push(t);
                assert(views(out@) =~= views(before).push(out@.last()@));
            },
            None => {},
        }
    }
}

/// The languages in a list of NUL-terminated UTF-16 names (as Windows reports the
/// preferred UI languages): the non-empty names that decode, in order.
pub fn languages_from_utf16_list(buffer: &[u16]) -> (r: Vec<String>)
    ensures
        views(r@) == decoded_parts(nul_split(buffer@)),
{
    let mut out: Vec<String> = Vec::new();
    let mut cur: Vec<u16> = Vec::new();
    let ghost mut done: Seq<Seq<u16>> = seq![];
    let mut i: usize = 0;
    proof {
        assert(buffer@.take(0) =~= Seq::<u16>::empty());
        assert(views(out@) =~= Seq::<Seq<char>>::empty());
    }
    while i < buffer.len()
        invariant
            i <= buffer@.len(),
            (done, cur@) == nul_split_acc(buffer@.take(i as int)),
            views(out@) == decoded_parts(done),
        decreases buffer@.len() - i,
    {
        proof {
            assert(buffer@.take(i + 1).drop_last() =~= buffer@.take(i as int));
            assert(buffer@.take(i + 1).last() == buffer@[i as int]);
        }
        if buffer[i] == 0 {
            push_decoded(&mut out, &cur);
            proof {
                assert(done.push(cur@).drop_last() =~= done);
                done = done.push(cur@);
            }
            cur = Vec::new();
            assert(cur@ =~= Seq::<u16>::empty());
        } else {
            cur.push(buffer[i]);
        }
        i = i + 1;
    }
    push_decoded(&mut out, &cur);
    proof {
        assert(buffer@.take(buffer@.len() as int) =~= buffer@);
        assert(done.push(cur@).drop_last() =~= done);
    }
    out
}

} // verus!
