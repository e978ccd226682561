//! Locales that the app ships text for, and how a system locale maps onto them.

use vstd::prelude::*;

use crate::text::{
    ascii_lower, char_from_ascii, chars_of, is_white_space, lemma_trim_end_at, lemma_trim_start_at, string_from_chars, trim,
    trim_bounds, trim_end, trim_start,
};

verus! {

/// A locale with a bundled catalog.
#[derive(Clone, Copy, Debug, PartialEq, Eq, Hash, Structural)]
pub enum LocaleId {
    EnUs,
    ZhCn,
}

/// The BCP 47 code of a locale.
pub open spec fn locale_code(l: LocaleId) -> Seq<char> {
    match l {
        LocaleId::EnUs => seq!['e', 'n', '-', 'U', 'S'],
        LocaleId::ZhCn => seq!['z', 'h', '-', 'C', 'N'],
    }
}

/// The prefix of `s` before its first `.` or `@` (the encoding and modifier of a
/// POSIX locale name).
pub open spec fn until_separator(s: Seq<char>) -> Seq<char>
    decreases s.len(),
{
    if s.len() == 0 || s[0] == '.' || s[0] == '@' {
        Seq::empty()
    } else {
        seq![s[0]] + until_separator(s.drop_first())
    }
}

/// `_` becomes `-`; ASCII letters become lower case.
pub open spec fn normalize_char(c: char) -> char {
    if c == '_' {
        '-'
    } else {
        ascii_lower(c)
    }
}

/// A locale name trimmed, cut before its first `.` or `@`, with `_` as `-` and in
/// ASCII lower case; `None` when nothing but white space is left.
pub open spec fn normalized_locale(s: Seq<char>) -> Option<Seq<char>> {
    let t = trim(s);
    if t.len() == 0 {
        None
    } else {
        Some(until_separator(t).map_values(|c: char| normalize_char(c)))
    }
}

pub open spec fn has_prefix(s: Seq<char>, p: Seq<char>) -> bool {
    p.len() <= s.len() && s.take(p.len() as int) == p
}

/// The bundled locale for a normalized locale name.
pub open spec fn locale_for_normalized(v: Seq<char>) -> Option<LocaleId> {
    if v == seq!['c'] || v == seq!['p', 'o', 's', 'i', 'x'] {
        None
    } else if v == seq!['e', 'n'] || has_prefix(v, seq!['e', 'n', '-']) {
        Some(LocaleId::EnUs)
    } else if v == seq!['z', 'h'] || v == seq!['z', 'h', '-', 'c', 'n'] || v == seq![
        'z',
        'h',
        '-',
        's',
        'g',
    ] || v == seq!['z', 'h', '-', 'h', 'a', 'n', 's'] || has_prefix(
        v,
        seq!['z', 'h', '-', 'h', 'a', 'n', 's', '-'],
    ) {
        Some(LocaleId::ZhCn)
    } else {
        None
    }
}

/// The bundled locale for a system locale name.
pub open spec fn locale_from_system(s: Seq<char>) -> Option<LocaleId> {
    match normalized_locale(s) {
        Some(v) => locale_for_normalized(v),
        None => None,
    }
}

/// The first candidate that names a bundled locale.
pub open spec fn first_supported_locale(candidates: Seq<Seq<char>>) -> Option<LocaleId>
    decreases candidates.len(),
{
    if candidates.len() == 0 {
        None
    } else {
        match locale_from_system(candidates[0]) {
            Some(l) => Some(l),
            None => first_supported_locale(candidates.drop_first()),
        }
    }
}

fn lower_char(c: char) -> (r: char)
    ensures
        r == normalize_char(c),
{
    if c == '_' {
        '-'
    } else if 'A' <= c && c <= 'Z' {
        let code = c as u32;
        let lower = code + 32;
        assert(lower as char == ((c as u32) + 32) as char);
        char_from_ascii(lower)
    } else {
        c
    }
}

fn normalized_chars(locale: &str) -> (r: Option<Vec<char>>)
    ensures
        match r {
            Some(v) => normalized_locale(locale@) == Some(v@),
            None => normalized_locale(locale@) is None,
        },
{
    let v = chars_of(locale);
    let (lo, hi) = trim_bounds(&v);
    let ghost t = v@.subrange(lo as int, hi as int);
    if lo == hi {
        return None;
    }
    let mut end = lo;
    while end < hi && v[end] != '.' && v[end] != '@'
        invariant
            lo <= end <= hi <= v@.len(),
            forall|k: int| lo <= k < end ==> v@[k] != '.' && v@[k] != '@',
        decreases hi - end,
    {
        end = end + 1;
    }
    proof {
        lemma_until_separator_at(t, end - lo);
    }
    let mut out: Vec<char> = Vec::new();
    let mut k = lo;
    while k < end
        invariant
            lo <= k <= end <= hi <= v@.len(),
            out@ == v@.subrange(lo as int, k as int).map_values(|c: char| normalize_char(c)),
        decreases end - k,
    {
        let c = lower_char(v[k]);
        out.push(c);
        k = k + 1;
        assert(out@ =~= v@.subrange(lo as int, k as int).map_values(|c: char| normalize_char(c)));
    }
    assert(t.take(end - lo) =~= v@.subrange(lo as int, end as int));
    Some(out)
}

proof fn lemma_until_separator_at(s: Seq<char>, i: int)
    requires
        0 <= i <= s.len(),
        forall|k: int| 0 <= k < i ==> s[k] != '.' && s[k] != '@',
        i < s.len() ==> (s[i] == '.' || s[i] == '@'),
    ensures
        until_separator(s) == s.take(i),
    decreases i,
{
    if i == 0 {
        assert(s.take(0) =~= Seq::<char>::empty());
    } else {
        lemma_until_separator_at(s.drop_first(), i - 1);
        assert(seq![s[0]] + s.drop_first().take(i - 1) =~= s.take(i));
    }
}

/// The normalized form of a locale name (see [`normalized_locale`]).
pub fn normalize_locale(locale: &str) -> (r: Option<String>)
    ensures
        match r {
            Some(s) => normalized_locale(locale@) == Some(s@),
            None => normalized_locale(locale@) is None,
        },
{
    match normalized_chars(locale) {
        Some(v) => {
            let s = string_from_chars(&v, 0, v.len());
            assert(v@.subrange(0, v@.len() as int) =~= v@);
            Some(s)
        },
        None => None,
    }
}

fn chars_are(v: &Vec<char>, w: &[char]) -> (b: bool)
    ensures
        b == (v@ == w@),
{
    if v.len() != w.len() {
        return false;
    }
    let mut k: usize = 0;
    while k < v.len()
        invariant
            v@.len() == w@.len(),
            k <= v@.len(),
            forall|q: int| 0 <= q < k ==> v@[q] == w@[q],
        decreases v@.len() - k,
    {
        if v[k] != w[k] {
            return false;
        }
        k = k + 1;
    }
    assert(v@ =~= w@);
    true
}

fn starts_with_chars(v: &Vec<char>, w: &[char]) -> (b: bool)
    ensures
        b == has_prefix(v@, w@),
{
    if w.len() > v.len() {
        return false;
    }
    let mut k: usize = 0;
    while k < w.len()
        invariant
            w@.len() <= v@.len(),
            k <= w@.len(),
            forall|q: int| 0 <= q < k ==> v@[q] == w@[q],
        decreases w@.len() - k,
    {
        if v[k] != w[k] {
            assert(v@.take(w@.len() as int)[k as int] != w@[k as int]);
            return false;
        }
        k = k + 1;
    }
    assert(v@.take(w@.len() as int) =~= w@);
    true
}

impl LocaleId {
    /// The BCP 47 code of this locale.
    pub fn code(self) -> (r: &'static str)
        ensures
            r@ == locale_code(self),
    {
        match self {
            LocaleId::EnUs => {
                proof {
                    reveal_strlit("en-US");
                }
                "en-US"
            },
            LocaleId::ZhCn => {
                proof {
                    reveal_strlit("zh-CN");
                }
                "zh-CN"
            },
        }
    }

    /// The bundled locale that a system locale name (`en_US.UTF-8`, `zh-Hans-CN`, ...)
    /// stands for, if any.
    pub fn from_system_locale(locale: &str) -> (r: Option<LocaleId>)
        ensures
            r == locale_from_system(locale@),
    {
        let v = match normalized_chars(locale) {
            Some(v) => v,
            None => return None,
        };
        if chars_are(&v, &['c']) || chars_are(&v, &['p', 'o', 's', 'i', 'x']) {
            None
        } else if chars_are(&v, &['e', 'n']) || starts_with_chars(&v, &['e', 'n', '-']) {
            Some(LocaleId::EnUs)
        } else if chars_are(&v, &['z', 'h']) || chars_are(&v, &['z', 'h', '-', 'c', 'n'])
            || chars_are(&v, &['z', 'h', '-', 's', 'g']) || chars_are(
            &v,
            &['z', 'h', '-', 'h', 'a', 'n', 's'],
        ) || starts_with_chars(&v, &['z', 'h', '-', 'h', 'a', 'n', 's', '-']) {
            Some(LocaleId::ZhCn)
        } else {
            None
        }
    }
}

/// The display language setting.
#[derive(Clone, Copy, Debug, PartialEq, Eq, Structural)]
pub enum AppLanguage {
    System,
    English,
    SimplifiedChinese,
}

impl Default for AppLanguage {
    fn default() -> (r: AppLanguage)
        ensures
            r == AppLanguage::System,
    {
        AppLanguage::System
    }
}

/// The locale a language setting resolves to, given the system locale candidates in
/// order of preference.
pub open spec fn effective_locale_spec(language: AppLanguage, candidates: Seq<Seq<char>>) -> LocaleId {
    match language {
        AppLanguage::System => match first_supported_locale(candidates) {
            Some(l) => l,
            None => LocaleId::EnUs,
        },
        AppLanguage::English => LocaleId::EnUs,
        AppLanguage::SimplifiedChinese => LocaleId::ZhCn,
    }
}

/// The catalog key of the label of a language option.
pub open spec fn language_key(language: AppLanguage) -> &'static str {
    match language {
        AppLanguage::System => "settings.appearance.language.option.system",
        AppLanguage::English => "settings.appearance.language.option.english",
        AppLanguage::SimplifiedChinese => "settings.appearance.language.option.simplified_chinese",
    }
}

pub open spec fn str_views(s: Seq<&str>) -> Seq<Seq<char>> {
    s.map_values(|x: &str| x@)
}

pub open spec fn string_views(s: Seq<String>) -> Seq<Seq<char>> {
    s.map_values(|x: String| x@)
}

proof fn lemma_first_supported_skip(c: Seq<Seq<char>>, i: int)
    requires
        0 <= i < c.len(),
    ensures
        first_supported_locale(c.skip(i)) == match locale_from_system(c[i]) {
            Some(l) => Some(l),
            None => first_supported_locale(c.skip(i + 1)),
        },
{
    assert(c.skip(i).drop_first() =~= c.skip(i + 1));
    assert(c.skip(i)[0] == c[i]);
}

impl AppLanguage {
    /// Every language option, in the order the settings show them.
    pub fn options() -> (r: [AppLanguage; 3])
        ensures
            r@ == seq![AppLanguage::System, AppLanguage::English, AppLanguage::SimplifiedChinese],
    {
        [AppLanguage::System, AppLanguage::English, AppLanguage::SimplifiedChinese]
    }

    /// The locale this setting resolves to, given at most one system locale.
    pub fn effective_locale(self, system_locale: Option<&str>) -> (r: LocaleId)
        ensures
            r == effective_locale_spec(
                self,
                match system_locale {
                    Some(s) => seq![s@],
                    None => Seq::empty(),
                },
            ),
    {
        match system_locale {
            Some(s) => {
                let v = [s];
                let r = self.effective_locale_from_candidates(&v);
                assert(str_views(v@) =~= seq![s@]);
                r
            },
            None => {
                let v: [&str; 0] = [];
                let r = self.effective_locale_from_candidates(&v);
                assert(str_views(v@) =~= Seq::<Seq<char>>::empty());
                r
            },
        }
    }

    /// The locale this setting resolves to: for `System`, the first system locale
    /// candidate with a bundled catalog, else `en-US`.
    pub fn effective_locale_from_candidates(self, system_locales: &[&str]) -> (r: LocaleId)
        ensures
            r == effective_locale_spec(self, str_views(system_locales@)),
    {
        match self {
            AppLanguage::System => {
                let ghost c = str_views(system_locales@);
                let mut i: usize = 0;
                assert(c.skip(0) =~= c);
                while i < system_locales.len()
                    invariant
                        self == AppLanguage::System,
                        c == str_views(system_locales@),
                        i <= system_locales@.len(),
                        first_supported_locale(c) == first_supported_locale(c.skip(i as int)),
                    decreases system_locales@.len() - i,
                {
                    proof {
                        lemma_first_supported_skip(c, i as int);
                        assert(c[i as int] == system_locales@[i as int]@);
                    }
                    if let Some(l) = LocaleId::from_system_locale(system_locales[i]) {
                        return l;
                    }
                    i = i + 1;
                }
                assert(c.skip(i as int) =~= Seq::<Seq<char>>::empty());
                LocaleId::EnUs
            },
            AppLanguage::English => LocaleId::EnUs,
            AppLanguage::SimplifiedChinese => LocaleId::ZhCn,
        }
    }

    /// The catalog key of this option's label.
    pub fn translation_key(self) -> (r: &'static str)
        ensures
            r == language_key(self),
    {
        match self {
            AppLanguage::System => "settings.appearance.language.option.system",
            AppLanguage::English => "settings.appearance.language.option.english",
            AppLanguage::SimplifiedChinese => "settings.appearance.language.option.simplified_chinese",
        }
    }
}

/// The locale the app shows: the explicit language, or for `System` the first cached
/// system locale candidate with a bundled catalog (else `en-US`).
pub fn current_locale(language: AppLanguage, candidates: &[String]) -> (r: LocaleId)
    ensures
        r == effective_locale_spec(language, string_views(candidates@)),
{
    match language {
        AppLanguage::System => {
            let ghost c = string_views(candidates@);
            let mut i: usize = 0;
            assert(c.skip(0) =~= c);
            while i < candidates.len()
                invariant
                    language == AppLanguage::System,
                    c == string_views(candidates@),
                    i <= candidates@.len(),
                    first_supported_locale(c) == first_supported_locale(c.skip(i as int)),
                decreases candidates@.len() - i,
            {
                proof {
                    lemma_first_supported_skip(c, i as int);
                    assert(c[i as int] == candidates@[i as int]@);
                }
                if let Some(l) = LocaleId::from_system_locale(candidates[i].as_str()) {
                    return l;
                }
                i = i + 1;
            }
            assert(c.skip(i as int) =~= Seq::<Seq<char>>::empty());
            LocaleId::EnUs
        },
        AppLanguage::English => LocaleId::EnUs,
        AppLanguage::SimplifiedChinese => LocaleId::ZhCn,
    }
}

/// ASCII upper case; every other character is kept.
pub open spec fn ascii_upper(c: char) -> char {
    if 'a' <= c && c <= 'z' {
        ((c as u32) - 32) as char
    } else {
        c
    }
}

/// `s` with its ASCII letters in upper case (what `str::to_ascii_uppercase` gives).
pub open spec fn ascii_uppercase(s: Seq<char>) -> Seq<char> {
    s.map_values(|c: char| ascii_upper(c))
}

/// `s` with each `_` replaced by `-`.
pub open spec fn underscores_as_dashes(s: Seq<char>) -> Seq<char> {
    s.map_values(|c: char| if c == '_' { '-' } else { c })
}

/// Whether `s` has no white space at either end.
pub open spec fn is_trimmed(s: Seq<char>) -> bool {
    s.len() > 0 ==> !is_white_space(s[0]) && !is_white_space(s.last())
}

proof fn lemma_trim_start_len(s: Seq<char>)
    ensures
        trim_start(s).len() <= s.len(),
        s.len() > 0 && is_white_space(s[0]) ==> trim_start(s).len() < s.len(),
    decreases s.len(),
{
    if s.len() > 0 && is_white_space(s[0]) {
        lemma_trim_start_len(s.drop_first());
    }
}

proof fn lemma_trim_end_len(s: Seq<char>)
    ensures
        trim_end(s).len() <= s.len(),
        s.len() > 0 && is_white_space(s.last()) ==> trim_end(s).len() < s.len(),
    decreases s.len(),
{
    if s.len() > 0 && is_white_space(s.last()) {
        lemma_trim_end_len(s.drop_last());
    }
}

/// A text that trimming leaves alone has no white space at either end.
proof fn lemma_trimmed_ends(s: Seq<char>)
    requires
        trim(s) == s,
    ensures
        is_trimmed(s),
{
    lemma_trim_start_len(s);
    lemma_trim_end_len(trim_start(s));
    if s.len() > 0 {
        assert(!is_white_space(s[0]));
        assert(trim_start(s) == s);
        lemma_trim_end_len(s);
    }
}

/// A text with no white space at either end is its own trim.
proof fn lemma_trimmed_is_trim(s: Seq<char>)
    requires
        is_trimmed(s),
    ensures
        trim(s) == s,
{
    lemma_trim_start_at(s, 0);
    assert(s.skip(0) =~= s);
    lemma_trim_end_at(s, s.len() as int);
    assert(s.take(s.len() as int) =~= s);
}

proof fn lemma_char_maps(c: char)
    ensures
        normalize_char(ascii_upper(c)) == normalize_char(c),
        normalize_char(if c == '_' { '-' } else { c }) == normalize_char(c),
        is_white_space(ascii_upper(c)) == is_white_space(c),
        (ascii_upper(c) == '.') == (c == '.'),
        (ascii_upper(c) == '@') == (c == '@'),
{
    if 'a' <= c && c <= 'z' {
        assert((((c as u32) - 32) as char) as u32 == (c as u32) - 32);
    }
}

/// Cutting at the first `.` or `@` commutes with a character map that keeps those two
/// characters and makes no new ones.
proof fn lemma_until_separator_map(s: Seq<char>, f: spec_fn(char) -> char)
    requires
        forall|c: char| (#[trigger] f(c) == '.') == (c == '.') && (f(c) == '@') == (c == '@'),
    ensures
        until_separator(s.map_values(f)) == until_separator(s).map_values(f),
    decreases s.len(),
{
    if s.len() > 0 {
        assert(s.map_values(f).drop_first() =~= s.drop_first().map_values(f));
        lemma_until_separator_map(s.drop_first(), f);
        if !(s[0] == '.' || s[0] == '@') {
            assert((seq![s[0]] + until_separator(s.drop_first())).map_values(f) =~= seq![f(s[0])]
                + until_separator(s.drop_first()).map_values(f));
        }
    } else {
        assert(s.map_values(f) =~= s);
    }
}

/// What follows a `.` or `@` is cut off anyway.
proof fn lemma_until_separator_suffix(s: Seq<char>, t: Seq<char>)
    requires
        t.len() > 0,
        t[0] == '.' || t[0] == '@',
    ensures
        until_separator(s + t) == until_separator(s),
    decreases s.len(),
{
    if s.len() == 0 {
        assert(s + t =~= t);
    } else {
        assert((s + t).drop_first() =~= s.drop_first() + t);
        lemma_until_separator_suffix(s.drop_first(), t);
    }
}

/// Normalizing is the same for two texts whose cut parts agree after normalizing
/// their characters.
proof fn lemma_normalized_same(s: Seq<char>, u: Seq<char>)
    requires
        is_trimmed(s),
        is_trimmed(u),
        s.len() == 0 <==> u.len() == 0,
        until_separator(u).map_values(|c: char| normalize_char(c)) == until_separator(s).map_values(
            |c: char| normalize_char(c),
        ),
    ensures
        locale_from_system(u) == locale_from_system(s),
{
    lemma_trimmed_is_trim(s);
    lemma_trimmed_is_trim(u);
}

/// How a system locale name maps onto a bundled locale does not depend on the case of
/// its ASCII letters, on `_` or `-` between its parts, or on an encoding or modifier
/// such as `.UTF-8` or `@euro`, for a name without white space at its ends.
pub proof fn law_system_locale_normalization(s: Seq<char>)
    requires
        trim(s) == s,
    ensures
        locale_from_system(ascii_uppercase(s)) == locale_from_system(s),
        locale_from_system(underscores_as_dashes(s)) == locale_from_system(s),
        locale_from_system(s + ".UTF-8"@) == locale_from_system(s),
        locale_from_system(s + "@euro"@) == locale_from_system(s),
{
    lemma_trimmed_ends(s);
    let n = |c: char| normalize_char(c);
    let up = |c: char| ascii_upper(c);
    let dash = |c: char| if c == '_' { '-' } else { c };
    assert forall|c: char| (#[trigger] up(c) == '.') == (c == '.') && (up(c) == '@') == (c == '@') by {
        lemma_char_maps(c);
    }
    assert forall|c: char| (#[trigger] dash(c) == '.') == (c == '.') && (dash(c) == '@') == (c == '@') by {}
    // Upper case.
    let u = ascii_uppercase(s);
    if s.len() > 0 {
        lemma_char_maps(s[0]);
        lemma_char_maps(s.last());
        assert(u[0] == up(s[0]));
        assert(u.last() == up(s.last()));
    }
    lemma_until_separator_map(s, up);
    let cut = until_separator(s);
    assert forall|k: int| 0 <= k < cut.len() implies #[trigger] cut.map_values(up).map_values(n)[k] == cut.map_values(n)[k] by {
        lemma_char_maps(cut[k]);
    }
    assert(until_separator(u).map_values(n) =~= cut.map_values(n));
    lemma_normalized_same(s, u);
    // `_` as `-`.
    let d = underscores_as_dashes(s);
    lemma_until_separator_map(s, dash);
    assert forall|k: int| 0 <= k < cut.len() implies #[trigger] cut.map_values(dash).map_values(n)[k] == cut.map_values(n)[k] by {
        lemma_char_maps(cut[k]);
    }
    assert(until_separator(d).map_values(n) =~= cut.map_values(n));
    lemma_normalized_same(s, d);
    // Encoding and modifier suffixes.
    reveal_strlit(".UTF-8");
    reveal_strlit("@euro");
    let e = s + ".UTF-8"@;
    let m = s + "@euro"@;
    lemma_until_separator_suffix(s, ".UTF-8"@);
    lemma_until_separator_suffix(s, "@euro"@);
    if s.len() > 0 {
        assert(e[0] == s[0] && m[0] == s[0]);
        lemma_normalized_same(s, e);
        lemma_normalized_same(s, m);
    } else {
        lemma_trimmed_is_trim(e);
        lemma_trimmed_is_trim(m);
        assert(until_separator(e) =~= Seq::<char>::empty());
        assert(until_separator(m) =~= Seq::<char>::empty());
        assert(until_separator(e).map_values(n) =~= Seq::<char>::empty());
        assert(until_separator(m).map_values(n) =~= Seq::<char>::empty());
    }
}

} // verus!
