//! API keys of the agent command line: sorting a listing, finding the key that an
//! identifier names, and when a new key expires.

use vstd::prelude::*;

use crate::sort::{stable_sort_by_keys, sorted_by, uniform, KeyView, SortKey};
use crate::catalog::CatalogBundle;
use crate::locale::LocaleId;
use crate::localization::{bundle_text, text_for_locale, text_for_locale_with_args};
use crate::skills::opt_string_view;
use crate::template::{arg_views, outcome_of, template_outcome, TemplateError, TemplateOutcome};
use crate::text::{append_str, chars_of, str_eq};

verus! {

/// What `str::to_lowercase` of std makes of a text.
pub uninterp spec fn unicode_lowercase(s: Seq<char>) -> Seq<char>;

/// `str::to_lowercase` from std: the string in Unicode lower case (std maps a capital
/// sigma by its context, at the end of a word or not); what it yields is left to the
/// name.
#[verifier::external_body]
fn to_lowercase(s: &str) -> (r: String)
    ensures
        r@ == unicode_lowercase(s@),
{
    s.to_lowercase()
}

/// The longest span that `chrono::TimeDelta` holds: `i64::MAX` milliseconds, in
/// nanoseconds.
pub const MAX_TIME_DELTA_NANOS: i128 = 9_223_372_036_854_775_807_000_000i128;

/// `chrono::TimeDelta::from_std` on the duration of `secs` seconds and `nanos`
/// nanoseconds: refused when the duration is longer than `TimeDelta::MAX`, else the same
/// span, handed back as its whole seconds and its nanoseconds.
#[verifier::external_body]
fn time_delta_from_std(secs: u64, nanos: u32) -> (r: Option<(i64, i32)>)
    requires
        nanos < 1_000_000_000,
    ensures
        match r {
            Some((s, n)) => secs * 1_000_000_000 + nanos <= MAX_TIME_DELTA_NANOS && s == secs && n == nanos,
            None => secs * 1_000_000_000 + nanos > MAX_TIME_DELTA_NANOS,
        },
{
    match chrono::TimeDelta::from_std(std::time::Duration::new(secs, nanos)) {
        Ok(d) => Some((d.num_seconds(), d.subsec_nanos())),
        Err(_) => None,
    }
}

/// An API key as the listing shows it. Instants are nanoseconds since the Unix epoch.
#[derive(Clone, Debug, PartialEq, Eq)]
pub struct ApiKeyInfo {
    pub uid: String,
    pub name: String,
    pub key_suffix: String,
    pub scope: String,
    pub created_at: i128,
    pub last_used_at: Option<i128>,
    pub expires_at: Option<i128>,
}

impl ApiKeyInfo {
    /// A copy of the key.
    pub fn duplicate(&self) -> (r: ApiKeyInfo)
        ensures
            r == *self,
    {
        ApiKeyInfo {
            uid: self.uid.clone(),
            name: self.name.clone(),
            key_suffix: self.key_suffix.clone(),
            scope: self.scope.clone(),
            created_at: self.created_at,
            last_used_at: self.last_used_at,
            expires_at: self.expires_at,
        }
    }
}

/// The pattern in which the key table and key labels write instants.
pub const UTC_TIMESTAMP_PATTERN: &'static str = "%Y-%m-%d %H:%M:%S UTC";

/// What `chrono` writes, in `pattern`, for the instant `secs` seconds and `nanos`
/// nanoseconds after the Unix epoch, or `None` where it refuses that instant.
pub uninterp spec fn utc_timestamp_text(secs: int, nanos: int, pattern: Seq<char>) -> Option<Seq<char>>;

/// `chrono::DateTime::<Utc>::from_timestamp(secs, nanos)` written with `DateTime::format`
/// in `pattern`: `None` where `from_timestamp` finds the seconds out of range or the
/// nanoseconds invalid. The text itself is left to the name. Only the library's pattern
/// is admitted, as formatting with an invalid pattern panics.
#[verifier::external_body]
fn format_utc_timestamp(secs: i64, nanos: u32, pattern: &str) -> (r: Option<String>)
    requires
        pattern@ == UTC_TIMESTAMP_PATTERN@,
    ensures
        opt_string_view(r) == utc_timestamp_text(secs as int, nanos as int, pattern@),
{
    match chrono::DateTime::<chrono::Utc>::from_timestamp(secs, nanos) {
        Some(t) => Some(t.format(pattern).to_string()),
        None => None,
    }
}

/// An instant, in nanoseconds since the Unix epoch, as the table writes it: its whole
/// seconds (rounded down) and the nanoseconds past them; `None` where it is out of range.
pub open spec fn instant_text(at: int) -> Option<Seq<char>> {
    let secs = at / 1_000_000_000;
    if i64::MIN <= secs <= i64::MAX {
        utc_timestamp_text(secs, at % 1_000_000_000, UTC_TIMESTAMP_PATTERN@)
    } else {
        None
    }
}

/// Text where there is some, else nothing.
pub open spec fn text_or_empty(t: Option<Seq<char>>) -> Seq<char> {
    match t {
        Some(x) => x,
        None => Seq::empty(),
    }
}

/// Writes an instant as the table does.
pub fn format_instant(at: i128) -> (r: Option<String>)
    ensures
        opt_string_view(r) == instant_text(at as int),
{
    let billion: u128 = 1_000_000_000;
    let secs: i128;
    let nanos: i128;
    if at >= 0 {
        let m: u128 = at as u128;
        let q: u128 = m / billion;
        let rem: u128 = m % billion;
        proof {
            vstd::arithmetic::div_mod::lemma_fundamental_div_mod(m as int, 1_000_000_000);
        }
        secs = q as i128;
        nanos = rem as i128;
    } else {
        let m: u128 = (-(at + 1)) as u128;
        let q: u128 = m / billion;
        let rem: u128 = m % billion;
        proof {
            vstd::arithmetic::div_mod::lemma_fundamental_div_mod(m as int, 1_000_000_000);
            vstd::arithmetic::div_mod::lemma_fundamental_div_mod_converse(
                at as int,
                1_000_000_000,
                -(q as int) - 1,
                999_999_999 - rem as int,
            );
        }
        secs = -(q as i128) - 1;
        nanos = 999_999_999 - rem as i128;
    }
    if secs < -9_223_372_036_854_775_808i128 || secs > 9_223_372_036_854_775_807i128 {
        return None;
    }
    format_utc_timestamp(secs as i64, nanos as u32, UTC_TIMESTAMP_PATTERN)
}

/// `name (uid, created <instant>)`, as a key is listed among several that match.
pub open spec fn key_label_text(k: ApiKeyInfo) -> Seq<char> {
    k.name@ + " ("@ + k.uid@ + ", created "@ + text_or_empty(instant_text(k.created_at as int)) + ")"@
}

impl ApiKeyInfo {
    /// The key as it is listed among several that match; the instant is left out where
    /// it is out of range.
    pub fn label(&self) -> (r: String)
        ensures
            r@ == key_label_text(*self),
    {
        let mut s = self.name.clone();
        append_str(&mut s, " (");
        append_str(&mut s, self.uid.as_str());
        append_str(&mut s, ", created ");
        match format_instant(self.created_at) {
            Some(t) => append_str(&mut s, t.as_str()),
            None => {},
        }
        append_str(&mut s, ")");
        proof {
            assert(s@ =~= key_label_text(*self));
        }
        s
    }
}

/// The catalog keys of the titles of the key table's columns, in column order.
pub open spec fn api_key_table_header_spec() -> Seq<Seq<char>> {
    seq![
        "agent_sdk.api_key.table.uid"@,
        "agent_sdk.api_key.table.name"@,
        "agent_sdk.api_key.table.key"@,
        "agent_sdk.api_key.table.scope"@,
        "agent_sdk.api_key.table.created"@,
        "agent_sdk.api_key.table.last_used"@,
        "agent_sdk.api_key.table.expires_at"@,
    ]
}

/// The catalog keys of the titles of the key table's columns.
pub fn api_key_table_header_keys() -> (r: Vec<&'static str>)
    ensures
        r@.map_values(|k: &'static str| k@) == api_key_table_header_spec(),
{
    let r = vec![
        "agent_sdk.api_key.table.uid",
        "agent_sdk.api_key.table.name",
        "agent_sdk.api_key.table.key",
        "agent_sdk.api_key.table.scope",
        "agent_sdk.api_key.table.created",
        "agent_sdk.api_key.table.last_used",
        "agent_sdk.api_key.table.expires_at",
    ];
    assert(r@.map_values(|k: &'static str| k@) =~= api_key_table_header_spec());
    r
}

/// The cells of a key's row in the table: uid, name, the key shown by its suffix alone,
/// scope, how long ago it was created, how long ago it was last used or `never`, and
/// when it expires or `never`. The two spans are written by the caller.
pub open spec fn api_key_row_spec(
    k: ApiKeyInfo,
    created_ago: Seq<char>,
    last_used_ago: Seq<char>,
    never: Seq<char>,
) -> Seq<Seq<char>> {
    seq![
        k.uid@,
        k.name@,
        "wk-**"@ + k.key_suffix@,
        k.scope@,
        created_ago,
        if k.last_used_at is Some { last_used_ago } else { never },
        match k.expires_at {
            Some(at) => text_or_empty(instant_text(at as int)),
            None => never,
        },
    ]
}

/// A key's row in the table; `last_used_ago` is read only where the key was used.
pub fn api_key_row(key: &ApiKeyInfo, created_ago: &str, last_used_ago: &str, never: &str) -> (r: Vec<String>)
    ensures
        r@.map_values(|c: String| c@) == api_key_row_spec(*key, created_ago@, last_used_ago@, never@),
{
    let mut masked = String::new();
    append_str(&mut masked, "wk-**");
    append_str(&mut masked, key.key_suffix.as_str());
    let mut created = String::new();
    append_str(&mut created, created_ago);
    let mut last_used = String::new();
    match key.last_used_at {
        Some(_) => append_str(&mut last_used, last_used_ago),
        None => append_str(&mut last_used, never),
    }
    let mut expires = String::new();
    match key.expires_at {
        Some(at) => match format_instant(at) {
            Some(t) => append_str(&mut expires, t.as_str()),
            None => {},
        },
        None => append_str(&mut expires, never),
    }
    let r = vec![key.uid.clone(), key.name.clone(), masked, key.scope.clone(), created, last_used, expires];
    proof {
        assert(r@.map_values(|c: String| c@) =~= api_key_row_spec(*key, created_ago@, last_used_ago@, never@));
    }
    r
}

/// The column a listing is sorted by.
#[derive(Clone, Copy, Debug, PartialEq, Eq, Structural)]
pub enum ApiKeySortBy {
    Name,
    CreatedAt,
    LastUsedAt,
    ExpiresAt,
    Scope,
}

/// The direction of a sort.
#[derive(Clone, Copy, Debug, PartialEq, Eq, Structural)]
pub enum SortOrder {
    Asc,
    Desc,
}

/// The key a listing is sorted by: names without regard to case, instants with a
/// missing one first.
pub open spec fn api_key_sort_key(by: ApiKeySortBy) -> spec_fn(ApiKeyInfo) -> KeyView {
    |k: ApiKeyInfo|
        match by {
            ApiKeySortBy::Name => KeyView::Text(unicode_lowercase(k.name@)),
            ApiKeySortBy::CreatedAt => KeyView::Instant(Some(k.created_at)),
            ApiKeySortBy::LastUsedAt => KeyView::Instant(k.last_used_at),
            ApiKeySortBy::ExpiresAt => KeyView::Instant(k.expires_at),
            ApiKeySortBy::Scope => KeyView::Text(k.scope@),
        }
}

fn sort_key_of(k: &ApiKeyInfo, by: ApiKeySortBy) -> (r: SortKey)
    ensures
        r@ == api_key_sort_key(by)(*k),
{
    match by {
        ApiKeySortBy::Name => SortKey::Text(chars_of(to_lowercase(k.name.as_str()).as_str())),
        ApiKeySortBy::CreatedAt => SortKey::Instant(Some(k.created_at)),
        ApiKeySortBy::LastUsedAt => SortKey::Instant(k.last_used_at),
        ApiKeySortBy::ExpiresAt => SortKey::Instant(k.expires_at),
        ApiKeySortBy::Scope => SortKey::Text(chars_of(k.scope.as_str())),
    }
}

/// Sorts `keys` stably by a column, ascending unless the order is descending; with no
/// column the listing stays as it is.
pub fn sort_api_keys(keys: &mut Vec<ApiKeyInfo>, sort_by: Option<ApiKeySortBy>, sort_order: Option<SortOrder>)
    ensures
        match sort_by {
            None => final(keys)@ == old(keys)@,
            Some(by) => sorted_by(old(keys)@, final(keys)@, api_key_sort_key(by), sort_order == Some(SortOrder::Desc)),
        },
{
    let by = match sort_by {
        None => return,
        Some(by) => by,
    };
    let descending = match sort_order {
        Some(SortOrder::Desc) => true,
        _ => false,
    };
    let ghost key = api_key_sort_key(by);
    let mut sort_keys: Vec<SortKey> = Vec::new();
    let mut i: usize = 0;
    while i < keys.len()
        invariant
            key == api_key_sort_key(by),
            i <= keys@.len(),
            sort_keys@.len() == i,
            forall|k: int| 0 <= k < i ==> #[trigger] sort_keys@[k]@ == key(keys@[k]),
        decreases keys@.len() - i,
    {
        sort_keys.push(sort_key_of(&keys[i], by));
        i = i + 1;
    }
    proof {
        assert(uniform(keys@, key));
    }
    stable_sort_by_keys(keys, &mut sort_keys, descending, Ghost(key));
}

/// The keys named `name`, in their order.
pub open spec fn name_matches(keys: Seq<ApiKeyInfo>, name: Seq<char>) -> Seq<ApiKeyInfo> {
    keys.filter(|k: ApiKeyInfo| k.name@ == name)
}

/// The newest key first.
pub open spec fn newest_first() -> spec_fn(ApiKeyInfo) -> KeyView {
    api_key_sort_key(ApiKeySortBy::CreatedAt)
}

/// What an identifier names among the keys.
#[derive(Debug)]
pub enum ApiKeyResolution {
    /// The key with that uid, or the one key with that name.
    Found(ApiKeyInfo),
    /// No key has that uid or name.
    NotFound,
    /// Several keys have that name: all of them, the newest first.
    Ambiguous(Vec<ApiKeyInfo>),
}

/// Finds the key that `key_identifier` names: the first with that uid; else the keys with
/// that name, which are found when there is exactly one.
pub fn resolve_api_key_identifier(keys: &[ApiKeyInfo], key_identifier: &str) -> (r: ApiKeyResolution)
    ensures
        ({
            let by_uid = exists|i: int| 0 <= i < keys@.len() && (#[trigger] keys@[i]).uid@ == key_identifier@;
            let named = name_matches(keys@, key_identifier@);
            match r {
                ApiKeyResolution::Found(k) => (exists|i: int|
                    0 <= i < keys@.len() && (#[trigger] keys@[i]).uid@ == key_identifier@ && k == keys@[i]
                        && forall|j: int| 0 <= j < i ==> (#[trigger] keys@[j]).uid@ != key_identifier@) || (!by_uid
                    && named.len() == 1 && k == named[0]),
                ApiKeyResolution::NotFound => !by_uid && named.len() == 0,
                ApiKeyResolution::Ambiguous(v) => !by_uid && named.len() > 1 && sorted_by(
                    named,
                    v@,
                    newest_first(),
                    true,
                ),
            }
        }),
{
    let mut i: usize = 0;
    while i < keys.len()
        invariant
            i <= keys@.len(),
            forall|j: int| 0 <= j < i ==> (#[trigger] keys@[j]).uid@ != key_identifier@,
        decreases keys@.len() - i,
    {
        if str_eq(keys[i].uid.as_str(), key_identifier) {
            return ApiKeyResolution::Found(keys[i].duplicate());
        }
        i = i + 1;
    }
    let ghost pred = |k: ApiKeyInfo| k.name@ == key_identifier@;
    let mut matches: Vec<ApiKeyInfo> = Vec::new();
    let mut i: usize = 0;
    while i < keys.len()
        invariant
            pred == (|k: ApiKeyInfo| k.name@ == key_identifier@),
            i <= keys@.len(),
            matches@ == keys@.take(i as int).filter(pred),
        decreases keys@.len() - i,
    {
        proof {
            reveal(Seq::filter);
            assert(keys@.take(i + 1).drop_last() =~= keys@.take(i as int));
        }
        if str_eq(keys[i].name.as_str(), key_identifier) {
            matches.push(keys[i].duplicate());
        }
        i = i + 1;
    }
    proof {
        assert(keys@.take(keys@.len() as int) =~= keys@);
    }
    if matches.len() == 0 {
        return ApiKeyResolution::NotFound;
    }
    if matches.len() == 1 {
        return ApiKeyResolution::Found(matches[0].duplicate());
    }
    sort_api_keys(&mut matches, Some(ApiKeySortBy::CreatedAt), Some(SortOrder::Desc));
    ApiKeyResolution::Ambiguous(matches)
}

/// What expiring a key needs before it goes ahead.
#[derive(Clone, Copy, Debug, PartialEq, Eq, Structural)]
pub enum ExpireGate {
    /// Expire the key.
    Proceed,
    /// Ask the user to confirm first.
    Confirm,
    /// Refuse: without a terminal to ask at, only `--force` expires a key.
    RequireForce,
}

/// Whether expiring a key goes ahead, asks for confirmation, or is refused, given
/// `--force` and whether the input is a terminal.
pub fn expire_gate(force: bool, interactive: bool) -> (r: ExpireGate)
    ensures
        r == (if force {
            ExpireGate::Proceed
        } else if interactive {
            ExpireGate::Confirm
        } else {
            ExpireGate::RequireForce
        }),
{
    if force {
        ExpireGate::Proceed
    } else if interactive {
        ExpireGate::Confirm
    } else {
        ExpireGate::RequireForce
    }
}

/// How long a new key lives: a span of whole seconds and nanoseconds.
#[derive(Clone, Copy, Debug, PartialEq, Eq)]
pub struct ExpiresIn {
    pub secs: u64,
    pub nanos: u32,
}

/// The expiration options of a new key.
#[derive(Clone, Copy, Debug, PartialEq, Eq)]
pub struct ApiKeyExpirationArgs {
    pub no_expiration: bool,
    pub expires_at: Option<i128>,
    pub expires_in: Option<ExpiresIn>,
}

/// Why the expiration of a new key was refused.
#[derive(Clone, Copy, Debug, PartialEq, Eq, Structural)]
pub enum ExpirationError {
    /// The span is longer than a time delta holds.
    TooLarge,
    /// No expiration option was given.
    BehaviorRequired,
}

impl ExpirationError {
    /// The catalog key of the error's message.
    pub fn message_key(&self) -> (r: &'static str)
        ensures
            r == expiration_error_key(*self),
    {
        match self {
            ExpirationError::TooLarge => "agent_sdk.api_key.error.expiration_too_large",
            ExpirationError::BehaviorRequired => "agent_sdk.api_key.error.expiration_behavior_required",
        }
    }
}

pub open spec fn expiration_error_key(e: ExpirationError) -> &'static str {
    match e {
        ExpirationError::TooLarge => "agent_sdk.api_key.error.expiration_too_large",
        ExpirationError::BehaviorRequired => "agent_sdk.api_key.error.expiration_behavior_required",
    }
}

/// The span of `d` in nanoseconds.
pub open spec fn span_nanos(d: ExpiresIn) -> int {
    d.secs * 1_000_000_000 + d.nanos
}

/// When a new key expires, `now` being the current instant: never, when asked; else
/// at the instant given; else after the span given; an error when the span is too long
/// or nothing was given.
pub fn expires_at_from_args(args: &ApiKeyExpirationArgs, now: i128) -> (r: Result<Option<i128>, ExpirationError>)
    requires
        args.expires_in matches Some(d) ==> d.nanos < 1_000_000_000,
        now <= i128::MAX - MAX_TIME_DELTA_NANOS,
    ensures
        r == (if args.no_expiration {
            Ok(None)
        } else if args.expires_at is Some {
            Ok(args.expires_at)
        } else {
            match args.expires_in {
                Some(d) => if span_nanos(d) <= MAX_TIME_DELTA_NANOS {
                    Ok(Some((now + span_nanos(d)) as i128))
                } else {
                    Err(ExpirationError::TooLarge)
                },
                None => Err(ExpirationError::BehaviorRequired),
            }
        }),
{
    if args.no_expiration {
        return Ok(None);
    }
    if let Some(at) = args.expires_at {
        return Ok(Some(at));
    }
    if let Some(d) = args.expires_in {
        return match time_delta_from_std(d.secs, d.nanos) {
            Some((s, n)) => {
                let span: i128 = (s as i128) * 1_000_000_000 + (n as i128);
                Ok(Some(now + span))
            },
            None => Err(ExpirationError::TooLarge),
        };
    }
    Err(ExpirationError::BehaviorRequired)
}

/// The catalog key of the message that reports an expiration: whether the key expired.
pub open spec fn expire_result_key(expired: bool) -> &'static str {
    if expired {
        "agent_sdk.api_key.output.expired"
    } else {
        "agent_sdk.api_key.output.not_expired"
    }
}

/// The message, in `locale`, that reports whether the key `key_uid` expired.
pub fn expire_result_message(bundle: &CatalogBundle, locale: LocaleId, key_uid: &str, expired: bool) -> (r: Result<
    String,
    TemplateError,
>)
    ensures
        outcome_of(r) == template_outcome(
            bundle_text(bundle, locale, expire_result_key(expired)@),
            seq![("key_uid"@, key_uid@)],
        ),
{
    let args = [("key_uid", key_uid)];
    proof {
        assert(arg_views(args@) =~= seq![("key_uid"@, key_uid@)]);
    }
    if expired {
        text_for_locale_with_args(bundle, locale, "agent_sdk.api_key.output.expired", &args)
    } else {
        text_for_locale_with_args(bundle, locale, "agent_sdk.api_key.output.not_expired", &args)
    }
}

/// The lines, in `locale`, that report a new key: that the key named `name` was
/// created, its uid, its secret, and that the secret is shown this once.
pub open spec fn created_key_lines_spec(
    bundle: &CatalogBundle,
    locale: LocaleId,
    created: Seq<char>,
    uid: Seq<char>,
    raw_api_key: Seq<char>,
) -> Seq<Seq<char>> {
    seq![
        created,
        bundle_text(bundle, locale, "agent_sdk.api_key.output.uid"@) + " "@ + uid,
        bundle_text(bundle, locale, "agent_sdk.api_key.output.raw_api_key"@) + " "@ + raw_api_key,
        bundle_text(bundle, locale, "agent_sdk.api_key.output.secret_shown_once"@),
    ]
}

/// The lines that report a new key, or why its first line could not be written.
pub fn created_key_lines(bundle: &CatalogBundle, locale: LocaleId, name: &str, uid: &str, raw_api_key: &str) -> (r: Result<
    Vec<String>,
    TemplateError,
>)
    ensures
        match r {
            Ok(lines) => {
                &&& template_outcome(bundle_text(bundle, locale, "agent_sdk.api_key.output.created"@), seq![("name"@, name@)])
                    == TemplateOutcome::Rendered(lines@[0]@)
                &&& lines@.map_values(|l: String| l@) == created_key_lines_spec(bundle, locale, lines@[0]@, uid@, raw_api_key@)
            },
            Err(e) => outcome_of(Err::<String, TemplateError>(e)) == template_outcome(
                bundle_text(bundle, locale, "agent_sdk.api_key.output.created"@),
                seq![("name"@, name@)],
            ),
        },
{
    let args = [("name", name)];
    proof {
        assert(arg_views(args@) =~= seq![("name"@, name@)]);
    }
    let created = match text_for_locale_with_args(bundle, locale, "agent_sdk.api_key.output.created", &args) {
        Ok(t) => t,
        Err(e) => return Err(e),
    };
    let mut uid_line = text_for_locale(bundle, locale, "agent_sdk.api_key.output.uid");
    append_str(&mut uid_line, " ");
    append_str(&mut uid_line, uid);
    let mut key_line = text_for_locale(bundle, locale, "agent_sdk.api_key.output.raw_api_key");
    append_str(&mut key_line, " ");
    append_str(&mut key_line, raw_api_key);
    let once = text_for_locale(bundle, locale, "agent_sdk.api_key.output.secret_shown_once");
    let lines = vec![created, uid_line, key_line, once];
    proof {
        assert(lines@.map_values(|l: String| l@) =~= created_key_lines_spec(bundle, locale, lines@[0]@, uid@, raw_api_key@));
    }
    Ok(lines)
}

/// What the server answers to a request for a new key.
pub enum GenerateApiKeyResult {
    /// The key, with its secret.
    GenerateApiKeyOutput { raw_api_key: String, api_key: ApiKeyInfo },
    /// A refusal, with the message to show the user.
    UserFacingError(String),
    /// An answer of a kind the command does not know.
    Unknown,
}

/// A new key and its secret.
pub struct CreatedApiKeyInfo {
    pub raw_api_key: String,
    pub api_key: ApiKeyInfo,
}

/// The new key in the server's answer, or the message that reports why there is none:
/// the server's own for a refusal, `unknown_error` for an answer of an unknown kind.
pub fn created_api_key(result: GenerateApiKeyResult, unknown_error: String) -> (r: Result<CreatedApiKeyInfo, String>)
    ensures
        match result {
            GenerateApiKeyResult::GenerateApiKeyOutput { raw_api_key, api_key } => r matches Ok(c) && c.raw_api_key
                == raw_api_key && c.api_key == api_key,
            GenerateApiKeyResult::UserFacingError(message) => r == Err::<CreatedApiKeyInfo, String>(message),
            GenerateApiKeyResult::Unknown => r == Err::<CreatedApiKeyInfo, String>(unknown_error),
        },
{
    match result {
        GenerateApiKeyResult::GenerateApiKeyOutput { raw_api_key, api_key } => Ok(CreatedApiKeyInfo { raw_api_key, api_key }),
        GenerateApiKeyResult::UserFacingError(message) => Err(message),
        GenerateApiKeyResult::Unknown => Err(unknown_error),
    }
}

/// What the server answers to a request to expire a key.
pub enum ExpireApiKeyResult {
    /// Whether the key expired.
    ExpireApiKeyOutput { success: bool },
    /// A refusal, with the message to show the user.
    UserFacingError(String),
    /// An answer of a kind the command does not know.
    Unknown,
}

/// Which key a request expired, and whether it did.
pub struct ExpiredApiKeyInfo {
    pub key_uid: String,
    pub expired: bool,
}

/// The outcome for the key `key_uid` in the server's answer, or the message that
/// reports why there is none: the server's own for a refusal, `unknown_error` for an
/// answer of an unknown kind.
pub fn expired_api_key(result: ExpireApiKeyResult, key_uid: String, unknown_error: String) -> (r: Result<
    ExpiredApiKeyInfo,
    String,
>)
    ensures
        match result {
            ExpireApiKeyResult::ExpireApiKeyOutput { success } => r matches Ok(e) && e.key_uid == key_uid && e.expired
                == success,
            ExpireApiKeyResult::UserFacingError(message) => r == Err::<ExpiredApiKeyInfo, String>(message),
            ExpireApiKeyResult::Unknown => r == Err::<ExpiredApiKeyInfo, String>(unknown_error),
        },
{
    match result {
        ExpireApiKeyResult::ExpireApiKeyOutput { success } => Ok(ExpiredApiKeyInfo { key_uid, expired: success }),
        ExpireApiKeyResult::UserFacingError(message) => Err(message),
        ExpireApiKeyResult::Unknown => Err(unknown_error),
    }
}

} // verus!
