//! A request for a badge: what it is cached under, what has to be fetched
//! for it, and the badge that answers it.

use regex::Regex;
use vstd::prelude::*;
use vstd::string::StringExecFns;
use crate::badge::plain_badge;
use crate::badge::BadgeOptions;
use crate::badge::BadgeView;
use crate::badge::COLOR_DANGER;
use crate::badge::COLOR_OTHER;
use crate::badge::COLOR_SUCCESS;
use crate::badge::COLOR_WARNING;
use crate::cache::answers;
use crate::cache::key_view;
use crate::cache::pairs_view;
use crate::cache::value_view;
use crate::cache::BadgeCache;
use crate::cache::CacheKey;
use crate::cache::CacheValue;
use crate::cache::KeyView;
use crate::datadog::MonitorState;
use crate::datadog::MonitorStatus;
use crate::filter::filter_text;
use crate::string_map::ascending;
use crate::string_map::bindings;
use crate::string_map::has_key;
use crate::string_map::lemma_ascending_pairs;
use crate::string_map::lemma_bindings_at;
use crate::string_map::lemma_drop_last_bindings;
use crate::string_map::lemma_entries_of_equal_maps;
use crate::string_map::lemma_insert_bindings;
use crate::string_map::position_of;
use crate::string_map::precedes;
use crate::string_map::str_equal;
use crate::string_map::StringMap;
use crate::text::decimal;
use crate::text::decimal_string;
use crate::timestamp::Timestamp;

verus! {

/// The query parameter by which a client forces a reload.  It does not bear
/// on the badge and is no part of a cache key.
pub const POLL_PARAMETER: &'static str = "badge-poll";

/// The query parameter whose presence asks for the groups of the monitor.
pub const GROUPS_PARAMETER: &'static str = "g";

/// The query parameter that holds the tag filter.
pub const FILTER_PARAMETER: &'static str = "q";

/// The content type of a badge.
pub const CONTENT_TYPE: &'static str = "image/svg+xml";

/// A request for the badge of a monitor.
#[derive(Clone, Debug, PartialEq, Eq)]
pub struct BadgeRequest {
    pub account: String,
    pub monitor: String,
    pub query: StringMap<String>,
}

/// The texts of the entries of a query.
pub open spec fn query_view(entries: Seq<(Seq<char>, String)>) -> Seq<(Seq<char>, Seq<char>)> {
    entries.map_values(|e: (Seq<char>, String)| (e.0, e.1@))
}

/// The entries whose name is not `name`, in their order.
pub open spec fn without(entries: Seq<(Seq<char>, Seq<char>)>, name: Seq<char>) -> Seq<
    (Seq<char>, Seq<char>),
>
    decreases entries.len(),
{
    if entries.len() == 0 {
        Seq::empty()
    } else if entries.last().0 == name {
        without(entries.drop_last(), name)
    } else {
        without(entries.drop_last(), name).push(entries.last())
    }
}

/// Leaving a name out of an ascending query leaves it ascending, and takes
/// the name and nothing else out of what the query binds.
pub proof fn lemma_without(entries: Seq<(Seq<char>, Seq<char>)>, name: Seq<char>)
    requires
        ascending(entries),
    ensures
        ascending(without(entries, name)),
        bindings(without(entries, name)) == bindings(entries).remove(name),
    decreases entries.len(),
{
    if entries.len() == 0 {
        assert(bindings(entries) =~= bindings(entries).remove(name));
    } else {
        let shorter = entries.drop_last();
        let last = entries.last();
        let rest = without(shorter, name);
        lemma_drop_last_bindings(entries);
        lemma_without(shorter, name);
        lemma_bindings_at(entries, entries.len() - 1);
        assert(bindings(entries) =~= bindings(shorter).insert(last.0, last.1));
        if last.0 == name {
            assert(bindings(rest) =~= bindings(entries).remove(name));
        } else {
            assert forall|j: int| 0 <= j < rest.len() implies precedes(
                (#[trigger] rest[j]).0,
                last.0,
            ) by {
                let k = rest[j].0;
                assert(has_key(rest, k));
                assert(bindings(rest).contains_key(k));
                assert(bindings(shorter).contains_key(k));
                let i = position_of(shorter, k);
                assert(entries[i].0 == k);
                lemma_ascending_pairs(entries, i, entries.len() - 1);
            }
            lemma_insert_bindings(rest, rest.len() as int, last.0, last.1);
            assert(rest.insert(rest.len() as int, last) =~= rest.push(last));
            assert(bindings(rest.push(last)) =~= bindings(entries).remove(name));
        }
    }
}

/// The texts of an ascending query are ascending.
pub proof fn lemma_query_view_ascending(entries: Seq<(Seq<char>, String)>)
    requires
        ascending(entries),
    ensures
        ascending(query_view(entries)),
{
    let texts = query_view(entries);
    assert forall|j: int| 0 <= j < texts.len() - 1 implies precedes(
        #[trigger] texts[j].0,
        texts[j + 1].0,
    ) by {
        assert(texts[j].0 == entries[j].0);
        assert(texts[j + 1].0 == entries[j + 1].0);
    }
}

/// Requests for one monitor of one account whose queries differ in nothing
/// but the parameter that forces a reload are cached under one key.
pub proof fn lemma_poll_parameter_shares_key(a: BadgeRequest, b: BadgeRequest)
    requires
        ascending(a.query.entries()),
        ascending(b.query.entries()),
        a.account@ == b.account@,
        a.monitor@ == b.monitor@,
        bindings(query_view(a.query.entries())).remove(POLL_PARAMETER@) == bindings(
            query_view(b.query.entries()),
        ).remove(POLL_PARAMETER@),
    ensures
        a.key_spec() == b.key_spec(),
{
    let qa = query_view(a.query.entries());
    let qb = query_view(b.query.entries());
    lemma_query_view_ascending(a.query.entries());
    lemma_query_view_ascending(b.query.entries());
    lemma_without(qa, POLL_PARAMETER@);
    lemma_without(qb, POLL_PARAMETER@);
    lemma_entries_of_equal_maps(without(qa, POLL_PARAMETER@), without(qb, POLL_PARAMETER@));
}

impl BadgeRequest {
    /// What the request is cached under: the account, the monitor, and the
    /// query without the parameter that forces a reload.
    pub open spec fn key_spec(&self) -> KeyView {
        (self.account@, self.monitor@, without(query_view(self.query.entries()), POLL_PARAMETER@))
    }

    /// What the request is cached under.
    pub fn cache_key(&self) -> (key: CacheKey)
        ensures
            key_view(key) == self.key_spec(),
    {
        let mut pairs: Vec<(String, String)> = Vec::new();
        let ghost entries = query_view(self.query.entries());
        let count = self.query.len();
        let mut i: usize = 0;
        assert(entries.take(0) =~= Seq::empty());
        assert(pairs_view(pairs@) =~= Seq::empty());
        while i < count
            invariant
                i <= count,
                count == entries.len(),
                entries == query_view(self.query.entries()),
                pairs_view(pairs@) == without(
                    entries.take(i as int),
                    POLL_PARAMETER@,
                ),
            decreases count - i,
        {
            let name = self.query.key(i);
            let ghost before = pairs@;
            assert(entries.take(i + 1).drop_last() =~= entries.take(i as int));
            assert(entries.take(i + 1).last() == entries[i as int]);
            if !str_equal(name, POLL_PARAMETER) {
                let value = self.query.value(i).clone();
                pairs.push((String::from_str(name), value));
                assert(pairs_view(pairs@) =~= pairs_view(before).push(
                    entries[i as int],
                ));
            }
            i += 1;
        }
        assert(entries.take(i as int) =~= entries);
        (self.account.clone(), self.monitor.clone(), pairs)
    }

    /// Whether the request asks for the groups of the monitor.
    pub open spec fn wants_groups_spec(&self) -> bool {
        self.query@.contains_key(GROUPS_PARAMETER@)
    }

    /// Whether the request asks for the groups of the monitor.
    pub fn wants_groups(&self) -> (b: bool)
        ensures
            b == self.wants_groups_spec(),
    {
        self.query.get(GROUPS_PARAMETER).is_some()
    }

    /// The tag filter of the request, where it has one.
    pub open spec fn filter_spec(&self) -> Option<Seq<char>> {
        if self.query@.contains_key(FILTER_PARAMETER@) {
            Some(self.query@[FILTER_PARAMETER@]@)
        } else {
            None
        }
    }

    /// The tag filter of the request, where it has one.
    pub fn filter(&self) -> (f: Option<&str>)
        ensures
            filter_text(f) == self.filter_spec(),
    {
        match self.query.get(FILTER_PARAMETER) {
            Some(text) => Some(text.as_str()),
            None => None,
        }
    }
}

/// The address at which the monitoring service reports on a monitor; with
/// the groups of the monitor where `with_groups` holds.
pub open spec fn details_url_spec(monitor: Seq<char>, with_groups: bool) -> Seq<char> {
    if with_groups {
        "https://api.datadoghq.com/api/v1/monitor/"@ + monitor + "?group_states=all"@
    } else {
        "https://api.datadoghq.com/api/v1/monitor/"@ + monitor
    }
}

/// The address at which the monitoring service reports on a monitor.
pub fn details_url(monitor: &str, with_groups: bool) -> (url: String)
    ensures
        url@ == details_url_spec(monitor@, with_groups),
{
    let mut url = String::from_str("https://api.datadoghq.com/api/v1/monitor/");
    url.append(monitor);
    if with_groups {
        url.append("?group_states=all");
    }
    url
}

/// What `str::to_uppercase` makes of a text.
pub uninterp spec fn uppercased(text: Seq<char>) -> Seq<char>;

/// `str::to_uppercase` of the standard library: what comes back depends on
/// the text alone.
#[verifier::external_body]
fn to_uppercase(text: &str) -> (r: String)
    ensures
        r@ == uppercased(text@),
{
    text.to_uppercase()
}

/// What the `regex` crate makes of `text` when each match of the regular
/// expression `pattern` is replaced by `replacement`; nothing where the
/// expression does not compile.
pub uninterp spec fn replaced(pattern: Seq<char>, text: Seq<char>, replacement: Seq<char>) -> Option<
    Seq<char>,
>;

/// `Regex::new`, and `Regex::replace_all` on the expression that it gives:
/// what comes back depends on the three texts alone, and is nothing where
/// the expression does not compile.
#[verifier::external_body]
fn replace_all(pattern: &str, text: &str, replacement: &str) -> (r: Option<String>)
    ensures
        match r {
            Some(s) => replaced(pattern@, text@, replacement@) == Some(s@),
            None => replaced(pattern@, text@, replacement@) is None,
        },
{
    match Regex::new(pattern) {
        Ok(expression) => Some(expression.replace_all(text, replacement).into_owned()),
        Err(_) => None,
    }
}

/// What the names of the variables that hold the keys of an account begin
/// with: the account in upper case, with an underscore in place of every
/// character that is neither a capital letter nor a digit nor an underscore.
pub open spec fn variable_root_spec(account: Seq<char>) -> Option<Seq<char>> {
    replaced("[^A-Z0-9_]"@, uppercased(account), "_"@)
}

/// What the names of the variables that hold the keys of an account begin
/// with.
pub fn variable_root(account: &str) -> (r: Option<String>)
    ensures
        match r {
            Some(s) => variable_root_spec(account@) == Some(s@),
            None => variable_root_spec(account@) is None,
        },
{
    let upper = to_uppercase(account);
    replace_all("[^A-Z0-9_]", upper.as_str(), "_")
}

/// The names of the two variables that hold the keys of an account: the
/// API key first, the application key second.
pub fn credential_variables(root: &str) -> (names: (String, String))
    ensures
        names.0@ == root@ + "_DATADOG_API_KEY"@,
        names.1@ == root@ + "_DATADOG_APP_KEY"@,
{
    let mut api = String::from_str(root);
    api.append("_DATADOG_API_KEY");
    let mut app = String::from_str(root);
    app.append("_DATADOG_APP_KEY");
    (api, app)
}

/// The color in which a status is shown.
pub open spec fn status_color(status: MonitorStatus) -> Seq<char> {
    match status {
        MonitorStatus::OK | MonitorStatus::Skipped => COLOR_SUCCESS@,
        MonitorStatus::Alert | MonitorStatus::Unknown => COLOR_DANGER@,
        MonitorStatus::Warn => COLOR_WARNING@,
        MonitorStatus::NoData | MonitorStatus::Ignored => COLOR_OTHER@,
    }
}

/// The text with which a status is shown.
pub open spec fn status_text(status: MonitorStatus) -> Seq<char> {
    match status {
        MonitorStatus::Ignored => "Ignored"@,
        MonitorStatus::Skipped => "Skipped"@,
        MonitorStatus::OK => "Ok"@,
        MonitorStatus::Alert => "Alert"@,
        MonitorStatus::Unknown => "Unknown"@,
        MonitorStatus::Warn => "Warn"@,
        MonitorStatus::NoData => "No Data"@,
    }
}

/// The whole seconds from `since` to `now`, a part of a second left out;
/// negative where `now` is the earlier of the two.  What does not fit the
/// result is replaced by the nearest number that does.
pub open spec fn elapsed_seconds(now: Timestamp, since: Timestamp) -> int {
    let nanos = (now.secs - since.secs) * 1_000_000_000 + (now.nanos - since.nanos);
    let whole = if nanos >= 0 {
        nanos / 1_000_000_000
    } else {
        -((-nanos) / 1_000_000_000)
    };
    if whole > i64::MAX {
        i64::MAX as int
    } else if whole < i64::MIN {
        i64::MIN as int
    } else {
        whole
    }
}

/// The whole seconds from `since` to `now`.
pub fn elapsed(now: Timestamp, since: Timestamp) -> (seconds: i64)
    ensures
        seconds == elapsed_seconds(now, since),
{
    let nanos: i128 = (now.secs as i128 - since.secs as i128) * 1_000_000_000 + (now.nanos as i128
        - since.nanos as i128);
    let whole: i128 = if nanos >= 0 {
        nanos / 1_000_000_000
    } else {
        -((-nanos) / 1_000_000_000)
    };
    if whole > i64::MAX as i128 {
        i64::MAX
    } else if whole < i64::MIN as i128 {
        i64::MIN
    } else {
        whole as i64
    }
}

/// What came of asking the monitoring service about a monitor.
#[derive(Clone, Debug, PartialEq, Eq)]
pub enum Outcome {
    /// The account has no keys.
    Unconfigured,
    /// The service could not be reached.
    Unreachable,
    /// The service answered with the given HTTP status, which is no success.
    Refused(u16),
    /// The service reported the state of the monitor.
    Reported(MonitorState),
}

/// The HTTP status of an answer: `status` itself, or 200 where every badge
/// is to be delivered as a success.
pub open spec fn answer_status(status: u16, status_codes: bool) -> u16 {
    if status_codes {
        status
    } else {
        200
    }
}

/// The badge that answers a request, and its HTTP status.  `status_codes`
/// holds unless every badge is to be delivered as a success; `now` is the
/// time of the answer.
pub open spec fn outcome_badge(
    request: BadgeRequest,
    outcome: Outcome,
    status_codes: bool,
    now: Timestamp,
) -> (BadgeView, u16) {
    match outcome {
        Outcome::Unconfigured => (
            plain_badge("Unconfigured account: "@ + request.account@, COLOR_OTHER@),
            answer_status(404, status_codes),
        ),
        Outcome::Unreachable => (
            plain_badge("Internal Server Error"@, COLOR_WARNING@),
            answer_status(500, status_codes),
        ),
        Outcome::Refused(status) => (
            plain_badge(decimal(status as nat), COLOR_WARNING@),
            answer_status(status, status_codes),
        ),
        Outcome::Reported(state) => {
            let (status, since) = state.status_spec(request.filter_spec());
            (
                BadgeView {
                    status: status_text(status),
                    duration: match since {
                        Some(t) => Some(elapsed_seconds(now, t) as i64),
                        None => None,
                    },
                    color: status_color(status),
                    muted: state.options.muted(),
                    width: None,
                    height: None,
                },
                200,
            )
        },
    }
}

/// A badge with the given status text and color, without a duration, not
/// muted, in its own size.
fn plain(status: String, color: &str) -> (badge: BadgeOptions)
    ensures
        badge@ == plain_badge(status@, color@),
{
    BadgeOptions {
        status,
        duration: None,
        color: String::from_str(color),
        muted: false,
        width: None,
        height: None,
    }
}

/// The badge that answers a request, and its HTTP status.
pub fn badge_for(request: &BadgeRequest, outcome: &Outcome, status_codes: bool, now: Timestamp) -> (value:
    CacheValue)
    ensures
        value_view(value) == outcome_badge(*request, *outcome, status_codes, now),
{
    match outcome {
        Outcome::Unconfigured => {
            let mut text = String::from_str("Unconfigured account: ");
            text.append(request.account.as_str());
            (plain(text, COLOR_OTHER), if status_codes {
                404
            } else {
                200
            })
        },
        Outcome::Unreachable => (
            plain(String::from_str("Internal Server Error"), COLOR_WARNING),
            if status_codes {
                500
            } else {
                200
            },
        ),
        Outcome::Refused(status) => (
            plain(decimal_string(*status as u64), COLOR_WARNING),
            if status_codes {
                *status
            } else {
                200
            },
        ),
        Outcome::Reported(state) => {
            let (status, since) = state.status(request.filter());
            let duration = match since {
                Some(t) => Some(elapsed(now, t)),
                None => None,
            };
            let color = match status {
                MonitorStatus::OK | MonitorStatus::Skipped => COLOR_SUCCESS,
                MonitorStatus::Alert | MonitorStatus::Unknown => COLOR_DANGER,
                MonitorStatus::Warn => COLOR_WARNING,
                MonitorStatus::NoData | MonitorStatus::Ignored => COLOR_OTHER,
            };
            let text = match status {
                MonitorStatus::Ignored => "Ignored",
                MonitorStatus::Skipped => "Skipped",
                MonitorStatus::OK => "Ok",
                MonitorStatus::Alert => "Alert",
                MonitorStatus::Unknown => "Unknown",
                MonitorStatus::Warn => "Warn",
                MonitorStatus::NoData => "No Data",
            };
            (
                BadgeOptions {
                    status: String::from_str(text),
                    duration,
                    color: String::from_str(color),
                    muted: state.options.is_muted(),
                    width: None,
                    height: None,
                },
                200,
            )
        },
    }
}

/// What is to be done for a request.
#[derive(Debug, PartialEq, Eq)]
pub enum Step {
    /// The cache holds a badge for the request that has not expired: it is
    /// the answer, and the monitoring service is not asked.
    Reply(CacheValue),
    /// The cache holds none: the monitoring service is to be asked, at the
    /// address given.
    Fetch(String),
}

/// Looks the request up in the cache.
pub fn begin(cache: &mut BadgeCache, request: &BadgeRequest) -> (step: Step)
    ensures
        final(cache).lifespan() == old(cache).lifespan(),
        match step {
            Step::Reply(value) => answers(old(cache)@, request.key_spec(), Some(value), final(cache)@),
            Step::Fetch(url) => answers(old(cache)@, request.key_spec(), None, final(cache)@) && url@
                == details_url_spec(request.monitor@, request.wants_groups_spec()),
        },
{
    let key = request.cache_key();
    match cache.get(&key) {
        Some(value) => Step::Reply(value),
        None => Step::Fetch(details_url(request.monitor.as_str(), request.wants_groups())),
    }
}

/// Makes the badge that answers a request for which the monitoring service
/// was asked, and puts it into the cache.
pub fn finish(
    cache: &mut BadgeCache,
    request: &BadgeRequest,
    outcome: &Outcome,
    status_codes: bool,
    now: Timestamp,
) -> (value: CacheValue)
    ensures
        value_view(value) == outcome_badge(*request, *outcome, status_codes, now),
        final(cache)@ == old(cache)@.insert(request.key_spec(), value_view(value)),
        final(cache).lifespan() == old(cache).lifespan(),
{
    let value = badge_for(request, outcome, status_codes, now);
    let stored = (value.0.clone(), value.1);
    cache.put(request.cache_key(), stored);
    value
}

/// The `Cache-Control` header of an answer that may be kept for `max_age`
/// seconds.
pub fn cache_control(max_age: u64) -> (header: String)
    ensures
        header@ == "public, max-age="@ + decimal(max_age as nat),
{
    let mut header = String::from_str("public, max-age=");
    header.append(decimal_string(max_age).as_str());
    header
}

} // verus!
