//! The walk over the attested requests of one exchange account.
//!
//! An attestation lists requests (by URL) and the responses to them. The walk
//! takes the requests in order: it reads each request's timestamp, checks its
//! URL against the account's endpoints, asks for the JSON values it needs from
//! the response (`Action::Query`), and takes those values back. From them it
//! collects the balance rows to be summed and the keys that identify the
//! account, which must all differ.
use vstd::prelude::*;

use crate::attestation::{
    request_timestamp, source_urls, timestamp_of, AttestationHeader, Source, BALANCE_URL,
    RISK_URL, ASTER_FEATURE_BALANCE_URL, ASTER_SPOT_BALANCE_URL, FEATURE_BALANCE_URL,
    SPOT_BALANCE_URL, base_urls,
};
use crate::errors::{code_name, ZkErrorCode, ZktlsError};
use crate::order::{has_duplicate, has_repeat, join, joined, lex_le_rel, sort_strings, views};
use crate::text::{
    ascii_upper, concat_text, has_prefix, starts_with, to_ascii_uppercase, trim_char, trimmed_of,
};

verus! {

/// What an attestation of one account establishes.
pub struct AttestationMetaStruct {
    pub task_id: String,
    pub report_tx_hash: String,
    pub attestor: String,
    pub base_urls: Vec<String>,
    pub timestamp: u128,
}

impl Default for AttestationMetaStruct {
    /// An empty record: no text, no endpoints, timestamp 0.
    fn default() -> (m: AttestationMetaStruct)
        ensures
            m.task_id@ == Seq::<char>::empty(),
            m.report_tx_hash@ == Seq::<char>::empty(),
            m.attestor@ == Seq::<char>::empty(),
            m.base_urls@.len() == 0,
            m.timestamp == 0,
    {
        AttestationMetaStruct {
            task_id: String::new(),
            report_tx_hash: String::new(),
            attestor: String::new(),
            base_urls: Vec::new(),
            timestamp: 0,
        }
    }
}

impl AttestationMetaStruct {
    /// The record of an attestation of `source` once its header is read and
    /// before any request is checked: the header, the account's endpoints, and
    /// timestamp 0.
    pub fn from_header(source: Source, header: &AttestationHeader) -> (m: AttestationMetaStruct)
        ensures
            m.task_id@ == header.task_id@,
            m.report_tx_hash@ == header.report_tx_hash@,
            m.attestor@ == header.attestor@,
            views(m.base_urls@) == source_urls(source),
            m.timestamp == 0,
    {
        AttestationMetaStruct {
            task_id: header.task_id.clone(),
            report_tx_hash: header.report_tx_hash.clone(),
            attestor: header.attestor.clone(),
            base_urls: base_urls(source),
            timestamp: 0,
        }
    }
}

/// One balance row of a response: the asset in upper case and the two amount
/// texts that are added to its balance.
pub struct BalanceEntry {
    pub asset: String,
    pub first: String,
    pub second: String,
}

/// A balance row as text.
pub open spec fn entry_view(e: BalanceEntry) -> (Seq<char>, Seq<char>, Seq<char>) {
    (e.asset@, e.first@, e.second@)
}

/// Balance rows as text.
pub open spec fn entry_views(s: Seq<BalanceEntry>) -> Seq<(Seq<char>, Seq<char>, Seq<char>)> {
    s.map_values(|e: BalanceEntry| entry_view(e))
}

/// Where the walk stands within the current request.
#[derive(Clone, Copy, Debug, PartialEq, Eq, Structural)]
pub enum Stage {
    /// Between requests.
    Idle,
    /// Waiting for the symbols and entry prices of positions.
    AwaitPrices,
    /// Waiting for the balance values.
    AwaitBalances,
    /// The balance values are to be asked for next.
    NeedBalances,
    /// Waiting for the account id.
    AwaitUid,
    /// Waiting for the update time.
    AwaitUpdateTime,
    /// Waiting for the amounts of the balance rows, written as numbers.
    AwaitAmounts,
    /// A request's URL was refused after its timestamp was read; the walk
    /// goes no further.
    Stopped,
}

/// What the walk asks of its caller.
pub enum Action {
    /// Read the JSON values at `paths` from response number `message`.
    Query { message: usize, paths: Vec<String> },
    /// Every request has been checked.
    Finished,
}

/// An action as plain values: the response and the paths of a query, or
/// `None` when the walk is finished.
pub open spec fn action_view(a: Action) -> Option<(nat, Seq<Seq<char>>)> {
    match a {
        Action::Query { message, paths } => Some((message as nat, views(paths@))),
        Action::Finished => None,
    }
}

/// The paths of the symbols and entry prices of positions.
pub open spec fn price_paths() -> Seq<Seq<char>> {
    seq!["$.[*].symbol"@, "$.[*].entryPrice"@]
}

/// The paths of an account's balance values: asset, then two amounts.
pub open spec fn balance_paths(source: Source) -> Seq<Seq<char>> {
    match source {
        Source::BinanceUnified => seq![
            "$.[*].asset"@,
            "$.[*].totalWalletBalance"@,
            "$.[*].umUnrealizedPNL"@,
        ],
        Source::BinanceSpot | Source::AsterSpot => seq![
            "$.balances[*].asset"@,
            "$.balances[*].free"@,
            "$.balances[*].locked"@,
        ],
        Source::BinanceFeature | Source::AsterFeature => seq![
            "$.[*].asset"@,
            "$.[*].balance"@,
            "$.[*].crossUnPnl"@,
        ],
    }
}

/// The path of what identifies an account: its id, or its update time.
pub open spec fn uid_paths(source: Source) -> Seq<Seq<char>> {
    match source {
        Source::BinanceSpot => seq!["$.uid"@],
        Source::AsterSpot => seq!["$.updateTime"@],
        _ => seq!["$.[*].accountAlias"@],
    }
}

/// The paths asked for on entering `stage`.
pub open spec fn stage_paths(source: Source, stage: Stage) -> Seq<Seq<char>> {
    match stage {
        Stage::AwaitPrices => price_paths(),
        Stage::AwaitBalances => balance_paths(source),
        Stage::AwaitUid | Stage::AwaitUpdateTime => uid_paths(source),
        _ => Seq::empty(),
    }
}

fn strings2(a: &str, b: &str) -> (v: Vec<String>)
    ensures
        views(v@) == seq![a@, b@],
{
    let mut v: Vec<String> = Vec::new();
    v.push(String::from_str(a));
    v.push(String::from_str(b));
    assert(views(v@) =~= seq![a@, b@]);
    v
}

fn strings3(a: &str, b: &str, c: &str) -> (v: Vec<String>)
    ensures
        views(v@) == seq![a@, b@, c@],
{
    let mut v: Vec<String> = Vec::new();
    v.push(String::from_str(a));
    v.push(String::from_str(b));
    v.push(String::from_str(c));
    assert(views(v@) =~= seq![a@, b@, c@]);
    v
}

fn strings1(a: &str) -> (v: Vec<String>)
    ensures
        views(v@) == seq![a@],
{
    let mut v: Vec<String> = Vec::new();
    v.push(String::from_str(a));
    assert(views(v@) =~= seq![a@]);
    v
}

/// The paths to ask for on entering `stage`.
fn paths_for(source: Source, stage: Stage) -> (v: Vec<String>)
    ensures
        views(v@) == stage_paths(source, stage),
{
    match stage {
        Stage::AwaitPrices => strings2("$.[*].symbol", "$.[*].entryPrice"),
        Stage::AwaitBalances => match source {
            Source::BinanceUnified => strings3(
                "$.[*].asset",
                "$.[*].totalWalletBalance",
                "$.[*].umUnrealizedPNL",
            ),
            Source::BinanceSpot | Source::AsterSpot => strings3(
                "$.balances[*].asset",
                "$.balances[*].free",
                "$.balances[*].locked",
            ),
            Source::BinanceFeature | Source::AsterFeature => strings3(
                "$.[*].asset",
                "$.[*].balance",
                "$.[*].crossUnPnl",
            ),
        },
        Stage::AwaitUid | Stage::AwaitUpdateTime => match source {
            Source::BinanceSpot => strings1("$.uid"),
            Source::AsterSpot => strings1("$.updateTime"),
            _ => strings1("$.[*].accountAlias"),
        },
        _ => {
            let v: Vec<String> = Vec::new();
            assert(views(v@) =~= Seq::<Seq<char>>::empty());
            v
        },
    }
}

/// How a request is handled, from its URL and the number of the response
/// that answers it; or why it is refused.
pub open spec fn route(source: Source, url: Seq<char>, message: nat) -> Result<Stage, ZkErrorCode> {
    match source {
        Source::BinanceUnified => {
            if has_prefix(url, RISK_URL@) {
                if message % 2 != 0 {
                    Err(ZkErrorCode::InvalidRequestOrder)
                } else {
                    Ok(Stage::AwaitPrices)
                }
            } else if has_prefix(url, BALANCE_URL@) {
                Ok(Stage::AwaitBalances)
            } else {
                Err(ZkErrorCode::InvalidRequestUrl)
            }
        },
        Source::BinanceSpot => {
            if has_prefix(url, SPOT_BALANCE_URL@) {
                Ok(Stage::AwaitUid)
            } else {
                Err(ZkErrorCode::InvalidRequestUrl)
            }
        },
        Source::BinanceFeature => {
            if has_prefix(url, FEATURE_BALANCE_URL@) {
                Ok(Stage::AwaitUid)
            } else {
                Err(ZkErrorCode::InvalidRequestUrl)
            }
        },
        Source::AsterSpot => {
            if has_prefix(url, ASTER_SPOT_BALANCE_URL@) {
                Ok(Stage::AwaitUpdateTime)
            } else {
                Err(ZkErrorCode::InvalidRequestUrl)
            }
        },
        Source::AsterFeature => {
            if has_prefix(url, ASTER_FEATURE_BALANCE_URL@) {
                Ok(Stage::AwaitUid)
            } else {
                Err(ZkErrorCode::InvalidRequestUrl)
            }
        },
    }
}

/// A URL that the account's walk accepts: it starts with one of the account's
/// endpoints.
pub open spec fn url_allowed(source: Source, url: Seq<char>) -> bool {
    exists|k: int| 0 <= k < source_urls(source).len() && has_prefix(url, #[trigger] source_urls(source)[k])
}

fn route_of(source: Source, url: &str, message: usize) -> (r: Result<Stage, ZktlsError>)
    ensures
        match r {
            Ok(s) => route(source, url@, message as nat) == Ok::<Stage, ZkErrorCode>(s),
            Err(e) => {
                &&& route(source, url@, message as nat) == Err::<Stage, ZkErrorCode>(e.code_of())
                &&& e.message_of() == code_name(e.code_of())
            },
        },
{
    match source {
        Source::BinanceUnified => {
            if starts_with(url, RISK_URL) {
                if message % 2 != 0 {
                    Err(ZktlsError::of(ZkErrorCode::InvalidRequestOrder))
                } else {
                    Ok(Stage::AwaitPrices)
                }
            } else if starts_with(url, BALANCE_URL) {
                Ok(Stage::AwaitBalances)
            } else {
                Err(ZktlsError::of(ZkErrorCode::InvalidRequestUrl))
            }
        },
        Source::BinanceSpot => {
            if starts_with(url, SPOT_BALANCE_URL) {
                Ok(Stage::AwaitUid)
            } else {
                Err(ZktlsError::of(ZkErrorCode::InvalidRequestUrl))
            }
        },
        Source::BinanceFeature => {
            if starts_with(url, FEATURE_BALANCE_URL) {
                Ok(Stage::AwaitUid)
            } else {
                Err(ZktlsError::of(ZkErrorCode::InvalidRequestUrl))
            }
        },
        Source::AsterSpot => {
            if starts_with(url, ASTER_SPOT_BALANCE_URL) {
                Ok(Stage::AwaitUpdateTime)
            } else {
                Err(ZktlsError::of(ZkErrorCode::InvalidRequestUrl))
            }
        },
        Source::AsterFeature => {
            if starts_with(url, ASTER_FEATURE_BALANCE_URL) {
                Ok(Stage::AwaitUid)
            } else {
                Err(ZktlsError::of(ZkErrorCode::InvalidRequestUrl))
            }
        },
    }
}

/// The text of value `k` without surrounding double quotes.
pub open spec fn field_text(values: Seq<Seq<char>>, k: int) -> Seq<char> {
    trimmed_of(values[k], '"')
}

/// One item per position: the symbol in upper case, `:`, its entry price.
/// The values hold all symbols first, then all prices.
pub open spec fn price_items(values: Seq<Seq<char>>) -> Seq<Seq<char>> {
    let size = values.len() / 2;
    Seq::new(
        size,
        |j: int| ascii_upper(field_text(values, j)) + ":"@ + field_text(values, size + j),
    )
}

/// The items in the order of `str`, joined by commas.
pub open spec fn sorted_joined(items: Seq<Seq<char>>) -> Seq<char> {
    joined(items.sort_by(lex_le_rel()), ","@)
}

/// The balance rows of the values: the values hold all assets first, then
/// all first amounts, then all second amounts.
pub open spec fn balance_rows(values: Seq<Seq<char>>) -> Seq<(Seq<char>, Seq<char>, Seq<char>)> {
    let size = values.len() / 3;
    Seq::new(
        size,
        |j: int|
            (
                ascii_upper(field_text(values, j)),
                field_text(values, size + j),
                field_text(values, 2 * size + j),
            ),
    )
}

/// One item per balance row: asset, `:`, first amount, `:`, second amount.
pub open spec fn amount_items(assets: Seq<Seq<char>>, amounts: Seq<(Seq<char>, Seq<char>)>) -> Seq<
    Seq<char>,
> {
    Seq::new(
        assets.len(),
        |j: int| assets[j] + ":"@ + amounts[j].0 + ":"@ + amounts[j].1,
    )
}

fn field(values: &Vec<String>, k: usize) -> (r: String)
    requires
        k < values.len(),
    ensures
        r@ == field_text(views(values@), k as int),
{
    trim_char(values[k].as_str(), '"')
}

/// The key of a response's positions: its price items sorted and joined.
fn price_key(values: &Vec<String>) -> (r: String)
    requires
        values.len() % 2 == 0,
    ensures
        r@ == sorted_joined(price_items(views(values@))),
{
    let ghost vv = views(values@);
    let size = values.len() / 2;
    let mut items: Vec<String> = Vec::new();
    let mut j: usize = 0;
    while j < size
        invariant
            vv == views(values@),
            size == values.len() / 2,
            values.len() % 2 == 0,
            j <= size,
            views(items@) == price_items(vv).take(j as int),
        decreases size - j,
    {
        let asset = to_ascii_uppercase(field(values, j).as_str());
        let price = field(values, size + j);
        let item = concat_text(concat_text(asset.as_str(), ":").as_str(), price.as_str());
        let ghost prev = views(items@);
        items.push(item);
        assert(views(items@) =~= prev.push(item@));
        assert(price_items(vv).take(j + 1) =~= price_items(vv).take(j as int).push(
            price_items(vv)[j as int],
        ));
        j += 1;
    }
    assert(price_items(vv).take(size as int) =~= price_items(vv));
    let sorted = sort_strings(items);
    join(&sorted, ",")
}

/// The balance rows of a response.
fn balance_entries(values: &Vec<String>) -> (r: Vec<BalanceEntry>)
    requires
        values.len() % 3 == 0,
    ensures
        entry_views(r@) == balance_rows(views(values@)),
{
    let ghost vv = views(values@);
    let size = values.len() / 3;
    let mut rows: Vec<BalanceEntry> = Vec::new();
    let mut j: usize = 0;
    while j < size
        invariant
            vv == views(values@),
            size == values.len() / 3,
            values.len() % 3 == 0,
            j <= size,
            entry_views(rows@) == balance_rows(vv).take(j as int),
        decreases size - j,
    {
        let asset = to_ascii_uppercase(field(values, j).as_str());
        let first = field(values, size + j);
        let second = field(values, 2 * size + j);
        let entry = BalanceEntry { asset, first, second };
        let ghost prev = entry_views(rows@);
        rows.push(entry);
        assert(entry_views(rows@) =~= prev.push(entry_view(entry)));
        assert(balance_rows(vv).take(j + 1) =~= balance_rows(vv).take(j as int).push(
            balance_rows(vv)[j as int],
        ));
        j += 1;
    }
    assert(balance_rows(vv).take(size as int) =~= balance_rows(vv));
    rows
}

/// The amounts of the balance rows as text.
pub open spec fn amount_views(s: Seq<(String, String)>) -> Seq<(Seq<char>, Seq<char>)> {
    s.map_values(|p: (String, String)| (p.0@, p.1@))
}

/// The key of a response's balances: the update time, `:`, and the amount
/// items sorted and joined; `None` when that join is empty.
pub open spec fn amount_key(
    update_time: Seq<char>,
    assets: Seq<Seq<char>>,
    amounts: Seq<(Seq<char>, Seq<char>)>,
) -> Option<Seq<char>> {
    let j = sorted_joined(amount_items(assets, amounts));
    if j.len() > 0 {
        Some(update_time + ":"@ + j)
    } else {
        None
    }
}

fn amount_key_of(update_time: &String, assets: &Vec<String>, amounts: &Vec<(String, String)>) -> (r:
    Option<String>)
    requires
        assets.len() == amounts.len(),
    ensures
        match r {
            Some(k) => amount_key(update_time@, views(assets@), amount_views(amounts@)) == Some(
                k@,
            ),
            None => amount_key(update_time@, views(assets@), amount_views(amounts@)) is None,
        },
{
    let ghost av = views(assets@);
    let ghost mv = amount_views(amounts@);
    let mut items: Vec<String> = Vec::new();
    let mut j: usize = 0;
    while j < assets.len()
        invariant
            av == views(assets@),
            mv == amount_views(amounts@),
            assets.len() == amounts.len(),
            j <= assets.len(),
            views(items@) == amount_items(av, mv).take(j as int),
        decreases assets.len() - j,
    {
        let (first, second) = (&amounts[j].0, &amounts[j].1);
        let a = concat_text(assets[j].as_str(), ":");
        let b = concat_text(a.as_str(), first.as_str());
        let c = concat_text(b.as_str(), ":");
        let item = concat_text(c.as_str(), second.as_str());
        let ghost prev = views(items@);
        items.push(item);
        assert(views(items@) =~= prev.push(item@));
        assert(amount_items(av, mv).take(j + 1) =~= amount_items(av, mv).take(j as int).push(
            amount_items(av, mv)[j as int],
        ));
        j += 1;
    }
    assert(amount_items(av, mv).take(assets.len() as int) =~= amount_items(av, mv));
    let sorted = sort_strings(items);
    let all = join(&sorted, ",");
    if all.as_str().is_empty() {
        None
    } else {
        let t = concat_text(update_time.as_str(), ":");
        Some(concat_text(t.as_str(), all.as_str()))
    }
}

/// The smaller of two timestamps.
pub open spec fn earlier(a: u128, b: u128) -> u128 {
    if a <= b {
        a
    } else {
        b
    }
}

/// The timestamp of a request URL, or the largest timestamp if it has none.
pub open spec fn timestamp_or_max(url: Seq<char>) -> u128 {
    match request_timestamp(url) {
        Ok(t) => t,
        Err(_) => u128::MAX,
    }
}

/// The earliest timestamp of the requests `urls`; the largest timestamp if
/// there are none.
pub open spec fn earliest(urls: Seq<Seq<char>>) -> u128
    decreases urls.len(),
{
    if urls.len() == 0 {
        u128::MAX
    } else {
        earlier(earliest(urls.drop_last()), timestamp_or_max(urls.last()))
    }
}

/// The first `n` requests carry a timestamp and have a URL of the account.
pub open spec fn all_checked(source: Source, urls: Seq<Seq<char>>, n: nat) -> bool {
    forall|k: int|
        0 <= k < n ==> #[trigger] request_timestamp(urls[k]) is Ok && url_allowed(
            source,
            urls[k],
        )
}

/// Among the first `n` requests of a unified-margin account, those for
/// position risk stand at even positions.
pub open spec fn risk_at_even(source: Source, urls: Seq<Seq<char>>, n: nat) -> bool {
    source == Source::BinanceUnified ==> forall|k: int|
        0 <= k < n && has_prefix(#[trigger] urls[k], RISK_URL@) ==> k % 2 == 0
}

/// The walk as plain values.
pub struct ScanView {
    pub source: Source,
    /// Task id, report transaction hash and attestor of the attestation.
    pub header: (Seq<char>, Seq<char>, Seq<char>),
    /// The URLs of the requests.
    pub urls: Seq<Seq<char>>,
    /// The number of requests done with.
    pub next: nat,
    /// The number of the response to read from next.
    pub message: nat,
    pub stage: Stage,
    /// The earliest timestamp seen.
    pub timestamp: u128,
    /// The keys that identify the account, one per response that has one.
    pub keys: Seq<Seq<char>>,
    /// The update time of the current response.
    pub update_time: Seq<char>,
    /// The assets of the current response's balance rows.
    pub assets: Seq<Seq<char>>,
}

/// The number of requests whose timestamp and URL have been checked.
pub open spec fn checked_count(v: ScanView) -> nat {
    if v.stage == Stage::Idle || v.stage == Stage::Stopped {
        v.next
    } else {
        v.next + 1
    }
}

/// The number of requests whose timestamp has been read.
pub open spec fn timed_count(v: ScanView) -> nat {
    if v.stage == Stage::Idle {
        v.next
    } else {
        v.next + 1
    }
}

/// What holds of the walk at every step.
pub open spec fn scan_invariant(v: ScanView) -> bool {
    &&& v.next <= v.urls.len()
    &&& v.message <= v.next
    &&& (v.stage != Stage::Idle ==> v.next < v.urls.len())
    &&& (v.source != Source::BinanceFeature && v.source != Source::AsterFeature ==> v.message
        == v.next)
    &&& (v.stage == Stage::AwaitUid ==> v.source != Source::BinanceUnified && v.source
        != Source::AsterSpot)
    &&& all_checked(v.source, v.urls, checked_count(v))
    &&& v.timestamp == earliest(v.urls.take(timed_count(v) as int))
    &&& risk_at_even(v.source, v.urls, checked_count(v))
}

/// `v` done with its current request, ready for the next.
pub open spec fn advanced(v: ScanView) -> ScanView {
    ScanView { next: v.next + 1, message: v.message + 1, stage: Stage::Idle, ..v }
}

/// What the walk asks next, and its state afterwards. Between requests it
/// either finishes (an error if two keys are equal) or takes up the next
/// request: its timestamp, then its URL, then the first query for it. A
/// refused URL stops the walk with that request's timestamp already counted.
pub open spec fn next_outcome(v: ScanView) -> (ScanView, Result<Option<(nat, Seq<Seq<char>>)>, ZkErrorCode>) {
    match v.stage {
        Stage::Idle => {
            if v.next >= v.urls.len() {
                if has_repeat(v.keys) {
                    (v, Err(ZkErrorCode::DuplicateAccount))
                } else {
                    (v, Ok(None))
                }
            } else {
                let url = v.urls[v.next as int];
                match request_timestamp(url) {
                    Err(c) => (v, Err(c)),
                    Ok(t) => match route(v.source, url, v.message) {
                        Err(c) => (
                            ScanView { timestamp: earlier(v.timestamp, t), stage: Stage::Stopped, ..v },
                            Err(c),
                        ),
                        Ok(st) => (
                            ScanView { timestamp: earlier(v.timestamp, t), stage: st, ..v },
                            Ok(Some((v.message, stage_paths(v.source, st)))),
                        ),
                    },
                }
            }
        },
        Stage::NeedBalances => (
            ScanView { stage: Stage::AwaitBalances, ..v },
            Ok(Some((v.message, balance_paths(v.source)))),
        ),
        _ => (v, Ok(None)),
    }
}

/// What the walk does with the values a query returned, and the balance rows
/// it hands back.
pub open spec fn take_outcome(v: ScanView, values: Seq<Seq<char>>) -> (
    ScanView,
    Result<Seq<(Seq<char>, Seq<char>, Seq<char>)>, ZkErrorCode>,
) {
    match v.stage {
        Stage::AwaitPrices => {
            if values.len() % 2 != 0 {
                (v, Err(ZkErrorCode::InvalidJsonValueSize))
            } else {
                let key = sorted_joined(price_items(values));
                let keys = if key.len() > 0 {
                    v.keys.push(key)
                } else {
                    v.keys
                };
                (advanced(ScanView { keys, ..v }), Ok(Seq::empty()))
            }
        },
        Stage::AwaitBalances => {
            if values.len() % 3 != 0 {
                (v, Err(ZkErrorCode::InvalidJsonValueSize))
            } else {
                let rows = balance_rows(values);
                if v.source == Source::AsterSpot {
                    (
                        ScanView {
                            stage: Stage::AwaitAmounts,
                            assets: rows.map_values(
                                |r: (Seq<char>, Seq<char>, Seq<char>)| r.0,
                            ),
                            ..v
                        },
                        Ok(rows),
                    )
                } else {
                    (advanced(v), Ok(rows))
                }
            }
        },
        Stage::AwaitUid => {
            if v.source == Source::BinanceSpot {
                if values.len() != 1 {
                    (v, Err(ZkErrorCode::InvalidJsonValueSize))
                } else {
                    (
                        ScanView {
                            keys: v.keys.push(field_text(values, 0)),
                            stage: Stage::NeedBalances,
                            ..v
                        },
                        Ok(Seq::empty()),
                    )
                }
            } else if values.len() == 0 {
                (ScanView { next: v.next + 1, stage: Stage::Idle, ..v }, Ok(Seq::empty()))
            } else {
                (
                    ScanView {
                        keys: v.keys.push(field_text(values, 0)),
                        stage: Stage::NeedBalances,
                        ..v
                    },
                    Ok(Seq::empty()),
                )
            }
        },
        Stage::AwaitUpdateTime => {
            if values.len() != 1 {
                (v, Err(ZkErrorCode::InvalidJsonValueSize))
            } else {
                (
                    ScanView {
                        update_time: field_text(values, 0),
                        stage: Stage::NeedBalances,
                        ..v
                    },
                    Ok(Seq::empty()),
                )
            }
        },
        _ => (v, Ok(Seq::empty())),
    }
}

/// The walk after the amounts of the current balance rows are known, written
/// as numbers: the key they make is kept and the request is done.
pub open spec fn amounts_outcome(v: ScanView, amounts: Seq<(Seq<char>, Seq<char>)>) -> ScanView {
    let keys = match amount_key(v.update_time, v.assets, amounts) {
        Some(k) => v.keys.push(k),
        None => v.keys,
    };
    advanced(ScanView { keys, ..v })
}

/// Why a walk cannot start: the request count is odd where requests come in
/// pairs, or differs from the response count.
pub open spec fn start_outcome(source: Source, request_count: nat, message_count: nat) -> Result<
    (),
    ZkErrorCode,
> {
    if source == Source::BinanceUnified && request_count % 2 != 0 {
        Err(ZkErrorCode::InvalidRequestLength)
    } else if request_count != message_count {
        Err(ZkErrorCode::InvalidMessagesLength)
    } else {
        Ok(())
    }
}

/// A request that `route` accepts has a URL of the account.
pub proof fn lemma_route_allowed(source: Source, url: Seq<char>, message: nat)
    requires
        route(source, url, message) is Ok,
    ensures
        url_allowed(source, url),
        source == Source::BinanceUnified && has_prefix(url, RISK_URL@) ==> message % 2 == 0,
{
    let us = source_urls(source);
    match source {
        Source::BinanceUnified => {
            if has_prefix(url, RISK_URL@) {
                assert(has_prefix(url, us[0]));
            } else {
                assert(has_prefix(url, us[1]));
            }
        },
        _ => {
            assert(has_prefix(url, us[0]));
        },
    }
}

/// The earliest timestamp of one more request.
proof fn lemma_earliest_step(urls: Seq<Seq<char>>, n: int)
    requires
        0 <= n < urls.len(),
    ensures
        earliest(urls.take(n + 1)) == earlier(
            earliest(urls.take(n)),
            timestamp_or_max(urls[n]),
        ),
{
    assert(urls.take(n + 1).drop_last() =~= urls.take(n));
    assert(urls.take(n + 1).last() == urls[n]);
}

/// The walk over the requests of one attestation.
pub struct Scan {
    source: Source,
    task_id: String,
    report_tx_hash: String,
    attestor: String,
    urls: Vec<String>,
    next: usize,
    message: usize,
    stage: Stage,
    timestamp: u128,
    keys: Vec<String>,
    update_time: String,
    assets: Vec<String>,
}

impl View for Scan {
    type V = ScanView;

    closed spec fn view(&self) -> ScanView {
        ScanView {
            source: self.source,
            header: (self.task_id@, self.report_tx_hash@, self.attestor@),
            urls: views(self.urls@),
            next: self.next as nat,
            message: self.message as nat,
            stage: self.stage,
            timestamp: self.timestamp,
            keys: views(self.keys@),
            update_time: self.update_time@,
            assets: views(self.assets@),
        }
    }
}

impl Scan {
    /// The walk is in a state it can reach.
    pub closed spec fn wf(&self) -> bool {
        scan_invariant(self@)
    }

    /// Starts the walk over `urls`, the requests of an attestation of
    /// `source` with `message_count` responses.
    pub fn start(
        source: Source,
        header: AttestationHeader,
        urls: Vec<String>,
        message_count: usize,
    ) -> (r: Result<Scan, ZktlsError>)
        ensures
            match r {
                Ok(s) => {
                    &&& start_outcome(source, urls.len() as nat, message_count as nat) is Ok
                    &&& s.wf()
                    &&& s@ == (ScanView {
                        source,
                        header: (header.task_id@, header.report_tx_hash@, header.attestor@),
                        urls: views(urls@),
                        next: 0,
                        message: 0,
                        stage: Stage::Idle,
                        timestamp: u128::MAX,
                        keys: Seq::empty(),
                        update_time: Seq::empty(),
                        assets: Seq::empty(),
                    })
                },
                Err(e) => {
                    &&& start_outcome(source, urls.len() as nat, message_count as nat) == Err::<
                        (),
                        ZkErrorCode,
                    >(e.code_of())
                    &&& e.message_of() == code_name(e.code_of())
                },
            },
    {
        if source == Source::BinanceUnified && urls.len() % 2 != 0 {
            return Err(ZktlsError::of(ZkErrorCode::InvalidRequestLength));
        }
        if urls.len() != message_count {
            return Err(ZktlsError::of(ZkErrorCode::InvalidMessagesLength));
        }
        let s = Scan {
            source,
            task_id: header.task_id,
            report_tx_hash: header.report_tx_hash,
            attestor: header.attestor,
            urls,
            next: 0,
            message: 0,
            stage: Stage::Idle,
            timestamp: u128::MAX,
            keys: Vec::new(),
            update_time: String::new(),
            assets: Vec::new(),
        };
        proof {
            assert(s@.urls.take(0) =~= Seq::<Seq<char>>::empty());
            assert(s@.keys =~= Seq::<Seq<char>>::empty());
            assert(s@.assets =~= Seq::<Seq<char>>::empty());
        }
        Ok(s)
    }

    /// Where the walk stands within the current request.
    pub fn stage(&self) -> (s: Stage)
        ensures
            s == self@.stage,
    {
        self.stage
    }

    /// What to do next: read values from a response, or nothing more.
    pub fn next_action(&mut self) -> (r: Result<Action, ZktlsError>)
        requires
            old(self).wf(),
            old(self)@.stage == Stage::Idle || old(self)@.stage == Stage::NeedBalances,
        ensures
            final(self).wf(),
            match r {
                Ok(a) => next_outcome(old(self)@) == (
                    final(self)@,
                    Ok::<_, ZkErrorCode>(action_view(a)),
                ),
                Err(e) => {
                    &&& next_outcome(old(self)@) == (
                        final(self)@,
                        Err::<Option<(nat, Seq<Seq<char>>)>, _>(e.code_of()),
                    )
                    &&& e.message_of() == code_name(e.code_of())
                },
            },
    {
        if self.stage == Stage::NeedBalances {
            self.stage = Stage::AwaitBalances;
            let paths = paths_for(self.source, Stage::AwaitBalances);
            return Ok(Action::Query { message: self.message, paths });
        }
        if self.next >= self.urls.len() {
            if has_duplicate(&self.keys) {
                return Err(ZktlsError::of(ZkErrorCode::DuplicateAccount));
            }
            return Ok(Action::Finished);
        }
        let t = match timestamp_of(self.urls[self.next].as_str()) {
            Ok(t) => t,
            Err(e) => {
                return Err(e);
            },
        };
        proof {
            let v = old(self)@;
            lemma_earliest_step(v.urls, v.next as int);
        }
        self.timestamp = if t < self.timestamp {
            t
        } else {
            self.timestamp
        };
        let stage = match route_of(self.source, self.urls[self.next].as_str(), self.message) {
            Ok(s) => s,
            Err(e) => {
                self.stage = Stage::Stopped;
                return Err(e);
            },
        };
        proof {
            let v = old(self)@;
            let n = v.next as int;
            lemma_route_allowed(v.source, v.urls[n], v.message);
            assert(request_timestamp(v.urls[n]) is Ok);
        }
        self.stage = stage;
        let paths = paths_for(self.source, stage);
        Ok(Action::Query { message: self.message, paths })
    }

    /// Takes the values read for the current query; hands back the balance
    /// rows they hold, if they are balance values.
    pub fn take_values(&mut self, values: Vec<String>) -> (r: Result<Vec<BalanceEntry>, ZktlsError>)
        requires
            old(self).wf(),
            old(self)@.stage == Stage::AwaitPrices || old(self)@.stage == Stage::AwaitBalances
                || old(self)@.stage == Stage::AwaitUid || old(self)@.stage
                == Stage::AwaitUpdateTime,
        ensures
            final(self).wf(),
            match r {
                Ok(rows) => take_outcome(old(self)@, views(values@)) == (
                    final(self)@,
                    Ok::<_, ZkErrorCode>(entry_views(rows@)),
                ),
                Err(e) => {
                    &&& take_outcome(old(self)@, views(values@)).1 == Err::<
                        Seq<(Seq<char>, Seq<char>, Seq<char>)>,
                        _,
                    >(e.code_of())
                    &&& e.message_of() == code_name(e.code_of())
                    &&& final(self)@ == old(self)@
                },
            },
    {
        let ghost vv = views(values@);
        let ghost v = old(self)@;
        proof {
            assert(v.urls.take((v.next + 1) as int) =~= v.urls.take(timed_count(v) as int));
            assert(v.urls.len() == self.urls@.len());
            assert(self.next < self.urls.len());
        }
        match self.stage {
            Stage::AwaitPrices => {
                if values.len() % 2 != 0 {
                    return Err(ZktlsError::of(ZkErrorCode::InvalidJsonValueSize));
                }
                let key = price_key(&values);
                if !key.as_str().is_empty() {
                    self.keys.push(key);
                    assert(views(self.keys@) =~= v.keys.push(key@));
                }
                self.next = self.next + 1;
                self.message = self.message + 1;
                self.stage = Stage::Idle;
                let rows: Vec<BalanceEntry> = Vec::new();
                assert(entry_views(rows@) =~= Seq::empty());
                Ok(rows)
            },
            Stage::AwaitBalances => {
                if values.len() % 3 != 0 {
                    return Err(ZktlsError::of(ZkErrorCode::InvalidJsonValueSize));
                }
                let rows = balance_entries(&values);
                if self.source == Source::AsterSpot {
                    let mut assets: Vec<String> = Vec::new();
                    let mut j: usize = 0;
                    while j < rows.len()
                        invariant
                            j <= rows.len(),
                            views(assets@) == entry_views(rows@).take(j as int).map_values(
                                |r: (Seq<char>, Seq<char>, Seq<char>)| r.0,
                            ),
                        decreases rows.len() - j,
                    {
                        let ghost prev = views(assets@);
                        assets.push(rows[j].asset.clone());
                        assert(views(assets@) =~= prev.push(rows@[j as int].asset@));
                        assert(entry_views(rows@).take(j + 1) =~= entry_views(rows@).take(
                            j as int,
                        ).push(entry_view(rows@[j as int])));
                        j += 1;
                    }
                    assert(entry_views(rows@).take(rows.len() as int) =~= entry_views(rows@));
                    self.assets = assets;
                    self.stage = Stage::AwaitAmounts;
                } else {
                    self.next = self.next + 1;
                    self.message = self.message + 1;
                    self.stage = Stage::Idle;
                }
                Ok(rows)
            },
            Stage::AwaitUid => {
                if self.source == Source::BinanceSpot {
                    if values.len() != 1 {
                        return Err(ZktlsError::of(ZkErrorCode::InvalidJsonValueSize));
                    }
                    let f = field(&values, 0);
                    self.keys.push(f);
                    assert(views(self.keys@) =~= v.keys.push(f@));
                    self.stage = Stage::NeedBalances;
                } else if values.len() == 0 {
                    self.next = self.next + 1;
                    self.stage = Stage::Idle;
                } else {
                    let f = field(&values, 0);
                    self.keys.push(f);
                    assert(views(self.keys@) =~= v.keys.push(f@));
                    self.stage = Stage::NeedBalances;
                }
                let rows: Vec<BalanceEntry> = Vec::new();
                assert(entry_views(rows@) =~= Seq::empty());
                Ok(rows)
            },
            _ => {
                if values.len() != 1 {
                    return Err(ZktlsError::of(ZkErrorCode::InvalidJsonValueSize));
                }
                self.update_time = field(&values, 0);
                self.stage = Stage::NeedBalances;
                let rows: Vec<BalanceEntry> = Vec::new();
                assert(entry_views(rows@) =~= Seq::empty());
                Ok(rows)
            },
        }
    }

    /// Takes the amounts of the current balance rows, written as numbers, and
    /// finishes the current request with the key they make.
    pub fn take_amounts(&mut self, amounts: Vec<(String, String)>)
        requires
            old(self).wf(),
            old(self)@.stage == Stage::AwaitAmounts,
            amounts.len() == old(self)@.assets.len(),
        ensures
            final(self).wf(),
            final(self)@ == amounts_outcome(old(self)@, amount_views(amounts@)),
    {
        let ghost v = old(self)@;
        proof {
            assert(v.urls.take((v.next + 1) as int) =~= v.urls.take(timed_count(v) as int));
            assert(v.urls.len() == self.urls@.len());
            assert(self.next < self.urls.len());
        }
        match amount_key_of(&self.update_time, &self.assets, &amounts) {
            Some(k) => {
                self.keys.push(k);
                assert(views(self.keys@) =~= v.keys.push(k@));
            },
            None => {},
        }
        self.next = self.next + 1;
        self.message = self.message + 1;
        self.stage = Stage::Idle;
    }

    /// The record as it stands: the attestation's task, report transaction,
    /// attestor and endpoints, and the earliest timestamp read so far. Taken
    /// after a failed step, it is what the failed check leaves behind.
    pub fn record(&self) -> (m: AttestationMetaStruct)
        ensures
            (m.task_id@, m.report_tx_hash@, m.attestor@) == self@.header,
            views(m.base_urls@) == source_urls(self@.source),
            m.timestamp == self@.timestamp,
            self.wf() ==> m.timestamp == earliest(self@.urls.take(timed_count(self@) as int)),
    {
        AttestationMetaStruct {
            task_id: self.task_id.clone(),
            report_tx_hash: self.report_tx_hash.clone(),
            attestor: self.attestor.clone(),
            base_urls: base_urls(self.source),
            timestamp: self.timestamp,
        }
    }

    /// The walk has checked every request and found no two equal keys.
    pub open spec fn finished(&self) -> bool {
        &&& self@.stage == Stage::Idle
        &&& self@.next == self@.urls.len()
        &&& !has_repeat(self@.keys)
    }

    /// What a finished walk establishes: the attestation's task, report
    /// transaction, attestor and endpoints, and the earliest timestamp among
    /// its requests. Every request carried a timestamp and a URL of the
    /// account, and position-risk requests stood at even positions.
    pub fn finish(self) -> (m: AttestationMetaStruct)
        requires
            self.wf(),
            self.finished(),
        ensures
            (m.task_id@, m.report_tx_hash@, m.attestor@) == self@.header,
            views(m.base_urls@) == source_urls(self@.source),
            m.timestamp == earliest(self@.urls),
            all_checked(self@.source, self@.urls, self@.urls.len()),
            risk_at_even(self@.source, self@.urls, self@.urls.len()),
    {
        proof {
            assert(self@.urls.take(self@.urls.len() as int) =~= self@.urls);
        }
        AttestationMetaStruct {
            task_id: self.task_id,
            report_tx_hash: self.report_tx_hash,
            attestor: self.attestor,
            base_urls: base_urls(self.source),
            timestamp: self.timestamp,
        }
    }
}

} // verus!
