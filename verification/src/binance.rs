//! Binance Simple Earn responses: the records they hold, and helpers over them.
use vstd::prelude::*;

use crate::numeric::{div_toward_zero, is_numeral, is_numeral_chars, numeral_lt, numeral_value, parse_i64, parsed_i64};
use crate::order::{lemma_lex_asymmetric, lemma_lex_irreflexive, lemma_lex_le_total_ordering, lex_le_rel, lex_lt, text_lt};
use crate::text::{chars_of, trim, trimmed};

verus! {

/// The parsed responses, each one present if it was fetched.
pub struct BinanceData {
    pub purchases: Option<ApiResponse<Vec<PurchaseRecord>>>,
    pub redeems: Option<ApiResponse<Vec<RedeemRecord>>>,
    pub assets: Option<ApiResponse<AssetData>>,
}

/// The envelope of a Binance API response; `data` varies by endpoint.
pub struct ApiResponse<T> {
    pub code: String,
    pub message: Option<String>,
    pub message_detail: Option<String>,
    pub data: T,
    pub success: bool,
}

/// A Simple Earn position.
pub struct PositionInfo {
    pub user_id: String,
    pub asset: String,
    pub token: String,
    pub product_id: String,
    pub product_name: String,
    pub apr: String,
    pub daily_interest_rate: Option<String>,
    pub annual_interest_rate: String,
    pub avg_annual_interest_rate: Option<String>,
    pub market_apr: String,
    pub exchange_rate: String,
    pub token_amount: String,
    pub total_amount: String,
    pub experience_coupon_total_interest: Option<String>,
    pub locked_amount: String,
    pub free_amount: String,
    pub freeze_amount: String,
    pub total_interest: String,
    pub expected_interest: Option<String>,
    pub can_redeem: bool,
    pub redeeming_amount: String,
    pub redeeming_record_list: Option<Vec<String>>,
}

/// The asset overview.
pub struct AssetData {
    pub assets: Vec<String>,
    pub asset_details: Vec<AssetDetail>,
    pub product_details: Vec<ProductDetail>,
}

/// One asset of the overview.
pub struct AssetDetail {
    pub asset: String,
    pub asset2: Option<String>,
    pub amount: String,
    pub amount_in_btc: String,
    pub amount_in_usd: String,
    pub kind: String,
    pub pd_trade_deadline: Option<String>,
    pub pd_deposit_deadline: Option<String>,
    pub pd_announce_url: Option<String>,
    pub is_phase_out: bool,
    pub percentage: String,
}

/// One product line of the overview.
pub struct ProductDetail {
    pub business_type: String,
    pub amount_in_btc: String,
    pub amount_in_usd: String,
    pub percentage: String,
}

/// A redemption.
pub struct RedeemRecord {
    pub user_id: String,
    pub project_id: String,
    pub lot: Option<String>,
    /// Milliseconds since the epoch, as text.
    pub create_timestamp: String,
    pub amount: String,
    pub principal: String,
    pub interest: Option<String>,
    pub payed_principal: Option<String>,
    pub payed_interest: Option<String>,
    pub start_time: Option<String>,
    pub asset: String,
    pub project_name: String,
    pub status: String,
    pub lending_type: String,
    pub kind: String,
    pub client_redeem_id: Option<String>,
    pub deliver_date: Option<String>,
    pub id: String,
    pub currency_target: String,
}

/// A purchase.
pub struct PurchaseRecord {
    pub id: String,
    /// Milliseconds since the epoch, as text.
    pub create_timestamp: String,
    pub product_name: String,
    pub product_id: String,
    pub user_id: String,
    pub asset: String,
    pub lot: String,
    pub amount: String,
    pub start_time: Option<String>,
    pub status: String,
    pub lending_type: String,
    pub kind: String,
    pub client_purchase_id: Option<String>,
    pub currency_source: String,
    pub currency_source_detail: Option<String>,
}

/// The seconds of a millisecond timestamp given as text: the text, trimmed,
/// read as an `i64`, divided by 1000 toward zero.
pub open spec fn ms_text_to_secs(ms: Seq<char>) -> Option<i64> {
    match parsed_i64(trimmed(ms)) {
        Some(v) => Some(div_toward_zero(v as int, 1000) as i64),
        None => None,
    }
}

/// Converts a millisecond timestamp string to seconds; `None` if it is not
/// an integer.
pub fn ts_ms_to_secs(ms_str: &str) -> (r: Option<i64>)
    ensures
        r == ms_text_to_secs(ms_str@),
{
    let t = trim(ms_str);
    let chars = chars_of(t.as_str());
    match parse_i64(&chars) {
        Some(ms) => Some(ms / 1000),
        None => None,
    }
}

/// A timestamp text that is, once trimmed, a run of decimal digits.
pub open spec fn digit_time(t: Seq<char>) -> bool {
    is_numeral(trimmed(t))
}

/// Timestamp `a` comes strictly before timestamp `b`: two digit runs by the
/// number they write, however large; a text that is not a digit run before
/// every one that is; two such texts in the order of `str`.
pub open spec fn time_lt(a: Seq<char>, b: Seq<char>) -> bool {
    if digit_time(a) && digit_time(b) {
        numeral_value(trimmed(a)) < numeral_value(trimmed(b))
    } else if digit_time(a) || digit_time(b) {
        digit_time(b)
    } else {
        lex_lt(a, b)
    }
}

/// No timestamp comes strictly before itself, no two each come before the
/// other, and when `x` is not after `y` nor `y` after `z`, `x` is not after
/// `z`.
pub proof fn lemma_time_order(x: Seq<char>, y: Seq<char>, z: Seq<char>)
    ensures
        !time_lt(x, x),
        time_lt(x, y) ==> !time_lt(y, x),
        !time_lt(y, x) && !time_lt(z, y) ==> !time_lt(z, x),
{
    lemma_lex_irreflexive(x);
    lemma_lex_asymmetric(x, y);
    lemma_lex_le_total_ordering();
    let r = lex_le_rel();
    if !digit_time(x) && !digit_time(y) && !digit_time(z) {
        if !lex_lt(y, x) && !lex_lt(z, y) {
            assert(r(x, y) && r(y, z));
            assert(r(x, z));
        }
    }
}

/// `i` is the position of the latest timestamp: none comes after it, and every
/// one after position `i` comes strictly before it (of equal latest
/// timestamps, the last one counts).
pub open spec fn is_latest(times: Seq<Seq<char>>, i: int) -> bool {
    &&& 0 <= i < times.len()
    &&& forall|j: int| 0 <= j < times.len() ==> !time_lt(times[i], #[trigger] times[j])
    &&& forall|j: int| i < j < times.len() ==> time_lt(#[trigger] times[j], times[i])
}

/// There is at most one latest position.
pub proof fn lemma_latest_unique(times: Seq<Seq<char>>, i: int, k: int)
    requires
        is_latest(times, i),
        is_latest(times, k),
    ensures
        i == k,
{
    if i < k {
        assert(time_lt(times[k], times[i]));
        assert(!time_lt(times[k], times[i]));
    } else if k < i {
        assert(time_lt(times[i], times[k]));
        assert(!time_lt(times[i], times[k]));
    }
}

/// The creation timestamps of purchases.
pub open spec fn purchase_times(list: Seq<PurchaseRecord>) -> Seq<Seq<char>> {
    list.map_values(|r: PurchaseRecord| r.create_timestamp@)
}

/// The creation timestamps of redemptions.
pub open spec fn redeem_times(list: Seq<RedeemRecord>) -> Seq<Seq<char>> {
    list.map_values(|r: RedeemRecord| r.create_timestamp@)
}

/// Whether timestamp `a` comes strictly before timestamp `b`.
pub fn time_before(a: &str, b: &str) -> (r: bool)
    ensures
        r == time_lt(a@, b@),
{
    let ta = trim(a);
    let tb = trim(b);
    let da = chars_of(ta.as_str());
    let db = chars_of(tb.as_str());
    let na = is_numeral_chars(&da);
    let nb = is_numeral_chars(&db);
    if na && nb {
        numeral_lt(&da, &db)
    } else if na || nb {
        nb
    } else {
        text_lt(a, b)
    }
}

/// Keeping the best position so far when one more timestamp arrives.
proof fn lemma_latest_step(times: Seq<Seq<char>>, best: int, j: int, take_new: bool)
    requires
        0 <= best < j < times.len(),
        forall|k: int| 0 <= k < j ==> !time_lt(times[best], #[trigger] times[k]),
        forall|k: int| best < k < j ==> time_lt(#[trigger] times[k], times[best]),
        take_new == !time_lt(times[j], times[best]),
    ensures
        ({
            let nb = if take_new {
                j
            } else {
                best
            };
            &&& forall|k: int| 0 <= k < j + 1 ==> !time_lt(times[nb], #[trigger] times[k])
            &&& forall|k: int| nb < k < j + 1 ==> time_lt(#[trigger] times[k], times[nb])
        }),
{
    if take_new {
        assert forall|k: int| 0 <= k < j + 1 implies !time_lt(times[j], #[trigger] times[k]) by {
            lemma_time_order(times[k], times[best], times[j]);
        }
    } else {
        lemma_time_order(times[j], times[best], times[j]);
    }
}

/// The position of the latest of `times`.
fn latest_index(times: &Vec<&str>) -> (r: usize)
    requires
        times.len() > 0,
    ensures
        is_latest(times@.map_values(|t: &str| t@), r as int),
{
    let ghost ts = times@.map_values(|t: &str| t@);
    let mut best: usize = 0;
    let mut j: usize = 1;
    proof {
        lemma_time_order(ts[0], ts[0], ts[0]);
    }
    while j < times.len()
        invariant
            ts == times@.map_values(|t: &str| t@),
            0 <= best < j <= times.len(),
            forall|k: int| 0 <= k < j ==> !time_lt(ts[best as int], #[trigger] ts[k]),
            forall|k: int| best < k < j ==> time_lt(#[trigger] ts[k], ts[best as int]),
        decreases times.len() - j,
    {
        let take_new = !time_before(times[j], times[best]);
        proof {
            lemma_latest_step(ts, best as int, j as int, take_new);
        }
        if take_new {
            best = j;
        }
        j += 1;
    }
    best
}

/// Gets the latest purchase record (by timestamp): the one whose creation time
/// is largest, of equal times the last. Timestamps that are digit runs compare
/// by the number they write; any other text comes before them, and such texts
/// compare among themselves as strings.
pub fn latest_purchase<'a>(list: &'a [PurchaseRecord]) -> (r: Option<&'a PurchaseRecord>)
    ensures
        match r {
            None => list@.len() == 0,
            Some(p) => exists|i: int| is_latest(purchase_times(list@), i) && *p == list@[i],
        },
{
    if list.len() == 0 {
        return None;
    }
    let mut times: Vec<&str> = Vec::new();
    let mut j: usize = 0;
    while j < list.len()
        invariant
            j <= list@.len(),
            times@.len() == j,
            forall|k: int| 0 <= k < j ==> #[trigger] times@[k]@ == list@[k].create_timestamp@,
        decreases list@.len() - j,
    {
        times.push(list[j].create_timestamp.as_str());
        j += 1;
    }
    let best = latest_index(&times);
    assert(times@.map_values(|t: &str| t@) =~= purchase_times(list@));
    Some(&list[best])
}

/// Gets the latest redeem record (by timestamp): the one whose creation time is
/// largest, of equal times the last. Timestamps that are digit runs compare by
/// the number they write; any other text comes before them, and such texts
/// compare among themselves as strings.
pub fn latest_redeem<'a>(list: &'a [RedeemRecord]) -> (r: Option<&'a RedeemRecord>)
    ensures
        match r {
            None => list@.len() == 0,
            Some(p) => exists|i: int| is_latest(redeem_times(list@), i) && *p == list@[i],
        },
{
    if list.len() == 0 {
        return None;
    }
    let mut times: Vec<&str> = Vec::new();
    let mut j: usize = 0;
    while j < list.len()
        invariant
            j <= list@.len(),
            times@.len() == j,
            forall|k: int| 0 <= k < j ==> #[trigger] times@[k]@ == list@[k].create_timestamp@,
        decreases list@.len() - j,
    {
        times.push(list[j].create_timestamp.as_str());
        j += 1;
    }
    let best = latest_index(&times);
    assert(times@.map_values(|t: &str| t@) =~= redeem_times(list@));
    Some(&list[best])
}

} // verus!
