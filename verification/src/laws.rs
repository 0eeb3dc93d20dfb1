//! Properties that hold across the library's functions.
use vstd::prelude::*;

use crate::errors::{code_number, ZkErrorCode};
use crate::numeric::{
    all_digits, decimal_digits, decimal_i16, digit_char, digit_value, is_digit, is_numeral,
    numeral_value, parsed_i64,
};
use crate::order::{lemma_lex_le_total_ordering, lex_le_rel};
use crate::scan::{
    amount_items, earlier, earliest, next_outcome, scan_invariant, sorted_joined,
    timestamp_or_max, ScanView,
};
use crate::attestation::{header_outcome, known_attestors, request_timestamp, stable_coins, Source};
use crate::json::{json_accepts, json_member_text, json_nested_str};
use crate::order::has_repeat;
use crate::plan::plan_outcome;
use crate::scan::{route, stage_paths, Stage};
use crate::text::{ascii_lower, ascii_upper, has_prefix, lower_char, upper_char};

verus! {

/// Different error codes have different numbers, all between 1001 and 1019.
pub proof fn lemma_code_numbers_distinct(a: ZkErrorCode, b: ZkErrorCode)
    ensures
        1001 <= code_number(a) <= 1019,
        a != b ==> code_number(a) != code_number(b),
{
}

/// No request of `urls` that carries a timestamp is earlier than
/// `earliest(urls)`.
pub proof fn lemma_earliest_is_lower_bound(urls: Seq<Seq<char>>, k: int)
    requires
        0 <= k < urls.len(),
        request_timestamp(urls[k]) is Ok,
    ensures
        earliest(urls) <= timestamp_or_max(urls[k]),
    decreases urls.len(),
{
    if k < urls.len() - 1 {
        assert(urls.drop_last()[k] == urls[k]);
        lemma_earliest_is_lower_bound(urls.drop_last(), k);
    }
}

/// When every request of a non-empty `urls` carries a timestamp,
/// `earliest(urls)` is the timestamp of one of them.
pub proof fn lemma_earliest_is_attained(urls: Seq<Seq<char>>)
    requires
        urls.len() > 0,
        forall|k: int| 0 <= k < urls.len() ==> #[trigger] request_timestamp(urls[k]) is Ok,
    ensures
        exists|k: int| 0 <= k < urls.len() && earliest(urls) == timestamp_or_max(urls[k]),
    decreases urls.len(),
{
    let n = urls.len() - 1;
    if n == 0 {
        assert(earliest(urls.drop_last()) == u128::MAX);
        assert(earliest(urls) == timestamp_or_max(urls[0]));
    } else {
        let rest = urls.drop_last();
        assert forall|k: int| 0 <= k < rest.len() implies #[trigger] request_timestamp(
            rest[k],
        ) is Ok by {
            assert(rest[k] == urls[k]);
            assert(request_timestamp(urls[k]) is Ok);
        }
        lemma_earliest_is_attained(rest);
        let k = choose|k: int| 0 <= k < rest.len() && earliest(rest) == timestamp_or_max(rest[k]);
        assert(rest[k] == urls[k]);
        if earliest(rest) <= timestamp_or_max(urls.last()) {
            assert(earliest(urls) == timestamp_or_max(urls[k]));
        } else {
            assert(earliest(urls) == timestamp_or_max(urls[n]));
        }
    }
}

/// The key made of sorted, joined items does not depend on the order in
/// which the items came: the same items in any order give the same key.
pub proof fn lemma_sorted_joined_order_free(a: Seq<Seq<char>>, b: Seq<Seq<char>>)
    requires
        a.to_multiset() == b.to_multiset(),
    ensures
        sorted_joined(a) == sorted_joined(b),
{
    let rel = lex_le_rel();
    lemma_lex_le_total_ordering();
    a.lemma_sort_by_ensures(rel);
    b.lemma_sort_by_ensures(rel);
    vstd::seq_lib::lemma_sorted_unique(a.sort_by(rel), b.sort_by(rel), rel);
}

/// The balance key of an account does not depend on the order of its
/// balance rows.
pub proof fn lemma_amount_key_order_free(
    a: Seq<Seq<char>>,
    x: Seq<(Seq<char>, Seq<char>)>,
    b: Seq<Seq<char>>,
    y: Seq<(Seq<char>, Seq<char>)>,
)
    requires
        a.len() == x.len(),
        b.len() == y.len(),
        amount_items(a, x).to_multiset() == amount_items(b, y).to_multiset(),
    ensures
        sorted_joined(amount_items(a, x)) == sorted_joined(amount_items(b, y)),
{
    lemma_sorted_joined_order_free(amount_items(a, x), amount_items(b, y));
}

/// A walk never asks for a response beyond the last request: the response
/// it names is one of those the attestation holds.
pub proof fn lemma_query_in_range(v: ScanView)
    requires
        scan_invariant(v),
        next_outcome(v).1 matches Ok(Some(q)),
    ensures
        ({
            let q = next_outcome(v).1->Ok_0->Some_0;
            q.0 < v.urls.len()
        }),
{
}

/// Checking the attestor in lower case ignores case: an address and its
/// upper-case form are judged alike.
pub proof fn lemma_lower_ignores_case(s: Seq<char>)
    ensures
        ascii_lower(ascii_upper(s)) == ascii_lower(s),
{
    assert forall|i: int| 0 <= i < s.len() implies lower_char(upper_char(s[i])) == lower_char(
        s[i],
    ) by {
        let c = s[i];
        if 'a' <= c && c <= 'z' {
            assert(upper_char(c) as int == c as int - 32);
        }
    }
    assert(ascii_lower(ascii_upper(s)) =~= ascii_lower(s));
}

/// The decimal numeral of `n` is a numeral worth `n`, led by a digit.
pub proof fn lemma_decimal_digits_value(n: nat)
    ensures
        is_numeral(decimal_digits(n)),
        numeral_value(decimal_digits(n)) == n,
        is_digit(decimal_digits(n)[0]),
    decreases n,
{
    let d = decimal_digits(n);
    if n < 10 {
        assert(d.drop_last() =~= Seq::<char>::empty());
        assert(d.last() == digit_char(n));
        assert(digit_value(digit_char(n)) == n);
        assert(numeral_value(d) == numeral_value(d.drop_last()) * 10 + digit_value(d.last()));
    } else {
        lemma_decimal_digits_value(n / 10);
        let p = decimal_digits(n / 10);
        assert(d.drop_last() =~= p);
        assert(digit_value(digit_char(n % 10)) == n % 10);
        assert(d.last() == digit_char(n % 10));
        assert(numeral_value(d) == numeral_value(d.drop_last()) * 10 + digit_value(d.last()));
        assert((n / 10) * 10 + n % 10 == n);
        assert(all_digits(d)) by {
            assert forall|i: int| 0 <= i < d.len() implies is_digit(#[trigger] d[i]) by {
                if i < p.len() {
                    assert(d[i] == p[i]);
                }
            }
        }
        assert(d[0] == p[0]);
    }
}

/// Reading back a written error number gives the number: what `format_i16`
/// writes, `parse_i64` reads as the same value.
pub proof fn lemma_read_back_i16(n: i16)
    ensures
        parsed_i64(decimal_i16(n)) == Some(n as i64),
{
    if n < 0 {
        let m = (-(n as int)) as nat;
        lemma_decimal_digits_value(m);
        let s = decimal_i16(n);
        assert(s.drop_first() =~= decimal_digits(m));
    } else {
        lemma_decimal_digits_value(n as nat);
    }
}

/// Keys repeat exactly when two different positions hold equal keys.
pub proof fn lemma_repeat_is_an_equal_pair(s: Seq<Seq<char>>)
    ensures
        has_repeat(s) <==> exists|i: int, j: int| 0 <= i < j < s.len() && s[i] == s[j],
{
}

/// A walk that has done all its requests and holds two equal account keys,
/// wherever they stand, ends with `DuplicateAccount`; one whose keys all
/// differ finishes.
pub proof fn lemma_equal_keys_are_refused(v: ScanView, i: int, j: int)
    requires
        v.stage == Stage::Idle,
        v.next >= v.urls.len(),
        0 <= i < j < v.keys.len(),
    ensures
        v.keys[i] == v.keys[j] ==> next_outcome(v).1 == Err::<Option<(nat, Seq<Seq<char>>)>, ZkErrorCode>(
            ZkErrorCode::DuplicateAccount,
        ),
        (forall|a: int, b: int| 0 <= a < b < v.keys.len() ==> v.keys[a] != v.keys[b])
            ==> next_outcome(v).1 == Ok::<Option<(nat, Seq<Seq<char>>)>, ZkErrorCode>(None),
{
    if v.keys[i] == v.keys[j] {
        assert(has_repeat(v.keys));
    }
}

/// The JSON paths the walk asks for, by stage and account: symbols and entry
/// prices of positions; the asset with wallet balance and unrealised PnL for
/// unified and futures accounts, or free and locked amounts for spot accounts;
/// the account id, update time or account alias.
pub proof fn lemma_query_paths(source: Source)
    ensures
        stage_paths(source, Stage::AwaitPrices) == seq!["$.[*].symbol"@, "$.[*].entryPrice"@],
        source == Source::BinanceUnified ==> stage_paths(source, Stage::AwaitBalances) == seq![
            "$.[*].asset"@,
            "$.[*].totalWalletBalance"@,
            "$.[*].umUnrealizedPNL"@,
        ],
        source == Source::BinanceSpot || source == Source::AsterSpot ==> stage_paths(
            source,
            Stage::AwaitBalances,
        ) == seq!["$.balances[*].asset"@, "$.balances[*].free"@, "$.balances[*].locked"@],
        source == Source::BinanceFeature || source == Source::AsterFeature ==> stage_paths(
            source,
            Stage::AwaitBalances,
        ) == seq!["$.[*].asset"@, "$.[*].balance"@, "$.[*].crossUnPnl"@],
        source == Source::BinanceSpot ==> stage_paths(source, Stage::AwaitUid) == seq!["$.uid"@],
        source == Source::AsterSpot ==> stage_paths(source, Stage::AwaitUpdateTime) == seq![
            "$.updateTime"@,
        ],
        source == Source::BinanceFeature || source == Source::AsterFeature ==> stage_paths(
            source,
            Stage::AwaitUid,
        ) == seq!["$.[*].accountAlias"@],
{
}

/// After an account's id, the walk asks the same response for its balances:
/// for a futures account (Binance or Aster) the asset, the wallet balance and
/// the unrealised PnL.
pub proof fn lemma_futures_balance_query(v: ScanView)
    requires
        v.stage == Stage::NeedBalances,
        v.source == Source::BinanceFeature || v.source == Source::AsterFeature,
    ensures
        next_outcome(v).1 == Ok::<Option<(nat, Seq<Seq<char>>)>, ZkErrorCode>(
            Some((v.message, seq!["$.[*].asset"@, "$.[*].balance"@, "$.[*].crossUnPnl"@])),
        ),
        next_outcome(v).0 == (ScanView { stage: Stage::AwaitBalances, ..v }),
{
}

/// The trusted attestors are exactly these six addresses.
pub proof fn lemma_trusted_attestors(a: Seq<char>)
    ensures
        known_attestors().contains(a) <==> (a == "0xd638c623833aeb02c8049837bdd54e02540e7031"@
            || a == "0x3d436d4c130e7e80df715f07b6ca5db927dd45f2"@
            || a == "0x2f211ef8068ff70c8d851c145baca53ccec0aa07"@
            || a == "0x6bfa68fab4d930f19c281f5f1f57a2e4ede5a848"@
            || a == "0x96c3cac72a914eb0e6a1d74cdf2c8d6fa9d02320"@
            || a == "0x172f48f7aa734ee18ab7fa3413dc4d974866a3ae"@),
{
    let l = known_attestors();
    if l.contains(a) {
        let k = choose|k: int| 0 <= k < l.len() && l[k] == a;
        assert(0 <= k < 6);
    }
    assert(l[0] == "0xd638c623833aeb02c8049837bdd54e02540e7031"@);
    assert(l[1] == "0x3d436d4c130e7e80df715f07b6ca5db927dd45f2"@);
    assert(l[2] == "0x2f211ef8068ff70c8d851c145baca53ccec0aa07"@);
    assert(l[3] == "0x6bfa68fab4d930f19c281f5f1f57a2e4ede5a848"@);
    assert(l[4] == "0x96c3cac72a914eb0e6a1d74cdf2c8d6fa9d02320"@);
    assert(l[5] == "0x172f48f7aa734ee18ab7fa3413dc4d974866a3ae"@);
}

/// A header whose three fields are present is accepted, attestor as written,
/// exactly when the attestor in lower case is one of the six trusted
/// addresses; otherwise it is refused with `InvalidAttestor`.
pub proof fn lemma_header_accepts_trusted_attestors(
    document: Seq<char>,
    task: Seq<char>,
    hash: Seq<char>,
    attestor: Seq<char>,
)
    requires
        json_accepts(document),
        json_nested_str(document, "public_data"@, 0, "taskId"@) == Some(task),
        json_nested_str(document, "public_data"@, 0, "reportTxHash"@) == Some(hash),
        json_nested_str(document, "public_data"@, 0, "attestor"@) == Some(attestor),
    ensures
        ({
            let a = ascii_lower(attestor);
            header_outcome(document) == if a == "0xd638c623833aeb02c8049837bdd54e02540e7031"@
                || a == "0x3d436d4c130e7e80df715f07b6ca5db927dd45f2"@
                || a == "0x2f211ef8068ff70c8d851c145baca53ccec0aa07"@
                || a == "0x6bfa68fab4d930f19c281f5f1f57a2e4ede5a848"@
                || a == "0x96c3cac72a914eb0e6a1d74cdf2c8d6fa9d02320"@
                || a == "0x172f48f7aa734ee18ab7fa3413dc4d974866a3ae"@ {
                Ok::<_, ZkErrorCode>((task, hash, attestor))
            } else {
                Err(ZkErrorCode::InvalidAttestor)
            }
        }),
{
    lemma_trusted_attestors(ascii_lower(attestor));
}

/// The stable coins are exactly these ten assets.
pub proof fn lemma_stable_coins(a: Seq<char>)
    ensures
        stable_coins().contains(a) <==> (a == "USDT"@ || a == "USDC"@ || a == "FDUSD"@ || a
            == "TUSD"@ || a == "USDE"@ || a == "XUSD"@ || a == "USD1"@ || a == "BFUSD"@ || a
            == "USDP"@ || a == "DAI"@),
{
    let l = stable_coins();
    if l.contains(a) {
        let k = choose|k: int| 0 <= k < l.len() && l[k] == a;
        assert(0 <= k < 10);
    }
    assert(l[0] == "USDT"@);
    assert(l[1] == "USDC"@);
    assert(l[2] == "FDUSD"@);
    assert(l[3] == "TUSD"@);
    assert(l[4] == "USDE"@);
    assert(l[5] == "XUSD"@);
    assert(l[6] == "USD1"@);
    assert(l[7] == "BFUSD"@);
    assert(l[8] == "USDP"@);
    assert(l[9] == "DAI"@);
}

/// Which accounts an input asks to check: the Binance group when `unified`,
/// `spot` and `feature` are all members, the Aster group when `asterSpot` and
/// `asterFeature` both are, each group whatever the other holds; no group at
/// all is `MissingRequiredData`.
pub proof fn lemma_plan_groups(document: Seq<char>)
    requires
        json_accepts(document),
    ensures
        ({
            let u = json_member_text(document, "unified"@);
            let s = json_member_text(document, "spot"@);
            let f = json_member_text(document, "feature"@);
            let xs = json_member_text(document, "asterSpot"@);
            let xf = json_member_text(document, "asterFeature"@);
            let binance = u is Some && s is Some && f is Some;
            let aster = xs is Some && xf is Some;
            &&& !binance && !aster ==> plan_outcome(document) == Err::<
                (Option<(Seq<char>, Seq<char>, Seq<char>)>, Option<(Seq<char>, Seq<char>)>),
                ZkErrorCode,
            >(ZkErrorCode::MissingRequiredData)
            &&& binance || aster ==> plan_outcome(document) == Ok::<_, ZkErrorCode>(
                (
                    if binance {
                        Some((u->Some_0, s->Some_0, f->Some_0))
                    } else {
                        None
                    },
                    if aster {
                        Some((xs->Some_0, xf->Some_0))
                    } else {
                        None
                    },
                ),
            )
        }),
{
}

/// The Aster part of a plan depends on the Aster members alone: two inputs with
/// the same `asterSpot` and `asterFeature` members plan the same Aster check,
/// and likewise for the Binance part and its three members.
pub proof fn lemma_plan_groups_independent(d1: Seq<char>, d2: Seq<char>)
    requires
        plan_outcome(d1) is Ok,
        plan_outcome(d2) is Ok,
    ensures
        json_member_text(d1, "asterSpot"@) == json_member_text(d2, "asterSpot"@) && json_member_text(
            d1,
            "asterFeature"@,
        ) == json_member_text(d2, "asterFeature"@) ==> plan_outcome(d1)->Ok_0.1 == plan_outcome(
            d2,
        )->Ok_0.1,
        json_member_text(d1, "unified"@) == json_member_text(d2, "unified"@) && json_member_text(
            d1,
            "spot"@,
        ) == json_member_text(d2, "spot"@) && json_member_text(d1, "feature"@) == json_member_text(
            d2,
            "feature"@,
        ) ==> plan_outcome(d1)->Ok_0.0 == plan_outcome(d2)->Ok_0.0,
{
    lemma_plan_groups(d1);
    lemma_plan_groups(d2);
}

/// How each account's requests are routed: a Binance unified-margin request
/// for position risk (at an even position) is asked for symbols and prices, one
/// for balances for balance values; a spot or futures request to its account's
/// balance endpoint is asked first for what identifies the account (the update
/// time for Aster spot); any other URL is refused.
pub proof fn lemma_route_table(source: Source, url: Seq<char>, message: nat)
    ensures
        source == Source::BinanceUnified ==> route(source, url, message) == if has_prefix(
            url,
            "https://papi.binance.com/papi/v1/um/positionRisk"@,
        ) {
            if message % 2 == 0 {
                Ok(Stage::AwaitPrices)
            } else {
                Err(ZkErrorCode::InvalidRequestOrder)
            }
        } else if has_prefix(url, "https://papi.binance.com/papi/v1/balance"@) {
            Ok(Stage::AwaitBalances)
        } else {
            Err(ZkErrorCode::InvalidRequestUrl)
        },
        source == Source::BinanceSpot ==> route(source, url, message) == if has_prefix(
            url,
            "https://api.binance.com/api/v3/account"@,
        ) {
            Ok::<Stage, ZkErrorCode>(Stage::AwaitUid)
        } else {
            Err(ZkErrorCode::InvalidRequestUrl)
        },
        source == Source::BinanceFeature ==> route(source, url, message) == if has_prefix(
            url,
            "https://fapi.binance.com/fapi/v3/balance"@,
        ) {
            Ok::<Stage, ZkErrorCode>(Stage::AwaitUid)
        } else {
            Err(ZkErrorCode::InvalidRequestUrl)
        },
        source == Source::AsterSpot ==> route(source, url, message) == if has_prefix(
            url,
            "https://sapi.asterdex.com/api/v1/account"@,
        ) {
            Ok::<Stage, ZkErrorCode>(Stage::AwaitUpdateTime)
        } else {
            Err(ZkErrorCode::InvalidRequestUrl)
        },
        source == Source::AsterFeature ==> route(source, url, message) == if has_prefix(
            url,
            "https://fapi.asterdex.com/fapi/v2/balance"@,
        ) {
            Ok::<Stage, ZkErrorCode>(Stage::AwaitUid)
        } else {
            Err(ZkErrorCode::InvalidRequestUrl)
        },
{
}

} // verus!