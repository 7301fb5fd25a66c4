//! Market-data helpers: candle intervals, trading-pair records, errors, and the
//! decisions of the candle cache.
use vstd::prelude::*;

verus! {

/// The length of a candle.
#[derive(Debug, Clone, Copy, PartialEq, Eq, Structural)]
pub enum Interval {
    M1,
    M5,
    M15,
    M30,
    H1,
    H4,
    D1,
    W1,
}

/// The code of an interval in the exchange's API.
pub open spec fn interval_code(i: Interval) -> Seq<char> {
    match i {
        Interval::M1 => "1m"@,
        Interval::M5 => "5m"@,
        Interval::M15 => "15m"@,
        Interval::M30 => "30m"@,
        Interval::H1 => "1h"@,
        Interval::H4 => "4h"@,
        Interval::D1 => "1d"@,
        Interval::W1 => "1w"@,
    }
}

/// The length of an interval in milliseconds.
pub open spec fn interval_millis(i: Interval) -> i64 {
    match i {
        Interval::M1 => 60_000,
        Interval::M5 => 300_000,
        Interval::M15 => 900_000,
        Interval::M30 => 1_800_000,
        Interval::H1 => 3_600_000,
        Interval::H4 => 14_400_000,
        Interval::D1 => 86_400_000,
        Interval::W1 => 604_800_000,
    }
}

impl Interval {
    /// The code of the interval in the exchange's API.
    pub fn as_str(&self) -> (r: &'static str)
        ensures
            r@ == interval_code(*self),
    {
        match self {
            Interval::M1 => "1m",
            Interval::M5 => "5m",
            Interval::M15 => "15m",
            Interval::M30 => "30m",
            Interval::H1 => "1h",
            Interval::H4 => "4h",
            Interval::D1 => "1d",
            Interval::W1 => "1w",
        }
    }

    /// The length of the interval in milliseconds.
    pub fn as_millis(&self) -> (r: i64)
        ensures
            r == interval_millis(*self),
    {
        match self {
            Interval::M1 => 60_000,
            Interval::M5 => 300_000,
            Interval::M15 => 900_000,
            Interval::M30 => 1_800_000,
            Interval::H1 => 3_600_000,
            Interval::H4 => 14_400_000,
            Interval::D1 => 86_400_000,
            Interval::W1 => 604_800_000,
        }
    }
}

/// A trading pair as the exchange describes it.
#[derive(Debug, Clone)]
pub struct ExchangeInfo {
    pub symbol: String,
    pub status: String,
    pub base_asset_precision: u8,
    pub quote_asset_precision: u8,
}

/// Whether a pair is open for trading.
pub open spec fn is_trading(e: ExchangeInfo) -> bool {
    e.status@ == "TRADING"@
}

/// The pairs of `s` that are open for trading, in their order.
pub open spec fn trading_pairs(s: Seq<ExchangeInfo>) -> Seq<ExchangeInfo> {
    s.filter(|e: ExchangeInfo| is_trading(e))
}

/// The pairs whose status is `TRADING`, in their order.
pub fn trading_only(symbols: Vec<ExchangeInfo>) -> (r: Vec<ExchangeInfo>)
    ensures
        r@ == trading_pairs(symbols@),
{
    let ghost src = symbols@;
    let trading = String::from_str("TRADING");
    let mut rest = symbols;
    let mut kept_rev: Vec<ExchangeInfo> = Vec::new();
    while rest.len() > 0
        invariant
            trading@ == "TRADING"@,
            rest@ == src.take(rest@.len() as int),
            rest@.len() <= src.len(),
            trading_pairs(src) == trading_pairs(rest@) + kept_rev@.reverse(),
        decreases rest@.len(),
    {
        let ghost before = rest@;
        let e = rest.pop().unwrap();
        proof {
            assert(rest@ =~= before.drop_last());
            assert(rest@ =~= src.take(rest@.len() as int));
            reveal(Seq::filter);
            assert(trading_pairs(before) == if is_trading(e) { trading_pairs(rest@).push(e) } else { trading_pairs(rest@) });
        }
        if e.status == trading {
            let ghost kr = kept_rev@;
            kept_rev.push(e);
            proof {
                assert(kept_rev@.reverse() =~= seq![e] + kr.reverse());
                assert(trading_pairs(rest@).push(e) + kr.reverse() =~= trading_pairs(rest@) + kept_rev@.reverse());
            }
        } else {
            assert(!is_trading(e));
            assert(trading_pairs(before) == trading_pairs(rest@));
        }
    }
    proof {
        reveal(Seq::filter);
        assert(trading_pairs(rest@) =~= Seq::<ExchangeInfo>::empty());
    }
    let mut r: Vec<ExchangeInfo> = Vec::new();
    while kept_rev.len() > 0
        invariant
            trading_pairs(src) == r@ + kept_rev@.reverse(),
        decreases kept_rev@.len(),
    {
        let ghost kb = kept_rev@;
        let e = kept_rev.pop().unwrap();
        let ghost rb = r@;
        r.push(e);
        proof {
            assert(kb =~= kept_rev@.push(e));
            assert(kb.reverse() =~= seq![e] + kept_rev@.reverse());
            assert(rb + kb.reverse() =~= r@ + kept_rev@.reverse());
        }
    }
    assert(r@ + kept_rev@.reverse() =~= r@);
    r
}

/// An error of the market-data pipeline, with its detail.
#[derive(Debug)]
pub enum QuantError {
    Network(String),
    Api(String),
    Parse(String),
    Io(String),
    DataProcess(String),
}

/// The text of an error: a label for its kind, a colon, a space and the detail.
pub open spec fn quant_error_text(e: QuantError) -> Seq<char> {
    match e {
        QuantError::Network(d) => "网络错误: "@ + d@,
        QuantError::Api(d) => "API 错误: "@ + d@,
        QuantError::Parse(d) => "解析错误: "@ + d@,
        QuantError::Io(d) => "IO 错误: "@ + d@,
        QuantError::DataProcess(d) => "数据处理错误: "@ + d@,
    }
}

impl QuantError {
    /// The text of the error.
    pub fn message(&self) -> (r: String)
        ensures
            r@ == quant_error_text(*self),
    {
        let (label, detail) = match self {
            QuantError::Network(d) => ("网络错误: ", d),
            QuantError::Api(d) => ("API 错误: ", d),
            QuantError::Parse(d) => ("解析错误: ", d),
            QuantError::Io(d) => ("IO 错误: ", d),
            QuantError::DataProcess(d) => ("数据处理错误: ", d),
        };
        let mut r = String::from_str(label);
        r.append(detail.as_str());
        r
    }
}

/// Where the next fetch of candles starts: one interval after the last cached candle.
pub fn next_start_time(last_open_time: i64, interval: Interval) -> (r: i64)
    requires
        last_open_time + interval_millis(interval) <= i64::MAX,
    ensures
        r == last_open_time + interval_millis(interval),
{
    last_open_time + interval.as_millis()
}

/// Which candles a fetch asks for: the latest ones, or those that open from a given time on.
#[derive(Debug, Clone, Copy, PartialEq, Eq, Structural)]
pub enum KlineFetch {
    Latest,
    Since(i64),
}

/// The fetch that follows what is cached: with a cached range, the candles from one interval
/// after its last one; with nothing cached, the latest ones.
pub fn plan_kline_fetch(range: Option<(i64, i64)>, interval: Interval) -> (r: KlineFetch)
    requires
        range matches Some((_, last)) ==> last + interval_millis(interval) <= i64::MAX,
    ensures
        match range {
            None => r == KlineFetch::Latest,
            Some((_, last)) => r == KlineFetch::Since((last + interval_millis(interval)) as i64),
        },
{
    match range {
        None => KlineFetch::Latest,
        Some((_, last)) => KlineFetch::Since(next_start_time(last, interval)),
    }
}

/// Whether fetched candles go to the cache: always after a fetch of the latest ones, and
/// after a fetch that follows a cached range only when it brought any.
pub fn should_save_fetched(fetch: KlineFetch, fetched: usize) -> (b: bool)
    ensures
        b == (fetch is Latest || fetched > 0),
{
    match fetch {
        KlineFetch::Latest => true,
        KlineFetch::Since(_) => fetched > 0,
    }
}

/// The last `limit` items of `all`, or all of them when there are not more.
pub fn keep_latest<T>(all: Vec<T>, limit: u32) -> (r: Vec<T>)
    ensures
        all@.len() > limit ==> r@ == all@.subrange(all@.len() - limit, all@.len() as int),
        all@.len() <= limit ==> r@ == all@,
{
    let mut all = all;
    if all.len() > limit as usize {
        let at = all.len() - limit as usize;
        all.split_off(at)
    } else {
        all
    }
}

/// The first and the last of the open times, or `None` when there are none.
pub fn data_range(open_times: &[i64]) -> (r: Option<(i64, i64)>)
    ensures
        open_times@.len() == 0 ==> r is None,
        open_times@.len() > 0 ==> r == Some((open_times@[0], open_times@.last())),
{
    if open_times.len() == 0 {
        None
    } else {
        Some((open_times[0], open_times[open_times.len() - 1]))
    }
}

} // verus!
