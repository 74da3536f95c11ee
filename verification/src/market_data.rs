//! Market-data rules: ticker validation, retry policy, and the shaping of
//! provider answers into a price history.
use vstd::prelude::*;
use crate::models::{PriceHistory, PricePoint};
use crate::text::{
    chars_of, concat, copy_str, lemma_trim_idempotent, lemma_trim_lower, lemma_trim_upper,
    lemma_upper_idempotent, lemma_upper_lower, lower, push_str, string_from_chars, take_chars,
    take_chars_exec, trim, trim_chars, upper, upper_chars,
};

verus! {

/// Why market data could not be produced.
#[derive(Clone, Debug)]
pub enum MarketDataError {
    /// The symbol, as given, is not an acceptable ticker.
    InvalidTicker(String),
    /// The chart answer held no result; the provider's description, or a
    /// default one.
    ChartUnavailable(String),
    /// The chart answer held no usable price.
    NoValidPrices,
    /// Finnhub's candle status was not `ok`; its status, or `unknown status`.
    NoHistory(String),
    /// Finnhub gave neither a usable quote nor a usable candle.
    NoCurrentPrice,
}

/// The wording of a market-data error.
pub open spec fn market_error_text(e: MarketDataError) -> Seq<char> {
    match e {
        MarketDataError::InvalidTicker(v) => "Invalid ticker symbol: "@ + v@,
        MarketDataError::ChartUnavailable(d) => "Market-data provider error: "@ + d@,
        MarketDataError::NoValidPrices => "Market-data provider returned no valid prices"@,
        MarketDataError::NoHistory(s) => "Finnhub returned no historical data: "@ + s@,
        MarketDataError::NoCurrentPrice => "Finnhub returned no valid current price"@,
    }
}

impl MarketDataError {
    /// The error as shown to the user.
    pub fn message(&self) -> (m: String)
        ensures
            m@ == market_error_text(*self),
    {
        match self {
            MarketDataError::InvalidTicker(v) => concat("Invalid ticker symbol: ", v.as_str()),
            MarketDataError::ChartUnavailable(d) => concat("Market-data provider error: ", d.as_str()),
            MarketDataError::NoValidPrices => copy_str("Market-data provider returned no valid prices"),
            MarketDataError::NoHistory(s) => concat("Finnhub returned no historical data: ", s.as_str()),
            MarketDataError::NoCurrentPrice => copy_str("Finnhub returned no valid current price"),
        }
    }
}

/// A character allowed in a ticker symbol.
pub open spec fn ticker_char(c: char) -> bool {
    ||| 'A' <= c && c <= 'Z'
    ||| 'a' <= c && c <= 'z'
    ||| '0' <= c && c <= '9'
    ||| c == '.'
    ||| c == '-'
    ||| c == '^'
}

/// A normalised symbol is acceptable: 1 to 20 characters, each a letter, a
/// digit, `.`, `-` or `^` (all ASCII, so characters and bytes agree).
pub open spec fn ticker_ok(t: Seq<char>) -> bool {
    &&& 0 < t.len() <= 20
    &&& forall|i: int| 0 <= i < t.len() ==> ticker_char(t[i])
}

/// The normal form of a symbol: trimmed and upper-cased (ASCII).
pub open spec fn ticker_normal_form(value: Seq<char>) -> Seq<char> {
    upper(trim(value))
}


/// Symbols that differ only in ASCII case or in surrounding white space
/// have the same normal form, so they are one symbol to the providers and
/// to the price cache; and a normal form is its own normal form.
pub proof fn lemma_ticker_normal_form_case_blind(s: Seq<char>)
    ensures
        ticker_normal_form(lower(s)) == ticker_normal_form(s),
        ticker_normal_form(upper(s)) == ticker_normal_form(s),
        ticker_normal_form(trim(s)) == ticker_normal_form(s),
        ticker_normal_form(ticker_normal_form(s)) == ticker_normal_form(s),
{
    lemma_trim_lower(s);
    lemma_upper_lower(trim(s));
    lemma_trim_upper(s);
    lemma_upper_idempotent(trim(s));
    lemma_trim_idempotent(s);
    lemma_trim_upper(trim(s));
}

fn is_ticker_char(c: char) -> (b: bool)
    ensures
        b == ticker_char(c),
{
    ('A' <= c && c <= 'Z') || ('a' <= c && c <= 'z') || ('0' <= c && c <= '9') || c == '.' || c
        == '-' || c == '^'
}

/// Normalises a ticker symbol and rejects anything that could not be one
/// (so that it can be placed safely in a provider URL).
pub fn normalize_ticker(value: &str) -> (r: Result<String, MarketDataError>)
    ensures
        match r {
            Ok(t) => ticker_ok(ticker_normal_form(value@)) && t@ == ticker_normal_form(value@),
            Err(e) => !ticker_ok(ticker_normal_form(value@)) && (e matches MarketDataError::InvalidTicker(v)
                && v@ == value@),
        },
{
    let v = chars_of(value);
    let t = trim_chars(v.as_slice());
    let u = upper_chars(t.as_slice());
    let n = u.len();
    if n == 0 || n > 20 {
        return Err(MarketDataError::InvalidTicker(string_from_chars(v.as_slice())));
    }
    let mut i: usize = 0;
    while i < n
        invariant
            i <= n == u@.len(),
            u@ == ticker_normal_form(value@),
            v@ == value@,
            forall|k: int| 0 <= k < i ==> ticker_char(u@[k]),
        decreases n - i,
    {
        if !is_ticker_char(u[i]) {
            assert(!ticker_char(u@[i as int]));
            return Err(MarketDataError::InvalidTicker(string_from_chars(v.as_slice())));
        }
        i += 1;
    }
    Ok(string_from_chars(u.as_slice()))
}


// ---------------------------------------------------------------------------
// Price histories
// ---------------------------------------------------------------------------
/// Seconds in seven days.
pub const WEEK_SECS: i64 = 604800;

/// Seconds in 365 days.
pub const YEAR_SECS: i64 = 31536000;

/// chrono's `DateTime::<Utc>::from_timestamp(secs, 0)` returns a value: the
/// second's day, counted from January 1 of year 1 (day 1), lies in chrono's
/// calendar, from January 1 of year -262143 (day -95 746 129) to December 31
/// of year 262142 (day 95 745 399).
pub open spec fn utc_second_exists(secs: i64) -> bool {
    let day = secs as int / 86400 + 719163;
    -95_746_129 <= day && day <= 95_745_399
}

/// Calls chrono's `DateTime::<Utc>::from_timestamp(secs, 0)` and reports
/// whether it returned a value. Claimed: it does exactly for the seconds
/// whose day (`secs.div_euclid(86_400) + 719_163`) lies in the range of
/// `NaiveDate`, as chrono's source computes it. chrono's
/// `DateTime - TimeDelta` panics exactly when the resulting second is not
/// representable; the library checks such results with this call.
#[verifier::external_body]
fn utc_second_representable(secs: i64) -> (ok: bool)
    ensures
        ok == utc_second_exists(secs),
{
    chrono::DateTime::<chrono::Utc>::from_timestamp(secs, 0).is_some()
}

/// The IEEE-754 double with bits `b` is finite and not below zero (so
/// `-0.0` is accepted).
pub open spec fn price_bits_ok(b: u64) -> bool {
    &&& (b >> 52u64) & 0x7FFu64 != 0x7FFu64
    &&& (b >> 63u64 == 0u64 || b & 0x7FFF_FFFF_FFFF_FFFFu64 == 0u64)
}

/// `price.is_finite() && !(price < 0.0)` on the bits of a double.
pub fn price_bits_valid(b: u64) -> (ok: bool)
    ensures
        ok == price_bits_ok(b),
{
    (b >> 52u64) & 0x7FFu64 != 0x7FFu64 && (b >> 63u64 == 0u64 || b & 0x7FFF_FFFF_FFFF_FFFFu64
        == 0u64)
}

/// A point when the price is usable and the second representable.
pub open spec fn usable_point(secs: i64, price: Option<u64>) -> Option<PricePoint> {
    match price {
        Some(b) => if price_bits_ok(b) && utc_second_exists(secs) {
            Some(PricePoint { price_bits: b, as_of: secs })
        } else {
            None
        },
        None => None,
    }
}

/// The usable points among the first `n` (timestamp, close) pairs, in order.
pub open spec fn usable_points(ts: Seq<i64>, closes: Seq<Option<u64>>, n: nat) -> Seq<PricePoint>
    decreases n,
{
    if n == 0 {
        Seq::empty()
    } else {
        let before = usable_points(ts, closes, (n - 1) as nat);
        match usable_point(ts[n - 1], closes[n - 1]) {
            Some(p) => before.push(p),
            None => before,
        }
    }
}

/// The usable points of the pairs of `ts` and `closes` (zipped, so the
/// shorter one decides how many pairs there are).
pub open spec fn zipped_points(ts: Seq<i64>, closes: Seq<Option<u64>>) -> Seq<PricePoint> {
    usable_points(ts, closes, if ts.len() <= closes.len() { ts.len() } else { closes.len() })
}

/// Inserts `p` into `s` after every point that is not later than it.
pub open spec fn insert_by_time(s: Seq<PricePoint>, p: PricePoint) -> Seq<PricePoint>
    decreases s.len(),
{
    if s.len() == 0 {
        seq![p]
    } else if s.last().as_of <= p.as_of {
        s.push(p)
    } else {
        insert_by_time(s.drop_last(), p).push(s.last())
    }
}

/// `s` stably sorted by time (`slice::sort_by_key` on `as_of`).
pub open spec fn sort_by_time(s: Seq<PricePoint>) -> Seq<PricePoint>
    decreases s.len(),
{
    if s.len() == 0 {
        s
    } else {
        insert_by_time(sort_by_time(s.drop_last()), s.last())
    }
}

/// Distance in seconds between a point and a target second.
pub open spec fn distance(p: PricePoint, target: int) -> int {
    if p.as_of >= target {
        p.as_of - target
    } else {
        target - p.as_of
    }
}

/// The first point of `s` nearest to `target` (`Iterator::min_by_key`).
pub open spec fn closest(s: Seq<PricePoint>, target: int) -> Option<PricePoint>
    decreases s.len(),
{
    if s.len() == 0 {
        None
    } else {
        let c = closest(s.drop_last(), target);
        if c is None || distance(s.last(), target) < distance(c.unwrap(), target) {
            Some(s.last())
        } else {
            c
        }
    }
}

/// The quoted price as a point, when both parts are there and usable.
pub open spec fn quoted_point(price: Option<u64>, time: Option<i64>) -> Option<PricePoint> {
    match time {
        Some(t) => usable_point(t, price),
        None => None,
    }
}

/// The current price: the quote when usable, otherwise the latest point.
pub open spec fn current_point(quoted: Option<PricePoint>, sorted: Seq<PricePoint>) -> Option<
    PricePoint,
> {
    if quoted is Some {
        quoted
    } else if sorted.len() > 0 {
        Some(sorted.last())
    } else {
        None
    }
}

/// Looking a week and a year back from `c` stays within chrono's range.
pub open spec fn lookback_representable(c: PricePoint) -> bool {
    utc_second_exists((c.as_of - WEEK_SECS) as i64) && utc_second_exists((c.as_of - YEAR_SECS) as i64)
}

/// A representable second (chrono accepts it, so it is near the epoch).
pub open spec fn time_ok(t: i64) -> bool {
    utc_second_exists(t) && -200_000_000_000_000 <= t <= 200_000_000_000_000
}

/// Every point of `s` has a representable time.
pub open spec fn all_representable(s: Seq<PricePoint>) -> bool {
    forall|i: int| 0 <= i < s.len() ==> time_ok(#[trigger] s[i].as_of)
}

/// Inserting at the position after the last point not later than `p`.
proof fn lemma_insert_by_time_at(s: Seq<PricePoint>, p: PricePoint, j: int)
    requires
        0 <= j <= s.len(),
        j == 0 || s[j - 1].as_of <= p.as_of,
        forall|k: int| j <= k < s.len() ==> s[k].as_of > p.as_of,
    ensures
        insert_by_time(s, p) == s.insert(j, p),
    decreases s.len(),
{
    if s.len() == 0 {
        assert(s.insert(j, p) =~= seq![p]);
    } else if s.last().as_of <= p.as_of {
        assert(j == s.len());
        assert(s.insert(j, p) =~= s.push(p));
    } else {
        let t = s.drop_last();
        lemma_insert_by_time_at(t, p, j);
        assert(s.insert(j, p) =~= t.insert(j, p).push(s.last()));
    }
}

proof fn lemma_insert_by_time_representable(s: Seq<PricePoint>, p: PricePoint, j: int)
    requires
        0 <= j <= s.len(),
        all_representable(s),
        time_ok(p.as_of),
    ensures
        all_representable(s.insert(j, p)),
{
    assert forall|i: int| 0 <= i < s.insert(j, p).len() implies time_ok(
        #[trigger] s.insert(j, p)[i].as_of,
    ) by {
        if i < j {
            assert(s.insert(j, p)[i] == s[i]);
        } else if i > j {
            assert(s.insert(j, p)[i] == s[i - 1]);
        }
    }
}

/// Stable insertion sort by time.
fn sort_points_by_time(points: &Vec<PricePoint>) -> (r: Vec<PricePoint>)
    requires
        all_representable(points@),
    ensures
        r@ == sort_by_time(points@),
        all_representable(r@),
{
    let mut r: Vec<PricePoint> = Vec::new();
    let mut i: usize = 0;
    assert(points@.take(0) =~= Seq::<PricePoint>::empty());
    while i < points.len()
        invariant
            i <= points@.len(),
            r@ == sort_by_time(points@.take(i as int)),
            all_representable(r@),
            all_representable(points@),
        decreases points@.len() - i,
    {
        let p = points[i];
        let mut j: usize = r.len();
        while j > 0 && r[j - 1].as_of > p.as_of
            invariant
                j <= r@.len(),
                forall|k: int| j <= k < r@.len() ==> r@[k].as_of > p.as_of,
            decreases j,
        {
            j -= 1;
        }
        proof {
            lemma_insert_by_time_at(r@, p, j as int);
            lemma_insert_by_time_representable(r@, p, j as int);
            assert(points@.take(i + 1).drop_last() =~= points@.take(i as int));
            assert(points@.take(i + 1).last() == p);
        }
        r.insert(j, p);
        i += 1;
    }
    assert(points@.take(points@.len() as int) =~= points@);
    r
}

/// The first point nearest to `target` (`closest_point`).
pub fn closest_point(points: &[PricePoint], target: i64) -> (r: Option<PricePoint>)
    requires
        forall|i: int|
            0 <= i < points@.len() ==> -200_000_000_000_000 <= #[trigger] points@[i].as_of
                <= 200_000_000_000_000,
        -400_000_000_000_000 <= target <= 400_000_000_000_000,
    ensures
        r == closest(points@, target as int),
{
    let mut best: Option<PricePoint> = None;
    let mut best_d: i64 = 0;
    let mut i: usize = 0;
    assert(points@.take(0) =~= Seq::<PricePoint>::empty());
    while i < points.len()
        invariant
            i <= points@.len(),
            best == closest(points@.take(i as int), target as int),
            best is Some ==> best_d == distance(best.unwrap(), target as int),
            forall|k: int|
                0 <= k < points@.len() ==> -200_000_000_000_000 <= #[trigger] points@[k].as_of
                    <= 200_000_000_000_000,
            -400_000_000_000_000 <= target <= 400_000_000_000_000,
        decreases points@.len() - i,
    {
        let p = points[i];
        let d: i64 = if p.as_of >= target {
            p.as_of - target
        } else {
            target - p.as_of
        };
        assert(points@.take(i + 1).drop_last() =~= points@.take(i as int));
        assert(points@.take(i + 1).last() == p);
        if best.is_none() || d < best_d {
            best = Some(p);
            best_d = d;
        }
        i += 1;
    }
    assert(points@.take(points@.len() as int) =~= points@);
    best
}

/// The usable points of the zipped pairs, in their original order.
fn collect_points(ts: &[i64], closes: &[Option<u64>]) -> (r: Vec<PricePoint>)
    ensures
        r@ == zipped_points(ts@, closes@),
        all_representable(r@),
{
    let n: usize = if ts.len() <= closes.len() {
        ts.len()
    } else {
        closes.len()
    };
    let mut r: Vec<PricePoint> = Vec::new();
    let mut i: usize = 0;
    while i < n
        invariant
            i <= n,
            n <= ts@.len(),
            n <= closes@.len(),
            n == (if ts@.len() <= closes@.len() { ts@.len() } else { closes@.len() }),
            r@ == usable_points(ts@, closes@, i as nat),
            all_representable(r@),
        decreases n - i,
    {
        match closes[i] {
            Some(b) => {
                if price_bits_valid(b) && utc_second_representable(ts[i]) {
                    r.push(PricePoint { price_bits: b, as_of: ts[i] });
                }
            },
            None => {},
        }
        i += 1;
    }
    r
}

/// The quoted price as a point, when usable.
fn quote_point(price: Option<u64>, time: Option<i64>) -> (r: Option<PricePoint>)
    ensures
        r == quoted_point(price, time),
        r matches Some(p) ==> time_ok(p.as_of),
{
    match (price, time) {
        (Some(b), Some(t)) => {
            if price_bits_valid(b) && utc_second_representable(t) {
                Some(PricePoint { price_bits: b, as_of: t })
            } else {
                None
            }
        },
        (None, Some(t)) => None,
        (_, None) => None,
    }
}


/// A history is the one built from `sorted` points around the current
/// point `c`, with the given metadata (`UNKNOWN` when no currency is known).
pub open spec fn history_matches(
    h: PriceHistory,
    sorted: Seq<PricePoint>,
    c: PricePoint,
    currency: Option<String>,
    exchange: Option<String>,
    source_url: Seq<char>,
) -> bool {
    &&& h.today == Some(c)
    &&& h.one_week == closest(sorted, c.as_of - WEEK_SECS)
    &&& h.one_year == closest(sorted, c.as_of - YEAR_SECS)
    &&& h.currency@ == match currency {
        Some(s) => s@,
        None => "UNKNOWN"@,
    }
    &&& h.exchange == exchange
    &&& h.source_url@ == source_url
}

/// Builds a history from unsorted usable points and an optional quote.
/// `None` when looking back from the current point leaves chrono's range;
/// `Some(None)` when there is no current point.
fn build_history(
    points: Vec<PricePoint>,
    quoted: Option<PricePoint>,
    currency: Option<String>,
    exchange: Option<String>,
    source_url: &str,
) -> (r: Option<Option<PriceHistory>>)
    requires
        all_representable(points@),
        quoted matches Some(q) ==> time_ok(q.as_of),
    ensures
        ({
            let sorted = sort_by_time(points@);
            match current_point(quoted, sorted) {
                None => r == Some(None::<PriceHistory>),
                Some(c) => if lookback_representable(c) {
                    r matches Some(Some(h)) && history_matches(
                        h,
                        sorted,
                        c,
                        currency,
                        exchange,
                        source_url@,
                    )
                } else {
                    r is None
                },
            }
        }),
{
    let sorted = sort_points_by_time(&points);
    let current = match quoted {
        Some(q) => q,
        None => {
            if sorted.len() == 0 {
                return Some(None);
            }
            sorted[sorted.len() - 1]
        },
    };
    assert(time_ok(current.as_of)) by {
        if quoted is None {
            assert(sorted@[sorted@.len() - 1] == current);
        }
    }
    let week_target = current.as_of - WEEK_SECS;
    let year_target = current.as_of - YEAR_SECS;
    if !utc_second_representable(week_target) || !utc_second_representable(year_target) {
        return None;
    }
    assert forall|i: int| 0 <= i < sorted@.len() implies -200_000_000_000_000 <= #[trigger] sorted@[
        i
    ].as_of <= 200_000_000_000_000 by {
        assert(time_ok(sorted@[i].as_of));
    }
    let one_week = closest_point(sorted.as_slice(), week_target);
    let one_year = closest_point(sorted.as_slice(), year_target);
    let currency = match currency {
        Some(c) => c,
        None => copy_str("UNKNOWN"),
    };
    Some(
        Some(
            PriceHistory {
                today: Some(current),
                one_week,
                one_year,
                currency,
                exchange,
                source_url: copy_str(source_url),
            },
        ),
    )
}

/// The error of a chart answer.
pub struct YahooApiError {
    pub description: Option<String>,
}

/// What a chart result says of the instrument.
pub struct YahooMeta {
    pub currency: Option<String>,
    pub exchange_name: Option<String>,
    /// Bits of the regular market price (an IEEE-754 double).
    pub regular_market_price: Option<u64>,
    pub regular_market_time: Option<i64>,
}

/// One quote series; closes are bits of IEEE-754 doubles.
pub struct YahooQuote {
    pub close: Option<Vec<Option<u64>>>,
}

pub struct YahooIndicators {
    pub quote: Vec<YahooQuote>,
}

pub struct YahooChartResult {
    pub meta: YahooMeta,
    pub timestamp: Option<Vec<i64>>,
    pub indicators: YahooIndicators,
}

/// A decoded chart answer.
pub struct YahooChart {
    pub result: Option<Vec<YahooChartResult>>,
    pub error: Option<YahooApiError>,
}

/// The result a chart answer is read from: its last one.
pub open spec fn chart_result(chart: YahooChart) -> Option<YahooChartResult> {
    match chart.result {
        Some(v) => if v@.len() > 0 {
            Some(v@.last())
        } else {
            None
        },
        None => None,
    }
}

/// Why a chart answer had no result.
pub open spec fn chart_failure(chart: YahooChart) -> Seq<char> {
    match chart.error {
        Some(e) => match e.description {
            Some(d) => d@,
            None => "No chart data was returned"@,
        },
        None => "No chart data was returned"@,
    }
}

pub open spec fn chart_times(r: YahooChartResult) -> Seq<i64> {
    match r.timestamp {
        Some(v) => v@,
        None => Seq::empty(),
    }
}

/// The closes of the first quote series.
pub open spec fn chart_closes(r: YahooChartResult) -> Seq<Option<u64>> {
    if r.indicators.quote@.len() > 0 {
        match r.indicators.quote@[0].close {
            Some(v) => v@,
            None => Seq::empty(),
        }
    } else {
        Seq::empty()
    }
}

/// Builds the price history of a decoded chart answer.
///
/// `None` is the case where looking a week or a year back from the current
/// point would leave chrono's range (where chrono panics).
pub fn history_from_chart(chart: YahooChart, source_url: &str) -> (r: Option<
    Result<PriceHistory, MarketDataError>,
>)
    ensures
        match chart_result(chart) {
            None => r matches Some(Err(MarketDataError::ChartUnavailable(d))) && d@ == chart_failure(
                chart,
            ),
            Some(res) => {
                let sorted = sort_by_time(zipped_points(chart_times(res), chart_closes(res)));
                match current_point(
                    quoted_point(res.meta.regular_market_price, res.meta.regular_market_time),
                    sorted,
                ) {
                    None => r matches Some(Err(MarketDataError::NoValidPrices)),
                    Some(c) => if lookback_representable(c) {
                        r matches Some(Ok(h)) && history_matches(
                            h,
                            sorted,
                            c,
                            res.meta.currency,
                            res.meta.exchange_name,
                            source_url@,
                        )
                    } else {
                        r is None
                    },
                }
            },
        },
{
    let ghost g = chart;
    let result = match chart.result {
        Some(mut v) => v.pop(),
        None => None,
    };
    let result = match result {
        Some(res) => res,
        None => {
            let description = match chart.error {
                Some(e) => match e.description {
                    Some(d) => d,
                    None => copy_str("No chart data was returned"),
                },
                None => copy_str("No chart data was returned"),
            };
            return Some(Err(MarketDataError::ChartUnavailable(description)));
        },
    };
    assert(chart_result(g) == Some(result));
    let empty_times: Vec<i64> = Vec::new();
    let times = match &result.timestamp {
        Some(v) => v,
        None => &empty_times,
    };
    let empty_closes: Vec<Option<u64>> = Vec::new();
    let closes = if result.indicators.quote.len() > 0 {
        match &result.indicators.quote[0].close {
            Some(v) => v,
            None => &empty_closes,
        }
    } else {
        &empty_closes
    };
    assert(times@ == chart_times(result));
    assert(closes@ == chart_closes(result));
    let points = collect_points(times.as_slice(), closes.as_slice());
    let quoted = quote_point(result.meta.regular_market_price, result.meta.regular_market_time);
    match build_history(
        points,
        quoted,
        result.meta.currency,
        result.meta.exchange_name,
        source_url,
    ) {
        None => None,
        Some(None) => Some(Err(MarketDataError::NoValidPrices)),
        Some(Some(h)) => Some(Ok(h)),
    }
}


/// Finnhub's quote: bits of the current price and its second.
pub struct FinnhubQuote {
    pub current: Option<u64>,
    pub timestamp: Option<i64>,
}

/// Finnhub's daily candles: bits of the closes, their seconds, and a status.
pub struct FinnhubCandle {
    pub closes: Option<Vec<u64>>,
    pub timestamps: Option<Vec<i64>>,
    pub status: Option<String>,
}

/// Finnhub's company profile.
pub struct FinnhubProfile {
    pub currency: Option<String>,
    pub exchange: Option<String>,
}

pub open spec fn candle_times(c: FinnhubCandle) -> Seq<i64> {
    match c.timestamps {
        Some(v) => v@,
        None => Seq::empty(),
    }
}

/// Candle closes, each present.
pub open spec fn candle_closes(c: FinnhubCandle) -> Seq<Option<u64>> {
    match c.closes {
        Some(v) => Seq::new(v@.len(), |i: int| Some(v@[i])),
        None => Seq::empty(),
    }
}

/// The candle status is `ok`.
pub open spec fn candle_ok(c: FinnhubCandle) -> bool {
    c.status matches Some(s) && s@ == "ok"@
}

/// Builds the price history of Finnhub's quote, candles and profile.
///
/// `None` is the case where looking a week or a year back from the current
/// point would leave chrono's range (where chrono panics).
pub fn build_finnhub_price_history(
    quote: FinnhubQuote,
    candle: FinnhubCandle,
    profile: FinnhubProfile,
    source_url: String,
) -> (r: Option<Result<PriceHistory, MarketDataError>>)
    ensures
        if !candle_ok(candle) {
            r matches Some(Err(MarketDataError::NoHistory(d))) && d@ == match candle.status {
                Some(s) => s@,
                None => "unknown status"@,
            }
        } else {
            let sorted = sort_by_time(zipped_points(candle_times(candle), candle_closes(candle)));
            match current_point(quoted_point(quote.current, quote.timestamp), sorted) {
                None => r matches Some(Err(MarketDataError::NoCurrentPrice)),
                Some(c) => if lookback_representable(c) {
                    r matches Some(Ok(h)) && history_matches(
                        h,
                        sorted,
                        c,
                        profile.currency,
                        profile.exchange,
                        source_url@,
                    )
                } else {
                    r is None
                },
            }
        },
{
    let ok = match &candle.status {
        Some(st) => {
            let v = chars_of(st.as_str());
            crate::models::chars_eq_str(v.as_slice(), "ok")
        },
        None => false,
    };
    if !ok {
        let d = match candle.status {
            Some(st) => st,
            None => copy_str("unknown status"),
        };
        return Some(Err(MarketDataError::NoHistory(d)));
    }
    let empty_times: Vec<i64> = Vec::new();
    let times = match &candle.timestamps {
        Some(v) => v,
        None => &empty_times,
    };
    let mut closes: Vec<Option<u64>> = Vec::new();
    match &candle.closes {
        Some(v) => {
            let mut i: usize = 0;
            while i < v.len()
                invariant
                    i <= v@.len(),
                    closes@ == Seq::new(i as nat, |k: int| Some(v@[k])),
                decreases v@.len() - i,
            {
                closes.push(Some(v[i]));
                i += 1;
            }
        },
        None => {},
    }
    assert(closes@ =~= candle_closes(candle));
    assert(times@ == candle_times(candle));
    let points = collect_points(times.as_slice(), closes.as_slice());
    let quoted = quote_point(quote.current, quote.timestamp);
    match build_history(points, quoted, profile.currency, profile.exchange, source_url.as_str()) {
        None => None,
        Some(None) => Some(Err(MarketDataError::NoCurrentPrice)),
        Some(Some(h)) => Some(Ok(h)),
    }
}


// ---------------------------------------------------------------------------
// Laws of price histories
// ---------------------------------------------------------------------------
/// Points are in time order.
pub open spec fn time_ordered(s: Seq<PricePoint>) -> bool {
    forall|i: int, j: int| 0 <= i < j < s.len() ==> s[i].as_of <= s[j].as_of
}

proof fn lemma_insert_by_time(s: Seq<PricePoint>, p: PricePoint)
    requires
        time_ordered(s),
    ensures
        time_ordered(insert_by_time(s, p)),
        insert_by_time(s, p).to_multiset() =~= s.to_multiset().insert(p),
        insert_by_time(s, p).len() == s.len() + 1,
    decreases s.len(),
{
    broadcast use vstd::seq_lib::group_to_multiset_ensures;

    if s.len() == 0 {
        assert(seq![p] =~= Seq::<PricePoint>::empty().push(p));
    } else if s.last().as_of <= p.as_of {
    } else {
        let t = s.drop_last();
        assert(s =~= t.push(s.last()));
        lemma_insert_by_time(t, p);
        let u = insert_by_time(t, p);
        assert forall|k: int| 0 <= k < u.len() implies u[k].as_of <= s.last().as_of by {
            assert(u.to_multiset().count(u[k]) > 0);
            if u[k] != p {
                assert(t.to_multiset().count(u[k]) > 0);
                assert(t.contains(u[k]));
                let m = choose|m: int| 0 <= m < t.len() && t[m] == u[k];
                assert(s[m] == t[m]);
            }
        }
    }
}

/// Sorting by time puts the points in time order and neither loses nor
/// adds any.
pub proof fn lemma_sort_by_time_orders(s: Seq<PricePoint>)
    ensures
        time_ordered(sort_by_time(s)),
        sort_by_time(s).to_multiset() =~= s.to_multiset(),
        sort_by_time(s).len() == s.len(),
    decreases s.len(),
{
    broadcast use vstd::seq_lib::group_to_multiset_ensures;

    if s.len() > 0 {
        let t = s.drop_last();
        lemma_sort_by_time_orders(t);
        lemma_insert_by_time(sort_by_time(t), s.last());
        assert(s =~= t.push(s.last()));
    }
}

/// The nearest point is one of the points, and no point is nearer; there is
/// one exactly when there are points.
pub proof fn lemma_closest_is_nearest(s: Seq<PricePoint>, target: int)
    ensures
        closest(s, target) is Some <==> s.len() > 0,
        closest(s, target) matches Some(c) ==> s.contains(c) && forall|i: int|
            0 <= i < s.len() ==> distance(c, target) <= distance(#[trigger] s[i], target),
    decreases s.len(),
{
    if s.len() > 0 {
        let t = s.drop_last();
        lemma_closest_is_nearest(t, target);
        let c = closest(s, target).unwrap();
        assert forall|i: int| 0 <= i < s.len() implies distance(c, target) <= distance(
            #[trigger] s[i],
            target,
        ) by {
            if i < s.len() - 1 {
                assert(s[i] == t[i]);
            }
        }
        if closest(t, target) is Some && c == closest(t, target).unwrap() {
            let m = choose|m: int| 0 <= m < t.len() && t[m] == c;
            assert(s[m] == c);
        } else {
            assert(s[s.len() - 1] == c);
        }
    }
}


// ---------------------------------------------------------------------------
// Requests, retries and provider errors
// ---------------------------------------------------------------------------
/// `2^n`.
pub open spec fn two_pow(n: nat) -> nat
    decreases n,
{
    if n == 0 {
        1
    } else {
        2 * two_pow((n - 1) as nat)
    }
}

proof fn lemma_two_pow_monotonic(a: nat, b: nat)
    requires
        a <= b,
    ensures
        two_pow(a) <= two_pow(b),
    decreases b,
{
    if a < b {
        lemma_two_pow_monotonic(a, (b - 1) as nat);
    }
}

proof fn lemma_two_pow_56()
    ensures
        two_pow(56) == 72057594037927936,
{
    reveal_with_fuel(two_pow, 57);
}

/// Milliseconds to wait before retrying after the attempt numbered
/// `attempt` (from 0): 250 ms, doubled for each earlier attempt.
pub fn market_retry_delay(attempt: u32) -> (ms: u64)
    requires
        attempt <= 56,
    ensures
        ms == 250 * two_pow(attempt as nat),
{
    proof {
        lemma_two_pow_monotonic(attempt as nat, 56);
        lemma_two_pow_56();
    }
    let mut d: u64 = 250;
    let mut i: u32 = 0;
    while i < attempt
        invariant
            i <= attempt <= 56,
            d == 250 * two_pow(i as nat),
            two_pow(attempt as nat) <= 72057594037927936,
        decreases attempt - i,
    {
        proof {
            lemma_two_pow_monotonic((i + 1) as nat, attempt as nat);
        }
        d = d * 2;
        i += 1;
    }
    d
}

/// HTTP statuses worth retrying: 429 and the 5xx range.
pub open spec fn retryable_status(status: u16) -> bool {
    status == 429 || (500 <= status && status <= 599)
}

pub fn is_retryable_market_status(status: u16) -> (b: bool)
    ensures
        b == retryable_status(status),
{
    status == 429 || (500 <= status && status <= 599)
}

/// How a market-data request went wrong.
#[derive(Clone, Copy, Debug, PartialEq, Eq, Structural)]
pub enum RequestFailure {
    /// The request could not be sent; `transient` when the failure was a
    /// connection failure or a timeout.
    Transport { transient: bool },
    /// The provider answered with a non-success HTTP status.
    Status(u16),
}

/// The delay before another attempt, if the failure of attempt number
/// `attempt` (of three) is worth retrying.
pub open spec fn retry_after(attempt: u32, failure: RequestFailure) -> Option<nat> {
    let worth = match failure {
        RequestFailure::Transport { transient } => transient,
        RequestFailure::Status(s) => retryable_status(s),
    };
    if attempt < 2 && worth {
        Some(250 * two_pow(attempt as nat))
    } else {
        None
    }
}


/// A request is made at most three times, and a failure that is not
/// transient is never retried.
pub proof fn lemma_retries_are_bounded(attempt: u32, failure: RequestFailure)
    ensures
        attempt >= 2 ==> retry_after(attempt, failure) is None,
        failure == (RequestFailure::Transport { transient: false }) ==> retry_after(
            attempt,
            failure,
        ) is None,
        (failure matches RequestFailure::Status(s) && !retryable_status(s)) ==> retry_after(
            attempt,
            failure,
        ) is None,
{
}

/// Decides whether to retry a failed market-data request, and after how
/// many milliseconds.
pub fn retry_decision(attempt: u32, failure: RequestFailure) -> (r: Option<u64>)
    ensures
        match r {
            Some(ms) => retry_after(attempt, failure) == Some(ms as nat),
            None => retry_after(attempt, failure) is None,
        },
{
    let worth = match failure {
        RequestFailure::Transport { transient } => transient,
        RequestFailure::Status(s) => is_retryable_market_status(s),
    };
    if attempt < 2 && worth {
        Some(market_retry_delay(attempt))
    } else {
        None
    }
}

/// The first 2000 characters of a provider's answer, for error messages.
pub fn truncate_for_error(value: &str) -> (r: String)
    ensures
        r@ == take_chars(value@, 2000),
{
    let v = chars_of(value);
    let t = take_chars_exec(v.as_slice(), 2000);
    crate::text::string_from_chars(t.as_slice())
}

/// The explanation added to a Finnhub 403 answer.
pub fn finnhub_access_hint(status: u16) -> (s: &'static str)
    ensures
        status == 403 ==> s@
            == " Access denied: the Finnhub plan/key may not include this endpoint or market; free plans are generally restricted to US market data."@,
        status != 403 ==> s@ == ""@,
{
    if status == 403 {
        " Access denied: the Finnhub plan/key may not include this endpoint or market; free plans are generally restricted to US market data."
    } else {
        ""
    }
}

/// The error reported when both providers failed.
pub fn fallback_failure_message(primary: &str, fallback: &str) -> (m: String)
    ensures
        m@ == "Primary market provider failed: "@ + primary@ + "; fallback provider failed: "@
            + fallback@,
{
    let mut m = copy_str("Primary market provider failed: ");
    push_str(&mut m, primary);
    push_str(&mut m, "; fallback provider failed: ");
    push_str(&mut m, fallback);
    m
}

/// `s` without its trailing slashes (`str::trim_end_matches('/')`).
pub open spec fn trim_slashes(s: Seq<char>) -> Seq<char>
    decreases s.len(),
{
    if s.len() > 0 && s.last() == '/' {
        trim_slashes(s.drop_last())
    } else {
        s
    }
}

/// `s` without its leading slashes (`str::trim_start_matches('/')`).
pub open spec fn trim_leading_slashes(s: Seq<char>) -> Seq<char>
    decreases s.len(),
{
    if s.len() > 0 && s[0] == '/' {
        trim_leading_slashes(s.drop_first())
    } else {
        s
    }
}

/// A provider base URL without trailing slashes.
pub fn trim_base_url(url: &str) -> (r: String)
    ensures
        r@ == trim_slashes(url@),
{
    let v = chars_of(url);
    let mut j: usize = v.len();
    assert(v@.take(j as int) =~= v@);
    while j > 0 && v[j - 1] == '/'
        invariant
            j <= v@.len(),
            trim_slashes(v@) == trim_slashes(v@.take(j as int)),
        decreases j,
    {
        assert(v@.take(j as int).drop_last() =~= v@.take(j - 1));
        j -= 1;
    }
    let t = take_chars_exec(v.as_slice(), j);
    crate::text::string_from_chars(t.as_slice())
}

/// An endpoint path without leading slashes.
pub fn trim_endpoint(endpoint: &str) -> (r: String)
    ensures
        r@ == trim_leading_slashes(endpoint@),
{
    let v = chars_of(endpoint);
    let n = v.len();
    let mut i: usize = 0;
    assert(v@.subrange(0, n as int) =~= v@);
    while i < n && v[i] == '/'
        invariant
            i <= n == v@.len(),
            trim_leading_slashes(v@) == trim_leading_slashes(v@.subrange(i as int, n as int)),
        decreases n - i,
    {
        assert(v@.subrange(i as int, n as int).drop_first() =~= v@.subrange(i + 1, n as int));
        i += 1;
    }
    let mut r: Vec<char> = Vec::new();
    let mut k: usize = i;
    while k < n
        invariant
            i <= k <= n == v@.len(),
            r@ == v@.subrange(i as int, k as int),
        decreases n - k,
    {
        r.push(v[k]);
        assert(v@.subrange(i as int, k + 1) =~= v@.subrange(i as int, k as int).push(v@[k as int]));
        k += 1;
    }
    crate::text::string_from_chars(r.as_slice())
}

/// The Yahoo chart address of a (normalised) ticker.
pub fn chart_url(base_url: &str, ticker: &str) -> (r: String)
    ensures
        r@ == base_url@ + "/v8/finance/chart/"@ + ticker@,
{
    let mut r = copy_str(base_url);
    push_str(&mut r, "/v8/finance/chart/");
    push_str(&mut r, ticker);
    r
}

/// The Finnhub candle address quoted as the source of a history.
pub fn finnhub_source_url(base_url: &str, ticker: &str) -> (r: String)
    ensures
        r@ == base_url@ + "/stock/candle?symbol="@ + ticker@ + "&resolution=D"@,
{
    let mut r = copy_str(base_url);
    push_str(&mut r, "/stock/candle?symbol=");
    push_str(&mut r, ticker);
    push_str(&mut r, "&resolution=D");
    r
}

/// The address of a Finnhub endpoint.
pub fn finnhub_endpoint_url(base_url: &str, endpoint: &str) -> (r: String)
    ensures
        r@ == base_url@ + "/"@ + trim_leading_slashes(endpoint@),
{
    let mut r = copy_str(base_url);
    push_str(&mut r, "/");
    let e = trim_endpoint(endpoint);
    push_str(&mut r, e.as_str());
    r
}

/// Finnhub credentials: the base URL without trailing slashes and the
/// trimmed key, which must not be blank.
pub fn finnhub_credentials(base_url: &str, api_key: &str) -> (r: Option<(String, String)>)
    ensures
        match r {
            Some((b, k)) => trim(api_key@).len() > 0 && b@ == trim_slashes(base_url@) && k@
                == trim(api_key@),
            None => trim(api_key@).len() == 0,
        },
{
    let key = crate::text::trim_str(api_key);
    if key.as_str().is_empty() {
        return None;
    }
    Some((trim_base_url(base_url), key))
}

/// The window of Finnhub candles for a query made at second `now`: from
/// 370 days before to `now`.
pub fn finnhub_window(now: i64) -> (r: (i64, i64))
    requires
        now >= i64::MIN + 31968000,
    ensures
        r.0 == now - 31968000,
        r.1 == now,
{
    (now - 31968000, now)
}


// ---------------------------------------------------------------------------
// Price cache
// ---------------------------------------------------------------------------
/// A copy of an optional string.
pub fn copy_opt_string(s: &Option<String>) -> (r: Option<String>)
    ensures
        r == *s,
{
    match s {
        Some(t) => Some(t.clone()),
        None => None,
    }
}

/// A copy of a price history.
pub fn copy_history(h: &PriceHistory) -> (r: PriceHistory)
    ensures
        r == *h,
{
    PriceHistory {
        today: h.today,
        one_week: h.one_week,
        one_year: h.one_year,
        currency: h.currency.clone(),
        exchange: copy_opt_string(&h.exchange),
        source_url: h.source_url.clone(),
    }
}

/// One cached history, stored at a monotonic-clock instant (nanoseconds).
pub struct CacheEntry {
    pub ticker: String,
    pub value: PriceHistory,
    pub stored_at: u64,
}

/// Price histories by normalised ticker, each with the instant it was
/// stored. At most one entry per ticker.
pub struct PriceCache {
    entries: Vec<CacheEntry>,
}

/// The index of the entry for `ticker` in `entries`, if any.
pub open spec fn entry_index(entries: Seq<CacheEntry>, ticker: Seq<char>) -> Option<int>
    decreases entries.len(),
{
    if entries.len() == 0 {
        None
    } else if entries.last().ticker@ == ticker {
        Some(entries.len() - 1)
    } else {
        entry_index(entries.drop_last(), ticker)
    }
}

impl PriceCache {
    /// The cached history and storage instant of each ticker.
    pub closed spec fn lookup(&self, ticker: Seq<char>) -> Option<(PriceHistory, u64)> {
        match entry_index(self.entries@, ticker) {
            Some(i) => Some((self.entries@[i].value, self.entries@[i].stored_at)),
            None => None,
        }
    }

    /// No two entries share a ticker.
    pub closed spec fn wf(&self) -> bool {
        forall|i: int, j: int|
            0 <= i < j < self.entries@.len() ==> self.entries@[i].ticker@ != self.entries@[j].ticker@
    }

    /// An empty cache.
    pub fn new() -> (c: PriceCache)
        ensures
            c.wf(),
            forall|t: Seq<char>| c.lookup(t) is None,
    {
        PriceCache { entries: Vec::new() }
    }

    proof fn lemma_entry_index(entries: Seq<CacheEntry>, ticker: Seq<char>)
        ensures
            match entry_index(entries, ticker) {
                Some(i) => 0 <= i < entries.len() && entries[i].ticker@ == ticker && forall|k: int|
                    i < k < entries.len() ==> entries[k].ticker@ != ticker,
                None => forall|k: int| 0 <= k < entries.len() ==> entries[k].ticker@ != ticker,
            },
        decreases entries.len(),
    {
        if entries.len() > 0 {
            let t = entries.drop_last();
            Self::lemma_entry_index(t, ticker);
            assert(forall|k: int| 0 <= k < t.len() ==> t[k] == entries[k]);
        }
    }

    proof fn lemma_entry_index_unique(entries: Seq<CacheEntry>, ticker: Seq<char>, i: int)
        requires
            0 <= i < entries.len(),
            entries[i].ticker@ == ticker,
            forall|k: int| i < k < entries.len() ==> entries[k].ticker@ != ticker,
        ensures
            entry_index(entries, ticker) == Some(i),
        decreases entries.len(),
    {
        if i < entries.len() - 1 {
            Self::lemma_entry_index_unique(entries.drop_last(), ticker, i);
        }
    }

    fn find(&self, ticker: &str) -> (r: Option<usize>)
        ensures
            match r {
                Some(i) => entry_index(self.entries@, ticker@) == Some(i as int) && (i as int)
                    < self.entries@.len(),
                None => entry_index(self.entries@, ticker@) is None,
            },
    {
        proof {
            Self::lemma_entry_index(self.entries@, ticker@);
        }
        let t = chars_of(ticker);
        let mut j: usize = self.entries.len();
        while j > 0
            invariant
                j <= self.entries@.len(),
                t@ == ticker@,
                forall|k: int| j <= k < self.entries@.len() ==> self.entries@[k].ticker@ != ticker@,
            decreases j,
        {
            let e = chars_of(self.entries[j - 1].ticker.as_str());
            if crate::models::chars_eq(e.as_slice(), t.as_slice()) {
                proof {
                    Self::lemma_entry_index_unique(self.entries@, ticker@, j - 1);
                }
                return Some(j - 1);
            }
            j -= 1;
        }
        None
    }

    /// The history cached for `ticker` if it was stored less than `ttl`
    /// nanoseconds before `now` (an instant before the storage counts as no
    /// time elapsed).
    pub open spec fn fresh_value(&self, ticker: Seq<char>, now: u64, ttl: u64) -> Option<
        PriceHistory,
    > {
        match self.lookup(ticker) {
            Some((v, at)) => if (if now >= at { now - at } else { 0 }) < ttl {
                Some(v)
            } else {
                None
            },
            None => None,
        }
    }

    /// The history cached for `ticker`, if still fresh at `now`.
    pub fn fresh(&self, ticker: &str, now: u64, ttl: u64) -> (r: Option<PriceHistory>)
        ensures
            r == self.fresh_value(ticker@, now, ttl),
    {
        match self.find(ticker) {
            Some(i) => {
                let e = &self.entries[i];
                let elapsed = now.saturating_sub(e.stored_at);
                if elapsed < ttl {
                    Some(copy_history(&e.value))
                } else {
                    None
                }
            },
            None => None,
        }
    }

    /// Caches `value` for `ticker` at instant `now`, replacing any earlier
    /// entry for it.
    pub fn store(&mut self, ticker: String, value: PriceHistory, now: u64)
        requires
            old(self).wf(),
        ensures
            final(self).wf(),
            final(self).lookup(ticker@) == Some((value, now)),
            forall|t: Seq<char>| t != ticker@ ==> final(self).lookup(t) == old(self).lookup(t),
    {
        let ghost tv = ticker@;
        let ghost old_entries = self.entries@;
        proof {
            Self::lemma_entry_index(old_entries, tv);
        }
        match self.find(ticker.as_str()) {
            Some(i) => {
                self.entries.remove(i);
                proof {
                    let e = self.entries@;
                    assert forall|a: int, b: int| 0 <= a < b < e.len() implies e[a].ticker@
                        != e[b].ticker@ by {
                        let oa = if a < i { a } else { a + 1 };
                        let ob = if b < i { b } else { b + 1 };
                        assert(e[a] == old_entries[oa]);
                        assert(e[b] == old_entries[ob]);
                    }
                    assert forall|k: int| 0 <= k < e.len() implies e[k].ticker@ != tv by {
                        let ok = if k < i { k } else { k + 1 };
                        assert(e[k] == old_entries[ok]);
                    }
                }
            },
            None => {},
        }
        let ghost mid = self.entries@;
        proof {
            assert forall|k: int| 0 <= k < mid.len() implies mid[k].ticker@ != tv by {
                if entry_index(old_entries, tv) is None {
                    assert(mid == old_entries);
                }
            }
        }
        self.entries.push(CacheEntry { ticker, value, stored_at: now });
        proof {
            let e = self.entries@;
            Self::lemma_entry_index_unique(e, tv, e.len() - 1);
            assert forall|t: Seq<char>| t != tv implies self.lookup(t) == old(self).lookup(t) by {
                Self::lemma_entry_index(old_entries, t);
                Self::lemma_entry_index(mid, t);
                Self::lemma_entry_index(e, t);
                assert(e.drop_last() == mid);
                match entry_index(old_entries, t) {
                    Some(oi) => {
                        // the same entry survives in `mid`
                        let removed = entry_index(old_entries, tv);
                        let mi = match removed {
                            Some(ri) => if oi < ri { oi } else { oi - 1 },
                            None => oi,
                        };
                        assert(mid[mi] == old_entries[oi]);
                        assert forall|k: int| mi < k < mid.len() implies mid[k].ticker@ != t by {
                            let ok = match removed {
                                Some(ri) => if k < ri { k } else { k + 1 },
                                None => k,
                            };
                            assert(mid[k] == old_entries[ok]);
                        }
                        Self::lemma_entry_index_unique(mid, t, mi);
                    },
                    None => {
                        assert forall|k: int| 0 <= k < mid.len() implies mid[k].ticker@ != t by {
                            let ok = match entry_index(old_entries, tv) {
                                Some(ri) => if k < ri { k } else { k + 1 },
                                None => k,
                            };
                            assert(mid[k] == old_entries[ok]);
                        }
                    },
                }
            }
            assert forall|a: int, b: int| 0 <= a < b < e.len() implies e[a].ticker@
                != e[b].ticker@ by {
                if b == e.len() - 1 {
                    assert(e[a] == mid[a]);
                } else {
                    assert(e[a] == mid[a]);
                    assert(e[b] == mid[b]);
                }
            }
        }
    }
}

/// A history stored for a ticker is served back for it while it is fresh,
/// and no longer once `ttl` nanoseconds have passed.
pub proof fn lemma_cache_serves_what_was_stored(
    cache: PriceCache,
    ticker: Seq<char>,
    value: PriceHistory,
    at: u64,
    now: u64,
    ttl: u64,
)
    requires
        cache.lookup(ticker) == Some((value, at)),
        at <= now,
    ensures
        now - at < ttl ==> cache.fresh_value(ticker, now, ttl) == Some(value),
        now - at >= ttl ==> cache.fresh_value(ticker, now, ttl) is None,
{
}

} // verus!
