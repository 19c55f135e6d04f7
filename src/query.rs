use vstd::prelude::*;
use crate::numeric::{
    lemma_natural_text, sign_len,
    abs, fixed_text, fixed_text_value, integer_text_value, natural_text, parse_fixed,
    parse_integer, render_fixed, render_natural, FIXED_LIMIT,
};
use crate::pools::{identifier_of, pool_from_identifier, Pool};

verus! {

/// Page size used when a request names none.
pub const DEFAULT_PAGE_SIZE: i32 = 100;

/// A read request for one pool's depth series.
#[derive(Clone, Debug)]
pub struct DepthsQuery {
    pub pool: String,
    pub from: Option<i64>,
    pub to: Option<i64>,
    pub page: Option<i32>,
    pub interval: Option<i32>,
}

/// The rows a read request selects: the pool's rows with
/// `start_time >= from` and `end_time <= to`, newest first, skipping
/// `offset` rows and taking at most `limit`.
#[derive(Clone, Copy, Debug, PartialEq, Eq, Structural)]
pub struct PageRequest {
    pub pool: Pool,
    pub from: Option<i64>,
    pub to: Option<i64>,
    pub limit: i64,
    pub offset: i64,
}

/// Why a read request is refused; each is a client error.
#[derive(Clone, Copy, Debug, PartialEq, Eq, Structural)]
pub enum QueryError {
    /// The pool identifier is not in the pool mapping.
    InvalidPool,
}

proof fn lemma_offset_fits(a: int, b: int)
    requires
        -0x8000_0001 <= a <= 0x8000_0000,
        -0x8000_0000 <= b <= 0x7fff_ffff,
    ensures
        -0x4000_0000_8000_0000 <= a * b <= 0x4000_0000_8000_0000,
{
    let x = if a < 0 { -a } else { a };
    let y = if b < 0 { -b } else { b };
    assert(0 <= x * y <= 0x8000_0001 * 0x8000_0000) by (nonlinear_arith)
        requires
            0 <= x <= 0x8000_0001,
            0 <= y <= 0x8000_0000,
    ;
    assert(a * b == x * y || a * b == -(x * y)) by (nonlinear_arith)
        requires
            x == if a < 0 { -a } else { a },
            y == if b < 0 { -b } else { b },
    ;
}

/// Resolves a read request into the page of rows it selects.
pub fn plan_depths_query(q: &DepthsQuery) -> (r: Result<PageRequest, QueryError>)
    ensures
        r is Err <==> (forall|p: Pool| identifier_of(p) != q.pool@),
        r is Err ==> r == Err::<PageRequest, QueryError>(QueryError::InvalidPool),
        r matches Ok(req) ==> {
            let page: int = match q.page {
                Some(n) => n as int,
                None => 1,
            };
            let size: int = match q.interval {
                Some(n) => n as int,
                None => 100,
            };
            &&& identifier_of(req.pool) == q.pool@
            &&& req.from == q.from
            &&& req.to == q.to
            &&& req.limit == size
            &&& req.offset == (page - 1) * size
        },
{
    let pool = match pool_from_identifier(q.pool.as_str()) {
        Some(p) => p,
        None => {
            return Err(QueryError::InvalidPool);
        },
    };
    let page: i64 = match q.page {
        Some(n) => n as i64,
        None => 1,
    };
    let size: i64 = match q.interval {
        Some(n) => n as i64,
        None => DEFAULT_PAGE_SIZE as i64,
    };
    proof {
        lemma_offset_fits(page - 1, size as int);
    }
    Ok(PageRequest { pool, from: q.from, to: q.to, limit: size, offset: (page - 1) * size })
}

/// One stored row of a pool's depth series, each value as text.
#[derive(Clone, Debug)]
pub struct DepthInterval {
    pub asset_depth: String,
    pub asset_price: String,
    pub asset_price_usd: String,
    pub end_time: String,
    pub liquidity_units: String,
    pub luvi: String,
    pub members_count: String,
    pub rune_depth: String,
    pub start_time: String,
    pub synth_supply: String,
    pub synth_units: String,
    pub units: String,
}

/// Means over one page of rows, and the page's own time range.
#[derive(Clone, Debug)]
pub struct AggregatedStats {
    pub avg_asset_depth: String,
    pub avg_asset_price: String,
    pub avg_asset_price_usd: String,
    pub avg_liquidity_units: String,
    pub avg_luvi: String,
    pub avg_members_count: String,
    pub avg_rune_depth: String,
    pub avg_synth_supply: String,
    pub avg_synth_units: String,
    pub avg_units: String,
    pub total_intervals: i32,
    pub time_range_start: String,
    pub time_range_end: String,
}

/// A page of rows together with its aggregate.
#[derive(Clone, Debug)]
pub struct DepthsResponse {
    pub intervals: Vec<DepthInterval>,
    pub aggregated_stats: AggregatedStats,
}

/// The numeric columns of a depth row that are averaged.
#[derive(Clone, Copy, Debug, PartialEq, Eq, Structural)]
pub enum DepthColumn {
    AssetDepth,
    AssetPrice,
    AssetPriceUsd,
    LiquidityUnits,
    Luvi,
    MembersCount,
    RuneDepth,
    SynthSupply,
    SynthUnits,
    Units,
}

pub open spec fn column_text(r: DepthInterval, c: DepthColumn) -> Seq<char> {
    match c {
        DepthColumn::AssetDepth => r.asset_depth@,
        DepthColumn::AssetPrice => r.asset_price@,
        DepthColumn::AssetPriceUsd => r.asset_price_usd@,
        DepthColumn::LiquidityUnits => r.liquidity_units@,
        DepthColumn::Luvi => r.luvi@,
        DepthColumn::MembersCount => r.members_count@,
        DepthColumn::RuneDepth => r.rune_depth@,
        DepthColumn::SynthSupply => r.synth_supply@,
        DepthColumn::SynthUnits => r.synth_units@,
        DepthColumn::Units => r.units@,
    }
}

/// The texts of one column over a page.
pub open spec fn column_of(rows: Seq<DepthInterval>, c: DepthColumn) -> Seq<Seq<char>> {
    rows.map_values(|r: DepthInterval| column_text(r, c))
}

/// The fixed-point value of a text; unreadable text counts as 0.
pub open spec fn text_fixed(t: Seq<char>) -> int {
    match fixed_text_value(t) {
        Some(v) => v,
        None => 0,
    }
}

/// The integer value of a text; unreadable text counts as 0.
pub open spec fn text_integer(t: Seq<char>) -> int {
    match integer_text_value(t) {
        Some(v) => v,
        None => 0,
    }
}

pub open spec fn fixed_total(v: Seq<Seq<char>>) -> int
    decreases v.len(),
{
    if v.len() == 0 {
        0
    } else {
        fixed_total(v.drop_last()) + text_fixed(v.last())
    }
}

/// `t / n` for `t >= 0`, rounded to nearest with halves rounded up.
pub open spec fn rounded_quotient_nonneg(t: int, n: int) -> int {
    t / n + if 2 * (t % n) >= n {
        1int
    } else {
        0int
    }
}

/// `total / n`, rounded to nearest with halves rounded away from zero.
pub open spec fn rounded_quotient(total: int, n: int) -> int {
    if total >= 0 {
        rounded_quotient_nonneg(total, n)
    } else {
        -rounded_quotient_nonneg(-total, n)
    }
}

/// The arithmetic mean of the values, rounded half away from zero at the
/// eighth fractional digit and written with eight fractional digits; `"0"`
/// for none.
pub open spec fn average_text(v: Seq<Seq<char>>) -> Seq<char> {
    if v.len() == 0 {
        "0"@
    } else {
        fixed_text(rounded_quotient(fixed_total(v), v.len() as int))
    }
}

pub open spec fn integer_text(v: int) -> Seq<char> {
    if v < 0 {
        seq!['-'] + natural_text(abs(v))
    } else {
        natural_text(abs(v))
    }
}

pub open spec fn min_start(rows: Seq<DepthInterval>) -> int
    decreases rows.len(),
{
    if rows.len() <= 1 {
        text_integer(rows[0].start_time@)
    } else {
        let m = min_start(rows.drop_last());
        let x = text_integer(rows.last().start_time@);
        if x < m {
            x
        } else {
            m
        }
    }
}

pub open spec fn max_end(rows: Seq<DepthInterval>) -> int
    decreases rows.len(),
{
    if rows.len() <= 1 {
        text_integer(rows[0].end_time@)
    } else {
        let m = max_end(rows.drop_last());
        let x = text_integer(rows.last().end_time@);
        if x > m {
            x
        } else {
            m
        }
    }
}

/// Mean of the values read as fixed-point numbers, rounded half away from
/// zero and written with eight fractional digits; `"0"` when there are none.
pub fn calculate_average(values: &Vec<String>) -> (r: String)
    requires
        values@.len() <= i32::MAX,
    ensures
        r@ == average_text(values@.map_values(|s: String| s@)),
{
    let ghost texts = values@.map_values(|s: String| s@);
    let n = values.len();
    if n == 0 {
        proof {
            reveal_strlit("0");
        }
        return String::from_str("0");
    }
    let mut total: i128 = 0;
    let mut i: usize = 0;
    while i < n
        invariant
            n == values@.len() <= i32::MAX,
            i <= n,
            texts == values@.map_values(|s: String| s@),
            total == fixed_total(texts.subrange(0, i as int)),
            -(i as int) * FIXED_LIMIT <= total <= (i as int) * FIXED_LIMIT,
        decreases n - i,
    {
        let v: i128 = match parse_fixed(values[i].as_str()) {
            Some(x) => x,
            None => 0,
        };
        assert(texts.subrange(0, i + 1).drop_last() =~= texts.subrange(0, i as int));
        assert(texts[i as int] == values@[i as int]@);
        assert((i + 1) as int * FIXED_LIMIT == (i as int) * FIXED_LIMIT + FIXED_LIMIT) by (nonlinear_arith);
        assert((i + 1) as int * FIXED_LIMIT <= 0x8000_0000 * FIXED_LIMIT) by (nonlinear_arith)
            requires i + 1 <= 0x8000_0000;
        total = total + v;
        i = i + 1;
    }
    assert(texts.subrange(0, n as int) =~= texts);
    let count = n as i128;
    let magnitude: i128 = if total >= 0 {
        total
    } else {
        0 - total
    };
    let q = magnitude / count;
    let rem = magnitude % count;
    let rounded: i128 = if 2 * rem >= count {
        q + 1
    } else {
        q
    };
    let mean: i128 = if total >= 0 {
        rounded
    } else {
        0 - rounded
    };
    render_fixed(mean)
}

/// The texts of one column over the rows.
pub fn column_values(rows: &Vec<DepthInterval>, c: DepthColumn) -> (r: Vec<String>)
    ensures
        r@.map_values(|s: String| s@) == column_of(rows@, c),
{
    let mut out: Vec<String> = Vec::new();
    let mut i: usize = 0;
    while i < rows.len()
        invariant
            i <= rows@.len(),
            out@.len() == i,
            forall|j: int| 0 <= j < i ==> (#[trigger] out@[j])@ == column_text(rows@[j], c),
        decreases rows@.len() - i,
    {
        let row = &rows[i];
        let t = match c {
            DepthColumn::AssetDepth => row.asset_depth.clone(),
            DepthColumn::AssetPrice => row.asset_price.clone(),
            DepthColumn::AssetPriceUsd => row.asset_price_usd.clone(),
            DepthColumn::LiquidityUnits => row.liquidity_units.clone(),
            DepthColumn::Luvi => row.luvi.clone(),
            DepthColumn::MembersCount => row.members_count.clone(),
            DepthColumn::RuneDepth => row.rune_depth.clone(),
            DepthColumn::SynthSupply => row.synth_supply.clone(),
            DepthColumn::SynthUnits => row.synth_units.clone(),
            DepthColumn::Units => row.units.clone(),
        };
        out.push(t);
        i = i + 1;
    }
    assert(out@.map_values(|s: String| s@) =~= column_of(rows@, c));
    out
}

/// Writes an integer in decimal.
pub fn render_integer(v: i64) -> (r: String)
    ensures
        r@ == integer_text(v as int),
{
    if v < 0 {
        let m: u128 = (0 - (v as i128)) as u128;
        proof {
            reveal_strlit("-");
        }
        let mut t = String::from_str("-");
        let digits = render_natural(m);
        t.append(digits.as_str());
        t
    } else {
        render_natural(v as u128)
    }
}

/// The integer a text spells, or 0.
fn integer_or_zero(t: &String) -> (r: i64)
    ensures
        r as int == text_integer(t@),
{
    match parse_integer(t.as_str()) {
        Some(v) => v,
        None => 0,
    }
}

/// The least start time and the greatest end time over a non-empty page.
fn time_range(rows: &Vec<DepthInterval>) -> (r: (i64, i64))
    requires
        rows@.len() > 0,
    ensures
        r.0 as int == min_start(rows@),
        r.1 as int == max_end(rows@),
{
    let mut lo = integer_or_zero(&rows[0].start_time);
    let mut hi = integer_or_zero(&rows[0].end_time);
    assert(rows@.subrange(0, 1).len() == 1);
    let mut i: usize = 1;
    while i < rows.len()
        invariant
            1 <= i <= rows@.len(),
            lo as int == min_start(rows@.subrange(0, i as int)),
            hi as int == max_end(rows@.subrange(0, i as int)),
        decreases rows@.len() - i,
    {
        let s = integer_or_zero(&rows[i].start_time);
        let e = integer_or_zero(&rows[i].end_time);
        assert(rows@.subrange(0, i + 1).drop_last() =~= rows@.subrange(0, i as int));
        assert(rows@.subrange(0, i + 1).last() == rows@[i as int]);
        if s < lo {
            lo = s;
        }
        if e > hi {
            hi = e;
        }
        i = i + 1;
    }
    assert(rows@.subrange(0, rows@.len() as int) =~= rows@);
    (lo, hi)
}

/// The time range an aggregate reports: the least start time and the
/// greatest end time of the page, or empty texts for an empty page.
pub open spec fn range_start_text(rows: Seq<DepthInterval>) -> Seq<char> {
    if rows.len() == 0 {
        Seq::empty()
    } else {
        integer_text(min_start(rows))
    }
}

pub open spec fn range_end_text(rows: Seq<DepthInterval>) -> Seq<char> {
    if rows.len() == 0 {
        Seq::empty()
    } else {
        integer_text(max_end(rows))
    }
}

/// The aggregate of a page that `aggregate_page` returns.
pub open spec fn aggregate_of(rows: Seq<DepthInterval>, a: AggregatedStats) -> bool {
    &&& a.avg_asset_depth@ == average_text(column_of(rows, DepthColumn::AssetDepth))
    &&& a.avg_asset_price@ == average_text(column_of(rows, DepthColumn::AssetPrice))
    &&& a.avg_asset_price_usd@ == average_text(column_of(rows, DepthColumn::AssetPriceUsd))
    &&& a.avg_liquidity_units@ == average_text(column_of(rows, DepthColumn::LiquidityUnits))
    &&& a.avg_luvi@ == average_text(column_of(rows, DepthColumn::Luvi))
    &&& a.avg_members_count@ == average_text(column_of(rows, DepthColumn::MembersCount))
    &&& a.avg_rune_depth@ == average_text(column_of(rows, DepthColumn::RuneDepth))
    &&& a.avg_synth_supply@ == average_text(column_of(rows, DepthColumn::SynthSupply))
    &&& a.avg_synth_units@ == average_text(column_of(rows, DepthColumn::SynthUnits))
    &&& a.avg_units@ == average_text(column_of(rows, DepthColumn::Units))
    &&& a.total_intervals == rows.len()
    &&& a.time_range_start@ == range_start_text(rows)
    &&& a.time_range_end@ == range_end_text(rows)
}

fn column_average(rows: &Vec<DepthInterval>, c: DepthColumn) -> (r: String)
    requires
        rows@.len() <= i32::MAX,
    ensures
        r@ == average_text(column_of(rows@, c)),
{
    let v = column_values(rows, c);
    assert(v@.len() == v@.map_values(|s: String| s@).len());
    calculate_average(&v)
}

/// Aggregates one page of rows: the mean of each numeric column over the
/// page's own rows, the page's row count, and its own time range.
pub fn aggregate_page(rows: &Vec<DepthInterval>) -> (r: AggregatedStats)
    requires
        rows@.len() <= i32::MAX,
    ensures
        aggregate_of(rows@, r),
{
    let (start, end) = if rows.len() == 0 {
        (String::new(), String::new())
    } else {
        let (lo, hi) = time_range(rows);
        (render_integer(lo), render_integer(hi))
    };
    AggregatedStats {
        avg_asset_depth: column_average(rows, DepthColumn::AssetDepth),
        avg_asset_price: column_average(rows, DepthColumn::AssetPrice),
        avg_asset_price_usd: column_average(rows, DepthColumn::AssetPriceUsd),
        avg_liquidity_units: column_average(rows, DepthColumn::LiquidityUnits),
        avg_luvi: column_average(rows, DepthColumn::Luvi),
        avg_members_count: column_average(rows, DepthColumn::MembersCount),
        avg_rune_depth: column_average(rows, DepthColumn::RuneDepth),
        avg_synth_supply: column_average(rows, DepthColumn::SynthSupply),
        avg_synth_units: column_average(rows, DepthColumn::SynthUnits),
        avg_units: column_average(rows, DepthColumn::Units),
        total_intervals: rows.len() as i32,
        time_range_start: start,
        time_range_end: end,
    }
}

/// Builds the response for one page of rows: the rows themselves, newest
/// first as selected, with the page's aggregate.
pub fn build_depths_response(rows: Vec<DepthInterval>) -> (r: DepthsResponse)
    requires
        rows@.len() <= i32::MAX,
    ensures
        r.intervals@ == rows@,
        aggregate_of(rows@, r.aggregated_stats),
{
    let stats = aggregate_page(&rows);
    DepthsResponse { intervals: rows, aggregated_stats: stats }
}

/// The decimal text of an integer reads back as that integer, so an
/// integer sent as text or as a numeric literal decodes to itself.
pub proof fn lemma_integer_text_round_trip(v: i64)
    ensures
        integer_text_value(integer_text(v as int)) == Some(v as int),
{
    let a = abs(v as int);
    lemma_natural_text(a);
    let t = integer_text(v as int);
    let nt = natural_text(a);
    if v < 0 {
        assert(t[0] == '-');
        assert(sign_len(t) == 1);
        assert(t.subrange(1, t.len() as int) =~= nt);
    } else {
        assert(t == nt);
        assert(crate::numeric::is_digit(nt[0]));
        assert(sign_len(t) == 0);
        assert(t.subrange(0, t.len() as int) =~= nt);
    }
}

/// An empty page aggregates to means of `"0"`, no rows and an empty time
/// range.
pub proof fn lemma_empty_page_aggregate(a: AggregatedStats)
    requires
        aggregate_of(Seq::empty(), a),
    ensures
        a.avg_asset_depth@ == "0"@,
        a.avg_asset_price@ == "0"@,
        a.avg_asset_price_usd@ == "0"@,
        a.avg_liquidity_units@ == "0"@,
        a.avg_luvi@ == "0"@,
        a.avg_members_count@ == "0"@,
        a.avg_rune_depth@ == "0"@,
        a.avg_synth_supply@ == "0"@,
        a.avg_synth_units@ == "0"@,
        a.avg_units@ == "0"@,
        a.total_intervals == 0,
        a.time_range_start@.len() == 0,
        a.time_range_end@.len() == 0,
{
}

} // verus!
