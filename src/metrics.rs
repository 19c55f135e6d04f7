use vstd::prelude::*;
use serde_json::Value;
use crate::decode::{decode_fixed, decode_integer, decoded_fixed, decoded_integer, RawField};
use crate::ingest::{ingest_model, planned_writes, write_view, writes_model, SeriesModel};
use crate::window::Window;
use crate::json::{array_len, element, member, object_entry, object_len, scalar};
use crate::pools::{identifier_of, same_text, Pool};
use crate::store::{Datum, GroupWrite};

verus! {

/// How a field is decoded and stored.
#[derive(Clone, Copy, Debug, PartialEq, Eq, Structural)]
pub enum FieldKind {
    Integer,
    /// Fixed point with eight fractional digits.
    Decimal,
}

/// One field of an upstream payload: its key there, its column in storage,
/// and its kind.
#[derive(Clone, Copy, Debug)]
pub struct FieldSpec {
    pub key: &'static str,
    pub column: &'static str,
    pub kind: FieldKind,
}

/// The members of one payload object, by name, each before decoding.
pub type Members = Vec<(String, RawField)>;

/// The parts of the earnings payload of a window: its `meta` object and the
/// entries of `meta.pools`.
#[derive(Clone, Debug)]
pub struct EarningsPayload {
    pub meta: Members,
    pub pools: Vec<Members>,
}

/// Base group: a pool's entry in the earnings payload's `meta.pools`.
pub open spec fn base_schema() -> Seq<FieldSpec> {
    seq![
        FieldSpec { key: "assetLiquidityFees", column: "asset_liquidity_fees", kind: FieldKind::Integer },
        FieldSpec { key: "earnings", column: "earnings", kind: FieldKind::Integer },
        FieldSpec { key: "rewards", column: "rewards", kind: FieldKind::Integer },
        FieldSpec { key: "runeLiquidityFees", column: "rune_liquidity_fees", kind: FieldKind::Integer },
        FieldSpec { key: "saverEarning", column: "saver_earning", kind: FieldKind::Integer },
        FieldSpec { key: "totalLiquidityFeesRune", column: "total_liquidity_fees_rune", kind: FieldKind::Integer },
    ]
}

/// The fields of the group `base_schema` describes.
pub fn base_fields() -> (r: Vec<FieldSpec>)
    ensures
        r@ == base_schema(),
        r@.len() == 6,
{
    let r = vec![
        FieldSpec { key: "assetLiquidityFees", column: "asset_liquidity_fees", kind: FieldKind::Integer },
        FieldSpec { key: "earnings", column: "earnings", kind: FieldKind::Integer },
        FieldSpec { key: "rewards", column: "rewards", kind: FieldKind::Integer },
        FieldSpec { key: "runeLiquidityFees", column: "rune_liquidity_fees", kind: FieldKind::Integer },
        FieldSpec { key: "saverEarning", column: "saver_earning", kind: FieldKind::Integer },
        FieldSpec { key: "totalLiquidityFeesRune", column: "total_liquidity_fees_rune", kind: FieldKind::Integer },
    ];
    assert(r@ =~= base_schema());
    r
}

/// Swap group: the swaps payload's `meta`.
pub open spec fn swap_schema() -> Seq<FieldSpec> {
    seq![
        FieldSpec { key: "averageSlip", column: "average_slip", kind: FieldKind::Decimal },
        FieldSpec { key: "fromSecuredAverageSlip", column: "from_secured_average_slip", kind: FieldKind::Decimal },
        FieldSpec { key: "fromSecuredCount", column: "from_secured_count", kind: FieldKind::Integer },
        FieldSpec { key: "fromSecuredFees", column: "from_secured_fees", kind: FieldKind::Integer },
        FieldSpec { key: "fromSecuredVolume", column: "from_secured_volume", kind: FieldKind::Integer },
        FieldSpec { key: "fromSecuredVolumeUSD", column: "from_secured_volume_usd", kind: FieldKind::Integer },
        FieldSpec { key: "fromTradeAverageSlip", column: "from_trade_average_slip", kind: FieldKind::Decimal },
        FieldSpec { key: "fromTradeCount", column: "from_trade_count", kind: FieldKind::Integer },
        FieldSpec { key: "fromTradeFees", column: "from_trade_fees", kind: FieldKind::Integer },
        FieldSpec { key: "fromTradeVolume", column: "from_trade_volume", kind: FieldKind::Integer },
        FieldSpec { key: "fromTradeVolumeUSD", column: "from_trade_volume_usd", kind: FieldKind::Integer },
        FieldSpec { key: "runePriceUSD", column: "rune_price_usd", kind: FieldKind::Integer },
        FieldSpec { key: "synthMintAverageSlip", column: "synth_mint_average_slip", kind: FieldKind::Decimal },
        FieldSpec { key: "synthMintCount", column: "synth_mint_count", kind: FieldKind::Integer },
        FieldSpec { key: "synthMintFees", column: "synth_mint_fees", kind: FieldKind::Integer },
        FieldSpec { key: "synthMintVolume", column: "synth_mint_volume", kind: FieldKind::Integer },
        FieldSpec { key: "synthMintVolumeUSD", column: "synth_mint_volume_usd", kind: FieldKind::Integer },
        FieldSpec { key: "synthRedeemAverageSlip", column: "synth_redeem_average_slip", kind: FieldKind::Decimal },
        FieldSpec { key: "synthRedeemCount", column: "synth_redeem_count", kind: FieldKind::Integer },
        FieldSpec { key: "synthRedeemFees", column: "synth_redeem_fees", kind: FieldKind::Integer },
        FieldSpec { key: "synthRedeemVolume", column: "synth_redeem_volume", kind: FieldKind::Integer },
        FieldSpec { key: "synthRedeemVolumeUSD", column: "synth_redeem_volume_usd", kind: FieldKind::Integer },
        FieldSpec { key: "toAssetAverageSlip", column: "to_asset_average_slip", kind: FieldKind::Integer },
        FieldSpec { key: "toAssetCount", column: "to_asset_count", kind: FieldKind::Integer },
        FieldSpec { key: "toAssetFees", column: "to_asset_fees", kind: FieldKind::Integer },
        FieldSpec { key: "toAssetVolume", column: "to_asset_volume", kind: FieldKind::Integer },
        FieldSpec { key: "toAssetVolumeUSD", column: "to_asset_volume_usd", kind: FieldKind::Integer },
        FieldSpec { key: "toRuneAverageSlip", column: "to_rune_average_slip", kind: FieldKind::Decimal },
        FieldSpec { key: "toRuneCount", column: "to_rune_count", kind: FieldKind::Integer },
        FieldSpec { key: "toRuneFees", column: "to_rune_fees", kind: FieldKind::Integer },
        FieldSpec { key: "toRuneVolume", column: "to_rune_volume", kind: FieldKind::Integer },
        FieldSpec { key: "toRuneVolumeUSD", column: "to_rune_volume_usd", kind: FieldKind::Integer },
        FieldSpec { key: "toSecuredAverageSlip", column: "to_secured_average_slip", kind: FieldKind::Integer },
        FieldSpec { key: "toSecuredCount", column: "to_secured_count", kind: FieldKind::Integer },
        FieldSpec { key: "toSecuredFees", column: "to_secured_fees", kind: FieldKind::Integer },
        FieldSpec { key: "toSecuredVolume", column: "to_secured_volume", kind: FieldKind::Integer },
        FieldSpec { key: "toSecuredVolumeUSD", column: "to_secured_volume_usd", kind: FieldKind::Integer },
        FieldSpec { key: "toTradeAverageSlip", column: "to_trade_average_slip", kind: FieldKind::Decimal },
        FieldSpec { key: "toTradeCount", column: "to_trade_count", kind: FieldKind::Integer },
        FieldSpec { key: "toTradeFees", column: "to_trade_fees", kind: FieldKind::Integer },
        FieldSpec { key: "toTradeVolume", column: "to_trade_volume", kind: FieldKind::Integer },
        FieldSpec { key: "toTradeVolumeUSD", column: "to_trade_volume_usd", kind: FieldKind::Integer },
        FieldSpec { key: "totalCount", column: "total_count", kind: FieldKind::Integer },
        FieldSpec { key: "totalFees", column: "total_fees", kind: FieldKind::Integer },
        FieldSpec { key: "totalVolume", column: "total_volume", kind: FieldKind::Integer },
        FieldSpec { key: "totalVolumeUSD", column: "total_volume_usd", kind: FieldKind::Integer },
    ]
}

/// The fields of the group `swap_schema` describes.
pub fn swap_fields() -> (r: Vec<FieldSpec>)
    ensures
        r@ == swap_schema(),
        r@.len() == 46,
{
    let r = vec![
        FieldSpec { key: "averageSlip", column: "average_slip", kind: FieldKind::Decimal },
        FieldSpec { key: "fromSecuredAverageSlip", column: "from_secured_average_slip", kind: FieldKind::Decimal },
        FieldSpec { key: "fromSecuredCount", column: "from_secured_count", kind: FieldKind::Integer },
        FieldSpec { key: "fromSecuredFees", column: "from_secured_fees", kind: FieldKind::Integer },
        FieldSpec { key: "fromSecuredVolume", column: "from_secured_volume", kind: FieldKind::Integer },
        FieldSpec { key: "fromSecuredVolumeUSD", column: "from_secured_volume_usd", kind: FieldKind::Integer },
        FieldSpec { key: "fromTradeAverageSlip", column: "from_trade_average_slip", kind: FieldKind::Decimal },
        FieldSpec { key: "fromTradeCount", column: "from_trade_count", kind: FieldKind::Integer },
        FieldSpec { key: "fromTradeFees", column: "from_trade_fees", kind: FieldKind::Integer },
        FieldSpec { key: "fromTradeVolume", column: "from_trade_volume", kind: FieldKind::Integer },
        FieldSpec { key: "fromTradeVolumeUSD", column: "from_trade_volume_usd", kind: FieldKind::Integer },
        FieldSpec { key: "runePriceUSD", column: "rune_price_usd", kind: FieldKind::Integer },
        FieldSpec { key: "synthMintAverageSlip", column: "synth_mint_average_slip", kind: FieldKind::Decimal },
        FieldSpec { key: "synthMintCount", column: "synth_mint_count", kind: FieldKind::Integer },
        FieldSpec { key: "synthMintFees", column: "synth_mint_fees", kind: FieldKind::Integer },
        FieldSpec { key: "synthMintVolume", column: "synth_mint_volume", kind: FieldKind::Integer },
        FieldSpec { key: "synthMintVolumeUSD", column: "synth_mint_volume_usd", kind: FieldKind::Integer },
        FieldSpec { key: "synthRedeemAverageSlip", column: "synth_redeem_average_slip", kind: FieldKind::Decimal },
        FieldSpec { key: "synthRedeemCount", column: "synth_redeem_count", kind: FieldKind::Integer },
        FieldSpec { key: "synthRedeemFees", column: "synth_redeem_fees", kind: FieldKind::Integer },
        FieldSpec { key: "synthRedeemVolume", column: "synth_redeem_volume", kind: FieldKind::Integer },
        FieldSpec { key: "synthRedeemVolumeUSD", column: "synth_redeem_volume_usd", kind: FieldKind::Integer },
        FieldSpec { key: "toAssetAverageSlip", column: "to_asset_average_slip", kind: FieldKind::Integer },
        FieldSpec { key: "toAssetCount", column: "to_asset_count", kind: FieldKind::Integer },
        FieldSpec { key: "toAssetFees", column: "to_asset_fees", kind: FieldKind::Integer },
        FieldSpec { key: "toAssetVolume", column: "to_asset_volume", kind: FieldKind::Integer },
        FieldSpec { key: "toAssetVolumeUSD", column: "to_asset_volume_usd", kind: FieldKind::Integer },
        FieldSpec { key: "toRuneAverageSlip", column: "to_rune_average_slip", kind: FieldKind::Decimal },
        FieldSpec { key: "toRuneCount", column: "to_rune_count", kind: FieldKind::Integer },
        FieldSpec { key: "toRuneFees", column: "to_rune_fees", kind: FieldKind::Integer },
        FieldSpec { key: "toRuneVolume", column: "to_rune_volume", kind: FieldKind::Integer },
        FieldSpec { key: "toRuneVolumeUSD", column: "to_rune_volume_usd", kind: FieldKind::Integer },
        FieldSpec { key: "toSecuredAverageSlip", column: "to_secured_average_slip", kind: FieldKind::Integer },
        FieldSpec { key: "toSecuredCount", column: "to_secured_count", kind: FieldKind::Integer },
        FieldSpec { key: "toSecuredFees", column: "to_secured_fees", kind: FieldKind::Integer },
        FieldSpec { key: "toSecuredVolume", column: "to_secured_volume", kind: FieldKind::Integer },
        FieldSpec { key: "toSecuredVolumeUSD", column: "to_secured_volume_usd", kind: FieldKind::Integer },
        FieldSpec { key: "toTradeAverageSlip", column: "to_trade_average_slip", kind: FieldKind::Decimal },
        FieldSpec { key: "toTradeCount", column: "to_trade_count", kind: FieldKind::Integer },
        FieldSpec { key: "toTradeFees", column: "to_trade_fees", kind: FieldKind::Integer },
        FieldSpec { key: "toTradeVolume", column: "to_trade_volume", kind: FieldKind::Integer },
        FieldSpec { key: "toTradeVolumeUSD", column: "to_trade_volume_usd", kind: FieldKind::Integer },
        FieldSpec { key: "totalCount", column: "total_count", kind: FieldKind::Integer },
        FieldSpec { key: "totalFees", column: "total_fees", kind: FieldKind::Integer },
        FieldSpec { key: "totalVolume", column: "total_volume", kind: FieldKind::Integer },
        FieldSpec { key: "totalVolumeUSD", column: "total_volume_usd", kind: FieldKind::Integer },
    ];
    assert(r@ =~= swap_schema());
    r
}

/// Depth group: the first interval of the depths payload.
pub open spec fn depth_schema() -> Seq<FieldSpec> {
    seq![
        FieldSpec { key: "assetDepth", column: "asset_depth", kind: FieldKind::Integer },
        FieldSpec { key: "assetPrice", column: "asset_price", kind: FieldKind::Decimal },
        FieldSpec { key: "assetPriceUSD", column: "asset_price_usd", kind: FieldKind::Decimal },
        FieldSpec { key: "liquidityUnits", column: "liquidity_units", kind: FieldKind::Integer },
        FieldSpec { key: "luvi", column: "luvi", kind: FieldKind::Decimal },
        FieldSpec { key: "membersCount", column: "members_count", kind: FieldKind::Integer },
        FieldSpec { key: "runeDepth", column: "rune_depths", kind: FieldKind::Integer },
        FieldSpec { key: "synthSupply", column: "synth_supply", kind: FieldKind::Integer },
        FieldSpec { key: "synthUnits", column: "synth_units", kind: FieldKind::Integer },
        FieldSpec { key: "units", column: "units", kind: FieldKind::Integer },
    ]
}

/// The fields of the group `depth_schema` describes.
pub fn depth_fields() -> (r: Vec<FieldSpec>)
    ensures
        r@ == depth_schema(),
        r@.len() == 10,
{
    let r = vec![
        FieldSpec { key: "assetDepth", column: "asset_depth", kind: FieldKind::Integer },
        FieldSpec { key: "assetPrice", column: "asset_price", kind: FieldKind::Decimal },
        FieldSpec { key: "assetPriceUSD", column: "asset_price_usd", kind: FieldKind::Decimal },
        FieldSpec { key: "liquidityUnits", column: "liquidity_units", kind: FieldKind::Integer },
        FieldSpec { key: "luvi", column: "luvi", kind: FieldKind::Decimal },
        FieldSpec { key: "membersCount", column: "members_count", kind: FieldKind::Integer },
        FieldSpec { key: "runeDepth", column: "rune_depths", kind: FieldKind::Integer },
        FieldSpec { key: "synthSupply", column: "synth_supply", kind: FieldKind::Integer },
        FieldSpec { key: "synthUnits", column: "synth_units", kind: FieldKind::Integer },
        FieldSpec { key: "units", column: "units", kind: FieldKind::Integer },
    ];
    assert(r@ =~= depth_schema());
    r
}

/// Network-wide earnings: the earnings payload's `meta`.
pub open spec fn earnings_meta_schema() -> Seq<FieldSpec> {
    seq![
        FieldSpec { key: "avgNodeCount", column: "avg_node_count", kind: FieldKind::Decimal },
        FieldSpec { key: "blockRewards", column: "block_rewards", kind: FieldKind::Integer },
        FieldSpec { key: "bondingEarnings", column: "bonding_earnings", kind: FieldKind::Integer },
        FieldSpec { key: "earnings", column: "earnings", kind: FieldKind::Integer },
        FieldSpec { key: "liquidityEarnings", column: "liquidity_earning", kind: FieldKind::Integer },
        FieldSpec { key: "liquidityFees", column: "liquidity_fees", kind: FieldKind::Integer },
    ]
}

/// The fields of the group `earnings_meta_schema` describes.
pub fn earnings_meta_fields() -> (r: Vec<FieldSpec>)
    ensures
        r@ == earnings_meta_schema(),
        r@.len() == 6,
{
    let r = vec![
        FieldSpec { key: "avgNodeCount", column: "avg_node_count", kind: FieldKind::Decimal },
        FieldSpec { key: "blockRewards", column: "block_rewards", kind: FieldKind::Integer },
        FieldSpec { key: "bondingEarnings", column: "bonding_earnings", kind: FieldKind::Integer },
        FieldSpec { key: "earnings", column: "earnings", kind: FieldKind::Integer },
        FieldSpec { key: "liquidityEarnings", column: "liquidity_earning", kind: FieldKind::Integer },
        FieldSpec { key: "liquidityFees", column: "liquidity_fees", kind: FieldKind::Integer },
    ];
    assert(r@ =~= earnings_meta_schema());
    r
}

/// Rune-pool membership: the first interval of the runepool payload.
pub open spec fn runepool_schema() -> Seq<FieldSpec> {
    seq![
        FieldSpec { key: "count", column: "member_count", kind: FieldKind::Integer },
        FieldSpec { key: "unit", column: "member_unit", kind: FieldKind::Integer },
    ]
}

/// The fields of the group `runepool_schema` describes.
pub fn runepool_fields() -> (r: Vec<FieldSpec>)
    ensures
        r@ == runepool_schema(),
        r@.len() == 2,
{
    let r = vec![
        FieldSpec { key: "count", column: "member_count", kind: FieldKind::Integer },
        FieldSpec { key: "unit", column: "member_unit", kind: FieldKind::Integer },
    ];
    assert(r@ =~= runepool_schema());
    r
}

/// The stored value of a field of the given kind.
pub open spec fn decoded_datum(kind: FieldKind, f: RawField) -> Datum {
    match kind {
        FieldKind::Integer => Datum::Integer(decoded_integer(f) as i64),
        FieldKind::Decimal => Datum::Decimal(decoded_fixed(f) as i128),
    }
}

/// Decodes one field into its stored value.
pub fn decode_field(kind: FieldKind, f: &RawField) -> (r: Datum)
    ensures
        r == decoded_datum(kind, *f),
{
    match kind {
        FieldKind::Integer => Datum::Integer(decode_integer(f)),
        FieldKind::Decimal => Datum::Decimal(decode_fixed(f)),
    }
}

/// The first member of that name, or an absent field.
pub open spec fn lookup(ms: Seq<(String, RawField)>, key: Seq<char>) -> RawField
    decreases ms.len(),
{
    if ms.len() == 0 {
        RawField::Absent
    } else if ms[0].0@ == key {
        ms[0].1
    } else {
        lookup(ms.drop_first(), key)
    }
}

/// Position of the first member of that name.
fn member_index(ms: &Members, key: &str) -> (r: Option<usize>)
    ensures
        match r {
            Some(i) => i < ms@.len() && lookup(ms@, key@) == ms@[i as int].1,
            None => lookup(ms@, key@) == RawField::Absent,
        },
{
    let mut i: usize = 0;
    assert(ms@.subrange(0, ms@.len() as int) =~= ms@);
    while i < ms.len()
        invariant
            i <= ms@.len(),
            lookup(ms@, key@) == lookup(ms@.subrange(i as int, ms@.len() as int), key@),
        decreases ms@.len() - i,
    {
        let ghost rest = ms@.subrange(i as int, ms@.len() as int);
        assert(rest[0] == ms@[i as int]);
        if same_text(ms[i].0.as_str(), key) {
            return Some(i);
        }
        assert(rest.drop_first() =~= ms@.subrange(i + 1, ms@.len() as int));
        i = i + 1;
    }
    None
}

/// Decodes the member of that name as a field of the given kind.
pub fn decode_member(ms: &Members, key: &str, kind: FieldKind) -> (r: Datum)
    ensures
        r == decoded_datum(kind, lookup(ms@, key@)),
{
    match member_index(ms, key) {
        Some(i) => decode_field(kind, &ms[i].1),
        None => decode_field(kind, &RawField::Absent),
    }
}

/// The values of a group: each field of the schema decoded from the member
/// of its name.
pub open spec fn group_of(schema: Seq<FieldSpec>, ms: Seq<(String, RawField)>) -> Seq<Datum> {
    Seq::new(schema.len(), |i: int| decoded_datum(schema[i].kind, lookup(ms, schema[i].key@)))
}

/// Decodes the fields a schema names from an object's members.
pub fn decode_group(schema: &Vec<FieldSpec>, ms: &Members) -> (r: Vec<Datum>)
    ensures
        r@ == group_of(schema@, ms@),
{
    let mut out: Vec<Datum> = Vec::new();
    let mut i: usize = 0;
    while i < schema.len()
        invariant
            i <= schema@.len(),
            out@ == group_of(schema@, ms@).subrange(0, i as int),
        decreases schema@.len() - i,
    {
        let f = schema[i];
        let d = decode_member(ms, f.key, f.kind);
        out.push(d);
        i = i + 1;
        assert(out@ =~= group_of(schema@, ms@).subrange(0, i as int));
    }
    assert(out@ =~= group_of(schema@, ms@));
    out
}

/// Whether an object's `pool` member is the text of the pool's identifier.
pub open spec fn names_pool(ms: Seq<(String, RawField)>, pool: Pool) -> bool {
    lookup(ms, "pool"@) matches RawField::Text(s) && s@ == identifier_of(pool)
}

/// Whether an object's `pool` member names the pool.
pub fn entry_names_pool(ms: &Members, pool: Pool) -> (r: bool)
    ensures
        r == names_pool(ms@, pool),
{
    match member_index(ms, "pool") {
        Some(i) => match &ms[i].1 {
            RawField::Text(s) => same_text(s.as_str(), pool.identifier()),
            _ => false,
        },
        None => false,
    }
}

/// Position of the first entry that names the pool.
pub open spec fn first_entry_of(entries: Seq<Members>, pool: Pool) -> Option<int> {
    if exists|i: int| 0 <= i < entries.len() && names_pool(#[trigger] entries[i]@, pool) {
        Some(
            choose|i: int|
                0 <= i < entries.len() && names_pool(#[trigger] entries[i]@, pool) && forall|j: int|
                    0 <= j < i ==> !names_pool(#[trigger] entries[j]@, pool),
        )
    } else {
        None
    }
}

/// The base values of a pool: decoded from the first entry of the earnings
/// that names it; `None` where none does.
pub open spec fn base_values_of(entries: Seq<Members>, pool: Pool) -> Option<Seq<Datum>> {
    match first_entry_of(entries, pool) {
        Some(i) => Some(group_of(base_schema(), entries[i]@)),
        None => None,
    }
}

/// The base values of a pool for the window the earnings cover; `None`
/// where the pool has no entry there.
pub fn base_values(earnings: &EarningsPayload, pool: Pool) -> (r: Option<Vec<Datum>>)
    ensures
        match r {
            Some(v) => base_values_of(earnings.pools@, pool) == Some(v@),
            None => base_values_of(earnings.pools@, pool) is None,
        },
{
    let entries = &earnings.pools;
    let mut i: usize = 0;
    while i < entries.len()
        invariant
            entries@ == earnings.pools@,
            i <= entries@.len(),
            forall|j: int| 0 <= j < i ==> !names_pool(#[trigger] entries@[j]@, pool),
        decreases entries@.len() - i,
    {
        if entry_names_pool(&entries[i], pool) {
            let ghost k = i as int;
            proof {
                assert(names_pool(entries@[k]@, pool));
                assert(0 <= k < entries@.len() && names_pool(entries@[k]@, pool) && forall|j: int|
                    0 <= j < k ==> !names_pool(#[trigger] entries@[j]@, pool));
                let c = choose|c: int|
                    0 <= c < entries@.len() && names_pool(#[trigger] entries@[c]@, pool) && forall|j: int|
                        0 <= j < c ==> !names_pool(#[trigger] entries@[j]@, pool);
                if c > k {
                    assert(!names_pool(entries@[k]@, pool));
                }
                assert(c == k);
                assert(first_entry_of(entries@, pool) == Some(k));
            }
            let schema = base_fields();
            let v = decode_group(&schema, &entries[i]);
            return Some(v);
        }
        i = i + 1;
    }
    None
}

/// The swap values of a pool: decoded from its swaps payload's `meta`.
pub fn swap_values(meta: &Members) -> (r: Vec<Datum>)
    ensures
        r@ == group_of(swap_schema(), meta@),
        r@.len() == 46,
{
    let schema = swap_fields();
    decode_group(&schema, meta)
}

/// The depth values of a pool: decoded from the first interval of its
/// depths payload.
pub fn depth_values(interval: &Members) -> (r: Vec<Datum>)
    ensures
        r@ == group_of(depth_schema(), interval@),
        r@.len() == 10,
{
    let schema = depth_fields();
    decode_group(&schema, interval)
}

/// The network-wide values of a window: rune-pool membership from the first
/// interval of the runepool payload, followed by the earnings summary.
pub fn global_values(earnings: &EarningsPayload, runepool_interval: &Members) -> (r: Vec<Datum>)
    ensures
        r@ == group_of(runepool_schema(), runepool_interval@) + group_of(
            earnings_meta_schema(),
            earnings.meta@,
        ),
        r@.len() == 8,
{
    let members = runepool_fields();
    let mut out = decode_group(&members, runepool_interval);
    let summary = earnings_meta_fields();
    let mut rest = decode_group(&summary, &earnings.meta);
    out.append(&mut rest);
    out
}

pub open spec fn writes_view(ws: Seq<GroupWrite>) -> Seq<(crate::store::Group, Seq<Datum>)> {
    ws.map_values(|w: GroupWrite| write_view(w))
}

/// The group writes for one pool in one window: none where the pool is
/// absent from the window's earnings, else its base, swap and depth values
/// in that order.
pub fn pool_window_writes(
    earnings: &EarningsPayload,
    swaps_meta: &Members,
    depths_interval: &Members,
    pool: Pool,
) -> (r: Vec<GroupWrite>)
    ensures
        writes_view(r@) == writes_model(
            base_values_of(earnings.pools@, pool),
            group_of(swap_schema(), swaps_meta@),
            group_of(depth_schema(), depths_interval@),
        ),
{
    let base = base_values(earnings, pool);
    let swap = swap_values(swaps_meta);
    let depth = depth_values(depths_interval);
    planned_writes(base, swap, depth)
}

/// A pool that no entry of a window's earnings names gets no record created
/// or altered for that window, whatever its swaps and depths hold.
pub proof fn lemma_absent_pool_untouched(
    m: SeriesModel,
    w: Window,
    earnings: EarningsPayload,
    pool: Pool,
    swaps_meta: Seq<(String, RawField)>,
    depths_interval: Seq<(String, RawField)>,
)
    requires
        forall|i: int| 0 <= i < earnings.pools@.len() ==> !names_pool(#[trigger] earnings.pools@[i]@, pool),
    ensures
        ingest_model(
            m,
            w,
            base_values_of(earnings.pools@, pool),
            group_of(swap_schema(), swaps_meta),
            group_of(depth_schema(), depths_interval),
        ) == m,
{
    assert(base_values_of(earnings.pools@, pool) is None);
}

/// The members of an object, each with its value as a field; none for a
/// value that is no object.
pub fn members_of(v: &Value) -> (r: Members) {
    let mut out: Members = Vec::new();
    let n = match object_len(v) {
        Some(n) => n,
        None => 0,
    };
    let mut i: usize = 0;
    while i < n
        invariant
            i <= n,
        decreases n - i,
    {
        match object_entry(v, i) {
            Some((k, x)) => out.push((k, scalar(x))),
            None => {},
        }
        i = i + 1;
    }
    out
}

/// The members of an object's named member; none where it is missing.
fn members_at(v: &Value, key: &str) -> (r: Members) {
    match member(v, key) {
        Some(x) => members_of(x),
        None => Vec::new(),
    }
}

/// The members of the first element of a payload's `intervals`; none where
/// there is no such element.
pub fn first_interval(v: &Value) -> (r: Members) {
    match member(v, "intervals") {
        Some(list) => match element(list, 0) {
            Some(x) => members_of(x),
            None => Vec::new(),
        },
        None => Vec::new(),
    }
}

/// The parts of an earnings payload that ingestion reads.
pub fn earnings_payload(v: &Value) -> (r: EarningsPayload) {
    let meta = members_at(v, "meta");
    let mut pools: Vec<Members> = Vec::new();
    if let Some(m) = member(v, "meta") {
        if let Some(list) = member(m, "pools") {
            let n = match array_len(list) {
                Some(n) => n,
                None => 0,
            };
            let mut i: usize = 0;
            while i < n
                invariant
                    i <= n,
                decreases n - i,
            {
                match element(list, i) {
                    Some(e) => pools.push(members_of(e)),
                    None => {},
                }
                i = i + 1;
            }
        }
    }
    EarningsPayload { meta, pools }
}

/// The members of a swaps payload's `meta`.
pub fn swaps_meta(v: &Value) -> (r: Members) {
    members_at(v, "meta")
}

} // verus!
