use rune_depths::fetch::{accept_response, check_status, FetchError, Pacer};
use rune_depths::ingest::{planned_writes, PoolStage, StepOutcome};
use rune_depths::decode::RawField;
use rune_depths::metrics::{
    base_values, decode_member, depth_values, earnings_payload, first_interval, global_values,
    members_of, pool_window_writes, swap_values, swaps_meta, FieldKind,
};
use rune_depths::pools::Pool;
use rune_depths::store::{apply_group_write, Datum, Group, GroupWrite, PoolRow, StoreError};
use serde_json::Value;

fn json(text: &str) -> Value {
    serde_json::from_str(text).unwrap()
}

fn write(group: Group, v: i64) -> GroupWrite {
    GroupWrite { group, values: vec![Datum::Integer(v)] }
}

fn apply_all(mut row: Option<PoolRow>, writes: &[GroupWrite]) -> Option<PoolRow> {
    for w in writes {
        if let Ok(r) = apply_group_write(row.clone(), w.clone()) {
            row = Some(r);
        }
    }
    row
}

fn view(row: &Option<PoolRow>) -> Option<(Vec<Datum>, Option<Vec<Datum>>, Option<Vec<Datum>>)> {
    row.as_ref().map(|r| (r.base.clone(), r.swap.clone(), r.depth.clone()))
}

#[test]
fn group_write_before_base_is_refused() {
    assert_eq!(
        apply_group_write(None, write(Group::Swap, 1)).err(),
        Some(StoreError::MissingBaseRow(Group::Swap))
    );
    assert_eq!(
        apply_group_write(None, write(Group::Depth, 1)).err(),
        Some(StoreError::MissingBaseRow(Group::Depth))
    );
}

#[test]
fn base_write_keeps_existing_row() {
    let first = apply_group_write(None, write(Group::Base, 1)).unwrap();
    assert_eq!(first.base, vec![Datum::Integer(1)]);
    assert!(first.swap.is_none() && first.depth.is_none());
    let again = apply_group_write(Some(first), write(Group::Base, 2)).unwrap();
    assert_eq!(again.base, vec![Datum::Integer(1)]);
}

#[test]
fn group_writes_fill_in_their_own_columns() {
    let row = apply_all(None, &[write(Group::Base, 1), write(Group::Swap, 2), write(Group::Depth, 3)]);
    let row = row.unwrap();
    assert_eq!(row.base, vec![Datum::Integer(1)]);
    assert_eq!(row.swap, Some(vec![Datum::Integer(2)]));
    assert_eq!(row.depth, Some(vec![Datum::Integer(3)]));
}

#[test]
fn ingesting_a_window_twice_is_idempotent() {
    let writes = planned_writes(
        Some(vec![Datum::Integer(5)]),
        vec![Datum::Decimal(7)],
        vec![Datum::Integer(9)],
    );
    assert_eq!(writes.len(), 3);
    let once = apply_all(None, &writes);
    let twice = apply_all(once.clone(), &writes);
    assert_eq!(view(&once), view(&twice));
    let partial = apply_all(None, &writes[..1]);
    assert_eq!(view(&apply_all(partial, &writes)), view(&once));
}

#[test]
fn absent_pool_writes_nothing() {
    let writes = planned_writes(None, vec![Datum::Integer(1)], vec![Datum::Integer(2)]);
    assert!(writes.is_empty());
    let existing = apply_group_write(None, write(Group::Base, 4)).unwrap();
    let after = apply_all(Some(existing.clone()), &writes);
    assert_eq!(view(&after), view(&Some(existing)));
}

#[test]
fn stage_machine_runs_base_swap_depth() {
    let mut s = PoolStage::Start;
    assert_eq!(s.pending_group(), Some(Group::Base));
    s = s.advance(StepOutcome::Written);
    assert_eq!(s, PoolStage::BaseFetched);
    assert_eq!(s.pending_group(), Some(Group::Swap));
    s = s.advance(StepOutcome::Written);
    assert_eq!(s, PoolStage::SwapUpdated);
    s = s.advance(StepOutcome::Written);
    assert_eq!(s, PoolStage::DepthUpdated);
    assert_eq!(s.pending_group(), None);
    assert!(!s.is_finished());
    s = s.advance(StepOutcome::Written);
    assert_eq!(s, PoolStage::Done);
    assert!(s.is_finished());
    assert_eq!(PoolStage::Start.advance(StepOutcome::PoolAbsent), PoolStage::Skipped);
    assert_eq!(PoolStage::BaseFetched.advance(StepOutcome::Failed), PoolStage::Failed(Group::Swap));
    assert_eq!(PoolStage::Done.advance(StepOutcome::Failed), PoolStage::Done);
}

const EARNINGS: &str = r#"{"meta":{"avgNodeCount":"101.5","blockRewards":"20","bondingEarnings":30,
 "earnings":"40","liquidityEarnings":"50","liquidityFees":"60",
 "pools":[{"pool":"ETH.ETH","earnings":"1"},
          {"pool":"BTC.BTC","assetLiquidityFees":"11","earnings":"12","rewards":13,
           "runeLiquidityFees":"14","saverEarning":"15","totalLiquidityFeesRune":"16"}]}}"#;

#[test]
fn base_values_come_from_the_pools_entry() {
    let e = earnings_payload(&json(EARNINGS));
    assert_eq!(e.pools.len(), 2);
    let v = base_values(&e, Pool::BtcBtc).unwrap();
    let expected: Vec<Datum> = (11..=16).map(Datum::Integer).collect();
    assert_eq!(v, expected);
    assert_eq!(base_values(&e, Pool::EthUsdt), None);
}

#[test]
fn swap_and_depth_values_decode_their_payloads() {
    let swaps = json(r#"{"meta":{"averageSlip":"1.5","fromSecuredCount":"3","totalVolumeUSD":99}}"#);
    let s = swap_values(&swaps_meta(&swaps));
    assert_eq!(s.len(), 46);
    assert_eq!(s[0], Datum::Decimal(150_000_000));
    assert_eq!(s[2], Datum::Integer(3));
    assert_eq!(s[45], Datum::Integer(99));
    assert_eq!(s[1], Datum::Decimal(0));
    let depths = json(r#"{"intervals":[{"assetDepth":"500","assetPrice":2.25,"luvi":"0.1"}]}"#);
    let d = depth_values(&first_interval(&depths));
    assert_eq!(d.len(), 10);
    assert_eq!(d[0], Datum::Integer(500));
    assert_eq!(d[1], Datum::Decimal(225_000_000));
    assert_eq!(d[4], Datum::Decimal(10_000_000));
    assert_eq!(depth_values(&first_interval(&json("{}"))), vec![
        Datum::Integer(0), Datum::Decimal(0), Datum::Decimal(0), Datum::Integer(0),
        Datum::Decimal(0), Datum::Integer(0), Datum::Integer(0), Datum::Integer(0),
        Datum::Integer(0), Datum::Integer(0),
    ]);
}

#[test]
fn global_values_join_membership_and_earnings() {
    let e = earnings_payload(&json(EARNINGS));
    let r = first_interval(&json(r#"{"intervals":[{"count":"8","unit":"9"}]}"#));
    assert_eq!(global_values(&e, &r), vec![
        Datum::Integer(8), Datum::Integer(9), Datum::Decimal(10_150_000_000),
        Datum::Integer(20), Datum::Integer(30), Datum::Integer(40), Datum::Integer(50),
        Datum::Integer(60),
    ]);
}

#[test]
fn pool_window_writes_skip_absent_pools() {
    let e = earnings_payload(&json(EARNINGS));
    let swaps = swaps_meta(&json("{}"));
    let depths = first_interval(&json("{}"));
    assert_eq!(pool_window_writes(&e, &swaps, &depths, Pool::EthUsdc).len(), 0);
    let w = pool_window_writes(&e, &swaps, &depths, Pool::BtcBtc);
    assert_eq!(w.len(), 3);
    assert_eq!(w[0].group, Group::Base);
    assert_eq!(w[0].values[1], Datum::Integer(12));
    assert_eq!(w[2].group, Group::Depth);
}

#[test]
fn responses_are_checked_before_parsing() {
    assert_eq!(check_status(200), Ok(()));
    assert_eq!(check_status(429), Err(FetchError::UpstreamRejected(429)));
    assert_eq!(accept_response(503, "{}").err(), Some(FetchError::UpstreamRejected(503)));
    assert_eq!(accept_response(200, "not json").err(), Some(FetchError::Malformed));
    assert!(accept_response(200, "{\"a\":1}").is_ok());
}

#[test]
fn pacer_waits_out_the_gap() {
    let mut p = Pacer::new(2000);
    assert_eq!(p.wait_before(5000), 0);
    p.record_call(5000);
    assert_eq!(p.wait_before(5500), 1500);
    assert_eq!(p.wait_before(7000), 0);
    assert_eq!(p.wait_before(9000), 0);
}

#[test]
fn members_keep_text_and_number_fields() {
    let ms = members_of(&json(r#"{"a":"1.5","b":2,"c":null,"d":[1]}"#));
    assert_eq!(ms.len(), 4);
    assert!(ms.contains(&("a".to_string(), RawField::Text("1.5".to_string()))));
    assert!(ms.contains(&("b".to_string(), RawField::Number("2".to_string()))));
    assert!(ms.contains(&("c".to_string(), RawField::Absent)));
    assert!(ms.contains(&("d".to_string(), RawField::Absent)));
    assert_eq!(decode_member(&ms, "a", FieldKind::Decimal), Datum::Decimal(150_000_000));
    assert_eq!(decode_member(&ms, "b", FieldKind::Integer), Datum::Integer(2));
    assert_eq!(decode_member(&ms, "z", FieldKind::Integer), Datum::Integer(0));
    assert!(members_of(&json("[1,2]")).is_empty());
}
