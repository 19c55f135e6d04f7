use rune_depths::pools::{pool_from_identifier, Pool};
use rune_depths::query::{
    aggregate_page, build_depths_response, calculate_average, plan_depths_query, DepthInterval,
    DepthsQuery, QueryError,
};

fn query(pool: &str, page: Option<i32>, interval: Option<i32>) -> DepthsQuery {
    DepthsQuery { pool: pool.to_string(), from: Some(10), to: None, page, interval }
}

fn row(start: &str, end: &str, depth: &str, price: &str) -> DepthInterval {
    DepthInterval {
        asset_depth: depth.to_string(),
        asset_price: price.to_string(),
        asset_price_usd: "2.00000000".to_string(),
        end_time: end.to_string(),
        liquidity_units: "10".to_string(),
        luvi: "0.50000000".to_string(),
        members_count: "3".to_string(),
        rune_depth: "1000".to_string(),
        start_time: start.to_string(),
        synth_supply: "0".to_string(),
        synth_units: "0".to_string(),
        units: "7".to_string(),
    }
}

#[test]
fn known_pools_resolve() {
    assert_eq!(pool_from_identifier("BTC.BTC"), Some(Pool::BtcBtc));
    assert_eq!(
        pool_from_identifier("ETH.USDC-0XA0B86991C6218B36C1D19D4A2E9EB0CE3606EB48"),
        Some(Pool::EthUsdc)
    );
    assert_eq!(pool_from_identifier("BTC.btc"), None);
    assert_eq!(Pool::BtcBtc.table_name(), "BTCBTC");
    assert_eq!(Pool::EthEth.identifier(), "ETH.ETH");
    assert_eq!(Pool::all().len(), 4);
}

#[test]
fn unknown_pool_is_a_client_error() {
    assert_eq!(plan_depths_query(&query("XRP.XRP", None, None)), Err(QueryError::InvalidPool));
    assert_eq!(plan_depths_query(&query("", None, None)), Err(QueryError::InvalidPool));
}

#[test]
fn paging_defaults_and_offsets() {
    let req = plan_depths_query(&query("ETH.ETH", None, None)).unwrap();
    assert_eq!(req.pool, Pool::EthEth);
    assert_eq!(req.limit, 100);
    assert_eq!(req.offset, 0);
    assert_eq!(req.from, Some(10));
    assert_eq!(req.to, None);
    let req = plan_depths_query(&query("ETH.ETH", Some(3), Some(10))).unwrap();
    assert_eq!(req.limit, 10);
    assert_eq!(req.offset, 20);
}

#[test]
fn average_of_values() {
    let v = vec!["1".to_string(), "2".to_string()];
    assert_eq!(calculate_average(&v), "1.50000000");
    let v = vec!["0.1".to_string(), "x".to_string(), "0.2".to_string()];
    assert_eq!(calculate_average(&v), "0.10000000");
    assert_eq!(calculate_average(&Vec::new()), "0");
    let v = vec!["1".to_string(), "2".to_string(), "2".to_string()];
    assert_eq!(calculate_average(&v), "1.66666667");
    let v = vec!["-1".to_string(), "-2".to_string(), "-2".to_string()];
    assert_eq!(calculate_average(&v), "-1.66666667");
    let v = vec!["0.00000001".to_string(), "0".to_string()];
    assert_eq!(calculate_average(&v), "0.00000001");
}

#[test]
fn page_aggregate_uses_only_the_page() {
    let rows = vec![
        row("7200", "10800", "300", "1.5"),
        row("3600", "7200", "100", "2.5"),
    ];
    let stats = aggregate_page(&rows);
    assert_eq!(stats.avg_asset_depth, "200.00000000");
    assert_eq!(stats.avg_asset_price, "2.00000000");
    assert_eq!(stats.avg_asset_price_usd, "2.00000000");
    assert_eq!(stats.avg_luvi, "0.50000000");
    assert_eq!(stats.avg_members_count, "3.00000000");
    assert_eq!(stats.avg_rune_depth, "1000.00000000");
    assert_eq!(stats.avg_synth_supply, "0.00000000");
    assert_eq!(stats.avg_units, "7.00000000");
    assert_eq!(stats.total_intervals, 2);
    assert_eq!(stats.time_range_start, "3600");
    assert_eq!(stats.time_range_end, "10800");
}

#[test]
fn empty_page_averages_are_zero() {
    let resp = build_depths_response(Vec::new());
    assert!(resp.intervals.is_empty());
    let stats = resp.aggregated_stats;
    assert_eq!(stats.avg_asset_depth, "0");
    assert_eq!(stats.avg_luvi, "0");
    assert_eq!(stats.avg_units, "0");
    assert_eq!(stats.total_intervals, 0);
    assert_eq!(stats.time_range_start, "");
    assert_eq!(stats.time_range_end, "");
}
