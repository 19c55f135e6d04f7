//! Ingestion and read-side logic for hourly liquidity metrics of a fixed set
//! of trading pools: window sequencing, tolerant decoding of upstream
//! payloads into fixed-point values, the rules of group writes into the
//! per-pool series, and paginated aggregation of stored depth rows.

/// Decoding of loosely typed payload fields.
pub mod decode;
/// Response acceptance and pacing of upstream calls.
pub mod fetch;
/// The per-pool, per-window ingestion stages and their laws.
pub mod ingest;
/// Access to JSON payloads.
pub mod json;
/// Field schemas and the assembly of records from payloads.
pub mod metrics;
/// Decimal text: integers and eight-digit fixed point.
pub mod numeric;
/// The static pool mapping.
pub mod pools;
/// Read requests and page aggregation.
pub mod query;
/// Semantics of group writes into the per-pool series.
pub mod store;
/// Hour-aligned time windows.
pub mod window;
