use vstd::prelude::*;

verus! {

/// Length of one window, in seconds.
pub const HOUR_SECS: i64 = 3600;

/// Start of the hour that contains `ts` (seconds since the UNIX epoch, UTC).
pub open spec fn hour_floor(ts: int) -> int {
    ts - ts % 3600
}

/// A half-open, hour-aligned interval `[start_time, end_time)` of UNIX seconds.
#[derive(Clone, Copy, Debug, PartialEq, Eq, Structural)]
pub struct Window {
    pub start_time: i64,
    pub end_time: i64,
}

impl Window {
    /// The window starts on an hour boundary and is exactly one hour wide.
    pub open spec fn wf(&self) -> bool {
        &&& self.start_time % 3600 == 0
        &&& self.end_time == self.start_time + 3600
    }
}

/// The window of the last hour completed at instant `ts`.
pub open spec fn completed_window_at(ts: int) -> Window {
    Window {
        start_time: (hour_floor(ts) - 3600) as i64,
        end_time: hour_floor(ts) as i64,
    }
}

/// Number of windows a backfill from `start` to `end` covers: one per hour
/// begun in `[start, end)`.
pub open spec fn backfill_count(start: int, end: int) -> nat {
    if end <= start {
        0
    } else {
        ((end - start + 3599) / 3600) as nat
    }
}

/// The `i`-th window of a backfill that starts at instant `start`.
pub open spec fn backfill_window(start: int, i: int) -> Window {
    completed_window_at(start + i * 3600)
}

/// Truncates a UNIX timestamp to the start of its hour.
pub fn truncate_to_hour(ts: i64) -> (r: i64)
    requires
        ts >= i64::MIN + HOUR_SECS,
    ensures
        r as int == hour_floor(ts as int),
{
    let m: i64 = ts % HOUR_SECS;
    if m < 0 {
        ts - m - HOUR_SECS
    } else {
        ts - m
    }
}

/// The most recently completed hour relative to the instant `now`.
pub fn last_completed_window(now: i64) -> (r: Window)
    requires
        now >= i64::MIN + 2 * HOUR_SECS,
    ensures
        r == completed_window_at(now as int),
        r.wf(),
{
    let end = truncate_to_hour(now);
    Window { start_time: end - HOUR_SECS, end_time: end }
}

proof fn lemma_shift_floor(t: int, k: int)
    ensures
        hour_floor(t + k * 3600) == hour_floor(t) + k * 3600,
{
    assert((t + k * 3600) % 3600 == t % 3600) by (nonlinear_arith);
}

proof fn lemma_count_step(start: int, end: int, k: int)
    requires
        k >= 0,
        start + k * 3600 >= end,
        start + (k - 1) * 3600 < end,
    ensures
        backfill_count(start, end) == k,
{
    if end > start {
        assert((end - start + 3599) / 3600 == k) by (nonlinear_arith)
            requires
                k * 3600 >= end - start,
                (k - 1) * 3600 < end - start,
                end - start > 0,
        ;
    }
}

/// The windows of a backfill from `start` to `end`: one for each reference
/// instant `start + k*1h` before `end`, each the hour last completed at it.
pub fn backfill_windows(start: i64, end: i64) -> (r: Vec<Window>)
    requires
        start >= i64::MIN + 2 * HOUR_SECS,
        end <= i64::MAX - HOUR_SECS,
    ensures
        r@.len() == backfill_count(start as int, end as int),
        forall|i: int| 0 <= i < r@.len() ==> #[trigger] r@[i] == backfill_window(start as int, i),
        forall|i: int| 0 <= i < r@.len() ==> (#[trigger] r@[i]).wf(),
        forall|i: int|
            0 <= i < r@.len() - 1 ==> (#[trigger] r@[i]).end_time == r@[i + 1].start_time,
        forall|i: int, j: int|
            0 <= i < j < r@.len() ==> (#[trigger] r@[i]).start_time < (#[trigger] r@[j]).start_time,
{
    let mut out: Vec<Window> = Vec::new();
    let mut t: i64 = start;
    while t < end
        invariant
            start >= i64::MIN + 2 * HOUR_SECS,
            end <= i64::MAX - HOUR_SECS,
            t == start + out@.len() * 3600,
            start <= t,
            out@.len() == 0 || t - 3600 < end,
            forall|i: int| 0 <= i < out@.len() ==> #[trigger] out@[i] == backfill_window(start as int, i),
        decreases end as int + 3600 - t as int,
    {
        let w = last_completed_window(t);
        out.push(w);
        t = t + HOUR_SECS;
    }
    proof {
        let n = out@.len() as int;
        if n == 0 {
            assert(backfill_count(start as int, end as int) == 0);
        } else {
            lemma_count_step(start as int, end as int, n);
        }
        assert forall|i: int| 0 <= i < n implies (#[trigger] out@[i]).wf() by {
            lemma_shift_floor(start as int, i);
            assert(hour_floor(start as int) % 3600 == 0);
            assert((hour_floor(start as int) + i * 3600 - 3600) % 3600 == 0) by (nonlinear_arith)
                requires hour_floor(start as int) % 3600 == 0;
        }
        assert forall|i: int| 0 <= i < n - 1 implies (#[trigger] out@[i]).end_time == out@[i + 1].start_time by {
            lemma_shift_floor(start as int, i);
            lemma_shift_floor(start as int, i + 1);
            assert((i + 1) * 3600 == i * 3600 + 3600) by (nonlinear_arith);
        }
        assert forall|i: int, j: int| 0 <= i < j < n implies (#[trigger] out@[i]).start_time < (
        #[trigger] out@[j]).start_time by {
            lemma_shift_floor(start as int, i);
            lemma_shift_floor(start as int, j);
            assert(i * 3600 < j * 3600) by (nonlinear_arith)
                requires i < j;
        }
    }
    out
}

/// The UTC calendar date and time of a UNIX timestamp, written
/// `YYYY-MM-DD HH:MM:SS`.
pub uninterp spec fn utc_datetime_text(ts: int) -> Seq<char>;

/// Relies on chrono's DateTime::from_timestamp and its `%Y-%m-%d %H:%M:%S`
/// formatting; `None` only where the timestamp is out of chrono's range,
/// which spans more than the years -250000 to 250000.
#[verifier::external_body]
fn datetime_text(ts: i64) -> (r: Option<String>)
    ensures
        r matches Some(s) ==> s@ == utc_datetime_text(ts as int),
        -8_000_000_000_000 <= ts <= 8_000_000_000_000 ==> r is Some,
{
    match chrono::DateTime::from_timestamp(ts, 0) {
        Some(d) => Some(d.format("%Y-%m-%d %H:%M:%S").to_string()),
        None => None,
    }
}

/// The texts a window is stored under: its start and its end as UTC date
/// and time; `None` only where either is out of the calendar's range.
pub fn window_key_texts(w: Window) -> (r: Option<(String, String)>)
    ensures
        r matches Some(k) ==> k.0@ == utc_datetime_text(w.start_time as int) && k.1@
            == utc_datetime_text(w.end_time as int),
        -8_000_000_000_000 <= w.start_time <= 8_000_000_000_000 && -8_000_000_000_000
            <= w.end_time <= 8_000_000_000_000 ==> r is Some,
{
    let start = datetime_text(w.start_time)?;
    let end = datetime_text(w.end_time)?;
    Some((start, end))
}

} // verus!
