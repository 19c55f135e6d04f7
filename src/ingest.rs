use vstd::prelude::*;
use crate::store::{applied, Datum, Group, GroupWrite, RowModel, StoreError};
use crate::window::Window;

verus! {

/// Where the processing of one pool in one window stands.
#[derive(Clone, Copy, Debug, PartialEq, Eq, Structural)]
pub enum PoolStage {
    Start,
    BaseFetched,
    SwapUpdated,
    /// All three groups are written; completing the record leads to `Done`.
    DepthUpdated,
    Done,
    /// The pool is absent from the window's earnings: nothing is written.
    Skipped,
    /// A fetch or a write of this group failed; the pool is abandoned for
    /// this window.
    Failed(Group),
}

/// The outcome of the work a stage asked for.
#[derive(Clone, Copy, Debug, PartialEq, Eq, Structural)]
pub enum StepOutcome {
    /// The pool has no entry in the window's earnings payload.
    PoolAbsent,
    Written,
    Failed,
}

/// The group a stage writes next, if any.
pub open spec fn stage_group(s: PoolStage) -> Option<Group> {
    match s {
        PoolStage::Start => Some(Group::Base),
        PoolStage::BaseFetched => Some(Group::Swap),
        PoolStage::SwapUpdated => Some(Group::Depth),
        _ => None,
    }
}

pub open spec fn stage_after(s: PoolStage, o: StepOutcome) -> PoolStage {
    match (s, o) {
        (PoolStage::Start, StepOutcome::PoolAbsent) => PoolStage::Skipped,
        (PoolStage::Start, StepOutcome::Written) => PoolStage::BaseFetched,
        (PoolStage::BaseFetched, StepOutcome::Written) => PoolStage::SwapUpdated,
        (PoolStage::SwapUpdated, StepOutcome::Written) => PoolStage::DepthUpdated,
        (PoolStage::DepthUpdated, StepOutcome::Written) => PoolStage::Done,
        (_, StepOutcome::Failed) => match stage_group(s) {
            Some(g) => PoolStage::Failed(g),
            None => s,
        },
        _ => s,
    }
}

impl PoolStage {
    /// The group this stage writes next; `None` once the pool is finished
    /// for the window.
    pub fn pending_group(&self) -> (r: Option<Group>)
        ensures
            r == stage_group(*self),
    {
        match self {
            PoolStage::Start => Some(Group::Base),
            PoolStage::BaseFetched => Some(Group::Swap),
            PoolStage::SwapUpdated => Some(Group::Depth),
            _ => None,
        }
    }

    /// Whether nothing more is to be done for the pool in this window.
    pub fn is_finished(&self) -> (r: bool)
        ensures
            r == (stage_group(*self) is None && *self != PoolStage::DepthUpdated),
    {
        match self {
            PoolStage::Done | PoolStage::Skipped | PoolStage::Failed(_) => true,
            _ => false,
        }
    }

    /// The stage that follows the outcome of the pending work. A failure
    /// abandons the pool for the window; a finished stage stays as it is.
    pub fn advance(&self, o: StepOutcome) -> (r: PoolStage)
        ensures
            r == stage_after(*self, o),
    {
        match (*self, o) {
            (PoolStage::Start, StepOutcome::PoolAbsent) => PoolStage::Skipped,
            (PoolStage::Start, StepOutcome::Written) => PoolStage::BaseFetched,
            (PoolStage::BaseFetched, StepOutcome::Written) => PoolStage::SwapUpdated,
            (PoolStage::SwapUpdated, StepOutcome::Written) => PoolStage::DepthUpdated,
            (PoolStage::DepthUpdated, StepOutcome::Written) => PoolStage::Done,
            (_, StepOutcome::Failed) => match self.pending_group() {
                Some(g) => PoolStage::Failed(g),
                None => *self,
            },
            _ => *self,
        }
    }
}

/// The group writes for one pool and window: none where the pool has no
/// base values in the window, else base, swap and depth in that order.
pub open spec fn writes_model(base: Option<Seq<Datum>>, swap: Seq<Datum>, depth: Seq<Datum>) -> Seq<
    (Group, Seq<Datum>),
> {
    match base {
        None => Seq::empty(),
        Some(b) => seq![(Group::Base, b), (Group::Swap, swap), (Group::Depth, depth)],
    }
}

/// A pool's stored series, keyed by window.
pub type SeriesModel = Map<Window, RowModel>;

/// The series after one group write; a refused write leaves it unchanged.
pub open spec fn store_write(m: SeriesModel, w: Window, g: Group, v: Seq<Datum>) -> SeriesModel {
    let existing = if m.contains_key(w) {
        Some(m[w])
    } else {
        None
    };
    match applied(existing, g, v) {
        Ok(row) => m.insert(w, row),
        Err(_) => m,
    }
}

pub open spec fn store_writes(m: SeriesModel, w: Window, ws: Seq<(Group, Seq<Datum>)>) -> SeriesModel
    decreases ws.len(),
{
    if ws.len() == 0 {
        m
    } else {
        store_write(store_writes(m, w, ws.drop_last()), w, ws.last().0, ws.last().1)
    }
}

/// The series after ingesting one window for a pool.
pub open spec fn ingest_model(
    m: SeriesModel,
    w: Window,
    base: Option<Seq<Datum>>,
    swap: Seq<Datum>,
    depth: Seq<Datum>,
) -> SeriesModel {
    store_writes(m, w, writes_model(base, swap, depth))
}

pub open spec fn write_view(w: GroupWrite) -> (Group, Seq<Datum>) {
    (w.group, w.values@)
}

/// The group writes for one pool and window, in the order they are made.
pub fn planned_writes(base: Option<Vec<Datum>>, swap: Vec<Datum>, depth: Vec<Datum>) -> (r: Vec<
    GroupWrite,
>)
    ensures
        r@.map_values(|w: GroupWrite| write_view(w)) == writes_model(
            match base {
                Some(b) => Some(b@),
                None => None,
            },
            swap@,
            depth@,
        ),
{
    match base {
        None => {
            let r: Vec<GroupWrite> = Vec::new();
            assert(r@.map_values(|w: GroupWrite| write_view(w)) =~= Seq::empty());
            r
        },
        Some(b) => {
            let r = vec![
                GroupWrite { group: Group::Base, values: b },
                GroupWrite { group: Group::Swap, values: swap },
                GroupWrite { group: Group::Depth, values: depth },
            ];
            assert(r@.map_values(|w: GroupWrite| write_view(w)) =~= writes_model(
                Some(b@),
                swap@,
                depth@,
            ));
            r
        },
    }
}

/// Ingesting the same window twice with the same upstream values leaves
/// the pool's series as ingesting it once did.
pub proof fn lemma_ingestion_idempotent(
    m: SeriesModel,
    w: Window,
    base: Option<Seq<Datum>>,
    swap: Seq<Datum>,
    depth: Seq<Datum>,
)
    ensures
        ingest_model(ingest_model(m, w, base, swap, depth), w, base, swap, depth) == ingest_model(
            m,
            w,
            base,
            swap,
            depth,
        ),
{
    let ws = writes_model(base, swap, depth);
    reveal_with_fuel(store_writes, 4);
    if let Some(b) = base {
        assert(ws.drop_last().drop_last().drop_last() =~= Seq::<(Group, Seq<Datum>)>::empty());
        assert(ws.drop_last().drop_last().last() == (Group::Base, b));
        assert(ws.drop_last().last() == (Group::Swap, swap));
        assert(ws.last() == (Group::Depth, depth));
        let once = ingest_model(m, w, base, swap, depth);
        let twice = ingest_model(once, w, base, swap, depth);
        assert(once.contains_key(w));
        assert(twice =~= once);
    }
}

/// Once a window is ingested for a pool present in it, the pool's record
/// for the window is complete and holds that window's swap and depth values.
pub proof fn lemma_ingested_record_complete(
    m: SeriesModel,
    w: Window,
    base: Seq<Datum>,
    swap: Seq<Datum>,
    depth: Seq<Datum>,
)
    ensures
        ({
            let after = ingest_model(m, w, Some(base), swap, depth);
            &&& after.contains_key(w)
            &&& after[w].is_complete()
            &&& after[w].swap == Some(swap)
            &&& after[w].depth == Some(depth)
            &&& m.contains_key(w) ==> after[w].base == m[w].base
            &&& !m.contains_key(w) ==> after[w].base == base
        }),
{
    let ws = writes_model(Some(base), swap, depth);
    reveal_with_fuel(store_writes, 4);
    assert(ws.drop_last().drop_last().drop_last() =~= Seq::<(Group, Seq<Datum>)>::empty());
    assert(ws.drop_last().drop_last().last() == (Group::Base, base));
    assert(ws.drop_last().last() == (Group::Swap, swap));
    assert(ws.last() == (Group::Depth, depth));
}

/// A swap or depth write before the record's base row exists is refused
/// and creates no record.
pub proof fn lemma_group_write_needs_base(m: SeriesModel, w: Window, g: Group, v: Seq<Datum>)
    requires
        !m.contains_key(w),
        g != Group::Base,
    ensures
        applied(None, g, v) == Err::<RowModel, StoreError>(StoreError::MissingBaseRow(g)),
        store_write(m, w, g, v) == m,
{
}

} // verus!
