use vstd::prelude::*;
use crate::window::Window;

verus! {

/// One stored value of a record.
#[derive(Clone, Copy, Debug, PartialEq, Eq, Structural)]
pub enum Datum {
    Integer(i64),
    /// A fixed-point value with eight fractional digits.
    Decimal(i128),
}

/// The three groups of columns of a pool record, each written on its own.
#[derive(Clone, Copy, Debug, PartialEq, Eq, Structural)]
pub enum Group {
    Base,
    Swap,
    Depth,
}

/// A write of one group of a pool record for one window.
#[derive(Clone, Debug)]
pub struct GroupWrite {
    pub group: Group,
    pub values: Vec<Datum>,
}

/// A stored pool record: the base group is written when the record is
/// created; the swap and depth groups are filled in later.
#[derive(Clone, Debug)]
pub struct PoolRow {
    pub base: Vec<Datum>,
    pub swap: Option<Vec<Datum>>,
    pub depth: Option<Vec<Datum>>,
}

/// Why a group write was refused.
#[derive(Clone, Copy, Debug, PartialEq, Eq, Structural)]
pub enum StoreError {
    /// A swap or depth write came before the record's base row existed.
    MissingBaseRow(Group),
}

/// What a stored record holds.
pub struct RowModel {
    pub base: Seq<Datum>,
    pub swap: Option<Seq<Datum>>,
    pub depth: Option<Seq<Datum>>,
}

impl RowModel {
    /// A record is complete once all three groups have been written.
    pub open spec fn is_complete(&self) -> bool {
        self.swap is Some && self.depth is Some
    }
}

pub open spec fn opt_view(v: Option<Vec<Datum>>) -> Option<Seq<Datum>> {
    match v {
        Some(x) => Some(x@),
        None => None,
    }
}

impl PoolRow {
    pub open spec fn model(&self) -> RowModel {
        RowModel { base: self.base@, swap: opt_view(self.swap), depth: opt_view(self.depth) }
    }
}

/// The record after a group write, or the refusal: a base write creates
/// the record and leaves an existing one as it is; a swap or depth write
/// replaces its own group of an existing record, and is refused where there
/// is none.
pub open spec fn applied(existing: Option<RowModel>, group: Group, values: Seq<Datum>) -> Result<
    RowModel,
    StoreError,
> {
    match existing {
        None => match group {
            Group::Base => Ok(RowModel { base: values, swap: None, depth: None }),
            _ => Err(StoreError::MissingBaseRow(group)),
        },
        Some(row) => match group {
            Group::Base => Ok(row),
            Group::Swap => Ok(RowModel { swap: Some(values), ..row }),
            Group::Depth => Ok(RowModel { depth: Some(values), ..row }),
        },
    }
}

pub open spec fn opt_model(r: Option<PoolRow>) -> Option<RowModel> {
    match r {
        Some(x) => Some(x.model()),
        None => None,
    }
}

/// Applies one group write to the record stored under its key, if any.
pub fn apply_group_write(existing: Option<PoolRow>, w: GroupWrite) -> (r: Result<PoolRow, StoreError>)
    ensures
        match (r, applied(opt_model(existing), w.group, w.values@)) {
            (Ok(row), Ok(m)) => row.model() == m,
            (Err(e), Err(f)) => e == f,
            _ => false,
        },
{
    match existing {
        None => match w.group {
            Group::Base => Ok(PoolRow { base: w.values, swap: None, depth: None }),
            Group::Swap => Err(StoreError::MissingBaseRow(Group::Swap)),
            Group::Depth => Err(StoreError::MissingBaseRow(Group::Depth)),
        },
        Some(row) => match w.group {
            Group::Base => Ok(row),
            Group::Swap => Ok(PoolRow { swap: Some(w.values), ..row }),
            Group::Depth => Ok(PoolRow { depth: Some(w.values), ..row }),
        },
    }
}

/// What a group write does to the store, given whether its key already
/// has a record.
#[derive(Clone, Copy, Debug, PartialEq, Eq, Structural)]
pub enum WriteAction {
    /// Insert a new record holding the base group.
    Insert,
    /// Leave the existing record as it is.
    Keep,
    /// Overwrite this group's columns of the existing record.
    Update(Group),
}

pub open spec fn record_if(exists: bool, row: RowModel) -> Option<RowModel> {
    if exists {
        Some(row)
    } else {
        None
    }
}

/// The action for a group write on a key that does or does not hold a
/// record; it agrees with `applied` on every record.
pub fn write_action(exists: bool, group: Group) -> (r: Result<WriteAction, StoreError>)
    ensures
        r == (match (exists, group) {
            (false, Group::Base) => Ok(WriteAction::Insert),
            (false, g) => Err(StoreError::MissingBaseRow(g)),
            (true, Group::Base) => Ok(WriteAction::Keep),
            (true, g) => Ok(WriteAction::Update(g)),
        }),
        forall|row: RowModel, v: Seq<Datum>|
            (#[trigger] applied(record_if(exists, row), group, v)) is Err <==> r is Err,
{
    match (exists, group) {
        (false, Group::Base) => Ok(WriteAction::Insert),
        (false, g) => Err(StoreError::MissingBaseRow(g)),
        (true, Group::Base) => Ok(WriteAction::Keep),
        (true, g) => Ok(WriteAction::Update(g)),
    }
}

} // verus!
