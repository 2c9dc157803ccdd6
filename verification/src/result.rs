//! What applying a command gives back to the caller that proposed it.
//!
//! The rows themselves are opaque here: a row is its encoded bytes and a tag
//! that says of which kind it is.

use vstd::prelude::*;

verus! {

/// The kinds of rows.
#[derive(Debug, Clone, Copy, PartialEq, Eq, Structural)]
pub enum IdRowKind {
    Schema,
    Table,
    Partition,
    Chunk,
    Wal,
    Job,
    Source,
    ReplayHandle,
    MultiPartition,
    MultiIndex,
    Index,
}

/// The forms that a result has.
#[derive(Debug, Clone, Copy, PartialEq, Eq, Structural)]
pub enum ResultShape {
    Unit,
    Bool,
    IdRow(IdRowKind),
    OptionalIdRow(IdRowKind),
    IdRowList(IdRowKind),
}

/// What applying a command gave.
#[allow(inconsistent_fields)]
#[derive(Debug, PartialEq, Eq)]
pub enum MetaCommandResult {
    Unit,
    Bool(bool),
    IdRow { kind: IdRowKind, payload: Vec<u8> },
    OptionalIdRow { kind: IdRowKind, payload: Option<Vec<u8>> },
    IdRowList { kind: IdRowKind, payload: Vec<u8> },
}

/// A result of another form than the caller asked for.
#[derive(Debug, Clone, Copy, PartialEq, Eq, Structural)]
pub struct MetaCommandResultMismatch {
    pub expected: ResultShape,
    pub found: ResultShape,
}

/// The form of a result.
pub open spec fn shape_of(r: MetaCommandResult) -> ResultShape {
    match r {
        MetaCommandResult::Unit => ResultShape::Unit,
        MetaCommandResult::Bool(_) => ResultShape::Bool,
        MetaCommandResult::IdRow { kind, .. } => ResultShape::IdRow(kind),
        MetaCommandResult::OptionalIdRow { kind, .. } => ResultShape::OptionalIdRow(kind),
        MetaCommandResult::IdRowList { kind, .. } => ResultShape::IdRowList(kind),
    }
}

/// The form of a result tells what it carries: nothing, a flag, a row, a row or none, or
/// rows, and of which kind.
pub proof fn law_forms(r: MetaCommandResult, kind: IdRowKind)
    ensures
        shape_of(r) is Unit <==> r is Unit,
        shape_of(r) is Bool <==> r is Bool,
        shape_of(r) == ResultShape::IdRow(kind) <==> (r matches MetaCommandResult::IdRow {
            kind: k,
            payload,
        } && k == kind),
        shape_of(r) == ResultShape::OptionalIdRow(kind) <==> (
        r matches MetaCommandResult::OptionalIdRow { kind: k, payload } && k == kind),
        shape_of(r) == ResultShape::IdRowList(kind) <==> (r matches MetaCommandResult::IdRowList {
            kind: k,
            payload,
        } && k == kind),
{
}

impl MetaCommandResult {
    /// The form of the result.
    pub fn shape(&self) -> (r: ResultShape)
        ensures
            r == shape_of(*self),
    {
        match self {
            MetaCommandResult::Unit => ResultShape::Unit,
            MetaCommandResult::Bool(_) => ResultShape::Bool,
            MetaCommandResult::IdRow { kind, .. } => ResultShape::IdRow(*kind),
            MetaCommandResult::OptionalIdRow { kind, .. } => ResultShape::OptionalIdRow(*kind),
            MetaCommandResult::IdRowList { kind, .. } => ResultShape::IdRowList(*kind),
        }
    }

    /// Takes a result that carries nothing.
    pub fn into_unit(self) -> (r: Result<(), MetaCommandResultMismatch>)
        ensures
            match r {
                Ok(_) => self is Unit,
                Err(m) => !(self is Unit) && m == (MetaCommandResultMismatch {
                    expected: ResultShape::Unit,
                    found: shape_of(self),
                }),
            },
    {
        let found: ResultShape = self.shape();
        match self {
            MetaCommandResult::Unit => Ok(()),
            _ => Err(MetaCommandResultMismatch { expected: ResultShape::Unit, found }),
        }
    }

    /// Takes a result that is true or false.
    pub fn into_bool(self) -> (r: Result<bool, MetaCommandResultMismatch>)
        ensures
            match r {
                Ok(v) => self == MetaCommandResult::Bool(v),
                Err(m) => !(self is Bool) && m == (MetaCommandResultMismatch {
                    expected: ResultShape::Bool,
                    found: shape_of(self),
                }),
            },
    {
        let found: ResultShape = self.shape();
        match self {
            MetaCommandResult::Bool(v) => Ok(v),
            _ => Err(MetaCommandResultMismatch { expected: ResultShape::Bool, found }),
        }
    }

    /// Takes a row of the given kind: its encoded bytes.
    pub fn into_id_row(self, kind: IdRowKind) -> (r: Result<Vec<u8>, MetaCommandResultMismatch>)
        ensures
            match r {
                Ok(payload) => self == (MetaCommandResult::IdRow { kind, payload }),
                Err(m) => shape_of(self) != ResultShape::IdRow(kind) && m == (
                MetaCommandResultMismatch {
                    expected: ResultShape::IdRow(kind),
                    found: shape_of(self),
                }),
            },
    {
        let found: ResultShape = self.shape();
        match self {
            MetaCommandResult::IdRow { kind: k, payload } if k == kind => Ok(payload),
            _ => Err(MetaCommandResultMismatch { expected: ResultShape::IdRow(kind), found }),
        }
    }

    /// Takes a row of the given kind that may be absent: its encoded bytes.
    pub fn into_optional_id_row(self, kind: IdRowKind) -> (r: Result<
        Option<Vec<u8>>,
        MetaCommandResultMismatch,
    >)
        ensures
            match r {
                Ok(payload) => self == (MetaCommandResult::OptionalIdRow { kind, payload }),
                Err(m) => shape_of(self) != ResultShape::OptionalIdRow(kind) && m == (
                MetaCommandResultMismatch {
                    expected: ResultShape::OptionalIdRow(kind),
                    found: shape_of(self),
                }),
            },
    {
        let found: ResultShape = self.shape();
        match self {
            MetaCommandResult::OptionalIdRow { kind: k, payload } if k == kind => Ok(payload),
            _ => Err(
                MetaCommandResultMismatch { expected: ResultShape::OptionalIdRow(kind), found },
            ),
        }
    }

    /// Takes rows of the given kind: their encoded bytes.
    pub fn into_id_row_list(self, kind: IdRowKind) -> (r: Result<
        Vec<u8>,
        MetaCommandResultMismatch,
    >)
        ensures
            match r {
                Ok(payload) => self == (MetaCommandResult::IdRowList { kind, payload }),
                Err(m) => shape_of(self) != ResultShape::IdRowList(kind) && m == (
                MetaCommandResultMismatch {
                    expected: ResultShape::IdRowList(kind),
                    found: shape_of(self),
                }),
            },
    {
        let found: ResultShape = self.shape();
        match self {
            MetaCommandResult::IdRowList { kind: k, payload } if k == kind => Ok(payload),
            _ => Err(MetaCommandResultMismatch { expected: ResultShape::IdRowList(kind), found }),
        }
    }
}

// ---------------------------------------------------------------------------
// Words
// ---------------------------------------------------------------------------

pub open spec fn kind_name(kind: IdRowKind) -> Seq<char> {
    match kind {
        IdRowKind::Schema => "Schema"@,
        IdRowKind::Table => "Table"@,
        IdRowKind::Partition => "Partition"@,
        IdRowKind::Chunk => "Chunk"@,
        IdRowKind::Wal => "Wal"@,
        IdRowKind::Job => "Job"@,
        IdRowKind::Source => "Source"@,
        IdRowKind::ReplayHandle => "ReplayHandle"@,
        IdRowKind::MultiPartition => "MultiPartition"@,
        IdRowKind::MultiIndex => "MultiIndex"@,
        IdRowKind::Index => "Index"@,
    }
}

impl IdRowKind {
    /// The kind in words.
    pub fn name(&self) -> (r: &'static str)
        ensures
            r@ == kind_name(*self),
    {
        match self {
            IdRowKind::Schema => "Schema",
            IdRowKind::Table => "Table",
            IdRowKind::Partition => "Partition",
            IdRowKind::Chunk => "Chunk",
            IdRowKind::Wal => "Wal",
            IdRowKind::Job => "Job",
            IdRowKind::Source => "Source",
            IdRowKind::ReplayHandle => "ReplayHandle",
            IdRowKind::MultiPartition => "MultiPartition",
            IdRowKind::MultiIndex => "MultiIndex",
            IdRowKind::Index => "Index",
        }
    }
}

pub open spec fn shape_name(shape: ResultShape) -> Seq<char> {
    match shape {
        ResultShape::Unit => "Unit"@,
        ResultShape::Bool => "Bool"@,
        ResultShape::IdRow(kind) => "IdRow<"@ + kind_name(kind) + ">"@,
        ResultShape::OptionalIdRow(kind) => "OptionalIdRow<"@ + kind_name(kind) + ">"@,
        ResultShape::IdRowList(kind) => "IdRowList<"@ + kind_name(kind) + ">"@,
    }
}

impl ResultShape {
    fn push_name(&self, s: &mut String)
        ensures
            final(s)@ == old(s)@ + shape_name(*self),
    {
        match self {
            ResultShape::Unit => s.push_str("Unit"),
            ResultShape::Bool => s.push_str("Bool"),
            ResultShape::IdRow(kind) => {
                s.push_str("IdRow<");
                s.push_str(kind.name());
                s.push_str(">");
            },
            ResultShape::OptionalIdRow(kind) => {
                s.push_str("OptionalIdRow<");
                s.push_str(kind.name());
                s.push_str(">");
            },
            ResultShape::IdRowList(kind) => {
                s.push_str("IdRowList<");
                s.push_str(kind.name());
                s.push_str(">");
            },
        }
        assert(s@ =~= old(s)@ + shape_name(*self));
    }
}

pub open spec fn mismatch_message(m: MetaCommandResultMismatch) -> Seq<char> {
    "expected "@ + shape_name(m.expected) + ", found "@ + shape_name(m.found)
}

impl MetaCommandResultMismatch {
    /// The mismatch in words.
    pub fn message(&self) -> (r: String)
        ensures
            r@ == mismatch_message(*self),
    {
        let mut s: String = "expected ".to_owned();
        self.expected.push_name(&mut s);
        s.push_str(", found ");
        self.found.push_name(&mut s);
        s
    }
}

} // verus!
