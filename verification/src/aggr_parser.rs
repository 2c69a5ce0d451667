//! Building a MAX or MIN aggregate function from its definition.

use vstd::prelude::*;
use core::marker::PhantomData;
use crate::collation::{
    Collation, CollatorBinary, CollatorUtf8Mb4Bin, CollatorUtf8Mb4BinNoPadding,
};
use crate::extremum::{
    AggFnStateExtremum, AggFnStateExtremum4Bytes, EvalContext, EvalError, EvalType, ExprType,
    Extremum,
};

verus! {

/// The types that a field may be declared with.
#[derive(Clone, Copy, Debug, PartialEq, Eq, Structural)]
pub enum FieldTypeTp {
    Unspecified,
    Tiny,
    Short,
    Long,
    Float,
    Double,
    Null,
    Timestamp,
    LongLong,
    Int24,
    Date,
    Duration,
    DateTime,
    Year,
    NewDate,
    VarChar,
    Bit,
    JSON,
    NewDecimal,
    Enum,
    SetType,
    TinyBlob,
    MediumBlob,
    LongBlob,
    Blob,
    VarString,
    String,
    Geometry,
}

/// The declared type of a field.
#[derive(Clone, Copy, Debug, PartialEq, Eq, Structural)]
pub struct FieldType {
    pub tp: FieldTypeTp,
    pub collation: Collation,
}

/// A reference to a column of the source, the one argument that MAX and
/// MIN are given.
#[derive(Clone, Copy, Debug, PartialEq, Eq, Structural)]
pub struct ColumnRef {
    pub offset: usize,
    pub field_type: FieldType,
}

/// The definition of an aggregate function: which function, what it
/// returns, and its arguments.
#[derive(Debug)]
pub struct AggrDefinition {
    pub tp: ExprType,
    pub field_type: FieldType,
    pub children: Vec<ColumnRef>,
}

/// What an aggregate function compares: values of one evaluation type
/// and, for byte strings, under one collation.
#[derive(Clone, Copy, Debug, PartialEq, Eq, Structural)]
pub struct FunctionKind {
    pub eval_type: EvalType,
    pub collation: Option<Collation>,
}

impl FunctionKind {
    /// Whether this library holds a state for the kind: for integers, and
    /// for byte strings under the collations that compare byte by byte.
    /// The case-insensitive collation needs weights that the library does
    /// not hold; a state under it is made with the weights at hand.
    pub open spec fn has_state(self) -> bool {
        match self.eval_type {
            EvalType::Int => true,
            EvalType::Bytes => match self.collation {
                Some(Collation::Binary) => true,
                Some(Collation::Utf8Mb4Bin) => true,
                Some(Collation::Utf8Mb4BinNoPadding) => true,
                _ => false,
            },
            _ => false,
        }
    }
}

/// The aggregate function that serves a definition: the extremum `T` of
/// values of one kind.
#[derive(Debug, PartialEq, Eq)]
pub struct ExtremumFunction<T: Extremum> {
    pub kind: FunctionKind,
    pub direction: PhantomData<T>,
}

/// A state of an aggregate function, for each kind of values that this
/// library holds a state for.
#[derive(Debug)]
pub enum ExtremumState<E: Extremum> {
    Int(AggFnStateExtremum<E>),
    Binary(AggFnStateExtremum4Bytes<CollatorBinary, E>),
    Utf8Mb4Bin(AggFnStateExtremum4Bytes<CollatorUtf8Mb4Bin, E>),
    Utf8Mb4BinNoPadding(AggFnStateExtremum4Bytes<CollatorUtf8Mb4BinNoPadding, E>),
}

impl<E: Extremum> ExtremumState<E> {
    /// The kind of values that the state takes.
    pub open spec fn kind(self) -> FunctionKind {
        match self {
            ExtremumState::Int(_) => FunctionKind { eval_type: EvalType::Int, collation: None },
            ExtremumState::Binary(_) => FunctionKind {
                eval_type: EvalType::Bytes,
                collation: Some(Collation::Binary),
            },
            ExtremumState::Utf8Mb4Bin(_) => FunctionKind {
                eval_type: EvalType::Bytes,
                collation: Some(Collation::Utf8Mb4Bin),
            },
            ExtremumState::Utf8Mb4BinNoPadding(_) => FunctionKind {
                eval_type: EvalType::Bytes,
                collation: Some(Collation::Utf8Mb4BinNoPadding),
            },
        }
    }

    /// Whether the state has seen no value: it then yields no value.
    pub open spec fn is_fresh(self) -> bool {
        match self {
            ExtremumState::Int(s) => s.held().is_none(),
            ExtremumState::Binary(s) => s.held().is_none(),
            ExtremumState::Utf8Mb4Bin(s) => s.held().is_none(),
            ExtremumState::Utf8Mb4BinNoPadding(s) => s.held().is_none(),
        }
    }
}

impl<T: Extremum> ExtremumFunction<T> {
    /// A state of the function that has seen no value. It takes values of
    /// the kind of the function and holds their extremum `T`: each of its
    /// variants is a state whose direction is that of `T`. There is none
    /// exactly where this library holds no state for the kind.
    pub fn create_state(&self) -> (state: Option<ExtremumState<T>>)
        ensures
            match state {
                Some(s) => {
                    &&& self.kind.has_state()
                    &&& s.is_fresh()
                    &&& if self.kind.eval_type == EvalType::Int {
                        s is Int
                    } else {
                        s.kind() == self.kind
                    }
                },
                None => !self.kind.has_state(),
            },
    {
        match self.kind.eval_type {
            EvalType::Int => Some(ExtremumState::Int(AggFnStateExtremum::new())),
            EvalType::Bytes => match self.kind.collation {
                Some(Collation::Binary) => Some(
                    ExtremumState::Binary(AggFnStateExtremum4Bytes::new()),
                ),
                Some(Collation::Utf8Mb4Bin) => Some(
                    ExtremumState::Utf8Mb4Bin(AggFnStateExtremum4Bytes::new()),
                ),
                Some(Collation::Utf8Mb4BinNoPadding) => Some(
                    ExtremumState::Utf8Mb4BinNoPadding(AggFnStateExtremum4Bytes::new()),
                ),
                _ => None,
            },
            _ => None,
        }
    }
}

/// The type in which values of the field type `tp` are evaluated, for the
/// field types that have one.
pub open spec fn eval_type_of(tp: FieldTypeTp) -> Option<EvalType> {
    match tp {
        FieldTypeTp::Tiny | FieldTypeTp::Short | FieldTypeTp::Int24 | FieldTypeTp::Long
        | FieldTypeTp::LongLong | FieldTypeTp::Year => Some(EvalType::Int),
        FieldTypeTp::Float | FieldTypeTp::Double => Some(EvalType::Real),
        FieldTypeTp::NewDecimal => Some(EvalType::Decimal),
        FieldTypeTp::Timestamp | FieldTypeTp::Date | FieldTypeTp::DateTime => Some(
            EvalType::DateTime,
        ),
        FieldTypeTp::Duration => Some(EvalType::Duration),
        FieldTypeTp::JSON => Some(EvalType::Json),
        FieldTypeTp::VarChar | FieldTypeTp::TinyBlob | FieldTypeTp::MediumBlob
        | FieldTypeTp::LongBlob | FieldTypeTp::Blob | FieldTypeTp::VarString
        | FieldTypeTp::String => Some(EvalType::Bytes),
        _ => None,
    }
}

/// The type in which values of the field type `tp` are evaluated; fails
/// with [`EvalError::UnsupportedType`] for a field type that has none.
pub fn eval_type(tp: FieldTypeTp) -> (found: Result<EvalType, EvalError>)
    ensures
        match found {
            Ok(t) => eval_type_of(tp) == Some(t),
            Err(e) => eval_type_of(tp).is_none() && e == EvalError::UnsupportedType,
        },
{
    match tp {
        FieldTypeTp::Tiny | FieldTypeTp::Short | FieldTypeTp::Int24 | FieldTypeTp::Long
        | FieldTypeTp::LongLong | FieldTypeTp::Year => Ok(EvalType::Int),
        FieldTypeTp::Float | FieldTypeTp::Double => Ok(EvalType::Real),
        FieldTypeTp::NewDecimal => Ok(EvalType::Decimal),
        FieldTypeTp::Timestamp | FieldTypeTp::Date | FieldTypeTp::DateTime => Ok(
            EvalType::DateTime,
        ),
        FieldTypeTp::Duration => Ok(EvalType::Duration),
        FieldTypeTp::JSON => Ok(EvalType::Json),
        FieldTypeTp::VarChar | FieldTypeTp::TinyBlob | FieldTypeTp::MediumBlob
        | FieldTypeTp::LongBlob | FieldTypeTp::Blob | FieldTypeTp::VarString
        | FieldTypeTp::String => Ok(EvalType::Bytes),
        _ => Err(EvalError::UnsupportedType),
    }
}

/// Whether a definition is one that the parser accepts: exactly one
/// argument, of a field type that has an evaluation type.
pub open spec fn supported(children: Seq<ColumnRef>) -> Result<(), EvalError> {
    if children.len() != 1 {
        Err(EvalError::UnsupportedArity)
    } else if eval_type_of(children[0].field_type.tp).is_none() {
        Err(EvalError::UnsupportedType)
    } else {
        Ok(())
    }
}

/// What parsing a definition yields, and what it appends to the output
/// schema and to the output expressions on the way.
pub struct Parsed {
    pub function: Result<FunctionKind, EvalError>,
    pub schema: Seq<FieldType>,
    pub expressions: Seq<ColumnRef>,
}

/// The outcome of parsing a definition that returns `out` and has the
/// argument `child`, over a source of `columns` columns: what is returned,
/// and what is appended.
///
/// The declared return type must have an evaluation type, the same as the
/// argument. Then the return type is appended to the schema; the argument
/// must refer to a column of the source, and is then appended to the
/// expressions.
pub open spec fn parsed(out: FieldType, child: ColumnRef, columns: nat) -> Parsed {
    match eval_type_of(out.tp) {
        None => Parsed {
            function: Err(EvalError::UnsupportedType),
            schema: Seq::empty(),
            expressions: Seq::empty(),
        },
        Some(out_et) => if Some(out_et) != eval_type_of(child.field_type.tp) {
            Parsed {
                function: Err(EvalError::UnexpectedReturnType),
                schema: Seq::empty(),
                expressions: Seq::empty(),
            }
        } else if child.offset >= columns {
            Parsed {
                function: Err(EvalError::ColumnOutOfRange),
                schema: seq![out],
                expressions: Seq::empty(),
            }
        } else {
            Parsed {
                function: Ok(
                    FunctionKind {
                        eval_type: out_et,
                        collation: if out_et == EvalType::Bytes {
                            Some(out.collation)
                        } else {
                            None
                        },
                    },
                ),
                schema: seq![out],
                expressions: seq![child],
            }
        },
    }
}

/// The parser for the MAX and MIN aggregate functions.
pub struct AggrFnDefinitionParserExtremum<T: Extremum>(PhantomData<T>);

impl<T: Extremum> AggrFnDefinitionParserExtremum<T> {
    pub fn new() -> (parser: Self) {
        AggrFnDefinitionParserExtremum(PhantomData)
    }

    /// Whether the parser accepts `aggr_def`, which must define the
    /// function that the parser is for.
    pub fn check_supported(&self, aggr_def: &AggrDefinition) -> (checked: Result<(), EvalError>)
        requires
            aggr_def.tp == T::spec_tp(),
        ensures
            checked == supported(aggr_def.children@),
    {
        if aggr_def.children.len() != 1 {
            return Err(EvalError::UnsupportedArity);
        }
        match eval_type(aggr_def.children[0].field_type.tp) {
            Ok(_) => Ok(()),
            Err(e) => Err(e),
        }
    }

    /// Parses `aggr_def`, which must define the function that the parser
    /// is for and have a first argument of a field type that has an
    /// evaluation type. On success the function that serves the
    /// definition is returned, the extremum `T` of values of the
    /// argument's type; its return type is appended to `out_schema` and
    /// its argument to `out_exp`.
    pub fn parse(
        &self,
        aggr_def: AggrDefinition,
        _ctx: &mut EvalContext,
        src_schema: &[FieldType],
        out_schema: &mut Vec<FieldType>,
        out_exp: &mut Vec<ColumnRef>,
    ) -> (function: Result<ExtremumFunction<T>, EvalError>)
        requires
            aggr_def.tp == T::spec_tp(),
            aggr_def.children@.len() > 0,
            eval_type_of(aggr_def.children@[0].field_type.tp).is_some(),
        ensures
            match function {
                Ok(f) => parsed(
                    aggr_def.field_type,
                    aggr_def.children@[0],
                    src_schema@.len(),
                ).function == Ok::<FunctionKind, EvalError>(f.kind),
                Err(e) => parsed(
                    aggr_def.field_type,
                    aggr_def.children@[0],
                    src_schema@.len(),
                ).function == Err::<FunctionKind, EvalError>(e),
            },
            final(out_schema)@ == old(out_schema)@ + parsed(
                aggr_def.field_type,
                aggr_def.children@[0],
                src_schema@.len(),
            ).schema,
            final(out_exp)@ == old(out_exp)@ + parsed(
                aggr_def.field_type,
                aggr_def.children@[0],
                src_schema@.len(),
            ).expressions,
    {
        let child = aggr_def.children[0];
        let child_et = match eval_type(child.field_type.tp) {
            Ok(t) => t,
            Err(e) => {
                return Err(e);
            },
        };
        let out_ft = aggr_def.field_type;
        let out_et = match eval_type(out_ft.tp) {
            Ok(t) => t,
            Err(e) => {
                assert(out_schema@ =~= old(out_schema)@ + Seq::<FieldType>::empty());
                assert(out_exp@ =~= old(out_exp)@ + Seq::<ColumnRef>::empty());
                return Err(e);
            },
        };
        if out_et != child_et {
            assert(out_schema@ =~= old(out_schema)@ + Seq::<FieldType>::empty());
            assert(out_exp@ =~= old(out_exp)@ + Seq::<ColumnRef>::empty());
            return Err(EvalError::UnexpectedReturnType);
        }
        out_schema.push(out_ft);
        assert(out_schema@ =~= old(out_schema)@ + seq![out_ft]);
        if child.offset >= src_schema.len() {
            assert(out_exp@ =~= old(out_exp)@ + Seq::<ColumnRef>::empty());
            return Err(EvalError::ColumnOutOfRange);
        }
        out_exp.push(child);
        assert(out_exp@ =~= old(out_exp)@ + seq![child]);
        let collation = if out_et == EvalType::Bytes {
            Some(out_ft.collation)
        } else {
            None
        };
        Ok(ExtremumFunction { kind: FunctionKind { eval_type: out_et, collation }, direction: PhantomData })
    }
}

} // verus!
