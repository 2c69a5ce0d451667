//! The MAX and MIN aggregate functions: a state that takes values one by
//! one and holds the greatest, or the least, of those it has seen.

use vstd::prelude::*;
use core::marker::PhantomData;
use crate::bytes_order::copy_bytes;
use crate::collation::Collator;

verus! {

/// The aggregate functions that this module serves.
#[derive(Clone, Copy, Debug, PartialEq, Eq, Structural)]
pub enum ExprType {
    Max,
    Min,
}

/// How one value stands to another.
#[derive(Clone, Copy, Debug, PartialEq, Eq, Structural)]
pub enum SortOrder {
    Less,
    Equal,
    Greater,
}

/// What can go wrong when an aggregate function is built or fed.
#[derive(Clone, Copy, Debug, PartialEq, Eq, Structural)]
pub enum EvalError {
    /// The values cannot be compared under the collation.
    InvalidCollationInput,
    /// The field type has no evaluation type.
    UnsupportedType,
    /// The aggregate function is declared to return another type than its
    /// argument has.
    UnexpectedReturnType,
    /// The aggregate function does not have exactly one argument.
    UnsupportedArity,
    /// The argument refers to a column that the source does not have.
    ColumnOutOfRange,
}

/// The types in which expressions are evaluated.
#[derive(Clone, Copy, Debug, PartialEq, Eq, Structural)]
pub enum EvalType {
    Int,
    Real,
    Decimal,
    Bytes,
    DateTime,
    Duration,
    Json,
}

/// The context of an evaluation. The functions of this module take it and
/// leave it as it is.
#[derive(Debug)]
pub struct EvalContext {}

impl Default for EvalContext {
    fn default() -> (ctx: EvalContext) {
        EvalContext {  }
    }
}

/// A kind of extremum: the function that it stands for, and how the value
/// held must stand to a new value for the new value to take its place.
pub trait Extremum: Sized {
    spec fn spec_tp() -> ExprType;

    spec fn spec_ord() -> SortOrder;

    fn tp() -> (tp: ExprType)
        ensures
            tp == Self::spec_tp(),
    ;

    fn ord() -> (ord: SortOrder)
        ensures
            ord == Self::spec_ord(),
    ;
}

/// The greatest value: a new value takes the place of a lesser one.
#[derive(Debug, Clone, Copy, PartialEq, Eq)]
pub struct Max;

/// The least value: a new value takes the place of a greater one.
#[derive(Debug, Clone, Copy, PartialEq, Eq)]
pub struct Min;

impl Extremum for Max {
    open spec fn spec_tp() -> ExprType {
        ExprType::Max
    }

    open spec fn spec_ord() -> SortOrder {
        SortOrder::Less
    }

    fn tp() -> (tp: ExprType) {
        ExprType::Max
    }

    fn ord() -> (ord: SortOrder) {
        SortOrder::Less
    }
}

impl Extremum for Min {
    open spec fn spec_tp() -> ExprType {
        ExprType::Min
    }

    open spec fn spec_ord() -> SortOrder {
        SortOrder::Greater
    }

    fn tp() -> (tp: ExprType) {
        ExprType::Min
    }

    fn ord() -> (ord: SortOrder) {
        SortOrder::Greater
    }
}

/// How the integer `a` stands to the integer `b`.
pub open spec fn int_order(a: i64, b: i64) -> SortOrder {
    if a < b {
        SortOrder::Less
    } else if a > b {
        SortOrder::Greater
    } else {
        SortOrder::Equal
    }
}

/// The value held after `value` was offered: nothing offered changes
/// nothing, the first value offered is taken, and a later one takes the
/// place of the value held where that stands to it as `ord` says.
pub open spec fn offered(ord: SortOrder, held: Option<i64>, value: Option<i64>) -> Option<i64> {
    match value {
        None => held,
        Some(v) => match held {
            None => Some(v),
            Some(h) => if int_order(h, v) == ord {
                Some(v)
            } else {
                held
            },
        },
    }
}

/// The value held after each of `values` was offered in turn.
pub open spec fn offered_all(ord: SortOrder, held: Option<i64>, values: Seq<Option<i64>>) -> Option<
    i64,
>
    decreases values.len(),
{
    if values.len() == 0 {
        held
    } else {
        offered(ord, offered_all(ord, held, values.drop_last()), values.last())
    }
}

/// The rows of `values` that `logical_rows` names, in that order.
pub open spec fn selected(values: Seq<Option<i64>>, logical_rows: Seq<usize>) -> Seq<Option<i64>> {
    Seq::new(logical_rows.len(), |i: int| values[logical_rows[i] as int])
}

/// Whether `result` is the extremum of `values` in the direction `ord`:
/// nothing where no value is given, and otherwise one of the values given,
/// to which no other stands as `ord` says.
pub open spec fn is_extremum(ord: SortOrder, values: Seq<Option<i64>>, result: Option<i64>) -> bool {
    match result {
        None => forall|i: int| 0 <= i < values.len() ==> (#[trigger] values[i]).is_none(),
        Some(m) => {
            &&& exists|i: int| 0 <= i < values.len() && #[trigger] values[i] == Some(m)
            &&& forall|i: int|
                0 <= i < values.len() ==> match #[trigger] values[i] {
                    Some(v) => int_order(m, v) != ord,
                    None => true,
                }
        },
    }
}

/// A fresh state that was offered `values` holds their greatest value for
/// MAX and their least for MIN.
pub proof fn lemma_offered_all_is_extremum(ord: SortOrder, values: Seq<Option<i64>>)
    requires
        ord != SortOrder::Equal,
    ensures
        is_extremum(ord, values, offered_all(ord, None, values)),
    decreases values.len(),
{
    if values.len() > 0 {
        let init = values.drop_last();
        let last = values.last();
        let n = values.len() - 1;
        lemma_offered_all_is_extremum(ord, init);
        let held = offered_all(ord, None, init);
        let result = offered_all(ord, None, values);
        assert(result == offered(ord, held, last));
        match result {
            None => {
                assert forall|i: int| 0 <= i < values.len() implies (
                #[trigger] values[i]).is_none() by {
                    if i < n {
                        assert(init[i] == values[i]);
                    }
                }
            },
            Some(m) => {
                if held == Some(m) {
                    let k = choose|k: int| 0 <= k < init.len() && #[trigger] init[k] == Some(m);
                    assert(values[k] == init[k]);
                } else {
                    assert(values[n] == Some(m));
                }
                assert forall|i: int| 0 <= i < values.len() implies match #[trigger] values[i] {
                    Some(v) => int_order(m, v) != ord,
                    None => true,
                } by {
                    if i < n {
                        assert(init[i] == values[i]);
                    }
                }
            },
        }
    }
}

/// A column of evaluated values. Of the evaluation types, this library
/// holds columns of integers and of byte strings.
#[derive(Debug)]
pub enum VectorValue {
    Int(Vec<Option<i64>>),
    Bytes(Vec<Option<Vec<u8>>>),
}

/// The mathematical value of a cell of byte strings.
pub open spec fn bytes_cell(cell: Option<Vec<u8>>) -> Option<Seq<u8>> {
    match cell {
        Some(b) => Some(b@),
        None => None,
    }
}

impl VectorValue {
    /// Whether the column holds integers.
    pub open spec fn is_int(&self) -> bool {
        self is Int
    }

    /// Whether the column holds byte strings.
    pub open spec fn is_bytes(&self) -> bool {
        self is Bytes
    }

    /// The cells of a column of integers.
    pub open spec fn ints(&self) -> Seq<Option<i64>> {
        match self {
            VectorValue::Int(v) => v@,
            VectorValue::Bytes(_) => Seq::empty(),
        }
    }

    /// The cells of a column of byte strings.
    pub open spec fn byte_cells(&self) -> Seq<Option<Seq<u8>>> {
        match self {
            VectorValue::Int(_) => Seq::empty(),
            VectorValue::Bytes(v) => v@.map_values(|c: Option<Vec<u8>>| bytes_cell(c)),
        }
    }

    /// An empty column of the type `eval_tp`, with room for `capacity`
    /// cells.
    pub fn with_capacity(capacity: usize, eval_tp: EvalType) -> (column: VectorValue)
        requires
            eval_tp == EvalType::Int || eval_tp == EvalType::Bytes,
        ensures
            eval_tp == EvalType::Int ==> column.is_int() && column.ints() == Seq::<
                Option<i64>,
            >::empty(),
            eval_tp == EvalType::Bytes ==> column.is_bytes() && column.byte_cells() == Seq::<
                Option<Seq<u8>>,
            >::empty(),
    {
        match eval_tp {
            EvalType::Int => VectorValue::Int(Vec::with_capacity(capacity)),
            _ => {
                let column = VectorValue::Bytes(Vec::with_capacity(capacity));
                assert(column.byte_cells() =~= Seq::<Option<Seq<u8>>>::empty());
                column
            },
        }
    }

    /// Removes every cell; the type of the column stays.
    pub fn clear(&mut self)
        ensures
            final(self).is_int() == old(self).is_int(),
            final(self).ints() == Seq::<Option<i64>>::empty(),
            final(self).byte_cells() == Seq::<Option<Seq<u8>>>::empty(),
    {
        match self {
            VectorValue::Int(v) => {
                v.clear();
            },
            VectorValue::Bytes(v) => {
                v.clear();
            },
        }
        assert(self.byte_cells() =~= Seq::<Option<Seq<u8>>>::empty());
    }

    /// Appends a cell to a column of integers.
    pub fn push_int(&mut self, value: Option<i64>)
        requires
            old(self).is_int(),
        ensures
            final(self).is_int(),
            final(self).ints() == old(self).ints().push(value),
    {
        match self {
            VectorValue::Int(v) => {
                v.push(value);
            },
            VectorValue::Bytes(_) => {},
        }
    }

    /// Appends a cell to a column of byte strings.
    pub fn push_bytes(&mut self, value: Option<Vec<u8>>)
        requires
            old(self).is_bytes(),
        ensures
            final(self).is_bytes(),
            final(self).byte_cells() == old(self).byte_cells().push(bytes_cell(value)),
    {
        match self {
            VectorValue::Int(_) => {},
            VectorValue::Bytes(v) => {
                v.push(value);
            },
        }
        assert(self.byte_cells() =~= old(self).byte_cells().push(bytes_cell(value)));
    }

    /// The cells of a column of integers.
    pub fn as_int_slice(&self) -> (cells: &[Option<i64>])
        requires
            self.is_int(),
        ensures
            cells@ == self.ints(),
    {
        match self {
            VectorValue::Int(v) => v.as_slice(),
            VectorValue::Bytes(_) => &[],
        }
    }

    /// The cells of a column of byte strings.
    pub fn as_bytes_slice(&self) -> (cells: &[Option<Vec<u8>>])
        requires
            self.is_bytes(),
        ensures
            cells@.map_values(|c: Option<Vec<u8>>| bytes_cell(c)) == self.byte_cells(),
    {
        match self {
            VectorValue::Bytes(v) => v.as_slice(),
            VectorValue::Int(_) => &[],
        }
    }
}

/// The MAX or MIN aggregate function over integers.
#[derive(Debug)]
pub struct AggFnExtremum<E: Extremum> {
    _phantom: PhantomData<E>,
}

impl<E: Extremum> AggFnExtremum<E> {
    pub fn new() -> (function: Self) {
        AggFnExtremum { _phantom: PhantomData }
    }

    /// A state of the function that has seen no value.
    pub fn create_state(&self) -> (state: AggFnStateExtremum<E>)
        ensures
            state.held().is_none(),
    {
        AggFnStateExtremum::new()
    }
}

/// The state of the MAX or MIN aggregate function over integers.
#[derive(Debug)]
pub struct AggFnStateExtremum<E: Extremum> {
    extremum_value: Option<i64>,
    _phantom: PhantomData<E>,
}

impl<E: Extremum> AggFnStateExtremum<E> {
    /// The value that the state holds.
    pub closed spec fn held(&self) -> Option<i64> {
        self.extremum_value
    }

    /// A state that has seen no value.
    pub fn new() -> (state: Self)
        ensures
            state.held().is_none(),
    {
        AggFnStateExtremum { extremum_value: None, _phantom: PhantomData }
    }

    /// Offers `value` to the state.
    #[inline]
    pub fn update_concrete(&mut self, _ctx: &mut EvalContext, value: &Option<i64>) -> (done: Result<
        (),
        EvalError,
    >)
        ensures
            done.is_ok(),
            final(self).held() == offered(E::spec_ord(), old(self).held(), *value),
    {
        match value {
            Some(v) => {
                let takes = match self.extremum_value {
                    None => true,
                    Some(h) => match E::ord() {
                        SortOrder::Less => h < *v,
                        SortOrder::Greater => h > *v,
                        SortOrder::Equal => h == *v,
                    },
                };
                if takes {
                    self.extremum_value = Some(*v);
                }
            },
            None => {},
        }
        Ok(())
    }

    /// Offers `value` to the state.
    pub fn update(&mut self, ctx: &mut EvalContext, value: &Option<i64>) -> (done: Result<
        (),
        EvalError,
    >)
        ensures
            done.is_ok(),
            final(self).held() == offered(E::spec_ord(), old(self).held(), *value),
    {
        self.update_concrete(ctx, value)
    }

    /// Offers `value` to the state `repeat_times` times.
    pub fn update_repeat(
        &mut self,
        ctx: &mut EvalContext,
        value: &Option<i64>,
        repeat_times: usize,
    ) -> (done: Result<(), EvalError>)
        ensures
            done.is_ok(),
            final(self).held() == offered_all(
                E::spec_ord(),
                old(self).held(),
                Seq::new(repeat_times as nat, |i: int| *value),
            ),
    {
        let ghost all = Seq::new(repeat_times as nat, |i: int| *value);
        let mut i: usize = 0;
        assert(all.take(0) =~= Seq::<Option<i64>>::empty());
        while i < repeat_times
            invariant
                i <= repeat_times,
                all == Seq::new(repeat_times as nat, |i: int| *value),
                self.held() == offered_all(E::spec_ord(), old(self).held(), all.take(i as int)),
            decreases repeat_times - i,
        {
            proof {
                assert(all.take(i + 1).drop_last() =~= all.take(i as int));
                assert(all.take(i + 1).last() == *value);
            }
            let _ = self.update_concrete(ctx, value);
            i += 1;
        }
        assert(all.take(repeat_times as int) =~= all);
        Ok(())
    }

    /// Offers to the state the rows of `values` that `logical_rows`
    /// names, in that order.
    pub fn update_vector(
        &mut self,
        ctx: &mut EvalContext,
        values: &[Option<i64>],
        logical_rows: &[usize],
    ) -> (done: Result<(), EvalError>)
        requires
            forall|i: int| 0 <= i < logical_rows@.len() ==> logical_rows@[i] < values@.len(),
        ensures
            done.is_ok(),
            final(self).held() == offered_all(
                E::spec_ord(),
                old(self).held(),
                selected(values@, logical_rows@),
            ),
    {
        let ghost all = selected(values@, logical_rows@);
        let mut i: usize = 0;
        assert(all.take(0) =~= Seq::<Option<i64>>::empty());
        while i < logical_rows.len()
            invariant
                i <= logical_rows@.len(),
                all == selected(values@, logical_rows@),
                forall|i: int| 0 <= i < logical_rows@.len() ==> logical_rows@[i] < values@.len(),
                self.held() == offered_all(E::spec_ord(), old(self).held(), all.take(i as int)),
            decreases logical_rows@.len() - i,
        {
            proof {
                assert(all.take(i + 1).drop_last() =~= all.take(i as int));
                assert(all.take(i + 1).last() == values@[logical_rows@[i as int] as int]);
            }
            let _ = self.update_concrete(ctx, &values[logical_rows[i]]);
            i += 1;
        }
        assert(all.take(logical_rows@.len() as int) =~= all);
        Ok(())
    }

    /// Appends the value held to the first column of `target`.
    #[inline]
    pub fn push_result(&self, _ctx: &mut EvalContext, target: &mut [VectorValue]) -> (done: Result<
        (),
        EvalError,
    >)
        requires
            old(target)@.len() > 0,
            old(target)@[0].is_int(),
        ensures
            done.is_ok(),
            final(target)@.len() == old(target)@.len(),
            final(target)@[0].is_int(),
            final(target)@[0].ints() == old(target)@[0].ints().push(self.held()),
            forall|i: int| 1 <= i < old(target)@.len() ==> final(target)@[i] == old(target)@[i],
    {
        target[0].push_int(self.extremum_value);
        Ok(())
    }
}

/// The value held after the byte string `value` was offered under the
/// collation `C`, or nothing where the collation cannot compare it with
/// the value held.
pub open spec fn offered_bytes<C: Collator>(
    ord: SortOrder,
    held: Option<Seq<u8>>,
    value: Option<Seq<u8>>,
) -> Option<Option<Seq<u8>>> {
    match value {
        None => Some(held),
        Some(v) => match held {
            None => Some(Some(v)),
            Some(h) => match C::order(h, v) {
                Some(o) => if o == ord {
                    Some(Some(v))
                } else {
                    Some(held)
                },
                None => None,
            },
        },
    }
}

/// The MAX or MIN aggregate function over byte strings, compared under
/// the collation `C`.
#[derive(Debug)]
pub struct AggFnExtremumForBytes<C: Collator, E: Extremum> {
    _phantom: PhantomData<(C, E)>,
}

impl<C: Collator, E: Extremum> AggFnExtremumForBytes<C, E> {
    pub fn new() -> (function: Self) {
        AggFnExtremumForBytes { _phantom: PhantomData }
    }

    /// A state of the function that has seen no value.
    pub fn create_state(&self) -> (state: AggFnStateExtremum4Bytes<C, E>)
        ensures
            state.held().is_none(),
    {
        AggFnStateExtremum4Bytes::new()
    }
}

/// The state of the MAX or MIN aggregate function over byte strings.
#[derive(Debug)]
pub struct AggFnStateExtremum4Bytes<C: Collator, E: Extremum> {
    extremum: Option<Vec<u8>>,
    _phantom: PhantomData<(C, E)>,
}

impl<C: Collator, E: Extremum> AggFnStateExtremum4Bytes<C, E> {
    /// The value that the state holds.
    pub closed spec fn held(&self) -> Option<Seq<u8>> {
        bytes_cell(self.extremum)
    }

    /// A state that has seen no value.
    pub fn new() -> (state: Self)
        ensures
            state.held().is_none(),
    {
        AggFnStateExtremum4Bytes { extremum: None, _phantom: PhantomData }
    }

    /// Offers `value` to the state. Fails with
    /// [`EvalError::InvalidCollationInput`], and leaves the state as it
    /// was, exactly when the collation cannot compare `value` with the
    /// value held.
    #[inline]
    pub fn update_concrete(&mut self, _ctx: &mut EvalContext, value: &Option<Vec<u8>>) -> (done:
        Result<(), EvalError>)
        ensures
            match offered_bytes::<C>(E::spec_ord(), old(self).held(), bytes_cell(*value)) {
                Some(held) => done.is_ok() && final(self).held() == held,
                None => {
                    &&& done == Err::<(), EvalError>(EvalError::InvalidCollationInput)
                    &&& final(self).held() == old(self).held()
                },
            },
    {
        let v = match value {
            Some(v) => v,
            None => {
                return Ok(());
            },
        };
        let takes = match &self.extremum {
            None => true,
            Some(h) => match C::sort_compare(h, v) {
                Ok(o) => o == E::ord(),
                Err(e) => {
                    return Err(e);
                },
            },
        };
        if takes {
            self.extremum = Some(copy_bytes(v));
        }
        Ok(())
    }

    /// Offers `value` to the state.
    pub fn update(&mut self, ctx: &mut EvalContext, value: &Option<Vec<u8>>) -> (done: Result<
        (),
        EvalError,
    >)
        ensures
            match offered_bytes::<C>(E::spec_ord(), old(self).held(), bytes_cell(*value)) {
                Some(held) => done.is_ok() && final(self).held() == held,
                None => {
                    &&& done == Err::<(), EvalError>(EvalError::InvalidCollationInput)
                    &&& final(self).held() == old(self).held()
                },
            },
    {
        self.update_concrete(ctx, value)
    }

    /// Appends the value held to the first column of `target`.
    #[inline]
    pub fn push_result(&self, _ctx: &mut EvalContext, target: &mut [VectorValue]) -> (done: Result<
        (),
        EvalError,
    >)
        requires
            old(target)@.len() > 0,
            old(target)@[0].is_bytes(),
        ensures
            done.is_ok(),
            final(target)@.len() == old(target)@.len(),
            final(target)@[0].is_bytes(),
            final(target)@[0].byte_cells() == old(target)@[0].byte_cells().push(self.held()),
            forall|i: int| 1 <= i < old(target)@.len() ==> final(target)@[i] == old(target)@[i],
    {
        let copy = match &self.extremum {
            Some(b) => Some(copy_bytes(b)),
            None => None,
        };
        target[0].push_bytes(copy);
        Ok(())
    }
}

} // verus!
