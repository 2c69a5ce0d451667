use std::marker::PhantomData;

use tikv_gc::aggr_parser::{
    eval_type, AggrDefinition, AggrFnDefinitionParserExtremum, ColumnRef, ExtremumFunction,
    ExtremumState, FieldType, FieldTypeTp, FunctionKind,
};
use tikv_gc::collation::{
    decode, padded_sort_key, trim_padding, CharWeights, Collation, Collator, CollatorBinary,
    CollatorUtf8Mb4Bin, CollatorUtf8Mb4BinNoPadding, CollatorUtf8Mb4GeneralCi, PlainWeights,
};
use tikv_gc::extremum::{
    AggFnExtremum, AggFnExtremumForBytes, AggFnStateExtremum, AggFnStateExtremum4Bytes,
    EvalContext, EvalError, EvalType, ExprType, Extremum, Max, Min, SortOrder, VectorValue,
};

type Int = i64;

fn field(tp: FieldTypeTp) -> FieldType {
    FieldType { tp, collation: Collation::Binary }
}

fn aggr_func(tp: ExprType, ret: FieldTypeTp, child: FieldTypeTp) -> AggrDefinition {
    AggrDefinition {
        tp,
        field_type: field(ret),
        children: vec![ColumnRef { offset: 0, field_type: field(child) }],
    }
}

#[test]
fn test_max() {
    let mut ctx = EvalContext::default();
    let function = AggFnExtremum::<Max>::new();
    let mut state = function.create_state();

    let mut result = [VectorValue::with_capacity(0, EvalType::Int)];

    state.push_result(&mut ctx, &mut result).unwrap();
    assert_eq!(result[0].as_int_slice(), &[None]);

    state.update(&mut ctx, &Option::<Int>::None).unwrap();
    result[0].clear();
    state.push_result(&mut ctx, &mut result).unwrap();
    assert_eq!(result[0].as_int_slice(), &[None]);

    state.update(&mut ctx, &Some(7i64)).unwrap();
    result[0].clear();
    state.push_result(&mut ctx, &mut result).unwrap();
    assert_eq!(result[0].as_int_slice(), &[Some(7)]);

    state.update(&mut ctx, &Some(4i64)).unwrap();
    result[0].clear();
    state.push_result(&mut ctx, &mut result).unwrap();
    assert_eq!(result[0].as_int_slice(), &[Some(7)]);

    state.update_repeat(&mut ctx, &Some(20), 10).unwrap();
    state.update_repeat(&mut ctx, &Option::<Int>::None, 7).unwrap();

    result[0].clear();
    state.push_result(&mut ctx, &mut result).unwrap();
    assert_eq!(result[0].as_int_slice(), &[Some(20)]);

    // update vector
    state.update(&mut ctx, &Some(7i64)).unwrap();
    state.update_vector(&mut ctx, &[Some(21i64), None, Some(22i64)], &[0, 1, 2]).unwrap();
    result[0].clear();
    state.push_result(&mut ctx, &mut result).unwrap();
    assert_eq!(result[0].as_int_slice(), &[Some(22)]);

    state.update(&mut ctx, &Some(40i64)).unwrap();
    result[0].clear();
    state.push_result(&mut ctx, &mut result).unwrap();
    assert_eq!(result[0].as_int_slice(), &[Some(40)]);
}

#[test]
fn test_min() {
    let mut ctx = EvalContext::default();
    let function = AggFnExtremum::<Min>::new();
    let mut state = function.create_state();

    let mut result = [VectorValue::with_capacity(0, EvalType::Int)];

    state.push_result(&mut ctx, &mut result).unwrap();
    assert_eq!(result[0].as_int_slice(), &[None]);

    state.update(&mut ctx, &Option::<Int>::None).unwrap();
    result[0].clear();
    state.push_result(&mut ctx, &mut result).unwrap();
    assert_eq!(result[0].as_int_slice(), &[None]);

    state.update(&mut ctx, &Some(100i64)).unwrap();
    result[0].clear();
    state.push_result(&mut ctx, &mut result).unwrap();
    assert_eq!(result[0].as_int_slice(), &[Some(100)]);

    state.update(&mut ctx, &Some(90i64)).unwrap();
    result[0].clear();
    state.push_result(&mut ctx, &mut result).unwrap();
    assert_eq!(result[0].as_int_slice(), &[Some(90)]);

    state.update_repeat(&mut ctx, &Some(80), 10).unwrap();
    state.update_repeat(&mut ctx, &Option::<Int>::None, 10).unwrap();

    result[0].clear();
    state.push_result(&mut ctx, &mut result).unwrap();
    assert_eq!(result[0].as_int_slice(), &[Some(80)]);

    // update vector
    state.update(&mut ctx, &Some(70i64)).unwrap();
    state.update_vector(&mut ctx, &[Some(69i64), None, Some(68i64)], &[0, 1, 2]).unwrap();
    result[0].clear();
    state.push_result(&mut ctx, &mut result).unwrap();
    assert_eq!(result[0].as_int_slice(), &[Some(68)]);

    state.update(&mut ctx, &Some(2i64)).unwrap();
    result[0].clear();
    state.push_result(&mut ctx, &mut result).unwrap();
    assert_eq!(result[0].as_int_slice(), &[Some(2)]);

    state.update(&mut ctx, &Some(-1i64)).unwrap();
    result[0].clear();
    state.push_result(&mut ctx, &mut result).unwrap();
    assert_eq!(result[0].as_int_slice(), &[Some(-1i64)]);
}

// The weights of the case-insensitive collation on the basic Latin letters:
// a small letter weighs what its capital weighs.
struct BasicLatinWeights;

impl CharWeights for BasicLatinWeights {
    // Stands in contracts only and is never run.
    fn spec_weight(_: char) -> u16 {
        unreachable!()
    }

    fn weight(c: char) -> u16 {
        PlainWeights::weight(c.to_ascii_uppercase())
    }
}

fn collation_case<C: Collator, E: Extremum>(args: Vec<&str>, expected: &str) {
    let mut ctx = EvalContext::default();
    let function = AggFnExtremumForBytes::<C, E>::new();
    let mut state = function.create_state();
    let mut result = [VectorValue::with_capacity(0, EvalType::Bytes)];
    state.push_result(&mut ctx, &mut result).unwrap();
    assert_eq!(result[0].as_bytes_slice(), &[None]);

    for arg in args {
        state.update(&mut ctx, &Some(String::from(arg).into_bytes())).unwrap();
    }
    result[0].clear();
    state.push_result(&mut ctx, &mut result).unwrap();
    assert_eq!(result[0].as_bytes_slice(), [Some(String::from(expected).into_bytes())]);
}

fn collation_case_of<C: Collator>(is_max: bool, args: Vec<&str>, expected: &str) {
    if is_max {
        collation_case::<C, Max>(args, expected)
    } else {
        collation_case::<C, Min>(args, expected)
    }
}

#[test]
fn test_collation() {
    let cases = vec![
        (Collation::Binary, true, vec!["B", "a"], "a"),
        (Collation::Utf8Mb4Bin, true, vec!["B", "a"], "a"),
        (Collation::Utf8Mb4GeneralCi, true, vec!["B", "a"], "B"),
        (Collation::Utf8Mb4BinNoPadding, true, vec!["B", "a"], "a"),
        (Collation::Binary, false, vec!["B", "a"], "B"),
        (Collation::Utf8Mb4Bin, false, vec!["B", "a"], "B"),
        (Collation::Utf8Mb4GeneralCi, false, vec!["B", "a"], "a"),
        (Collation::Utf8Mb4BinNoPadding, false, vec!["B", "a"], "B"),
    ];
    for (coll, is_max, args, expected) in cases {
        match coll {
            Collation::Binary => collation_case_of::<CollatorBinary>(is_max, args, expected),
            Collation::Utf8Mb4Bin => {
                collation_case_of::<CollatorUtf8Mb4Bin>(is_max, args, expected)
            }
            Collation::Utf8Mb4GeneralCi => collation_case_of::<
                CollatorUtf8Mb4GeneralCi<BasicLatinWeights>,
            >(is_max, args, expected),
            Collation::Utf8Mb4BinNoPadding => {
                collation_case_of::<CollatorUtf8Mb4BinNoPadding>(is_max, args, expected)
            }
        }
    }
}

#[test]
fn test_integration() {
    let max_parser = AggrFnDefinitionParserExtremum::<Max>::new();
    let min_parser = AggrFnDefinitionParserExtremum::<Min>::new();

    let max = aggr_func(ExprType::Max, FieldTypeTp::LongLong, FieldTypeTp::LongLong);
    max_parser.check_supported(&max).unwrap();

    let min = aggr_func(ExprType::Min, FieldTypeTp::LongLong, FieldTypeTp::LongLong);
    min_parser.check_supported(&min).unwrap();

    let src_schema = [field(FieldTypeTp::LongLong)];
    let columns: Vec<Vec<Option<Int>>> = vec![vec![
        Some(10000),
        Some(1),
        Some(23),
        Some(42),
        Some(-10000),
        None,
        Some(99),
        Some(-1),
    ]];
    let logical_rows = vec![3, 2, 6, 5, 1, 7];

    let mut schema = vec![];
    let mut exp = vec![];

    let mut ctx = EvalContext::default();
    let max_fn = max_parser.parse(max, &mut ctx, &src_schema, &mut schema, &mut exp).unwrap();
    assert_eq!(schema.len(), 1);
    assert_eq!(schema[0].tp, FieldTypeTp::LongLong);
    assert_eq!(exp.len(), 1);

    let min_fn = min_parser.parse(min, &mut ctx, &src_schema, &mut schema, &mut exp).unwrap();
    assert_eq!(schema.len(), 2);
    assert_eq!(schema[1].tp, FieldTypeTp::LongLong);
    assert_eq!(exp.len(), 2);

    let mut ctx = EvalContext::default();
    let mut max_state = match max_fn.create_state() {
        Some(ExtremumState::Int(state)) => state,
        _ => panic!("no state over integers"),
    };
    let mut min_state = match min_fn.create_state() {
        Some(ExtremumState::Int(state)) => state,
        _ => panic!("no state over integers"),
    };

    let mut aggr_result = [VectorValue::with_capacity(0, EvalType::Int)];

    // max
    {
        let max_slice: &[Option<Int>] = &columns[exp[0].offset];
        max_state.update_vector(&mut ctx, max_slice, &logical_rows).unwrap();
        max_state.push_result(&mut ctx, &mut aggr_result).unwrap();
    }

    // min
    {
        let min_slice: &[Option<Int>] = &columns[exp[0].offset];
        min_state.update_vector(&mut ctx, min_slice, &logical_rows).unwrap();
        min_state.push_result(&mut ctx, &mut aggr_result).unwrap();
    }

    assert_eq!(aggr_result[0].as_int_slice(), &[Some(99), Some(-1i64),]);
}

#[test]
fn test_illegal_request() {
    // Expect LongLong but give Real
    let expr = aggr_func(ExprType::Max, FieldTypeTp::Double, FieldTypeTp::LongLong);
    AggrFnDefinitionParserExtremum::<Max>::new().check_supported(&expr).unwrap();

    let src_schema = [field(FieldTypeTp::LongLong)];
    let mut schema = vec![];
    let mut exp = vec![];
    let mut ctx = EvalContext::default();
    let err = AggrFnDefinitionParserExtremum::<Max>::new()
        .parse(expr, &mut ctx, &src_schema, &mut schema, &mut exp)
        .unwrap_err();
    assert_eq!(err, EvalError::UnexpectedReturnType);
    assert!(schema.is_empty());
    assert!(exp.is_empty());
}

#[test]
fn parse_names_each_failure() {
    let parser = AggrFnDefinitionParserExtremum::<Min>::new();
    let mut ctx = EvalContext::default();
    let src_schema = [field(FieldTypeTp::VarChar)];
    let mut schema = vec![];
    let mut exp = vec![];

    // A return type without an evaluation type.
    let def = aggr_func(ExprType::Min, FieldTypeTp::Geometry, FieldTypeTp::VarChar);
    assert_eq!(
        parser.parse(def, &mut ctx, &src_schema, &mut schema, &mut exp),
        Err(EvalError::UnsupportedType)
    );
    assert!(schema.is_empty() && exp.is_empty());

    // A column that the source does not have: the schema was extended
    // before the argument was looked at.
    let mut def = aggr_func(ExprType::Min, FieldTypeTp::Blob, FieldTypeTp::VarChar);
    def.children[0].offset = 1;
    assert_eq!(
        parser.parse(def, &mut ctx, &src_schema, &mut schema, &mut exp),
        Err(EvalError::ColumnOutOfRange)
    );
    assert_eq!(schema.len(), 1);
    assert!(exp.is_empty());

    // Byte strings come with their collation.
    let mut def = aggr_func(ExprType::Min, FieldTypeTp::Blob, FieldTypeTp::VarChar);
    def.field_type.collation = Collation::Utf8Mb4GeneralCi;
    let function = parser.parse(def, &mut ctx, &src_schema, &mut schema, &mut exp);
    assert_eq!(
        function,
        Ok(ExtremumFunction {
            kind: FunctionKind {
                eval_type: EvalType::Bytes,
                collation: Some(Collation::Utf8Mb4GeneralCi)
            },
            direction: PhantomData,
        })
    );
    // The library holds no state for this collation.
    assert!(function.unwrap().create_state().is_none());
    assert_eq!(schema.len(), 2);
    assert_eq!(exp, vec![ColumnRef { offset: 0, field_type: field(FieldTypeTp::VarChar) }]);
}

#[test]
fn check_supported_names_each_failure() {
    let parser = AggrFnDefinitionParserExtremum::<Max>::new();
    let mut def = aggr_func(ExprType::Max, FieldTypeTp::Long, FieldTypeTp::Long);
    def.children.push(ColumnRef { offset: 1, field_type: field(FieldTypeTp::Long) });
    assert_eq!(parser.check_supported(&def), Err(EvalError::UnsupportedArity));
    def.children.clear();
    assert_eq!(parser.check_supported(&def), Err(EvalError::UnsupportedArity));
    let def = aggr_func(ExprType::Max, FieldTypeTp::Long, FieldTypeTp::Bit);
    assert_eq!(parser.check_supported(&def), Err(EvalError::UnsupportedType));
}

#[test]
fn eval_types_of_field_types() {
    assert_eq!(eval_type(FieldTypeTp::Tiny), Ok(EvalType::Int));
    assert_eq!(eval_type(FieldTypeTp::Year), Ok(EvalType::Int));
    assert_eq!(eval_type(FieldTypeTp::Float), Ok(EvalType::Real));
    assert_eq!(eval_type(FieldTypeTp::NewDecimal), Ok(EvalType::Decimal));
    assert_eq!(eval_type(FieldTypeTp::Date), Ok(EvalType::DateTime));
    assert_eq!(eval_type(FieldTypeTp::Duration), Ok(EvalType::Duration));
    assert_eq!(eval_type(FieldTypeTp::JSON), Ok(EvalType::Json));
    assert_eq!(eval_type(FieldTypeTp::String), Ok(EvalType::Bytes));
    assert_eq!(eval_type(FieldTypeTp::Null), Err(EvalError::UnsupportedType));
    assert_eq!(eval_type(FieldTypeTp::Enum), Err(EvalError::UnsupportedType));
}

#[test]
fn kinds_of_extremum() {
    assert_eq!(Max::tp(), ExprType::Max);
    assert_eq!(Max::ord(), SortOrder::Less);
    assert_eq!(Min::tp(), ExprType::Min);
    assert_eq!(Min::ord(), SortOrder::Greater);
}

#[test]
fn extremum_of_equal_and_extreme_values() {
    let mut ctx = EvalContext::default();
    let mut max = AggFnStateExtremum::<Max>::new();
    let mut min = AggFnStateExtremum::<Min>::new();
    let values = [Some(i64::MIN), Some(0), None, Some(i64::MAX), Some(0)];
    let rows = [4usize, 3, 2, 1, 0, 0];
    max.update_vector(&mut ctx, &values, &rows).unwrap();
    min.update_vector(&mut ctx, &values, &rows).unwrap();
    let mut result = [VectorValue::with_capacity(2, EvalType::Int)];
    max.push_result(&mut ctx, &mut result).unwrap();
    min.push_result(&mut ctx, &mut result).unwrap();
    assert_eq!(result[0].as_int_slice(), &[Some(i64::MAX), Some(i64::MIN)]);
    // No row, no change.
    max.update_vector(&mut ctx, &values, &[]).unwrap();
    max.update_repeat(&mut ctx, &Some(1), 0).unwrap();
    result[0].clear();
    max.push_result(&mut ctx, &mut result).unwrap();
    assert_eq!(result[0].as_int_slice(), &[Some(i64::MAX)]);
}

#[test]
fn binary_collation_compares_byte_by_byte() {
    let cmp = |a: &[u8], b: &[u8]| CollatorBinary::sort_compare(&a.to_vec(), &b.to_vec());
    assert_eq!(cmp(b"", b""), Ok(SortOrder::Equal));
    assert_eq!(cmp(b"", b"a"), Ok(SortOrder::Less));
    assert_eq!(cmp(b"a", b""), Ok(SortOrder::Greater));
    assert_eq!(cmp(b"ab", b"b"), Ok(SortOrder::Less));
    assert_eq!(cmp(b"ab", b"aa"), Ok(SortOrder::Greater));
    assert_eq!(cmp(b"ab", b"abc"), Ok(SortOrder::Less));
    assert_eq!(cmp(b"\xff", b"\x00\xff"), Ok(SortOrder::Greater));
    assert_eq!(cmp(b"same", b"same"), Ok(SortOrder::Equal));
}

#[test]
fn bytes_state_keeps_the_first_of_equal_values() {
    let mut ctx = EvalContext::default();
    let mut state = AggFnStateExtremum4Bytes::<CollatorBinary, Max>::new();
    state.update_concrete(&mut ctx, &None).unwrap();
    state.update_concrete(&mut ctx, &Some(b"x".to_vec())).unwrap();
    state.update_concrete(&mut ctx, &Some(b"x".to_vec())).unwrap();
    state.update_concrete(&mut ctx, &None).unwrap();
    let mut result = [VectorValue::with_capacity(0, EvalType::Bytes), VectorValue::with_capacity(0, EvalType::Int)];
    state.push_result(&mut ctx, &mut result).unwrap();
    assert_eq!(result[0].as_bytes_slice(), [Some(b"x".to_vec())]);
    assert!(result[1].as_int_slice().is_empty());
}

fn function_of<T: Extremum>(eval_type: EvalType, collation: Option<Collation>) -> ExtremumFunction<T> {
    ExtremumFunction { kind: FunctionKind { eval_type, collation }, direction: PhantomData }
}

#[test]
fn states_are_made_from_what_parse_returns() {
    let mut ctx = EvalContext::default();
    let src_schema = [field(FieldTypeTp::VarChar)];
    let mut schema = vec![];
    let mut exp = vec![];
    let mut def = aggr_func(ExprType::Max, FieldTypeTp::VarString, FieldTypeTp::VarChar);
    def.field_type.collation = Collation::Utf8Mb4Bin;
    let max_fn = AggrFnDefinitionParserExtremum::<Max>::new()
        .parse(def, &mut ctx, &src_schema, &mut schema, &mut exp)
        .unwrap();
    let mut def = aggr_func(ExprType::Min, FieldTypeTp::VarString, FieldTypeTp::VarChar);
    def.field_type.collation = Collation::Utf8Mb4Bin;
    let min_fn = AggrFnDefinitionParserExtremum::<Min>::new()
        .parse(def, &mut ctx, &src_schema, &mut schema, &mut exp)
        .unwrap();

    let mut result = [VectorValue::with_capacity(0, EvalType::Bytes)];
    match max_fn.create_state() {
        Some(ExtremumState::Utf8Mb4Bin(mut state)) => {
            state.push_result(&mut ctx, &mut result).unwrap();
            for v in [&b"b"[..], b"c  ", b"a", b"c"] {
                state.update(&mut ctx, &Some(v.to_vec())).unwrap();
            }
            state.push_result(&mut ctx, &mut result).unwrap();
        }
        _ => panic!("no state under this collation"),
    }
    match min_fn.create_state() {
        Some(ExtremumState::Utf8Mb4Bin(mut state)) => {
            for v in [&b"b"[..], b"c  ", b"a", b"c"] {
                state.update(&mut ctx, &Some(v.to_vec())).unwrap();
            }
            state.push_result(&mut ctx, &mut result).unwrap();
        }
        _ => panic!("no state under this collation"),
    }
    // The first of two texts that differ in padding alone is kept.
    assert_eq!(
        result[0].as_bytes_slice(),
        [None, Some(b"c  ".to_vec()), Some(b"a".to_vec())]
    );
}

#[test]
fn create_state_for_each_kind() {
    assert!(matches!(
        function_of::<Max>(EvalType::Int, None).create_state(),
        Some(ExtremumState::Int(_))
    ));
    assert!(matches!(
        function_of::<Min>(EvalType::Bytes, Some(Collation::Binary)).create_state(),
        Some(ExtremumState::Binary(_))
    ));
    assert!(matches!(
        function_of::<Min>(EvalType::Bytes, Some(Collation::Utf8Mb4Bin)).create_state(),
        Some(ExtremumState::Utf8Mb4Bin(_))
    ));
    assert!(matches!(
        function_of::<Max>(EvalType::Bytes, Some(Collation::Utf8Mb4BinNoPadding)).create_state(),
        Some(ExtremumState::Utf8Mb4BinNoPadding(_))
    ));
    assert!(function_of::<Max>(EvalType::Bytes, Some(Collation::Utf8Mb4GeneralCi))
        .create_state()
        .is_none());
    assert!(function_of::<Max>(EvalType::Bytes, None).create_state().is_none());
    for eval_type in [
        EvalType::Real,
        EvalType::Decimal,
        EvalType::DateTime,
        EvalType::Duration,
        EvalType::Json,
    ] {
        assert!(function_of::<Max>(eval_type, None).create_state().is_none());
    }
}

#[test]
fn utf8_collations_compare_bytes_with_and_without_padding() {
    let padded = |a: &[u8], b: &[u8]| CollatorUtf8Mb4Bin::sort_compare(&a.to_vec(), &b.to_vec());
    let plain =
        |a: &[u8], b: &[u8]| CollatorUtf8Mb4BinNoPadding::sort_compare(&a.to_vec(), &b.to_vec());
    assert_eq!(padded(b"a ", b"a"), Ok(SortOrder::Equal));
    assert_eq!(plain(b"a ", b"a"), Ok(SortOrder::Greater));
    assert_eq!(padded(b"a   ", b"a  b"), Ok(SortOrder::Less));
    assert_eq!(padded(b"   ", b""), Ok(SortOrder::Equal));
    assert_eq!(padded(b" a", b"a"), Ok(SortOrder::Less));
    assert_eq!(padded("\u{e9} ".as_bytes(), "\u{e9}".as_bytes()), Ok(SortOrder::Equal));
    assert_eq!(plain("\u{e9}".as_bytes(), b"z"), Ok(SortOrder::Greater));
    assert_eq!(plain(b"B", b"a"), Ok(SortOrder::Less));
    // Ill-formed texts cannot be compared, whichever side they stand on.
    assert_eq!(padded(b"\xff", b"a"), Err(EvalError::InvalidCollationInput));
    assert_eq!(padded(b"a", b"\xc3"), Err(EvalError::InvalidCollationInput));
    assert_eq!(plain(b"\xed\xa0\x80", b"a"), Err(EvalError::InvalidCollationInput));
    assert_eq!(plain(b"a", b"\xc0\x80"), Err(EvalError::InvalidCollationInput));
    assert_eq!(trim_padding(&b" a b  ".to_vec()), b" a b".to_vec());
    assert_eq!(trim_padding(&b"  ".to_vec()), b"".to_vec());
}

#[test]
fn a_failed_comparison_leaves_the_state() {
    let mut ctx = EvalContext::default();
    let mut state = AggFnStateExtremum4Bytes::<CollatorUtf8Mb4Bin, Max>::new();
    // The first value is taken without a comparison.
    state.update_concrete(&mut ctx, &Some(b"k".to_vec())).unwrap();
    assert_eq!(
        state.update_concrete(&mut ctx, &Some(b"\xff".to_vec())),
        Err(EvalError::InvalidCollationInput)
    );
    state.update_concrete(&mut ctx, &None).unwrap();
    let mut result = [VectorValue::with_capacity(0, EvalType::Bytes)];
    state.push_result(&mut ctx, &mut result).unwrap();
    assert_eq!(result[0].as_bytes_slice(), [Some(b"k".to_vec())]);
}

#[test]
fn weighted_collation_compares_weights_and_ignores_padding() {
    let ci = |a: &str, b: &str| {
        CollatorUtf8Mb4GeneralCi::<BasicLatinWeights>::sort_compare(
            &a.as_bytes().to_vec(),
            &b.as_bytes().to_vec(),
        )
    };
    assert_eq!(ci("a", "A"), Ok(SortOrder::Equal));
    assert_eq!(ci("a", "B"), Ok(SortOrder::Less));
    assert_eq!(ci("B", "a"), Ok(SortOrder::Greater));
    assert_eq!(ci("abc  ", "ABC"), Ok(SortOrder::Equal));
    assert_eq!(ci("ab", "ABC"), Ok(SortOrder::Less));
    assert_eq!(ci(" a", "a"), Ok(SortOrder::Less));
    assert_eq!(ci("", "   "), Ok(SortOrder::Equal));
    // Characters of more than one byte are weighed as one.
    assert_eq!(ci("\u{e9}", "\u{100}"), Ok(SortOrder::Less));
    assert_eq!(ci("\u{ff}", "\u{100}"), Ok(SortOrder::Less));

    let plain = |a: &[u8], b: &[u8]| {
        CollatorUtf8Mb4GeneralCi::<PlainWeights>::sort_compare(&a.to_vec(), &b.to_vec())
    };
    assert_eq!(plain(b"a", b"A"), Ok(SortOrder::Greater));
    // Beyond the first 65536 every character weighs the same.
    assert_eq!(plain("\u{1F600}".as_bytes(), "\u{10000}".as_bytes()), Ok(SortOrder::Equal));
    assert_eq!(plain("\u{FFFE}".as_bytes(), "\u{1F600}".as_bytes()), Ok(SortOrder::Greater));
    assert_eq!(plain(b"\xff", b"a"), Err(EvalError::InvalidCollationInput));
    assert_eq!(plain(b"a", b"\xe2\x82"), Err(EvalError::InvalidCollationInput));
}

#[test]
fn sort_keys_hold_the_weights_high_byte_first() {
    assert_eq!(PlainWeights::weight('A'), 0x41);
    assert_eq!(PlainWeights::weight('\u{20AC}'), 0x20AC);
    assert_eq!(PlainWeights::weight('\u{FFFF}'), 0xFFFF);
    assert_eq!(PlainWeights::weight('\u{10000}'), 0xFFFD);
    let text = decode(&"A\u{20AC} \u{1F600}  ".as_bytes().to_vec()).unwrap();
    assert_eq!(text, vec!['A', '\u{20AC}', ' ', '\u{1F600}', ' ', ' ']);
    assert_eq!(
        padded_sort_key::<PlainWeights>(&text),
        vec![0x00, 0x41, 0x20, 0xAC, 0x00, 0x20, 0xFF, 0xFD]
    );
    assert_eq!(padded_sort_key::<BasicLatinWeights>(&vec!['a', 'z', ' ']), vec![0, 0x41, 0, 0x5A]);
    assert!(decode(&vec![0x80]).is_none());
    assert_eq!(decode(&vec![]), Some(vec![]));
}
