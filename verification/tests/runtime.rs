use dialect_gen::handle::{
    build_operation, dispatch_downcast, downcast, field_range, read_group,
    read_group_with_segments, read_one, segment_range, upcast, BuildError, DispatchOutcome,
    DowncastOutcome, GenericOp,
};
use dialect_gen::model::{
    AttributeConstraint, AttributeSpec, Cardinality, FieldSpec, OperationModel, TraitTag,
    TypeConstraint,
};
use dialect_gen::text::decimal_string;

fn int_tc() -> TypeConstraint {
    TypeConstraint {
        accessor_type: "IntegerValue".to_owned(),
        narrow_expr_template: "as_integer({})".to_owned(),
        is_variadic_compatible: true,
        is_opaque: false,
    }
}

fn field(name: &str, cardinality: Cardinality) -> FieldSpec {
    FieldSpec { name: name.to_owned(), constraint: int_tc(), cardinality }
}

fn attr(name: &str, has_default: bool, default_value: &str, is_optional: bool) -> AttributeSpec {
    AttributeSpec {
        name: name.to_owned(),
        constraint: AttributeConstraint { storage_type: "AnyAttribute".to_owned() },
        has_default,
        default_value: default_value.to_owned(),
        is_optional,
    }
}

fn model(
    short: &str,
    operands: Vec<FieldSpec>,
    results: Vec<FieldSpec>,
    attributes: Vec<AttributeSpec>,
    traits: Vec<TraitTag>,
) -> OperationModel {
    OperationModel {
        namespace: "test".to_owned(),
        short_name: short.to_owned(),
        qualified_name: format!("test.{short}"),
        operands,
        results,
        attributes,
        regions: vec![],
        successors: vec![],
        traits,
        documentation: String::new(),
    }
}

#[test]
fn builder_round_trip_reads_back_supplied_values() {
    let m = model(
        "add",
        vec![field("lhs", Cardinality::One), field("rhs", Cardinality::One)],
        vec![field("sum", Cardinality::One)],
        vec![],
        vec![TraitTag::SingleResult],
    );
    let op = build_operation(&m, &vec![vec![10], vec![20]], &vec![vec![30]], &vec![]).unwrap();
    assert_eq!(op.name, "test.add");
    assert_eq!(read_one(&m.operands, &op.operands, 0), Some(10));
    assert_eq!(read_one(&m.operands, &op.operands, 1), Some(20));
    assert_eq!(read_one(&m.results, &op.results, 0), Some(30));
}

#[test]
fn single_result_accessor_is_never_absent_on_built_handle() {
    let m = model(
        "neg",
        vec![field("input", Cardinality::One)],
        vec![field("output", Cardinality::One)],
        vec![],
        vec![TraitTag::SingleResult],
    );
    let op = build_operation(&m, &vec![vec![5]], &vec![vec![9]], &vec![]).unwrap();
    assert!(read_one(&m.results, &op.results, 0).is_some());
}

#[test]
fn variadic_group_in_the_middle_is_located_by_arithmetic() {
    let fields = vec![
        field("first", Cardinality::One),
        field("rest", Cardinality::Variadic),
        field("last", Cardinality::One),
    ];
    let values = vec![1, 2, 3, 4, 5];
    assert_eq!(field_range(&fields, 0, 5), Some((0, 1)));
    assert_eq!(field_range(&fields, 1, 5), Some((1, 4)));
    assert_eq!(field_range(&fields, 2, 5), Some((4, 5)));
    assert_eq!(read_one(&fields, &values, 0), Some(1));
    assert_eq!(read_one(&fields, &values, 2), Some(5));
    assert_eq!(read_group(&fields, &values, 1), Some(vec![2, 3, 4]));
}

#[test]
fn two_variable_groups_defeat_positional_arithmetic() {
    let fields = vec![
        field("xs", Cardinality::Variadic),
        field("ys", Cardinality::Variadic),
    ];
    assert_eq!(field_range(&fields, 0, 4), None);
    assert_eq!(read_one(&fields, &vec![1, 2, 3, 4], 0), None);
}

#[test]
fn too_few_values_for_fixed_fields_is_malformed() {
    let fields = vec![field("a", Cardinality::One), field("b", Cardinality::One)];
    assert_eq!(field_range(&fields, 0, 1), None);
}

#[test]
fn builder_rejects_wrong_group_shape() {
    let m = model("add", vec![field("lhs", Cardinality::One)], vec![], vec![], vec![]);
    match build_operation(&m, &vec![vec![1, 2]], &vec![], &vec![]) {
        Err(BuildError::GroupShapeMismatch { name }) => assert_eq!(name, "lhs"),
        _ => panic!("expected GroupShapeMismatch"),
    }
    match build_operation(&m, &vec![], &vec![], &vec![]) {
        Err(BuildError::GroupCountMismatch { expected, got }) => {
            assert_eq!(expected, 1);
            assert_eq!(got, 0);
        }
        _ => panic!("expected GroupCountMismatch"),
    }
}

#[test]
fn defaulted_attribute_resolves_to_schema_default() {
    let m = model("c", vec![], vec![], vec![attr("value", true, "42", false)], vec![]);
    let op = build_operation(&m, &vec![], &vec![], &vec![]).unwrap();
    assert_eq!(op.attributes, vec![("value".to_owned(), "42".to_owned())]);
}

#[test]
fn supplied_attribute_wins_over_default() {
    let m = model("c", vec![], vec![], vec![attr("value", true, "42", false)], vec![]);
    let supplied = vec![("value".to_owned(), "7".to_owned())];
    let op = build_operation(&m, &vec![], &vec![], &supplied).unwrap();
    assert_eq!(op.attributes, vec![("value".to_owned(), "7".to_owned())]);
}

#[test]
fn missing_required_attribute_names_the_field() {
    let m = model("c", vec![], vec![], vec![attr("needed", false, "", false)], vec![]);
    match build_operation(&m, &vec![], &vec![], &vec![]) {
        Err(BuildError::MissingRequiredField { name }) => assert_eq!(name, "needed"),
        _ => panic!("expected MissingRequiredField"),
    }
}

#[test]
fn unset_optional_attribute_is_left_out() {
    let m = model("c", vec![], vec![], vec![attr("extra", false, "", true)], vec![]);
    let op = build_operation(&m, &vec![], &vec![], &vec![]).unwrap();
    assert!(op.attributes.is_empty());
}

#[test]
fn downcast_then_upcast_preserves_the_handle() {
    let m = model("add", vec![], vec![], vec![], vec![]);
    let op = GenericOp {
        name: "test.add".to_owned(),
        operands: vec![1, 2],
        results: vec![3],
        attributes: vec![("k".to_owned(), "v".to_owned())],
    };
    match downcast(&m, op) {
        DowncastOutcome::Converted(t) => {
            let back = upcast(t);
            assert_eq!(back.name, "test.add");
            assert_eq!(back.operands, vec![1, 2]);
            assert_eq!(back.results, vec![3]);
            assert_eq!(back.attributes, vec![("k".to_owned(), "v".to_owned())]);
        }
        DowncastOutcome::Unchanged(_) => panic!("matching name must convert"),
    }
}

#[test]
fn downcast_mismatch_hands_the_handle_back_unchanged() {
    let m = model("add", vec![], vec![], vec![], vec![]);
    let op = GenericOp {
        name: "other.mul".to_owned(),
        operands: vec![4],
        results: vec![],
        attributes: vec![],
    };
    match downcast(&m, op) {
        DowncastOutcome::Unchanged(o) => {
            assert_eq!(o.name, "other.mul");
            assert_eq!(o.operands, vec![4]);
        }
        DowncastOutcome::Converted(_) => panic!("foreign name must not convert"),
    }
}

#[test]
fn dispatch_matches_exactly_one_variant_or_returns_input() {
    let models = vec![
        model("add", vec![], vec![], vec![], vec![]),
        model("mul", vec![], vec![], vec![], vec![]),
    ];
    let hit = GenericOp {
        name: "test.mul".to_owned(),
        operands: vec![],
        results: vec![],
        attributes: vec![],
    };
    match dispatch_downcast(&models, hit) {
        DispatchOutcome::Matched { index, typed } => {
            assert_eq!(index, 1);
            assert_eq!(typed.op.name, "test.mul");
        }
        DispatchOutcome::Unmatched { .. } => panic!("known name must match"),
    }
    let miss = GenericOp {
        name: "test.sub".to_owned(),
        operands: vec![8],
        results: vec![],
        attributes: vec![],
    };
    match dispatch_downcast(&models, miss) {
        DispatchOutcome::Unmatched { original } => {
            assert_eq!(original.name, "test.sub");
            assert_eq!(original.operands, vec![8]);
        }
        DispatchOutcome::Matched { .. } => panic!("unknown name must not match"),
    }
}

#[test]
fn decimal_formatting_is_exact() {
    assert_eq!(decimal_string(0), "0");
    assert_eq!(decimal_string(7), "7");
    assert_eq!(decimal_string(12345), "12345");
    assert_eq!(decimal_string(u64::MAX), "18446744073709551615");
}

#[test]
fn optional_group_reads_back_empty_or_singleton() {
    let fields = vec![field("base", Cardinality::One), field("maybe", Cardinality::Optional)];
    assert_eq!(read_group(&fields, &vec![1], 1), Some(vec![]));
    assert_eq!(read_group(&fields, &vec![1, 2], 1), Some(vec![2]));
    assert_eq!(read_one(&fields, &vec![1, 2], 1), Some(2));
    assert_eq!(read_one(&fields, &vec![1], 1), None);
}

#[test]
fn segment_sizes_locate_every_group_among_several_variadics() {
    let fields = vec![
        field("xs", Cardinality::Variadic),
        field("mid", Cardinality::One),
        field("ys", Cardinality::Variadic),
    ];
    let values = vec![1, 2, 3, 4, 5, 6];
    let sizes = vec![2, 1, 3];
    assert_eq!(segment_range(&fields, &sizes, 0, 6), Some((0, 2)));
    assert_eq!(segment_range(&fields, &sizes, 1, 6), Some((2, 3)));
    assert_eq!(segment_range(&fields, &sizes, 2, 6), Some((3, 6)));
    assert_eq!(read_group_with_segments(&fields, &values, &sizes, 0), Some(vec![1, 2]));
    assert_eq!(read_group_with_segments(&fields, &values, &sizes, 1), Some(vec![3]));
    assert_eq!(read_group_with_segments(&fields, &values, &sizes, 2), Some(vec![4, 5, 6]));
}

#[test]
fn mismatched_segment_sizes_are_rejected() {
    let fields = vec![field("xs", Cardinality::Variadic), field("y", Cardinality::One)];
    let values = vec![1, 2, 3];
    assert_eq!(read_group_with_segments(&fields, &values, &vec![1, 1], 0), None);
    assert_eq!(read_group_with_segments(&fields, &values, &vec![1, 2], 1), None);
    assert_eq!(read_group_with_segments(&fields, &values, &vec![5, 1], 0), None);
    assert_eq!(read_group_with_segments(&fields, &values, &vec![2, 1], 0), Some(vec![1, 2]));
}
