use dialect_gen::builder::{build_operation_model, ModelError};
use dialect_gen::codegen::generate_operation_enum;
use dialect_gen::model::{Cardinality, TraitTag};
use dialect_gen::record::{FieldValue, Record, RecordKeeper};
use dialect_gen::{generate_dialect, Error};

fn rec(name: &str, bases: &[&str], fields: Vec<(String, FieldValue)>) -> Record {
    Record {
        name: name.to_owned(),
        bases: bases.iter().map(|b| (*b).to_owned()).collect(),
        fields,
    }
}

fn text_field(key: &str, value: &str) -> (String, FieldValue) {
    (key.to_owned(), FieldValue::Text(value.to_owned()))
}

fn children_field(key: &str, children: Vec<Record>) -> (String, FieldValue) {
    (key.to_owned(), FieldValue::Children(children))
}

fn int_constraint() -> Record {
    rec("I64", &["AnyInteger"], vec![])
}

fn one_field(name: &str) -> Record {
    rec(name, &[], vec![children_field("type", vec![int_constraint()])])
}

fn variadic_field(name: &str) -> Record {
    let wrapper = rec(
        "VariadicI64",
        &["Variadic"],
        vec![children_field("element", vec![int_constraint()])],
    );
    rec(name, &[], vec![children_field("type", vec![wrapper])])
}

fn test_dialect() -> Record {
    rec(
        "TestDialect",
        &["Dialect"],
        vec![text_field("name", "test"), text_field("description", "A test namespace.")],
    )
}

fn add_op() -> Record {
    rec(
        "Test_AddOp",
        &["Op"],
        vec![
            text_field("name", "add"),
            text_field("dialect", "test"),
            children_field("operands", vec![one_field("lhs"), one_field("rhs")]),
            children_field("results", vec![one_field("sum")]),
        ],
    )
}

fn keeper_with(records: Vec<Record>) -> RecordKeeper {
    RecordKeeper { records }
}

#[test]
fn add_operation_wrapper_has_declared_shape() {
    let keeper = keeper_with(vec![test_dialect(), add_op()]);
    let out = generate_dialect(&keeper, "test").unwrap();
    let src = &out.source;
    assert!(src.contains("pub fn lhs(&self) -> IntegerValue { self.operation.operand(0) }"));
    assert!(src.contains("pub fn rhs(&self) -> IntegerValue { self.operation.operand(1) }"));
    assert!(src.contains("pub fn sum(&self) -> IntegerValue { self.operation.result(0) }"));
    assert!(src.contains("pub fn as_operation(&self) -> &Operation<'c> {"));
    assert!(src.contains("pub fn create(lhs: Value<'c>, rhs: Value<'c>, ) -> OperationBuilder<'c> {"));
    assert!(src.contains("OperationBuilder::new(\"test.add\").operand(lhs).operand(rhs)"));
}

#[test]
fn add_operation_enum_recognizes_exactly_its_name() {
    let keeper = keeper_with(vec![test_dialect(), add_op()]);
    let out = generate_dialect(&keeper, "test").unwrap();
    let src = &out.source;
    assert!(src.contains("pub enum TestOperation<'c> {"));
    assert!(src.contains("    Add(Add<'c>),"));
    assert!(src.contains("\"test.add\" => Ok(TestOperation::Add(Add::try_from(operation)?)),"));
    assert!(src.contains("_ => Err(operation),"));
    assert!(src.contains("TestOperation::Add(op) => op.as_operation(),"));
    assert!(src.contains("impl<'c> From<Add<'c>> for TestOperation<'c>"));
    assert!(src.contains(
        "TestOperation::Add(op) => TestOperation::Add(Add { operation: op.as_operation().clone() }),",
    ));
}

#[test]
fn generation_is_idempotent() {
    let keeper = keeper_with(vec![test_dialect(), add_op()]);
    let first = generate_dialect(&keeper, "test").unwrap();
    let second = generate_dialect(&keeper, "test").unwrap();
    assert_eq!(first.source, second.source);
    assert_eq!(first.warnings, second.warnings);
}

#[test]
fn empty_namespace_emits_no_dispatch_enum() {
    let keeper = keeper_with(vec![test_dialect()]);
    let out = generate_dialect(&keeper, "test").unwrap();
    assert!(!out.source.contains("pub enum"));
    assert!(out.source.contains("pub mod test {"));
    let models = vec![];
    assert!(generate_operation_enum("test", &models).is_none());
}

#[test]
fn casing_is_normalized_in_module_and_enum_names() {
    let dialect = rec(
        "FooDialect",
        &["Dialect"],
        vec![text_field("name", "fooBar"), text_field("description", "Mixed case.")],
    );
    let op = rec(
        "Foo_DoOp",
        &["Op"],
        vec![text_field("name", "doThing"), text_field("dialect", "fooBar")],
    );
    let keeper = keeper_with(vec![dialect, op]);
    let out = generate_dialect(&keeper, "fooBar").unwrap();
    assert!(out.source.contains("pub mod foo_bar {"));
    assert!(out.source.contains("pub enum FooBarOperation<'c> {"));
    assert!(out.source.contains("    DoThing(DoThing<'c>),"));
}

#[test]
fn unknown_namespace_is_reported_with_known_names() {
    let keeper = keeper_with(vec![test_dialect(), add_op()]);
    match generate_dialect(&keeper, "absent") {
        Err(Error::NamespaceNotFound { requested, known }) => {
            assert_eq!(requested, "absent");
            assert_eq!(known, vec!["test".to_owned()]);
        }
        other => panic!("expected NamespaceNotFound, got {:?}", other.is_ok()),
    }
}

#[test]
fn two_variadic_operands_without_trait_fail_model_building() {
    let op = rec(
        "Test_BadOp",
        &["Op"],
        vec![
            text_field("name", "bad"),
            text_field("dialect", "test"),
            children_field("operands", vec![variadic_field("xs"), variadic_field("ys")]),
        ],
    );
    let keeper = keeper_with(vec![test_dialect(), op]);
    match build_operation_model(&keeper, &keeper.records[1], "test") {
        Err(ModelError::InconsistentCardinality { operation }) => {
            assert_eq!(operation, "test.bad");
        }
        _ => panic!("expected InconsistentCardinality"),
    }
}

#[test]
fn two_variadic_operands_with_size_inference_trait_are_accepted() {
    let op = rec(
        "Test_SegOp",
        &["Op"],
        vec![
            text_field("name", "seg"),
            text_field("dialect", "test"),
            children_field("operands", vec![variadic_field("xs"), variadic_field("ys")]),
            children_field("traits", vec![rec("SizeInference", &[], vec![])]),
        ],
    );
    let keeper = keeper_with(vec![test_dialect(), op]);
    let model = build_operation_model(&keeper, &keeper.records[1], "test").unwrap();
    assert_eq!(model.operands.len(), 2);
    assert_eq!(model.operands[0].cardinality, Cardinality::Variadic);
    assert_eq!(model.operands[1].cardinality, Cardinality::Variadic);
    assert_eq!(model.attributes.len(), 1);
    assert_eq!(model.attributes[0].name, "operand_segment_sizes");
    assert!(!model.attributes[0].is_optional && !model.attributes[0].has_default);
    let out = generate_dialect(&keeper, "test").unwrap();
    assert!(out.source.contains(
        "pub fn operand_segment_sizes(&self) -> SegmentSizesAttribute { self.operation.attribute(\"operand_segment_sizes\") }",
    ));
}

#[test]
fn declared_attribute_clashing_with_segment_sizes_is_a_duplicate() {
    let attr = rec("operand_segment_sizes", &[], vec![text_field("type", "AnyAttribute")]);
    let op = rec(
        "Test_ClashOp",
        &["Op"],
        vec![
            text_field("name", "clash"),
            text_field("dialect", "test"),
            children_field("operands", vec![variadic_field("xs"), variadic_field("ys")]),
            children_field("attributes", vec![attr]),
            children_field("traits", vec![rec("SizeInference", &[], vec![])]),
        ],
    );
    let keeper = keeper_with(vec![test_dialect(), op]);
    match build_operation_model(&keeper, &keeper.records[1], "test") {
        Err(ModelError::DuplicateName { name, .. }) => {
            assert_eq!(name, "operand_segment_sizes");
        }
        _ => panic!("expected DuplicateName"),
    }
}

#[test]
fn successors_without_terminator_trait_are_a_contradiction() {
    let succ = rec("next", &[], vec![]);
    let op = rec(
        "Test_BrOp",
        &["Op"],
        vec![
            text_field("name", "br"),
            text_field("dialect", "test"),
            children_field("successors", vec![succ]),
        ],
    );
    let keeper = keeper_with(vec![test_dialect(), op]);
    match build_operation_model(&keeper, &keeper.records[1], "test") {
        Err(ModelError::TraitContradiction { operation }) => assert_eq!(operation, "test.br"),
        _ => panic!("expected TraitContradiction"),
    }
}

#[test]
fn successors_with_terminator_trait_are_accepted() {
    let succ = rec("next", &[], vec![]);
    let op = rec(
        "Test_Br2Op",
        &["Op"],
        vec![
            text_field("name", "br2"),
            text_field("dialect", "test"),
            children_field("successors", vec![succ]),
            children_field("traits", vec![rec("Terminator", &[], vec![])]),
        ],
    );
    let keeper = keeper_with(vec![test_dialect(), op]);
    let model = build_operation_model(&keeper, &keeper.records[1], "test").unwrap();
    assert_eq!(model.successors.len(), 1);
    let out = generate_dialect(&keeper, "test").unwrap();
    assert!(out.source.contains("pub fn next(&self) -> BlockRef { self.operation.successor(0) }"));
}

#[test]
fn duplicate_region_names_fail_model_building() {
    let op = rec(
        "Test_RgOp",
        &["Op"],
        vec![
            text_field("name", "rg"),
            text_field("dialect", "test"),
            children_field("regions", vec![rec("body", &[], vec![]), rec("body", &[], vec![])]),
        ],
    );
    let keeper = keeper_with(vec![test_dialect(), op]);
    match build_operation_model(&keeper, &keeper.records[1], "test") {
        Err(ModelError::DuplicateName { operation, name }) => {
            assert_eq!(operation, "test.rg");
            assert_eq!(name, "body");
        }
        _ => panic!("expected DuplicateName"),
    }
}

#[test]
fn multi_line_descriptions_stay_inside_doc_comments() {
    let dialect = rec(
        "TwoLineDialect",
        &["Dialect"],
        vec![
            text_field("name", "two_line"),
            text_field("description", "First line.\nSecond line."),
        ],
    );
    let op = rec(
        "Two_Op",
        &["Op"],
        vec![
            text_field("name", "op"),
            text_field("dialect", "two_line"),
            text_field("description", "Op line one.\nOp line two."),
        ],
    );
    let keeper = keeper_with(vec![dialect, op]);
    let out = generate_dialect(&keeper, "two_line").unwrap();
    assert!(out.source.contains("/// First line.\n/// Second line.\n"));
    assert!(out.source.contains("/// Op line one.\n/// Op line two.\n"));
    assert!(!out.source.contains("\nSecond"));
    assert!(!out.source.contains("\nOp line two"));
}

#[test]
fn duplicate_field_names_fail_model_building() {
    let op = rec(
        "Test_DupOp",
        &["Op"],
        vec![
            text_field("name", "dup"),
            text_field("dialect", "test"),
            children_field("operands", vec![one_field("x"), one_field("x")]),
        ],
    );
    let keeper = keeper_with(vec![test_dialect(), op]);
    match build_operation_model(&keeper, &keeper.records[1], "test") {
        Err(ModelError::DuplicateName { operation, name }) => {
            assert_eq!(operation, "test.dup");
            assert_eq!(name, "x");
        }
        _ => panic!("expected DuplicateName"),
    }
}

#[test]
fn single_result_trait_disagreeing_with_results_fails() {
    let op = rec(
        "Test_TwoOp",
        &["Op"],
        vec![
            text_field("name", "two"),
            text_field("dialect", "test"),
            children_field("results", vec![one_field("a"), one_field("b")]),
            children_field("traits", vec![rec("SingleResult", &[], vec![])]),
        ],
    );
    let keeper = keeper_with(vec![test_dialect(), op]);
    match build_operation_model(&keeper, &keeper.records[1], "test") {
        Err(ModelError::TraitContradiction { operation }) => assert_eq!(operation, "test.two"),
        _ => panic!("expected TraitContradiction"),
    }
}

#[test]
fn missing_name_field_is_an_extraction_error() {
    let op = rec("Test_NoName", &["Op"], vec![text_field("dialect", "test")]);
    let keeper = keeper_with(vec![test_dialect(), op]);
    match build_operation_model(&keeper, &keeper.records[1], "test") {
        Err(ModelError::FieldExtraction { record, field }) => {
            assert_eq!(record, "Test_NoName");
            assert_eq!(field, "name");
        }
        _ => panic!("expected FieldExtraction"),
    }
}

#[test]
fn unresolvable_alias_reference_fails_constraint_resolution() {
    let aliased = rec(
        "BadAlias",
        &["Alias"],
        vec![("aliased".to_owned(), FieldValue::Reference("Missing".to_owned()))],
    );
    let field = rec("x", &[], vec![children_field("type", vec![aliased])]);
    let op = rec(
        "Test_AliasOp",
        &["Op"],
        vec![
            text_field("name", "al"),
            text_field("dialect", "test"),
            children_field("operands", vec![field]),
        ],
    );
    let keeper = keeper_with(vec![test_dialect(), op]);
    match build_operation_model(&keeper, &keeper.records[1], "test") {
        Err(ModelError::UnresolvedConstraint { .. }) => {}
        _ => panic!("expected UnresolvedConstraint"),
    }
}

#[test]
fn cyclic_alias_chain_fails_constraint_resolution() {
    let cycle = rec(
        "Loop",
        &["Alias"],
        vec![("aliased".to_owned(), FieldValue::Reference("Loop".to_owned()))],
    );
    let field = rec(
        "x",
        &[],
        vec![children_field(
            "type",
            vec![rec(
                "UseLoop",
                &["Alias"],
                vec![("aliased".to_owned(), FieldValue::Reference("Loop".to_owned()))],
            )],
        )],
    );
    let op = rec(
        "Test_LoopOp",
        &["Op"],
        vec![
            text_field("name", "lp"),
            text_field("dialect", "test"),
            children_field("operands", vec![field]),
        ],
    );
    let keeper = keeper_with(vec![test_dialect(), cycle, op]);
    match build_operation_model(&keeper, &keeper.records[2], "test") {
        Err(ModelError::UnresolvedConstraint { .. }) => {}
        _ => panic!("expected UnresolvedConstraint"),
    }
}

#[test]
fn tensor_constraint_nests_its_element_type() {
    let tensor = rec(
        "TensorOfI64",
        &["TensorOf"],
        vec![children_field("element", vec![int_constraint()])],
    );
    let field = rec("t", &[], vec![children_field("type", vec![tensor])]);
    let op = rec(
        "Test_TensorOp",
        &["Op"],
        vec![
            text_field("name", "tn"),
            text_field("dialect", "test"),
            children_field("operands", vec![field]),
        ],
    );
    let keeper = keeper_with(vec![test_dialect(), op]);
    let model = build_operation_model(&keeper, &keeper.records[1], "test").unwrap();
    assert_eq!(model.operands[0].constraint.accessor_type, "TensorValue<IntegerValue>");
}

#[test]
fn unknown_constraint_class_falls_back_to_opaque_with_warning() {
    let strange = rec("SomethingNew", &["FutureConstraint"], vec![]);
    let field = rec("z", &[], vec![children_field("type", vec![strange])]);
    let op = rec(
        "Test_OpaqueOp",
        &["Op"],
        vec![
            text_field("name", "op"),
            text_field("dialect", "test"),
            children_field("operands", vec![field]),
        ],
    );
    let keeper = keeper_with(vec![test_dialect(), op]);
    let out = generate_dialect(&keeper, "test").unwrap();
    assert!(out.source.contains("pub fn z(&self) -> OpaqueValue { self.operation.operand(0) }"));
    assert_eq!(out.warnings, vec!["unchecked accessor type for test.op.z".to_owned()]);
}

#[test]
fn unknown_trait_is_preserved_and_reported() {
    let op = rec(
        "Test_FutureOp",
        &["Op"],
        vec![
            text_field("name", "fut"),
            text_field("dialect", "test"),
            children_field("traits", vec![rec("SomeNewTrait", &[], vec![])]),
        ],
    );
    let keeper = keeper_with(vec![test_dialect(), op]);
    let model = build_operation_model(&keeper, &keeper.records[1], "test").unwrap();
    assert!(matches!(&model.traits[0], TraitTag::Unknown(s) if s == "SomeNewTrait"));
    let out = generate_dialect(&keeper, "test").unwrap();
    assert_eq!(out.warnings, vec!["unknown trait SomeNewTrait on test.fut".to_owned()]);
}

#[test]
fn optional_and_variadic_accessors_have_wrapped_types() {
    let optional = rec(
        "OptI64",
        &["Optional"],
        vec![children_field("element", vec![int_constraint()])],
    );
    let opt_field = rec("maybe", &[], vec![children_field("type", vec![optional])]);
    let op = rec(
        "Test_MixOp",
        &["Op"],
        vec![
            text_field("name", "mix"),
            text_field("dialect", "test"),
            children_field("operands", vec![opt_field, variadic_field("rest")]),
        ],
    );
    let keeper = keeper_with(vec![test_dialect(), op]);
    let out = generate_dialect(&keeper, "test").unwrap();
    assert!(out.source.contains("pub fn maybe(&self) -> Option<IntegerValue> { self.operation.operand(0) }"));
    assert!(out.source.contains("pub fn rest(&self) -> ValueRange<IntegerValue> { self.operation.operand(1) }"));
    assert!(out.source.contains("pub fn create(maybe: Option<Value<'c>>, rest: &[Value<'c>], ) -> OperationBuilder<'c> {"));
    assert!(out.source.contains("OperationBuilder::new(\"test.mix\").operand_opt(maybe).operands(rest)"));
}

#[test]
fn create_takes_required_attributes_and_leaves_the_rest_to_the_builder() {
    let required = rec("bound", &[], vec![text_field("type", "IntegerAttribute")]);
    let defaulted = rec(
        "flag",
        &[],
        vec![text_field("type", "BoolAttribute"), text_field("default", "false")],
    );
    let op = rec(
        "Test_CfgOp",
        &["Op"],
        vec![
            text_field("name", "cfg"),
            text_field("dialect", "test"),
            children_field("operands", vec![one_field("input")]),
            children_field("attributes", vec![required, defaulted]),
        ],
    );
    let keeper = keeper_with(vec![test_dialect(), op]);
    let out = generate_dialect(&keeper, "test").unwrap();
    assert!(out.source.contains(
        "pub fn create(input: Value<'c>, bound: Attribute<'c>, ) -> OperationBuilder<'c> {",
    ));
    assert!(out.source.contains(
        "OperationBuilder::new(\"test.cfg\").operand(input).attribute(\"bound\", bound)",
    ));
    assert!(!out.source.contains("flag: Attribute"));
    assert!(out.source.contains("pub fn flag(&self) -> BoolAttribute { self.operation.attribute(\"flag\") }"));
}

#[test]
fn module_carries_dialect_documentation() {
    let keeper = keeper_with(vec![test_dialect(), add_op()]);
    let out = generate_dialect(&keeper, "test").unwrap();
    assert!(out.source.starts_with("/// `test` dialect.\n/// A test namespace.\n"));
}

#[test]
fn explicitly_relative_include_directories_keep_their_path() {
    let dirs = vec![
        "./local".to_owned(),
        "../up".to_owned(),
        "mlir/include".to_owned(),
        ".".to_owned(),
        "dotted.dir".to_owned(),
    ];
    let resolved = dialect_gen::resolve_include_dirs("/usr/lib/llvm", &dirs);
    assert_eq!(
        resolved,
        vec![
            "./local".to_owned(),
            "../up".to_owned(),
            "/usr/lib/llvm/mlir/include".to_owned(),
            ".".to_owned(),
            "/usr/lib/llvm/dotted.dir".to_owned(),
        ]
    );
}

#[test]
fn include_directives_concatenate_in_order() {
    let files = vec!["a.td".to_owned(), "b.td".to_owned()];
    let src = dialect_gen::include_directives(&files);
    assert_eq!(src, "include \"a.td\"include \"b.td\"");
    assert_eq!(dialect_gen::include_directives(&vec![]), "");
}

#[test]
fn duplicated_typed_wrapper_keeps_every_value() {
    let t = dialect_gen::handle::TypedOp {
        op: dialect_gen::handle::GenericOp {
            name: "test.add".to_owned(),
            operands: vec![1, 2],
            results: vec![3],
            attributes: vec![("k".to_owned(), "v".to_owned())],
        },
    };
    let copy = dialect_gen::handle::duplicate(&t);
    assert_eq!(copy.op.name, t.op.name);
    assert_eq!(copy.op.operands, t.op.operands);
    assert_eq!(copy.op.results, t.op.results);
    assert_eq!(copy.op.attributes, t.op.attributes);
}
