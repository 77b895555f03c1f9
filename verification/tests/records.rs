use dialect_gen::record::{
    derives_from, find_field, get_bool, get_records, get_reference, get_string, FieldError,
    FieldValue, Record, RecordKeeper,
};

fn sample() -> Record {
    Record {
        name: "Sample".to_owned(),
        bases: vec!["Op".to_owned(), "Base".to_owned()],
        fields: vec![
            ("title".to_owned(), FieldValue::Text("hello".to_owned())),
            ("variadic".to_owned(), FieldValue::Flag(true)),
            ("kids".to_owned(), FieldValue::Children(vec![Record {
                name: "Kid".to_owned(),
                bases: vec![],
                fields: vec![],
            }])),
            ("link".to_owned(), FieldValue::Reference("Other".to_owned())),
        ],
    }
}

#[test]
fn string_field_lookup_distinguishes_absent_from_mismatch() {
    let r = sample();
    assert_eq!(get_string(&r, "title").unwrap(), "hello");
    assert!(matches!(get_string(&r, "missing"), Err(FieldError::Absent)));
    match get_string(&r, "variadic") {
        Err(FieldError::TypeMismatch { record, field }) => {
            assert_eq!(record, "Sample");
            assert_eq!(field, "variadic");
        }
        _ => panic!("expected TypeMismatch"),
    }
}

#[test]
fn bool_field_reads_false_when_absent_or_misshapen() {
    let r = sample();
    assert!(get_bool(&r, "variadic"));
    assert!(!get_bool(&r, "missing"));
    assert!(!get_bool(&r, "title"));
}

#[test]
fn child_records_and_references_are_typed() {
    let r = sample();
    assert_eq!(get_records(&r, "kids").unwrap().len(), 1);
    assert_eq!(get_records(&r, "kids").unwrap()[0].name, "Kid");
    assert_eq!(get_reference(&r, "link").unwrap(), "Other");
    assert!(matches!(get_reference(&r, "title"), Err(FieldError::TypeMismatch { .. })));
}

#[test]
fn first_field_wins_on_repeated_keys() {
    let r = Record {
        name: "Dup".to_owned(),
        bases: vec![],
        fields: vec![
            ("k".to_owned(), FieldValue::Text("first".to_owned())),
            ("k".to_owned(), FieldValue::Text("second".to_owned())),
        ],
    };
    match find_field(&r, "k") {
        Some(FieldValue::Text(s)) => assert_eq!(s, "first"),
        _ => panic!("expected the first entry"),
    }
}

#[test]
fn derived_indices_filter_by_base_class_in_order() {
    let keeper = RecordKeeper {
        records: vec![
            sample(),
            Record { name: "Plain".to_owned(), bases: vec![], fields: vec![] },
            sample(),
        ],
    };
    assert_eq!(keeper.derived_indices("Op"), vec![0, 2]);
    assert_eq!(keeper.derived_indices("Nothing"), Vec::<usize>::new());
    assert_eq!(keeper.find_def("Plain"), Some(1));
    assert_eq!(keeper.find_def("Absent"), None);
    assert!(derives_from(&keeper.records[0], "Base"));
    assert!(!derives_from(&keeper.records[1], "Base"));
}
