//! Schema record model and the typed field accessor.
//!
//! The external definition-table parser hands over a graph of records; this
//! module holds the library's own value representation of that graph and the
//! typed lookup functions every later stage goes through.

use vstd::prelude::*;

use crate::text::str_eq;

verus! {

/// One field value inside a schema record.
pub enum FieldValue {
    /// A string field.
    Text(String),
    /// A boolean field.
    Flag(bool),
    /// An ordered list of child records.
    Children(Vec<Record>),
    /// A reference to another record, by its definition name.
    Reference(String),
}

/// One declarative schema record: a definition name, the base classes it
/// derives from, and its fields in declaration order.
pub struct Record {
    pub name: String,
    pub bases: Vec<String>,
    pub fields: Vec<(String, FieldValue)>,
}

/// The whole parsed schema: every record, in the order the parser produced.
pub struct RecordKeeper {
    pub records: Vec<Record>,
}

/// Error returned by the typed field accessor.
#[derive(Debug)]
pub enum FieldError {
    /// The record has no field of the requested name; callers treat this as
    /// an empty or absent value, never as fatal.
    Absent,
    /// The field exists but has the wrong shape: schema and generator
    /// disagree, which aborts the whole run. Carries record and field name.
    TypeMismatch { record: String, field: String },
}

/// The first entry of `fields` whose name is `key`, if any.
pub open spec fn lookup_in(fields: Seq<(String, FieldValue)>, key: Seq<char>) -> Option<
    FieldValue,
>
    decreases fields.len(),
{
    if fields.len() == 0 {
        Option::None
    } else if fields[0].0@ == key {
        Option::Some(fields[0].1)
    } else {
        lookup_in(fields.skip(1), key)
    }
}

/// The first field of `r` named `key`, if any.
pub open spec fn spec_lookup(r: Record, key: Seq<char>) -> Option<FieldValue> {
    lookup_in(r.fields@, key)
}

proof fn lemma_lookup_step(fields: Seq<(String, FieldValue)>, key: Seq<char>, i: int)
    requires
        0 <= i < fields.len(),
        fields[i].0@ != key,
    ensures
        lookup_in(fields.skip(i), key) == lookup_in(fields.skip(i + 1), key),
{
    assert(fields.skip(i)[0] == fields[i]);
    assert(fields.skip(i).skip(1) =~= fields.skip(i + 1));
}

proof fn lemma_lookup_hit(fields: Seq<(String, FieldValue)>, key: Seq<char>, i: int)
    requires
        0 <= i < fields.len(),
        fields[i].0@ == key,
    ensures
        lookup_in(fields.skip(i), key) == Option::Some(fields[i].1),
{
    assert(fields.skip(i)[0] == fields[i]);
}

/// Finds the first field of `r` named `key`.
pub fn find_field<'a>(r: &'a Record, key: &str) -> (res: Option<&'a FieldValue>)
    ensures
        match res {
            Option::Some(v) => spec_lookup(*r, key@) == Option::Some(*v),
            Option::None => spec_lookup(*r, key@) is None,
        },
{
    let n = r.fields.len();
    let mut i: usize = 0;
    proof {
        assert(r.fields@.skip(0) =~= r.fields@);
    }
    while i < n
        invariant
            n == r.fields@.len(),
            0 <= i <= n,
            lookup_in(r.fields@, key@) == lookup_in(r.fields@.skip(i as int), key@),
        decreases n - i,
    {
        let entry = &r.fields[i];
        if str_eq(entry.0.as_str(), key) {
            proof {
                lemma_lookup_hit(r.fields@, key@, i as int);
            }
            return Option::Some(&entry.1);
        }
        proof {
            lemma_lookup_step(r.fields@, key@, i as int);
        }
        i = i + 1;
    }
    proof {
        assert(r.fields@.skip(n as int) =~= Seq::<(String, FieldValue)>::empty());
    }
    Option::None
}

/// Returns the string field `key` of `r`; absent and wrongly shaped fields
/// are told apart so callers can treat absence as an empty value.
pub fn get_string<'a>(r: &'a Record, key: &str) -> (res: Result<&'a String, FieldError>)
    ensures
        match res {
            Result::Ok(s) => spec_lookup(*r, key@) == Option::Some(FieldValue::Text(*s)),
            Result::Err(e) => match e {
                FieldError::Absent => spec_lookup(*r, key@) is None,
                FieldError::TypeMismatch { record, field } => record@ == r.name@ && field@
                    == key@ && spec_lookup(*r, key@) is Some && !(spec_lookup(*r, key@)
                    matches Option::Some(FieldValue::Text(_))),
            },
        },
{
    match find_field(r, key) {
        Option::Some(v) => match v {
            FieldValue::Text(s) => Result::Ok(s),
            _ => Result::Err(
                FieldError::TypeMismatch { record: r.name.clone(), field: key.to_owned() },
            ),
        },
        Option::None => Result::Err(FieldError::Absent),
    }
}

/// Returns the child-record list field `key` of `r`.
pub fn get_records<'a>(r: &'a Record, key: &str) -> (res: Result<&'a Vec<Record>, FieldError>)
    ensures
        match res {
            Result::Ok(v) => spec_lookup(*r, key@) == Option::Some(FieldValue::Children(*v)),
            Result::Err(e) => match e {
                FieldError::Absent => spec_lookup(*r, key@) is None,
                FieldError::TypeMismatch { record, field } => record@ == r.name@ && field@
                    == key@ && spec_lookup(*r, key@) is Some && !(spec_lookup(*r, key@)
                    matches Option::Some(FieldValue::Children(_))),
            },
        },
{
    match find_field(r, key) {
        Option::Some(v) => match v {
            FieldValue::Children(c) => Result::Ok(c),
            _ => Result::Err(
                FieldError::TypeMismatch { record: r.name.clone(), field: key.to_owned() },
            ),
        },
        Option::None => Result::Err(FieldError::Absent),
    }
}

/// Returns the reference field `key` of `r`: the name of the record it points at.
pub fn get_reference<'a>(r: &'a Record, key: &str) -> (res: Result<&'a String, FieldError>)
    ensures
        match res {
            Result::Ok(s) => spec_lookup(*r, key@) == Option::Some(FieldValue::Reference(*s)),
            Result::Err(e) => match e {
                FieldError::Absent => spec_lookup(*r, key@) is None,
                FieldError::TypeMismatch { record, field } => record@ == r.name@ && field@
                    == key@ && spec_lookup(*r, key@) is Some && !(spec_lookup(*r, key@)
                    matches Option::Some(FieldValue::Reference(_))),
            },
        },
{
    match find_field(r, key) {
        Option::Some(v) => match v {
            FieldValue::Reference(s) => Result::Ok(s),
            _ => Result::Err(
                FieldError::TypeMismatch { record: r.name.clone(), field: key.to_owned() },
            ),
        },
        Option::None => Result::Err(FieldError::Absent),
    }
}

/// True exactly when `r` has a boolean field `key` holding true; an absent or
/// wrongly shaped field reads as false.
pub open spec fn spec_bool_of(r: Record, key: Seq<char>) -> bool {
    spec_lookup(r, key) == Option::Some(FieldValue::Flag(true))
}

/// Returns the boolean field `key` of `r`, false when absent.
pub fn get_bool(r: &Record, key: &str) -> (res: bool)
    ensures
        res == spec_bool_of(*r, key@),
{
    match find_field(r, key) {
        Option::Some(v) => match v {
            FieldValue::Flag(b) => *b,
            _ => false,
        },
        Option::None => false,
    }
}

/// True when `r` derives from the base class `base`.
pub open spec fn spec_derives(r: Record, base: Seq<char>) -> bool {
    exists|k: int| 0 <= k < r.bases@.len() && r.bases@[k]@ == base
}

/// Decides whether `r` derives from the base class `base`.
pub fn derives_from(r: &Record, base: &str) -> (res: bool)
    ensures
        res == spec_derives(*r, base@),
{
    let n = r.bases.len();
    let mut i: usize = 0;
    while i < n
        invariant
            n == r.bases@.len(),
            0 <= i <= n,
            forall|k: int| 0 <= k < i ==> r.bases@[k]@ != base@,
        decreases n - i,
    {
        if str_eq(r.bases[i].as_str(), base) {
            return true;
        }
        i = i + 1;
    }
    false
}

/// The indices of the records deriving from `base`, in keeper order.
pub open spec fn spec_derived_indices(records: Seq<Record>, base: Seq<char>) -> Seq<int>
    decreases records.len(),
{
    if records.len() == 0 {
        Seq::empty()
    } else {
        spec_derived_indices(records.drop_last(), base) + if spec_derives(
            records.last(),
            base,
        ) {
            seq![records.len() - 1]
        } else {
            Seq::empty()
        }
    }
}

impl RecordKeeper {
    /// All records deriving from the base class `base`, as indices into the
    /// keeper, in the order the parser produced them.
    pub fn derived_indices(&self, base: &str) -> (res: Vec<usize>)
        ensures
            res@.map_values(|u: usize| u as int) == spec_derived_indices(self.records@, base@),
            forall|k: int|
                0 <= k < res@.len() ==> res@[k] < self.records@.len() && spec_derives(
                    self.records@[res@[k] as int],
                    base@,
                ),
    {
        let n = self.records.len();
        let mut out: Vec<usize> = Vec::new();
        let mut i: usize = 0;
        proof {
            assert(self.records@.take(0) =~= Seq::<Record>::empty());
            assert(out@.map_values(|u: usize| u as int) =~= spec_derived_indices(
                self.records@.take(0),
                base@,
            ));
        }
        while i < n
            invariant
                n == self.records@.len(),
                0 <= i <= n,
                out@.map_values(|u: usize| u as int) == spec_derived_indices(
                    self.records@.take(i as int),
                    base@,
                ),
                forall|k: int|
                    0 <= k < out@.len() ==> out@[k] < n && spec_derives(
                        self.records@[out@[k] as int],
                        base@,
                    ),
            decreases n - i,
        {
            let hit = derives_from(&self.records[i], base);
            proof {
                assert(self.records@.take(i + 1).drop_last() =~= self.records@.take(i as int));
                assert(self.records@.take(i + 1).last() == self.records@[i as int]);
            }
            if hit {
                out.push(i);
            }
            proof {
                assert(out@.map_values(|u: usize| u as int) =~= spec_derived_indices(
                    self.records@.take(i + 1),
                    base@,
                ));
            }
            i = i + 1;
        }
        proof {
            assert(self.records@.take(n as int) =~= self.records@);
        }
        out
    }

    /// The index of the first record whose definition name is `name`.
    pub fn find_def(&self, name: &str) -> (res: Option<usize>)
        ensures
            match res {
                Option::Some(i) => i < self.records@.len() && self.records@[i as int].name@
                    == name@ && forall|k: int|
                    0 <= k < i ==> self.records@[k].name@ != name@,
                Option::None => forall|k: int|
                    0 <= k < self.records@.len() ==> self.records@[k].name@ != name@,
            },
    {
        let n = self.records.len();
        let mut i: usize = 0;
        while i < n
            invariant
                n == self.records@.len(),
                0 <= i <= n,
                forall|k: int| 0 <= k < i ==> self.records@[k].name@ != name@,
            decreases n - i,
        {
            if str_eq(self.records[i].name.as_str(), name) {
                return Option::Some(i);
            }
            i = i + 1;
        }
        Option::None
    }
}

} // verus!
