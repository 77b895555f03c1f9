//! Resolvers and the operation model builder: from raw schema records to the
//! normalized `OperationModel`.

use vstd::prelude::*;

use crate::model::{
    AttributeConstraint, AttributeSpec, Cardinality, FieldSpec, OperationModel, RegionSpec,
    SuccessorSpec, TraitTag, TypeConstraint,
};
use crate::record::{
    derives_from, find_field, get_bool, spec_bool_of, spec_derives, spec_lookup, FieldValue,
    Record, RecordKeeper,
};
use crate::text::str_eq;

verus! {

/// Ghost view of a resolved type constraint.
pub ghost struct ResolvedView {
    pub accessor_type: Seq<char>,
    pub narrow_expr_template: Seq<char>,
    pub is_variadic_compatible: bool,
    pub is_opaque: bool,
}

/// The view of an executable `TypeConstraint`.
pub open spec fn spec_constraint_view(c: TypeConstraint) -> ResolvedView {
    ResolvedView {
        accessor_type: c.accessor_type@,
        narrow_expr_template: c.narrow_expr_template@,
        is_variadic_compatible: c.is_variadic_compatible,
        is_opaque: c.is_opaque,
    }
}

/// First record named `nm` at or after position `i`.
pub open spec fn spec_find_from(records: Seq<Record>, nm: Seq<char>, i: int) -> Option<int>
    decreases records.len() - i,
{
    if i < 0 || i >= records.len() {
        Option::None
    } else if records[i].name@ == nm {
        Option::Some(i)
    } else {
        spec_find_from(records, nm, i + 1)
    }
}

proof fn lemma_find_from_hit(records: Seq<Record>, nm: Seq<char>, i: int, ix: int)
    requires
        0 <= i <= ix < records.len(),
        records[ix].name@ == nm,
        forall|k: int| i <= k < ix ==> records[k].name@ != nm,
    ensures
        spec_find_from(records, nm, i) == Option::Some(ix),
    decreases ix - i,
{
    if i < ix {
        lemma_find_from_hit(records, nm, i + 1, ix);
    }
}

proof fn lemma_find_from_miss(records: Seq<Record>, nm: Seq<char>, i: int)
    requires
        0 <= i,
        forall|k: int| i <= k < records.len() ==> records[k].name@ != nm,
    ensures
        spec_find_from(records, nm, i) is None,
    decreases records.len() - i,
{
    if i < records.len() {
        lemma_find_from_miss(records, nm, i + 1);
    }
}

/// The resolution depth budget for a schema of `n` records: enough for a
/// reference chain that visits every record once plus deeply nested
/// composites; a chain that exhausts it must revisit a record, so the
/// constraint chain is cyclic (or absurdly deep) and the run aborts.
pub open spec fn spec_fuel(n: nat) -> nat {
    if n < 1000000 {
        n + 64
    } else {
        1000064
    }
}

/// Resolution of one constraint record, by class name, with a fixed lookup
/// table; composites resolve through their first alternative; an `Alias`
/// record resolves by one level of indirection in the keeper; every unknown
/// class falls back to the permissive opaque value type.
pub open spec fn spec_resolve(records: Seq<Record>, c: Record, fuel: nat) -> Result<
    ResolvedView,
    (),
>
    decreases fuel,
{
    if fuel == 0 {
        Result::Err(())
    } else if spec_derives(c, "AnyInteger"@) {
        Result::Ok(
            ResolvedView {
                accessor_type: "IntegerValue"@,
                narrow_expr_template: "as_integer({})"@,
                is_variadic_compatible: true,
                is_opaque: false,
            },
        )
    } else if spec_derives(c, "AnyFloat"@) {
        Result::Ok(
            ResolvedView {
                accessor_type: "FloatValue"@,
                narrow_expr_template: "as_float({})"@,
                is_variadic_compatible: true,
                is_opaque: false,
            },
        )
    } else if spec_derives(c, "AnyType"@) {
        Result::Ok(
            ResolvedView {
                accessor_type: "AnyValue"@,
                narrow_expr_template: "{}"@,
                is_variadic_compatible: true,
                is_opaque: false,
            },
        )
    } else if spec_derives(c, "ShapedType"@) {
        Result::Ok(
            ResolvedView {
                accessor_type: "ShapedValue"@,
                narrow_expr_template: "as_shaped({})"@,
                is_variadic_compatible: true,
                is_opaque: false,
            },
        )
    } else if spec_derives(c, "TensorOf"@) {
        match spec_lookup(c, "element"@) {
            Option::Some(FieldValue::Children(v)) => if v@.len() > 0 {
                match spec_resolve(records, v@[0], (fuel - 1) as nat) {
                    Result::Ok(e) => Result::Ok(
                        ResolvedView {
                            accessor_type: "TensorValue<"@ + e.accessor_type + ">"@,
                            narrow_expr_template: "as_tensor({})"@,
                            is_variadic_compatible: e.is_variadic_compatible,
                            is_opaque: e.is_opaque,
                        },
                    ),
                    Result::Err(u) => Result::Err(u),
                }
            } else {
                Result::Err(())
            },
            _ => Result::Err(()),
        }
    } else if spec_derives(c, "AnyOf"@) || spec_derives(c, "AllOf"@) {
        match spec_lookup(c, "allowed"@) {
            Option::Some(FieldValue::Children(v)) => if v@.len() > 0 {
                spec_resolve(records, v@[0], (fuel - 1) as nat)
            } else {
                Result::Err(())
            },
            _ => Result::Err(()),
        }
    } else if spec_derives(c, "Alias"@) {
        match spec_lookup(c, "aliased"@) {
            Option::Some(FieldValue::Reference(nm)) => match spec_find_from(records, nm@, 0) {
                Option::Some(ix) => spec_resolve(records, records[ix], (fuel - 1) as nat),
                Option::None => Result::Err(()),
            },
            _ => Result::Err(()),
        }
    } else {
        Result::Ok(
            ResolvedView {
                accessor_type: "OpaqueValue"@,
                narrow_expr_template: "{}"@,
                is_variadic_compatible: false,
                is_opaque: true,
            },
        )
    }
}

/// Failure of constraint resolution after exhausting the opaque fallback:
/// an unresolvable indirect reference, a malformed composite, or a cyclic
/// constraint chain. Names the record it started from.
pub struct ConstraintError {
    pub record: String,
}

/// Resolves one constraint record against the keeper.
pub fn resolve_constraint(keeper: &RecordKeeper, c: &Record, fuel: u64) -> (res: Result<
    TypeConstraint,
    ConstraintError,
>)
    ensures
        match res {
            Result::Ok(tc) => spec_resolve(keeper.records@, *c, fuel as nat) == Result::<
                ResolvedView,
                (),
            >::Ok(spec_constraint_view(tc)),
            Result::Err(e) => spec_resolve(keeper.records@, *c, fuel as nat) is Err && e.record@
                == c.name@,
        },
    decreases fuel,
{
    if fuel == 0 {
        return Result::Err(ConstraintError { record: c.name.clone() });
    }
    if derives_from(c, "AnyInteger") {
        return Result::Ok(
            TypeConstraint {
                accessor_type: "IntegerValue".to_owned(),
                narrow_expr_template: "as_integer({})".to_owned(),
                is_variadic_compatible: true,
                is_opaque: false,
            },
        );
    }
    if derives_from(c, "AnyFloat") {
        return Result::Ok(
            TypeConstraint {
                accessor_type: "FloatValue".to_owned(),
                narrow_expr_template: "as_float({})".to_owned(),
                is_variadic_compatible: true,
                is_opaque: false,
            },
        );
    }
    if derives_from(c, "AnyType") {
        return Result::Ok(
            TypeConstraint {
                accessor_type: "AnyValue".to_owned(),
                narrow_expr_template: "{}".to_owned(),
                is_variadic_compatible: true,
                is_opaque: false,
            },
        );
    }
    if derives_from(c, "ShapedType") {
        return Result::Ok(
            TypeConstraint {
                accessor_type: "ShapedValue".to_owned(),
                narrow_expr_template: "as_shaped({})".to_owned(),
                is_variadic_compatible: true,
                is_opaque: false,
            },
        );
    }
    if derives_from(c, "TensorOf") {
        match find_field(c, "element") {
            Option::Some(FieldValue::Children(v)) => {
                if v.len() > 0 {
                    match resolve_constraint(keeper, &v[0], fuel - 1) {
                        Result::Ok(e) => {
                            let mut acc = "TensorValue<".to_owned();
                            acc.append(e.accessor_type.as_str());
                            acc.append(">");
                            return Result::Ok(
                                TypeConstraint {
                                    accessor_type: acc,
                                    narrow_expr_template: "as_tensor({})".to_owned(),
                                    is_variadic_compatible: e.is_variadic_compatible,
                                    is_opaque: e.is_opaque,
                                },
                            );
                        },
                        Result::Err(_) => {
                            return Result::Err(ConstraintError { record: c.name.clone() });
                        },
                    }
                } else {
                    return Result::Err(ConstraintError { record: c.name.clone() });
                }
            },
            _ => {
                return Result::Err(ConstraintError { record: c.name.clone() });
            },
        }
    }
    if derives_from(c, "AnyOf") || derives_from(c, "AllOf") {
        match find_field(c, "allowed") {
            Option::Some(FieldValue::Children(v)) => {
                if v.len() > 0 {
                    match resolve_constraint(keeper, &v[0], fuel - 1) {
                        Result::Ok(e) => {
                            return Result::Ok(e);
                        },
                        Result::Err(_) => {
                            return Result::Err(ConstraintError { record: c.name.clone() });
                        },
                    }
                } else {
                    return Result::Err(ConstraintError { record: c.name.clone() });
                }
            },
            _ => {
                return Result::Err(ConstraintError { record: c.name.clone() });
            },
        }
    }
    if derives_from(c, "Alias") {
        match find_field(c, "aliased") {
            Option::Some(FieldValue::Reference(nm)) => {
                match keeper.find_def(nm.as_str()) {
                    Option::Some(ix) => {
                        proof {
                            lemma_find_from_hit(keeper.records@, nm@, 0, ix as int);
                        }
                        let target = &keeper.records[ix];
                        match resolve_constraint(keeper, target, fuel - 1) {
                            Result::Ok(e) => {
                                return Result::Ok(e);
                            },
                            Result::Err(_) => {
                                return Result::Err(ConstraintError { record: c.name.clone() });
                            },
                        }
                    },
                    Option::None => {
                        proof {
                            lemma_find_from_miss(keeper.records@, nm@, 0);
                        }
                        return Result::Err(ConstraintError { record: c.name.clone() });
                    },
                }
            },
            _ => {
                return Result::Err(ConstraintError { record: c.name.clone() });
            },
        }
    }
    Result::Ok(
        TypeConstraint {
            accessor_type: "OpaqueValue".to_owned(),
            narrow_expr_template: "{}".to_owned(),
            is_variadic_compatible: false,
            is_opaque: true,
        },
    )
}

/// The trait tag a trait record stands for, by its definition name; every
/// unrecognized name is preserved as an opaque tag with no structural
/// effect.
pub open spec fn spec_trait_tag_of(r: Record) -> TraitTag {
    if r.name@ == "SingleResult"@ {
        TraitTag::SingleResult
    } else if r.name@ == "Terminator"@ {
        TraitTag::Terminator
    } else if r.name@ == "NoSideEffect"@ {
        TraitTag::NoSideEffect
    } else if r.name@ == "SymbolTable"@ {
        TraitTag::SymbolTable
    } else if r.name@ == "SizeInference"@ {
        TraitTag::SizeInference
    } else {
        TraitTag::Unknown(r.name)
    }
}

/// The trait tags of a trait record list, in order.
pub open spec fn spec_tags_of(trs: Seq<Record>) -> Seq<TraitTag> {
    trs.map_values(|r: Record| spec_trait_tag_of(r))
}

/// Maps applied trait records to trait tags, in order.
pub fn resolve_traits(trs: &Vec<Record>) -> (res: Vec<TraitTag>)
    ensures
        res@ == spec_tags_of(trs@),
{
    let n = trs.len();
    let mut out: Vec<TraitTag> = Vec::new();
    let mut i: usize = 0;
    while i < n
        invariant
            n == trs@.len(),
            0 <= i <= n,
            out@ == spec_tags_of(trs@.take(i as int)),
        decreases n - i,
    {
        let r = &trs[i];
        let tag = if str_eq(r.name.as_str(), "SingleResult") {
            TraitTag::SingleResult
        } else if str_eq(r.name.as_str(), "Terminator") {
            TraitTag::Terminator
        } else if str_eq(r.name.as_str(), "NoSideEffect") {
            TraitTag::NoSideEffect
        } else if str_eq(r.name.as_str(), "SymbolTable") {
            TraitTag::SymbolTable
        } else if str_eq(r.name.as_str(), "SizeInference") {
            TraitTag::SizeInference
        } else {
            TraitTag::Unknown(r.name.clone())
        };
        out.push(tag);
        proof {
            assert(out@ =~= spec_tags_of(trs@.take(i + 1)));
        }
        i = i + 1;
    }
    proof {
        assert(trs@.take(n as int) =~= trs@);
    }
    out
}

/// Ghost view of one parsed operand or result field.
pub ghost struct FieldView {
    pub name: Seq<char>,
    pub constraint: ResolvedView,
    pub cardinality: Cardinality,
}

/// The view of an executable `FieldSpec`.
pub open spec fn spec_field_view(f: FieldSpec) -> FieldView {
    FieldView {
        name: f.name@,
        constraint: spec_constraint_view(f.constraint),
        cardinality: f.cardinality,
    }
}

/// Parsing one operand or result record: cardinality comes from the marker
/// wrapper around the constraint (`Variadic` or `Optional` with an
/// `element`), a plain constraint means exactly one value.
pub open spec fn spec_parse_field(records: Seq<Record>, fr: Record) -> Result<FieldView, ()> {
    match spec_lookup(fr, "type"@) {
        Option::Some(FieldValue::Children(v)) => if v@.len() > 0 {
            let c = v@[0];
            if spec_derives(c, "Variadic"@) || spec_derives(c, "Optional"@) {
                let card = if spec_derives(c, "Variadic"@) {
                    Cardinality::Variadic
                } else {
                    Cardinality::Optional
                };
                match spec_lookup(c, "element"@) {
                    Option::Some(FieldValue::Children(w)) => if w@.len() > 0 {
                        match spec_resolve(records, w@[0], spec_fuel(records.len())) {
                            Result::Ok(rv) => Result::Ok(
                                FieldView { name: fr.name@, constraint: rv, cardinality: card },
                            ),
                            Result::Err(u) => Result::Err(u),
                        }
                    } else {
                        Result::Err(())
                    },
                    _ => Result::Err(()),
                }
            } else {
                match spec_resolve(records, c, spec_fuel(records.len())) {
                    Result::Ok(rv) => Result::Ok(
                        FieldView {
                            name: fr.name@,
                            constraint: rv,
                            cardinality: Cardinality::One,
                        },
                    ),
                    Result::Err(u) => Result::Err(u),
                }
            }
        } else {
            Result::Err(())
        },
        _ => Result::Err(()),
    }
}

/// Parsing a whole operand or result list, in declaration order; any
/// unparsable member fails the list.
pub open spec fn spec_parse_fields(records: Seq<Record>, frs: Seq<Record>) -> Result<
    Seq<FieldView>,
    (),
>
    decreases frs.len(),
{
    if frs.len() == 0 {
        Result::Ok(Seq::empty())
    } else {
        match spec_parse_fields(records, frs.drop_last()) {
            Result::Ok(rest) => match spec_parse_field(records, frs.last()) {
                Result::Ok(v) => Result::Ok(rest + seq![v]),
                Result::Err(u) => Result::Err(u),
            },
            Result::Err(u) => Result::Err(u),
        }
    }
}

proof fn lemma_parse_fields_err(records: Seq<Record>, frs: Seq<Record>, i: int)
    requires
        0 <= i < frs.len(),
        spec_parse_field(records, frs[i]) is Err,
    ensures
        spec_parse_fields(records, frs) is Err,
    decreases frs.len(),
{
    if i < frs.len() - 1 {
        assert(frs.drop_last()[i] == frs[i]);
        lemma_parse_fields_err(records, frs.drop_last(), i);
    }
}

/// The executable fuel for a keeper of `n` records.
fn fuel_for(n: usize) -> (r: u64)
    ensures
        r as nat == spec_fuel(n as nat),
{
    if n < 1000000 {
        (n as u64) + 64
    } else {
        1000064
    }
}

/// Everything the operation model builder can fail with; each failure names
/// the schema entity it happened on.
#[derive(Debug)]
pub enum ModelError {
    /// A record field has the wrong shape for what the generator expects.
    FieldExtraction { record: String, field: String },
    /// A type constraint could not be resolved even as the opaque fallback.
    UnresolvedConstraint { record: String },
    /// More than one variadic field in one list without the size-inference
    /// trait.
    InconsistentCardinality { operation: String },
    /// Two fields of the same kind share a name within one operation.
    DuplicateName { operation: String, name: String },
    /// The single-result trait disagrees with the declared result list.
    TraitContradiction { operation: String },
}

/// Parses one operand or result record against the keeper.
pub fn parse_field(keeper: &RecordKeeper, fr: &Record) -> (res: Result<FieldSpec, ModelError>)
    ensures
        match res {
            Result::Ok(f) => spec_parse_field(keeper.records@, *fr) == Result::<
                FieldView,
                (),
            >::Ok(spec_field_view(f)),
            Result::Err(e) => spec_parse_field(keeper.records@, *fr) is Err && (e
                is FieldExtraction || e is UnresolvedConstraint),
        },
{
    let fuel = fuel_for(keeper.records.len());
    match find_field(fr, "type") {
        Option::Some(FieldValue::Children(v)) => {
            if v.len() > 0 {
                let c = &v[0];
                let is_var = derives_from(c, "Variadic");
                let is_opt = derives_from(c, "Optional");
                if is_var || is_opt {
                    let card = if is_var {
                        Cardinality::Variadic
                    } else {
                        Cardinality::Optional
                    };
                    match find_field(c, "element") {
                        Option::Some(FieldValue::Children(w)) => {
                            if w.len() > 0 {
                                match resolve_constraint(keeper, &w[0], fuel) {
                                    Result::Ok(tc) => Result::Ok(
                                        FieldSpec {
                                            name: fr.name.clone(),
                                            constraint: tc,
                                            cardinality: card,
                                        },
                                    ),
                                    Result::Err(e) => Result::Err(
                                        ModelError::UnresolvedConstraint { record: e.record },
                                    ),
                                }
                            } else {
                                Result::Err(
                                    ModelError::FieldExtraction {
                                        record: c.name.clone(),
                                        field: "element".to_owned(),
                                    },
                                )
                            }
                        },
                        _ => Result::Err(
                            ModelError::FieldExtraction {
                                record: c.name.clone(),
                                field: "element".to_owned(),
                            },
                        ),
                    }
                } else {
                    match resolve_constraint(keeper, c, fuel) {
                        Result::Ok(tc) => Result::Ok(
                            FieldSpec {
                                name: fr.name.clone(),
                                constraint: tc,
                                cardinality: Cardinality::One,
                            },
                        ),
                        Result::Err(e) => Result::Err(
                            ModelError::UnresolvedConstraint { record: e.record },
                        ),
                    }
                }
            } else {
                Result::Err(
                    ModelError::FieldExtraction {
                        record: fr.name.clone(),
                        field: "type".to_owned(),
                    },
                )
            }
        },
        _ => Result::Err(
            ModelError::FieldExtraction { record: fr.name.clone(), field: "type".to_owned() },
        ),
    }
}

/// Parses a whole operand or result list.
pub fn parse_fields(keeper: &RecordKeeper, frs: &Vec<Record>) -> (res: Result<
    Vec<FieldSpec>,
    ModelError,
>)
    ensures
        match res {
            Result::Ok(fs) => spec_parse_fields(keeper.records@, frs@) == Result::<
                Seq<FieldView>,
                (),
            >::Ok(spec_fields_view(fs@)),
            Result::Err(e) => spec_parse_fields(keeper.records@, frs@) is Err && (e
                is FieldExtraction || e is UnresolvedConstraint),
        },
{
    let n = frs.len();
    let mut out: Vec<FieldSpec> = Vec::new();
    let mut i: usize = 0;
    proof {
        assert(frs@.take(0) =~= Seq::<Record>::empty());
        assert(spec_fields_view(out@) =~= Seq::<FieldView>::empty());
    }
    while i < n
        invariant
            n == frs@.len(),
            0 <= i <= n,
            spec_parse_fields(keeper.records@, frs@.take(i as int)) == Result::<
                Seq<FieldView>,
                (),
            >::Ok(spec_fields_view(out@)),
        decreases n - i,
    {
        proof {
            assert(frs@.take(i + 1).drop_last() =~= frs@.take(i as int));
            assert(frs@.take(i + 1).last() == frs@[i as int]);
        }
        match parse_field(keeper, &frs[i]) {
            Result::Ok(f) => {
                let ghost prev = out@;
                out.push(f);
                proof {
                    assert(out@ =~= prev + seq![f]);
                    assert(spec_fields_view(out@) =~= spec_fields_view(prev) + seq![
                        spec_field_view(f),
                    ]);
                }
            },
            Result::Err(e) => {
                proof {
                    lemma_parse_fields_err(keeper.records@, frs@, i as int);
                }
                return Result::Err(e);
            },
        }
        i = i + 1;
    }
    proof {
        assert(frs@.take(n as int) =~= frs@);
    }
    Result::Ok(out)
}

/// Ghost view of one parsed attribute.
pub ghost struct AttrView {
    pub name: Seq<char>,
    pub storage: Seq<char>,
    pub has_default: bool,
    pub default_value: Seq<char>,
    pub is_optional: bool,
}

/// The view of an executable `AttributeSpec`.
pub open spec fn spec_attr_view(a: AttributeSpec) -> AttrView {
    AttrView {
        name: a.name@,
        storage: a.constraint.storage_type@,
        has_default: a.has_default,
        default_value: a.default_value@,
        is_optional: a.is_optional,
    }
}

/// Parsing one attribute record: the storage type from `type` (the
/// permissive attribute kind when absent), the schema default from
/// `default`, the optional mark from `optional`.
pub open spec fn spec_parse_attr(ar: Record) -> Result<AttrView, ()> {
    let storage = match spec_lookup(ar, "type"@) {
        Option::Some(FieldValue::Text(s)) => Result::Ok(s@),
        Option::None => Result::Ok("AnyAttribute"@),
        _ => Result::Err(()),
    };
    match storage {
        Result::Ok(st) => match spec_lookup(ar, "default"@) {
            Option::Some(FieldValue::Text(d)) => Result::Ok(
                AttrView {
                    name: ar.name@,
                    storage: st,
                    has_default: true,
                    default_value: d@,
                    is_optional: spec_bool_of(ar, "optional"@),
                },
            ),
            Option::None => Result::Ok(
                AttrView {
                    name: ar.name@,
                    storage: st,
                    has_default: false,
                    default_value: Seq::empty(),
                    is_optional: spec_bool_of(ar, "optional"@),
                },
            ),
            _ => Result::Err(()),
        },
        Result::Err(u) => Result::Err(u),
    }
}

/// Parsing a whole attribute list, in declaration order.
pub open spec fn spec_parse_attrs(ars: Seq<Record>) -> Result<Seq<AttrView>, ()>
    decreases ars.len(),
{
    if ars.len() == 0 {
        Result::Ok(Seq::empty())
    } else {
        match spec_parse_attrs(ars.drop_last()) {
            Result::Ok(rest) => match spec_parse_attr(ars.last()) {
                Result::Ok(v) => Result::Ok(rest + seq![v]),
                Result::Err(u) => Result::Err(u),
            },
            Result::Err(u) => Result::Err(u),
        }
    }
}

proof fn lemma_parse_attrs_err(ars: Seq<Record>, i: int)
    requires
        0 <= i < ars.len(),
        spec_parse_attr(ars[i]) is Err,
    ensures
        spec_parse_attrs(ars) is Err,
    decreases ars.len(),
{
    if i < ars.len() - 1 {
        assert(ars.drop_last()[i] == ars[i]);
        lemma_parse_attrs_err(ars.drop_last(), i);
    }
}

/// Parses one attribute record.
pub fn parse_attr(ar: &Record) -> (res: Result<AttributeSpec, ModelError>)
    ensures
        match res {
            Result::Ok(a) => spec_parse_attr(*ar) == Result::<AttrView, ()>::Ok(
                spec_attr_view(a),
            ),
            Result::Err(e) => spec_parse_attr(*ar) is Err && e is FieldExtraction,
        },
{
    let storage = match find_field(ar, "type") {
        Option::Some(FieldValue::Text(s)) => s.clone(),
        Option::None => "AnyAttribute".to_owned(),
        _ => {
            return Result::Err(
                ModelError::FieldExtraction { record: ar.name.clone(), field: "type".to_owned() },
            );
        },
    };
    let is_optional = get_bool(ar, "optional");
    match find_field(ar, "default") {
        Option::Some(FieldValue::Text(d)) => Result::Ok(
            AttributeSpec {
                name: ar.name.clone(),
                constraint: AttributeConstraint { storage_type: storage },
                has_default: true,
                default_value: d.clone(),
                is_optional,
            },
        ),
        Option::None => Result::Ok(
            AttributeSpec {
                name: ar.name.clone(),
                constraint: AttributeConstraint { storage_type: storage },
                has_default: false,
                default_value: String::new(),
                is_optional,
            },
        ),
        _ => Result::Err(
            ModelError::FieldExtraction { record: ar.name.clone(), field: "default".to_owned() },
        ),
    }
}

/// Parses a whole attribute list.
pub fn parse_attrs(ars: &Vec<Record>) -> (res: Result<Vec<AttributeSpec>, ModelError>)
    ensures
        match res {
            Result::Ok(a) => spec_parse_attrs(ars@) == Result::<Seq<AttrView>, ()>::Ok(
                spec_attrs_view(a@),
            ),
            Result::Err(e) => spec_parse_attrs(ars@) is Err && e is FieldExtraction,
        },
{
    let n = ars.len();
    let mut out: Vec<AttributeSpec> = Vec::new();
    let mut i: usize = 0;
    proof {
        assert(ars@.take(0) =~= Seq::<Record>::empty());
        assert(spec_attrs_view(out@) =~= Seq::<AttrView>::empty());
    }
    while i < n
        invariant
            n == ars@.len(),
            0 <= i <= n,
            spec_parse_attrs(ars@.take(i as int)) == Result::<Seq<AttrView>, ()>::Ok(
                spec_attrs_view(out@),
            ),
        decreases n - i,
    {
        proof {
            assert(ars@.take(i + 1).drop_last() =~= ars@.take(i as int));
            assert(ars@.take(i + 1).last() == ars@[i as int]);
        }
        match parse_attr(&ars[i]) {
            Result::Ok(a) => {
                let ghost prev = out@;
                out.push(a);
                proof {
                    assert(out@ =~= prev + seq![a]);
                    assert(spec_attrs_view(out@) =~= spec_attrs_view(prev) + seq![
                        spec_attr_view(a),
                    ]);
                }
            },
            Result::Err(e) => {
                proof {
                    lemma_parse_attrs_err(ars@, i as int);
                }
                return Result::Err(e);
            },
        }
        i = i + 1;
    }
    proof {
        assert(ars@.take(n as int) =~= ars@);
    }
    Result::Ok(out)
}

/// Ghost view of one region or successor: a name and a variadic mark.
pub ghost struct PortView {
    pub name: Seq<char>,
    pub is_variadic: bool,
}

/// Parsing one region or successor record never fails: the name is the
/// record's, the mark comes from `variadic` and reads false when absent.
pub open spec fn spec_port_view_of(r: Record) -> PortView {
    PortView { name: r.name@, is_variadic: spec_bool_of(r, "variadic"@) }
}

pub open spec fn spec_region_view(r: RegionSpec) -> PortView {
    PortView { name: r.name@, is_variadic: r.is_variadic }
}

pub open spec fn spec_successor_view(s: SuccessorSpec) -> PortView {
    PortView { name: s.name@, is_variadic: s.is_variadic }
}

/// The views of a parsed field list.
pub open spec fn spec_fields_view(fs: Seq<FieldSpec>) -> Seq<FieldView> {
    fs.map_values(|f: FieldSpec| spec_field_view(f))
}

/// The views of a parsed attribute list.
pub open spec fn spec_attrs_view(attrs: Seq<AttributeSpec>) -> Seq<AttrView> {
    attrs.map_values(|x: AttributeSpec| spec_attr_view(x))
}

/// The views of a parsed region list.
pub open spec fn spec_regions_view(rs: Seq<RegionSpec>) -> Seq<PortView> {
    rs.map_values(|r: RegionSpec| spec_region_view(r))
}

/// The views of a parsed successor list.
pub open spec fn spec_successors_view(ss: Seq<SuccessorSpec>) -> Seq<PortView> {
    ss.map_values(|s: SuccessorSpec| spec_successor_view(s))
}

/// The port views of a region or successor record list.
pub open spec fn spec_ports_of(prs: Seq<Record>) -> Seq<PortView> {
    prs.map_values(|r: Record| spec_port_view_of(r))
}

/// Parses a region list.
pub fn parse_regions(prs: &Vec<Record>) -> (res: Vec<RegionSpec>)
    ensures
        spec_regions_view(res@) == spec_ports_of(prs@),
{
    let n = prs.len();
    let mut out: Vec<RegionSpec> = Vec::new();
    let mut i: usize = 0;
    while i < n
        invariant
            n == prs@.len(),
            0 <= i <= n,
            spec_regions_view(out@) == spec_ports_of(prs@.take(i as int)),
        decreases n - i,
    {
        let ghost prev = out@;
        let name = prs[i].name.clone();
        let flag = get_bool(&prs[i], "variadic");
        let rs = RegionSpec { name, is_variadic: flag };
        proof {
            assert(spec_region_view(rs) == spec_port_view_of(prs@[i as int]));
        }
        out.push(rs);
        proof {
            assert(out@ =~= prev + seq![rs]);
            let a = spec_regions_view(out@);
            let b = spec_ports_of(prs@.take(i + 1));
            assert(spec_regions_view(prev).len() == prev.len());
            assert(spec_ports_of(prs@.take(i as int)).len() == i);
            assert(a.len() == b.len());
            assert forall|k: int| 0 <= k < a.len() implies a[k] == b[k] by {
                if k < i as int {
                    assert(out@[k] == prev[k]);
                    assert(spec_regions_view(prev)[k] == spec_ports_of(prs@.take(i as int))[k]);
                    assert(prs@.take(i as int)[k] == prs@.take(i + 1)[k]);
                } else {
                    assert(out@[k] == rs);
                    assert(prs@.take(i + 1)[k] == prs@[i as int]);
                }
            }
            assert(a =~= b);
        }
        i = i + 1;
    }
    proof {
        assert(prs@.take(n as int) =~= prs@);
    }
    out
}

/// Parses a successor list.
pub fn parse_successors(prs: &Vec<Record>) -> (res: Vec<SuccessorSpec>)
    ensures
        spec_successors_view(res@) == spec_ports_of(prs@),
{
    let n = prs.len();
    let mut out: Vec<SuccessorSpec> = Vec::new();
    let mut i: usize = 0;
    while i < n
        invariant
            n == prs@.len(),
            0 <= i <= n,
            spec_successors_view(out@) == spec_ports_of(prs@.take(i as int)),
        decreases n - i,
    {
        let ghost prev = out@;
        let name = prs[i].name.clone();
        let flag = get_bool(&prs[i], "variadic");
        let sc = SuccessorSpec { name, is_variadic: flag };
        proof {
            assert(spec_successor_view(sc) == spec_port_view_of(prs@[i as int]));
        }
        out.push(sc);
        proof {
            assert(out@ =~= prev + seq![sc]);
            let a = spec_successors_view(out@);
            let b = spec_ports_of(prs@.take(i + 1));
            assert(spec_successors_view(prev).len() == prev.len());
            assert(spec_ports_of(prs@.take(i as int)).len() == i);
            assert(a.len() == b.len());
            assert forall|k: int| 0 <= k < a.len() implies a[k] == b[k] by {
                if k < i as int {
                    assert(out@[k] == prev[k]);
                    assert(spec_successors_view(prev)[k] == spec_ports_of(prs@.take(i as int))[k]);
                    assert(prs@.take(i as int)[k] == prs@.take(i + 1)[k]);
                } else {
                    assert(out@[k] == sc);
                    assert(prs@.take(i + 1)[k] == prs@[i as int]);
                }
            }
            assert(a =~= b);
        }
        i = i + 1;
    }
    proof {
        assert(prs@.take(n as int) =~= prs@);
    }
    out
}

/// The names of a field view list.
pub open spec fn spec_view_field_names(fvs: Seq<FieldView>) -> Seq<Seq<char>> {
    fvs.map_values(|v: FieldView| v.name)
}

/// The names of an attribute view list.
pub open spec fn spec_view_attr_names(avs: Seq<AttrView>) -> Seq<Seq<char>> {
    avs.map_values(|v: AttrView| v.name)
}

/// How many of a field view list are variadic.
pub open spec fn spec_view_vcount(fvs: Seq<FieldView>) -> nat
    decreases fvs.len(),
{
    if fvs.len() == 0 {
        0
    } else {
        spec_view_vcount(fvs.drop_last()) + if fvs.last().cardinality == Cardinality::Variadic {
            1nat
        } else {
            0nat
        }
    }
}

/// The names of a port view list.
pub open spec fn spec_view_port_names(ps: Seq<PortView>) -> Seq<Seq<char>> {
    ps.map_values(|p: PortView| p.name)
}

/// Whether `nm` occurs at least twice in `names`.
pub open spec fn spec_has_dup_named(names: Seq<Seq<char>>, nm: Seq<char>) -> bool {
    exists|i: int, j: int|
        0 <= i < j < names.len() && #[trigger] names[i] == #[trigger] names[j] && names[j] == nm
}

/// Whether `tag` occurs in a tag list.
pub open spec fn spec_tags_contain(tags: Seq<TraitTag>, tag: TraitTag) -> bool {
    exists|i: int| 0 <= i < tags.len() && tags[i] == tag
}

proof fn lemma_field_names_view(fs: Seq<FieldSpec>)
    ensures
        crate::model::spec_field_names(fs) == spec_view_field_names(spec_fields_view(fs)),
{
    let a = crate::model::spec_field_names(fs);
    let b = spec_view_field_names(spec_fields_view(fs));
    assert(spec_fields_view(fs).len() == fs.len());
    assert forall|k: int| 0 <= k < fs.len() implies a[k] == b[k] by {
        assert(spec_fields_view(fs)[k] == spec_field_view(fs[k]));
    }
    assert(a =~= b);
}

proof fn lemma_attr_names_view(attrs: Seq<AttributeSpec>)
    ensures
        crate::model::spec_attr_names(attrs) == spec_view_attr_names(spec_attrs_view(attrs)),
{
    let a = crate::model::spec_attr_names(attrs);
    let b = spec_view_attr_names(spec_attrs_view(attrs));
    assert(spec_attrs_view(attrs).len() == attrs.len());
    assert forall|k: int| 0 <= k < attrs.len() implies a[k] == b[k] by {
        assert(spec_attrs_view(attrs)[k] == spec_attr_view(attrs[k]));
    }
    assert(a =~= b);
}

proof fn lemma_region_names_view(rs: Seq<RegionSpec>)
    ensures
        crate::model::spec_region_names(rs) == spec_view_port_names(spec_regions_view(rs)),
{
    let a = crate::model::spec_region_names(rs);
    let b = spec_view_port_names(spec_regions_view(rs));
    assert(spec_regions_view(rs).len() == rs.len());
    assert forall|k: int| 0 <= k < rs.len() implies a[k] == b[k] by {
        assert(spec_regions_view(rs)[k] == spec_region_view(rs[k]));
    }
    assert(a =~= b);
}

proof fn lemma_successor_names_view(ss: Seq<SuccessorSpec>)
    ensures
        crate::model::spec_successor_names(ss) == spec_view_port_names(spec_successors_view(ss)),
{
    let a = crate::model::spec_successor_names(ss);
    let b = spec_view_port_names(spec_successors_view(ss));
    assert(spec_successors_view(ss).len() == ss.len());
    assert forall|k: int| 0 <= k < ss.len() implies a[k] == b[k] by {
        assert(spec_successors_view(ss)[k] == spec_successor_view(ss[k]));
    }
    assert(a =~= b);
}

proof fn lemma_vcount_view(fs: Seq<FieldSpec>)
    ensures
        spec_view_vcount(spec_fields_view(fs)) == crate::model::spec_variadic_count(fs),
    decreases fs.len(),
{
    if fs.len() > 0 {
        lemma_vcount_view(fs.drop_last());
        assert(spec_fields_view(fs).drop_last() =~= spec_fields_view(fs.drop_last()));
        assert(spec_fields_view(fs).last() == spec_field_view(fs.last()));
    }
}

/// Counts the variadic fields of a list.
pub fn count_variadic(fields: &Vec<FieldSpec>) -> (r: usize)
    ensures
        r == crate::model::spec_variadic_count(fields@),
{
    let n = fields.len();
    let mut c: usize = 0;
    let mut i: usize = 0;
    proof {
        assert(fields@.take(0) =~= Seq::<FieldSpec>::empty());
    }
    while i < n
        invariant
            n == fields@.len(),
            0 <= i <= n,
            c <= i,
            c == crate::model::spec_variadic_count(fields@.take(i as int)),
        decreases n - i,
    {
        proof {
            assert(fields@.take(i + 1).drop_last() =~= fields@.take(i as int));
            assert(fields@.take(i + 1).last() == fields@[i as int]);
        }
        if matches!(fields[i].cardinality, Cardinality::Variadic) {
            c = c + 1;
        }
        i = i + 1;
    }
    proof {
        assert(fields@.take(n as int) =~= fields@);
    }
    c
}

/// Finds the first repeated field name in a list, scanning in order.
pub fn first_duplicate_field_name(fields: &Vec<FieldSpec>) -> (res: Option<String>)
    ensures
        match res {
            Option::None => crate::model::spec_names_unique(
                crate::model::spec_field_names(fields@),
            ),
            Option::Some(nm) => !crate::model::spec_names_unique(
                crate::model::spec_field_names(fields@),
            ) && spec_has_dup_named(crate::model::spec_field_names(fields@), nm@),
        },
{
    let n = fields.len();
    let mut j: usize = 1;
    while j < n
        invariant
            n == fields@.len(),
            1 <= j <= n || n == 0,
            forall|a: int, b: int|
                0 <= a < b < j ==> crate::model::spec_field_names(fields@)[a]
                    != crate::model::spec_field_names(fields@)[b],
        decreases n - j,
    {
        let mut i: usize = 0;
        while i < j
            invariant
                n == fields@.len(),
                0 <= i <= j < n,
                forall|a: int|
                    0 <= a < i ==> crate::model::spec_field_names(fields@)[a]
                        != crate::model::spec_field_names(fields@)[j as int],
            decreases j - i,
        {
            if str_eq(fields[i].name.as_str(), fields[j].name.as_str()) {
                proof {
                    assert(crate::model::spec_field_names(fields@)[i as int]
                        == crate::model::spec_field_names(fields@)[j as int]);
                    assert(crate::model::spec_field_names(fields@)[j as int]
                        == fields@[j as int].name@);
                }
                return Option::Some(fields[j].name.clone());
            }
            i = i + 1;
        }
        j = j + 1;
    }
    Option::None
}

/// Finds the first repeated attribute name in a list, scanning in order.
pub fn first_duplicate_attr_name(attrs: &Vec<AttributeSpec>) -> (res: Option<String>)
    ensures
        match res {
            Option::None => crate::model::spec_names_unique(
                crate::model::spec_attr_names(attrs@),
            ),
            Option::Some(nm) => !crate::model::spec_names_unique(
                crate::model::spec_attr_names(attrs@),
            ) && spec_has_dup_named(crate::model::spec_attr_names(attrs@), nm@),
        },
{
    let n = attrs.len();
    let mut j: usize = 1;
    while j < n
        invariant
            n == attrs@.len(),
            1 <= j <= n || n == 0,
            forall|a: int, b: int|
                0 <= a < b < j ==> crate::model::spec_attr_names(attrs@)[a]
                    != crate::model::spec_attr_names(attrs@)[b],
        decreases n - j,
    {
        let mut i: usize = 0;
        while i < j
            invariant
                n == attrs@.len(),
                0 <= i <= j < n,
                forall|a: int|
                    0 <= a < i ==> crate::model::spec_attr_names(attrs@)[a]
                        != crate::model::spec_attr_names(attrs@)[j as int],
            decreases j - i,
        {
            if str_eq(attrs[i].name.as_str(), attrs[j].name.as_str()) {
                proof {
                    assert(crate::model::spec_attr_names(attrs@)[i as int]
                        == crate::model::spec_attr_names(attrs@)[j as int]);
                    assert(crate::model::spec_attr_names(attrs@)[j as int]
                        == attrs@[j as int].name@);
                }
                return Option::Some(attrs[j].name.clone());
            }
            i = i + 1;
        }
        j = j + 1;
    }
    Option::None
}

/// Finds the first repeated region name in a list, scanning in order.
pub fn first_duplicate_region_name(rs: &Vec<RegionSpec>) -> (res: Option<String>)
    ensures
        match res {
            Option::None => crate::model::spec_names_unique(
                crate::model::spec_region_names(rs@),
            ),
            Option::Some(nm) => !crate::model::spec_names_unique(
                crate::model::spec_region_names(rs@),
            ) && spec_has_dup_named(crate::model::spec_region_names(rs@), nm@),
        },
{
    let n = rs.len();
    let mut j: usize = 1;
    while j < n
        invariant
            n == rs@.len(),
            1 <= j <= n || n == 0,
            forall|a: int, b: int|
                0 <= a < b < j ==> crate::model::spec_region_names(rs@)[a]
                    != crate::model::spec_region_names(rs@)[b],
        decreases n - j,
    {
        let mut i: usize = 0;
        while i < j
            invariant
                n == rs@.len(),
                0 <= i <= j < n,
                forall|a: int|
                    0 <= a < i ==> crate::model::spec_region_names(rs@)[a]
                        != crate::model::spec_region_names(rs@)[j as int],
            decreases j - i,
        {
            if str_eq(rs[i].name.as_str(), rs[j].name.as_str()) {
                proof {
                    assert(crate::model::spec_region_names(rs@)[i as int]
                        == crate::model::spec_region_names(rs@)[j as int]);
                    assert(crate::model::spec_region_names(rs@)[j as int]
                        == rs@[j as int].name@);
                }
                return Option::Some(rs[j].name.clone());
            }
            i = i + 1;
        }
        j = j + 1;
    }
    Option::None
}

/// Finds the first repeated successor name in a list, scanning in order.
pub fn first_duplicate_successor_name(ss: &Vec<SuccessorSpec>) -> (res: Option<String>)
    ensures
        match res {
            Option::None => crate::model::spec_names_unique(
                crate::model::spec_successor_names(ss@),
            ),
            Option::Some(nm) => !crate::model::spec_names_unique(
                crate::model::spec_successor_names(ss@),
            ) && spec_has_dup_named(crate::model::spec_successor_names(ss@), nm@),
        },
{
    let n = ss.len();
    let mut j: usize = 1;
    while j < n
        invariant
            n == ss@.len(),
            1 <= j <= n || n == 0,
            forall|a: int, b: int|
                0 <= a < b < j ==> crate::model::spec_successor_names(ss@)[a]
                    != crate::model::spec_successor_names(ss@)[b],
        decreases n - j,
    {
        let mut i: usize = 0;
        while i < j
            invariant
                n == ss@.len(),
                0 <= i <= j < n,
                forall|a: int|
                    0 <= a < i ==> crate::model::spec_successor_names(ss@)[a]
                        != crate::model::spec_successor_names(ss@)[j as int],
            decreases j - i,
        {
            if str_eq(ss[i].name.as_str(), ss[j].name.as_str()) {
                proof {
                    assert(crate::model::spec_successor_names(ss@)[i as int]
                        == crate::model::spec_successor_names(ss@)[j as int]);
                    assert(crate::model::spec_successor_names(ss@)[j as int]
                        == ss@[j as int].name@);
                }
                return Option::Some(ss[j].name.clone());
            }
            i = i + 1;
        }
        j = j + 1;
    }
    Option::None
}

/// Ghost view of a whole normalized operation model.
pub ghost struct ModelView {
    pub namespace: Seq<char>,
    pub short_name: Seq<char>,
    pub qualified_name: Seq<char>,
    pub operands: Seq<FieldView>,
    pub results: Seq<FieldView>,
    pub attributes: Seq<AttrView>,
    pub regions: Seq<PortView>,
    pub successors: Seq<PortView>,
    pub tags: Seq<TraitTag>,
    pub documentation: Seq<char>,
}

/// The view of an executable `OperationModel`.
pub open spec fn spec_model_view(m: OperationModel) -> ModelView {
    ModelView {
        namespace: m.namespace@,
        short_name: m.short_name@,
        qualified_name: m.qualified_name@,
        operands: spec_fields_view(m.operands@),
        results: spec_fields_view(m.results@),
        attributes: spec_attrs_view(m.attributes@),
        regions: spec_regions_view(m.regions@),
        successors: spec_successors_view(m.successors@),
        tags: m.traits@,
        documentation: m.documentation@,
    }
}

/// An optional child-record list field: absent means empty, any other shape
/// is a schema/generator disagreement.
pub open spec fn spec_list_of(r: Record, key: Seq<char>) -> Result<Seq<Record>, ()> {
    match spec_lookup(r, key) {
        Option::None => Result::Ok(Seq::empty()),
        Option::Some(FieldValue::Children(v)) => Result::Ok(v@),
        Option::Some(_) => Result::Err(()),
    }
}

/// The documentation string of a record, empty when absent.
pub open spec fn spec_doc_of(r: Record) -> Result<Seq<char>, ()> {
    match spec_lookup(r, "description"@) {
        Option::None => Result::Ok(Seq::empty()),
        Option::Some(FieldValue::Text(d)) => Result::Ok(d@),
        Option::Some(_) => Result::Err(()),
    }
}

/// The implicit attributes a size-inferred operation carries: one segment
/// sizes companion per list with several variadic fields, exposed through a
/// generated accessor like any declared attribute.
pub open spec fn spec_implicit_attrs(
    ops: Seq<FieldView>,
    ress: Seq<FieldView>,
    tags: Seq<TraitTag>,
) -> Seq<AttrView> {
    (if spec_tags_contain(tags, TraitTag::SizeInference) && spec_view_vcount(ops) > 1 {
        seq![
            AttrView {
                name: "operand_segment_sizes"@,
                storage: "SegmentSizesAttribute"@,
                has_default: false,
                default_value: Seq::empty(),
                is_optional: false,
            },
        ]
    } else {
        Seq::empty()
    }) + (if spec_tags_contain(tags, TraitTag::SizeInference) && spec_view_vcount(ress) > 1 {
        seq![
            AttrView {
                name: "result_segment_sizes"@,
                storage: "SegmentSizesAttribute"@,
                has_default: false,
                default_value: Seq::empty(),
                is_optional: false,
            },
        ]
    } else {
        Seq::empty()
    })
}

/// The consistency checks the model builder enforces.
pub open spec fn spec_checks_ok(m: ModelView) -> bool {
    &&& crate::model::spec_names_unique(spec_view_field_names(m.operands))
    &&& crate::model::spec_names_unique(spec_view_field_names(m.results))
    &&& crate::model::spec_names_unique(spec_view_attr_names(m.attributes))
    &&& crate::model::spec_names_unique(spec_view_port_names(m.regions))
    &&& crate::model::spec_names_unique(spec_view_port_names(m.successors))
    &&& (spec_tags_contain(m.tags, TraitTag::SizeInference) || (spec_view_vcount(m.operands) <= 1
        && spec_view_vcount(m.results) <= 1))
    &&& (spec_tags_contain(m.tags, TraitTag::SingleResult) ==> m.results.len() == 1
        && m.results[0].cardinality == Cardinality::One)
    &&& (m.successors.len() > 0 ==> spec_tags_contain(m.tags, TraitTag::Terminator))
}

/// The whole normalization of one operation record: extraction of every
/// list, constraint and trait resolution, then the consistency checks.
pub open spec fn spec_build_model(records: Seq<Record>, r: Record, ns: Seq<char>) -> Result<
    ModelView,
    (),
> {
    if ns.len() == 0 {
        Result::Err(())
    } else {
        match spec_lookup(r, "name"@) {
            Option::Some(FieldValue::Text(short)) => match spec_list_of(r, "operands"@) {
                Result::Ok(oprs) => match spec_parse_fields(records, oprs) {
                    Result::Ok(ops) => match spec_list_of(r, "results"@) {
                        Result::Ok(rrs) => match spec_parse_fields(records, rrs) {
                            Result::Ok(ress) => match spec_list_of(r, "attributes"@) {
                                Result::Ok(ars) => match spec_parse_attrs(ars) {
                                    Result::Ok(ats) => match spec_list_of(r, "regions"@) {
                                        Result::Ok(rgs) => match spec_list_of(r, "successors"@) {
                                            Result::Ok(sgs) => match spec_list_of(r, "traits"@) {
                                                Result::Ok(trs) => match spec_doc_of(r) {
                                                    Result::Ok(doc) => {
                                                        let m = ModelView {
                                                            namespace: ns,
                                                            short_name: short@,
                                                            qualified_name:
                                                                crate::model::spec_qualified(
                                                                ns,
                                                                short@,
                                                            ),
                                                            operands: ops,
                                                            results: ress,
                                                            attributes: ats + spec_implicit_attrs(
                                                                ops,
                                                                ress,
                                                                spec_tags_of(trs),
                                                            ),
                                                            regions: spec_ports_of(rgs),
                                                            successors: spec_ports_of(sgs),
                                                            tags: spec_tags_of(trs),
                                                            documentation: doc,
                                                        };
                                                        if spec_checks_ok(m) {
                                                            Result::Ok(m)
                                                        } else {
                                                            Result::Err(())
                                                        }
                                                    },
                                                    Result::Err(u) => Result::Err(u),
                                                },
                                                Result::Err(u) => Result::Err(u),
                                            },
                                            Result::Err(u) => Result::Err(u),
                                        },
                                        Result::Err(u) => Result::Err(u),
                                    },
                                    Result::Err(u) => Result::Err(u),
                                },
                                Result::Err(u) => Result::Err(u),
                            },
                            Result::Err(u) => Result::Err(u),
                        },
                        Result::Err(u) => Result::Err(u),
                    },
                    Result::Err(u) => Result::Err(u),
                },
                Result::Err(u) => Result::Err(u),
            },
            _ => Result::Err(()),
        }
    }
}

/// The parsed operand views of one operation record, on their own.
pub open spec fn spec_parsed_operands(records: Seq<Record>, r: Record) -> Result<
    Seq<FieldView>,
    (),
> {
    match spec_list_of(r, "operands"@) {
        Result::Ok(l) => spec_parse_fields(records, l),
        Result::Err(u) => Result::Err(u),
    }
}

/// The parsed result views of one operation record, on their own.
pub open spec fn spec_parsed_results(records: Seq<Record>, r: Record) -> Result<
    Seq<FieldView>,
    (),
> {
    match spec_list_of(r, "results"@) {
        Result::Ok(l) => spec_parse_fields(records, l),
        Result::Err(u) => Result::Err(u),
    }
}

/// The parsed attribute views of one operation record, on their own.
pub open spec fn spec_parsed_attrs(r: Record) -> Result<Seq<AttrView>, ()> {
    match spec_list_of(r, "attributes"@) {
        Result::Ok(l) => spec_parse_attrs(l),
        Result::Err(u) => Result::Err(u),
    }
}

/// The parsed region views of one operation record, on their own.
pub open spec fn spec_parsed_regions(r: Record) -> Result<Seq<PortView>, ()> {
    match spec_list_of(r, "regions"@) {
        Result::Ok(l) => Result::Ok(spec_ports_of(l)),
        Result::Err(u) => Result::Err(u),
    }
}

/// The parsed successor views of one operation record, on their own.
pub open spec fn spec_parsed_successors(r: Record) -> Result<Seq<PortView>, ()> {
    match spec_list_of(r, "successors"@) {
        Result::Ok(l) => Result::Ok(spec_ports_of(l)),
        Result::Err(u) => Result::Err(u),
    }
}

/// The parsed trait tags of one operation record, on their own.
pub open spec fn spec_parsed_tags(r: Record) -> Result<Seq<TraitTag>, ()> {
    match spec_list_of(r, "traits"@) {
        Result::Ok(l) => Result::Ok(spec_tags_of(l)),
        Result::Err(u) => Result::Err(u),
    }
}

/// Whether `q` is the qualified name derived from `ns` and the record's
/// declared short name: what every consistency error on `r` must carry.
pub open spec fn spec_op_name_is(r: Record, ns: Seq<char>, q: Seq<char>) -> bool {
    match spec_lookup(r, "name"@) {
        Option::Some(FieldValue::Text(s)) => q == crate::model::spec_qualified(ns, s@),
        _ => false,
    }
}

/// The variadic-field policy the model builder enforces, over parsed views:
/// more than one variadic field in a list is inconsistent without the
/// size-inference trait.
pub open spec fn spec_cardinality_inconsistent(
    ops: Seq<FieldView>,
    ress: Seq<FieldView>,
    tags: Seq<TraitTag>,
) -> bool {
    !spec_tags_contain(tags, TraitTag::SizeInference) && (spec_view_vcount(ops) > 1
        || spec_view_vcount(ress) > 1)
}

/// Decides whether a tag list carries the size-inference trait.
fn tags_have_size_inference(tags: &Vec<TraitTag>) -> (r: bool)
    ensures
        r == spec_tags_contain(tags@, TraitTag::SizeInference),
{
    let n = tags.len();
    let mut i: usize = 0;
    while i < n
        invariant
            n == tags@.len(),
            0 <= i <= n,
            forall|k: int| 0 <= k < i ==> tags@[k] != TraitTag::SizeInference,
        decreases n - i,
    {
        if matches!(&tags[i], TraitTag::SizeInference) {
            return true;
        }
        i = i + 1;
    }
    false
}

/// Builds the normalized model of one operation record: extracts and
/// qualifies the name, the operand and result lists in declaration order
/// with their cardinality markers and resolved constraints, the attributes
/// with their defaults, the regions, successors and traits, and enforces
/// the consistency rules: unique names per field kind, at most one variadic
/// field per list without the size-inference trait, and agreement between
/// the single-result trait and the declared results.
#[verifier::rlimit(60)]
pub fn build_operation_model(keeper: &RecordKeeper, r: &Record, namespace: &str) -> (res: Result<
    OperationModel,
    ModelError,
>)
    ensures
        res is Ok <==> spec_build_model(keeper.records@, *r, namespace@) is Ok,
        res matches Result::Ok(m) ==> spec_build_model(keeper.records@, *r, namespace@)
            == Result::<ModelView, ()>::Ok(spec_model_view(m)) && m.wf() && m.namespace@
            == namespace@,
        res matches Result::Err(ModelError::DuplicateName { operation, name }) ==> spec_op_name_is(
            *r,
            namespace@,
            operation@,
        ) && match (
            spec_parsed_operands(keeper.records@, *r),
            spec_parsed_results(keeper.records@, *r),
            spec_parsed_attrs(*r),
            spec_parsed_regions(*r),
            spec_parsed_successors(*r),
            spec_parsed_tags(*r),
        ) {
            (
                Result::Ok(ops),
                Result::Ok(ress),
                Result::Ok(ats),
                Result::Ok(rgs),
                Result::Ok(sgs),
                Result::Ok(tags),
            ) => spec_has_dup_named(spec_view_field_names(ops), name@) || spec_has_dup_named(
                spec_view_field_names(ress),
                name@,
            ) || spec_has_dup_named(
                spec_view_attr_names(ats + spec_implicit_attrs(ops, ress, tags)),
                name@,
            ) || spec_has_dup_named(spec_view_port_names(rgs), name@) || spec_has_dup_named(
                spec_view_port_names(sgs),
                name@,
            ),
            _ => false,
        },
        res matches Result::Err(ModelError::InconsistentCardinality { operation })
            ==> spec_op_name_is(*r, namespace@, operation@) && match (
            spec_parsed_operands(keeper.records@, *r),
            spec_parsed_results(keeper.records@, *r),
            spec_parsed_tags(*r),
        ) {
            (Result::Ok(ops), Result::Ok(ress), Result::Ok(tags)) => spec_cardinality_inconsistent(
                ops,
                ress,
                tags,
            ),
            _ => false,
        },
        res matches Result::Err(ModelError::TraitContradiction { operation }) ==> spec_op_name_is(
            *r,
            namespace@,
            operation@,
        ) && match (
            spec_parsed_results(keeper.records@, *r),
            spec_parsed_tags(*r),
            spec_parsed_successors(*r),
        ) {
            (Result::Ok(ress), Result::Ok(tags), Result::Ok(sgs)) => (spec_tags_contain(
                tags,
                TraitTag::SingleResult,
            ) && !(ress.len() == 1 && ress[0].cardinality == Cardinality::One)) || (sgs.len() > 0
                && !spec_tags_contain(tags, TraitTag::Terminator)),
            _ => false,
        },
        res matches Result::Err(e) && e is UnresolvedConstraint ==> spec_parsed_operands(
            keeper.records@,
            *r,
        ) is Err || spec_parsed_results(keeper.records@, *r) is Err,
        res matches Result::Err(e) && e is FieldExtraction ==> !(namespace@.len() > 0 && (
        spec_lookup(*r, "name"@) matches Option::Some(FieldValue::Text(_))) && spec_parsed_operands(
            keeper.records@,
            *r,
        ) is Ok && spec_parsed_results(keeper.records@, *r) is Ok && spec_parsed_attrs(*r) is Ok
            && spec_parsed_tags(*r) is Ok && spec_list_of(*r, "regions"@) is Ok && spec_list_of(
            *r,
            "successors"@,
        ) is Ok && spec_doc_of(*r) is Ok),
{
    if namespace.is_empty() {
        return Result::Err(
            ModelError::FieldExtraction { record: r.name.clone(), field: "namespace".to_owned() },
        );
    }
    let short = match find_field(r, "name") {
        Option::Some(FieldValue::Text(s)) => s.clone(),
        _ => {
            return Result::Err(
                ModelError::FieldExtraction { record: r.name.clone(), field: "name".to_owned() },
            );
        },
    };
    let empty_list: Vec<Record> = Vec::new();
    proof {
        assert(empty_list@ =~= Seq::<Record>::empty());
    }
    let oprs: &Vec<Record> = match find_field(r, "operands") {
        Option::Some(FieldValue::Children(v)) => v,
        Option::None => &empty_list,
        _ => {
            return Result::Err(
                ModelError::FieldExtraction {
                    record: r.name.clone(),
                    field: "operands".to_owned(),
                },
            );
        },
    };
    let operands = match parse_fields(keeper, oprs) {
        Result::Ok(v) => v,
        Result::Err(e) => {
            return Result::Err(e);
        },
    };
    let rrs: &Vec<Record> = match find_field(r, "results") {
        Option::Some(FieldValue::Children(v)) => v,
        Option::None => &empty_list,
        _ => {
            return Result::Err(
                ModelError::FieldExtraction {
                    record: r.name.clone(),
                    field: "results".to_owned(),
                },
            );
        },
    };
    let results = match parse_fields(keeper, rrs) {
        Result::Ok(v) => v,
        Result::Err(e) => {
            return Result::Err(e);
        },
    };
    let ars: &Vec<Record> = match find_field(r, "attributes") {
        Option::Some(FieldValue::Children(v)) => v,
        Option::None => &empty_list,
        _ => {
            return Result::Err(
                ModelError::FieldExtraction {
                    record: r.name.clone(),
                    field: "attributes".to_owned(),
                },
            );
        },
    };
    let mut attributes = match parse_attrs(ars) {
        Result::Ok(v) => v,
        Result::Err(e) => {
            return Result::Err(e);
        },
    };
    let rgs: &Vec<Record> = match find_field(r, "regions") {
        Option::Some(FieldValue::Children(v)) => v,
        Option::None => &empty_list,
        _ => {
            return Result::Err(
                ModelError::FieldExtraction {
                    record: r.name.clone(),
                    field: "regions".to_owned(),
                },
            );
        },
    };
    let regions = parse_regions(rgs);
    let sgs: &Vec<Record> = match find_field(r, "successors") {
        Option::Some(FieldValue::Children(v)) => v,
        Option::None => &empty_list,
        _ => {
            return Result::Err(
                ModelError::FieldExtraction {
                    record: r.name.clone(),
                    field: "successors".to_owned(),
                },
            );
        },
    };
    let successors = parse_successors(sgs);
    let trs: &Vec<Record> = match find_field(r, "traits") {
        Option::Some(FieldValue::Children(v)) => v,
        Option::None => &empty_list,
        _ => {
            return Result::Err(
                ModelError::FieldExtraction {
                    record: r.name.clone(),
                    field: "traits".to_owned(),
                },
            );
        },
    };
    let traits = resolve_traits(trs);
    let ghost parsed_attr_views = spec_attrs_view(attributes@);
    let has_size = tags_have_size_inference(&traits);
    proof {
        lemma_vcount_view(operands@);
        lemma_vcount_view(results@);
    }
    if has_size && count_variadic(&operands) > 1 {
        let ghost pa = attributes@;
        let a = AttributeSpec {
            name: "operand_segment_sizes".to_owned(),
            constraint: AttributeConstraint { storage_type: "SegmentSizesAttribute".to_owned() },
            has_default: false,
            default_value: String::new(),
            is_optional: false,
        };
        let ghost av = spec_attr_view(a);
        attributes.push(a);
        proof {
            assert(spec_attrs_view(attributes@) =~= spec_attrs_view(pa) + seq![av]);
        }
    }
    if has_size && count_variadic(&results) > 1 {
        let ghost pa = attributes@;
        let a = AttributeSpec {
            name: "result_segment_sizes".to_owned(),
            constraint: AttributeConstraint { storage_type: "SegmentSizesAttribute".to_owned() },
            has_default: false,
            default_value: String::new(),
            is_optional: false,
        };
        let ghost av = spec_attr_view(a);
        attributes.push(a);
        proof {
            assert(spec_attrs_view(attributes@) =~= spec_attrs_view(pa) + seq![av]);
        }
    }
    proof {
        assert(spec_attrs_view(attributes@) =~= parsed_attr_views + spec_implicit_attrs(
            spec_fields_view(operands@),
            spec_fields_view(results@),
            traits@,
        ));
    }
    let documentation = match find_field(r, "description") {
        Option::Some(FieldValue::Text(d)) => d.clone(),
        Option::None => String::new(),
        _ => {
            return Result::Err(
                ModelError::FieldExtraction {
                    record: r.name.clone(),
                    field: "description".to_owned(),
                },
            );
        },
    };
    let mut qualified = namespace.to_owned();
    qualified.append(".");
    qualified.append(short.as_str());
    let model = OperationModel {
        namespace: namespace.to_owned(),
        short_name: short,
        qualified_name: qualified,
        operands,
        results,
        attributes,
        regions,
        successors,
        traits,
        documentation,
    };
    if let Option::Some(nm) = first_duplicate_field_name(&model.operands) {
        proof {
            lemma_field_names_view(model.operands@);
        }
        return Result::Err(
            ModelError::DuplicateName { operation: model.qualified_name, name: nm },
        );
    }
    if let Option::Some(nm) = first_duplicate_field_name(&model.results) {
        proof {
            lemma_field_names_view(model.results@);
        }
        return Result::Err(
            ModelError::DuplicateName { operation: model.qualified_name, name: nm },
        );
    }
    if let Option::Some(nm) = first_duplicate_attr_name(&model.attributes) {
        proof {
            lemma_attr_names_view(model.attributes@);
        }
        return Result::Err(
            ModelError::DuplicateName { operation: model.qualified_name, name: nm },
        );
    }
    if let Option::Some(nm) = first_duplicate_region_name(&model.regions) {
        proof {
            lemma_region_names_view(model.regions@);
        }
        return Result::Err(
            ModelError::DuplicateName { operation: model.qualified_name, name: nm },
        );
    }
    if let Option::Some(nm) = first_duplicate_successor_name(&model.successors) {
        proof {
            lemma_successor_names_view(model.successors@);
        }
        return Result::Err(
            ModelError::DuplicateName { operation: model.qualified_name, name: nm },
        );
    }
    let has_size = model.has_fixed_trait(TraitTag::SizeInference);
    if !has_size && (count_variadic(&model.operands) > 1 || count_variadic(&model.results) > 1) {
        proof {
            lemma_vcount_view(model.operands@);
            lemma_vcount_view(model.results@);
        }
        return Result::Err(
            ModelError::InconsistentCardinality { operation: model.qualified_name },
        );
    }
    let has_single = model.has_fixed_trait(TraitTag::SingleResult);
    if has_single {
        let shape_ok = model.results.len() == 1 && matches!(
            model.results[0].cardinality,
            Cardinality::One,
        );
        if !shape_ok {
            return Result::Err(
                ModelError::TraitContradiction { operation: model.qualified_name },
            );
        }
    }
    if model.successors.len() > 0 && !model.has_fixed_trait(TraitTag::Terminator) {
        return Result::Err(ModelError::TraitContradiction { operation: model.qualified_name });
    }
    proof {
        lemma_field_names_view(model.operands@);
        lemma_field_names_view(model.results@);
        lemma_attr_names_view(model.attributes@);
        lemma_region_names_view(model.regions@);
        lemma_successor_names_view(model.successors@);
        lemma_vcount_view(model.operands@);
        lemma_vcount_view(model.results@);
        if model.results@.len() >= 1 {
            assert(spec_fields_view(model.results@)[0] == spec_field_view(model.results@[0]));
        }
        assert(spec_checks_ok(spec_model_view(model)));
        assert(model.wf());
    }
    Result::Ok(model)
}

} // verus!
