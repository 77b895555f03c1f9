//! Runtime semantics of the generated binding layer, stated over the
//! library's own model of a generic operation handle: construction through
//! the builder, positional field access under cardinality arithmetic, and
//! the downcast/upcast pair the dispatch sum type rests on.

use vstd::prelude::*;

use crate::model::{AttributeSpec, Cardinality, FieldSpec, OperationModel};
use crate::text::str_eq;

verus! {

/// The library's value model of a generic, dynamically typed operation
/// handle: a qualified name, positional operand and result values, and named
/// attribute values.
pub struct GenericOp {
    pub name: String,
    pub operands: Vec<u64>,
    pub results: Vec<u64>,
    pub attributes: Vec<(String, String)>,
}

/// A typed wrapper: a generic handle that has been identified as one
/// operation kind. Lossless: it only holds the handle.
pub struct TypedOp {
    pub op: GenericOp,
}

/// The views of a list of value groups.
pub open spec fn spec_group_views(gs: Seq<Vec<u64>>) -> Seq<Seq<u64>> {
    gs.map_values(|g: Vec<u64>| g@)
}

/// The views of a list of named string pairs.
pub open spec fn spec_pair_views(s: Seq<(String, String)>) -> Seq<(Seq<char>, Seq<char>)> {
    s.map_values(|p: (String, String)| (p.0@, p.1@))
}

/// All groups laid out one after another, in order.
pub open spec fn spec_flat(gs: Seq<Seq<u64>>) -> Seq<u64>
    decreases gs.len(),
{
    if gs.len() == 0 {
        Seq::empty()
    } else {
        spec_flat(gs.drop_last()) + gs.last()
    }
}

/// Total length of the first `i` groups: where group `i` starts in the flat
/// layout.
pub open spec fn spec_prefix_len(gs: Seq<Seq<u64>>, i: int) -> nat
    decreases i,
{
    if i <= 0 {
        0
    } else {
        spec_prefix_len(gs, i - 1) + gs[i - 1].len()
    }
}

/// Whether the supplied groups fit the declared fields: one group per field,
/// exactly one value for a `One` field, at most one for an `Optional` field.
pub open spec fn spec_groups_ok(fields: Seq<FieldSpec>, gs: Seq<Seq<u64>>) -> bool {
    &&& fields.len() == gs.len()
    &&& forall|i: int|
        0 <= i < fields.len() ==> match #[trigger] fields[i].cardinality {
            Cardinality::One => gs[i].len() == 1,
            Cardinality::Optional => gs[i].len() <= 1,
            Cardinality::Variadic => true,
        }
}

proof fn lemma_prefix_len_frame(a: Seq<Seq<u64>>, b: Seq<Seq<u64>>, i: int)
    requires
        0 <= i <= a.len(),
        i <= b.len(),
        forall|k: int| 0 <= k < i ==> a[k] == b[k],
    ensures
        spec_prefix_len(a, i) == spec_prefix_len(b, i),
    decreases i,
{
    if i > 0 {
        lemma_prefix_len_frame(a, b, i - 1);
    }
}

/// The flat layout is as long as all groups together.
pub proof fn lemma_flat_len(gs: Seq<Seq<u64>>)
    ensures
        spec_flat(gs).len() == spec_prefix_len(gs, gs.len() as int),
    decreases gs.len(),
{
    if gs.len() > 0 {
        lemma_flat_len(gs.drop_last());
        lemma_prefix_len_frame(gs.drop_last(), gs, gs.len() - 1);
    }
}

/// Group `i` sits unchanged in the flat layout, starting at the total length
/// of the groups before it.
pub proof fn lemma_flat_group(gs: Seq<Seq<u64>>, i: int)
    requires
        0 <= i < gs.len(),
    ensures
        spec_prefix_len(gs, i) + gs[i].len() <= spec_flat(gs).len(),
        spec_flat(gs).subrange(
            spec_prefix_len(gs, i) as int,
            (spec_prefix_len(gs, i) + gs[i].len()) as int,
        ) == gs[i],
    decreases gs.len(),
{
    lemma_flat_len(gs);
    if i == gs.len() - 1 {
        lemma_flat_len(gs.drop_last());
        lemma_prefix_len_frame(gs.drop_last(), gs, i);
        assert(spec_flat(gs).subrange(
            spec_prefix_len(gs, i) as int,
            (spec_prefix_len(gs, i) + gs[i].len()) as int,
        ) =~= gs[i]);
    } else {
        lemma_flat_group(gs.drop_last(), i);
        lemma_prefix_len_frame(gs.drop_last(), gs, i);
        lemma_flat_len(gs.drop_last());
        assert(spec_flat(gs).subrange(
            spec_prefix_len(gs, i) as int,
            (spec_prefix_len(gs, i) + gs[i].len()) as int,
        ) =~= spec_flat(gs.drop_last()).subrange(
            spec_prefix_len(gs.drop_last(), i) as int,
            (spec_prefix_len(gs.drop_last(), i) + gs.drop_last()[i].len()) as int,
        ));
    }
}

/// Flattens value groups into one positional list.
pub fn flatten_groups(gs: &Vec<Vec<u64>>) -> (r: Vec<u64>)
    ensures
        r@ == spec_flat(spec_group_views(gs@)),
{
    let n = gs.len();
    let mut out: Vec<u64> = Vec::new();
    let mut i: usize = 0;
    proof {
        assert(spec_group_views(gs@.take(0)) =~= Seq::<Seq<u64>>::empty());
    }
    while i < n
        invariant
            n == gs@.len(),
            0 <= i <= n,
            out@ == spec_flat(spec_group_views(gs@.take(i as int))),
        decreases n - i,
    {
        let m = gs[i].len();
        let mut j: usize = 0;
        while j < m
            invariant
                n == gs@.len(),
                0 <= i < n,
                m == gs@[i as int]@.len(),
                0 <= j <= m,
                out@ == spec_flat(spec_group_views(gs@.take(i as int))) + gs@[i as int]@.take(
                    j as int,
                ),
            decreases m - j,
        {
            out.push(gs[i][j]);
            proof {
                assert(gs@[i as int]@.take(j + 1) =~= gs@[i as int]@.take(j as int) + seq![
                    gs@[i as int]@[j as int],
                ]);
            }
            j = j + 1;
        }
        proof {
            let pre = spec_group_views(gs@.take(i + 1));
            assert(pre.drop_last() =~= spec_group_views(gs@.take(i as int)));
            assert(pre.last() == gs@[i as int]@);
            assert(gs@[i as int]@.take(m as int) =~= gs@[i as int]@);
            assert(out@ =~= spec_flat(pre));
        }
        i = i + 1;
    }
    proof {
        assert(gs@.take(n as int) =~= gs@);
    }
    out
}

/// The value supplied for attribute `name`, if any: first match wins.
pub open spec fn spec_attr_lookup(sup: Seq<(Seq<char>, Seq<char>)>, name: Seq<char>) -> Option<
    Seq<char>,
>
    decreases sup.len(),
{
    if sup.len() == 0 {
        Option::None
    } else if sup[0].0 == name {
        Option::Some(sup[0].1)
    } else {
        spec_attr_lookup(sup.skip(1), name)
    }
}

/// An attribute the builder cannot finalize: unsupplied, no schema default,
/// and not optional.
pub open spec fn spec_attr_missing(a: AttributeSpec, sup: Seq<(Seq<char>, Seq<char>)>) -> bool {
    spec_attr_lookup(sup, a.name@) is None && !a.has_default && !a.is_optional
}

/// Whether every declared attribute can be finalized from `sup`.
pub open spec fn spec_attrs_ok(attrs: Seq<AttributeSpec>, sup: Seq<(Seq<char>, Seq<char>)>) -> bool {
    forall|i: int| 0 <= i < attrs.len() ==> !spec_attr_missing(#[trigger] attrs[i], sup)
}

/// The finalized attribute list: declared order, supplied values first,
/// schema defaults for unsupplied defaulted attributes, optional unsupplied
/// attributes left out.
pub open spec fn spec_built_attrs(attrs: Seq<AttributeSpec>, sup: Seq<(Seq<char>, Seq<char>)>) -> Seq<
    (Seq<char>, Seq<char>),
>
    decreases attrs.len(),
{
    if attrs.len() == 0 {
        Seq::empty()
    } else {
        spec_built_attrs(attrs.drop_last(), sup) + (match spec_attr_lookup(
            sup,
            attrs.last().name@,
        ) {
            Option::Some(v) => seq![(attrs.last().name@, v)],
            Option::None => if attrs.last().has_default {
                seq![(attrs.last().name@, attrs.last().default_value@)]
            } else {
                Seq::empty()
            },
        })
    }
}

proof fn lemma_attr_lookup_step(sup: Seq<(Seq<char>, Seq<char>)>, name: Seq<char>, i: int)
    requires
        0 <= i < sup.len(),
        sup[i].0 != name,
    ensures
        spec_attr_lookup(sup.skip(i), name) == spec_attr_lookup(sup.skip(i + 1), name),
{
    assert(sup.skip(i)[0] == sup[i]);
    assert(sup.skip(i).skip(1) =~= sup.skip(i + 1));
}

proof fn lemma_attr_lookup_hit(sup: Seq<(Seq<char>, Seq<char>)>, name: Seq<char>, i: int)
    requires
        0 <= i < sup.len(),
        sup[i].0 == name,
    ensures
        spec_attr_lookup(sup.skip(i), name) == Option::Some(sup[i].1),
{
    assert(sup.skip(i)[0] == sup[i]);
}

/// Finds the supplied value for attribute `name`, first match first.
fn find_supplied<'a>(sup: &'a Vec<(String, String)>, name: &str) -> (res: Option<&'a String>)
    ensures
        match res {
            Option::Some(v) => spec_attr_lookup(spec_pair_views(sup@), name@) == Option::Some(
                v@,
            ),
            Option::None => spec_attr_lookup(spec_pair_views(sup@), name@) is None,
        },
{
    let n = sup.len();
    let mut i: usize = 0;
    proof {
        assert(spec_pair_views(sup@).skip(0) =~= spec_pair_views(sup@));
    }
    while i < n
        invariant
            n == sup@.len(),
            0 <= i <= n,
            spec_attr_lookup(spec_pair_views(sup@), name@) == spec_attr_lookup(
                spec_pair_views(sup@).skip(i as int),
                name@,
            ),
        decreases n - i,
    {
        if str_eq(sup[i].0.as_str(), name) {
            proof {
                lemma_attr_lookup_hit(spec_pair_views(sup@), name@, i as int);
            }
            return Option::Some(&sup[i].1);
        }
        proof {
            lemma_attr_lookup_step(spec_pair_views(sup@), name@, i as int);
        }
        i = i + 1;
    }
    proof {
        assert(spec_pair_views(sup@).skip(n as int) =~= Seq::<(Seq<char>, Seq<char>)>::empty());
    }
    Option::None
}

/// Structured failure of the fallible construction path.
#[derive(Debug)]
pub enum BuildError {
    /// The caller handed over the wrong number of value groups.
    GroupCountMismatch { expected: usize, got: usize },
    /// A group does not fit its field's cardinality; names the field.
    GroupShapeMismatch { name: String },
    /// A required attribute was unset at finalize time; names the field.
    MissingRequiredField { name: String },
}

/// Whether one supplied group fits one declared field.
pub open spec fn spec_group_fits(f: FieldSpec, g: Seq<u64>) -> bool {
    match f.cardinality {
        Cardinality::One => g.len() == 1,
        Cardinality::Optional => g.len() <= 1,
        Cardinality::Variadic => true,
    }
}

/// Checks each group against its field, returning the first offender's name.
fn check_groups(fields: &Vec<FieldSpec>, gs: &Vec<Vec<u64>>) -> (res: Option<String>)
    requires
        fields@.len() == gs@.len(),
    ensures
        match res {
            Option::None => spec_groups_ok(fields@, spec_group_views(gs@)),
            Option::Some(name) => exists|i: int|
                0 <= i < fields@.len() && !spec_group_fits(
                    #[trigger] fields@[i],
                    gs@[i]@,
                ) && name@ == fields@[i].name@ && (forall|j: int|
                    0 <= j < i ==> spec_group_fits(#[trigger] fields@[j], gs@[j]@)),
        },
{
    let n = fields.len();
    let mut i: usize = 0;
    while i < n
        invariant
            n == fields@.len(),
            fields@.len() == gs@.len(),
            0 <= i <= n,
            forall|j: int| 0 <= j < i ==> spec_group_fits(#[trigger] fields@[j], gs@[j]@),
        decreases n - i,
    {
        let fits = match fields[i].cardinality {
            Cardinality::One => gs[i].len() == 1,
            Cardinality::Optional => gs[i].len() <= 1,
            Cardinality::Variadic => true,
        };
        if !fits {
            return Option::Some(fields[i].name.clone());
        }
        i = i + 1;
    }
    proof {
        assert(forall|i: int|
            0 <= i < fields@.len() ==> match #[trigger] fields@[i].cardinality {
                Cardinality::One => spec_group_views(gs@)[i].len() == 1,
                Cardinality::Optional => spec_group_views(gs@)[i].len() <= 1,
                Cardinality::Variadic => true,
            });
    }
    Option::None
}

/// The fallible construction entry point: takes one value group per declared
/// operand and result, and the supplied attributes; fills schema defaults for
/// unsupplied defaulted attributes; fails, naming the field, when a group
/// does not fit its cardinality or a required attribute is unset.
pub fn build_operation(
    m: &OperationModel,
    operand_groups: &Vec<Vec<u64>>,
    result_groups: &Vec<Vec<u64>>,
    supplied: &Vec<(String, String)>,
) -> (res: Result<GenericOp, BuildError>)
    ensures
        match res {
            Result::Ok(op) => {
                &&& spec_groups_ok(m.operands@, spec_group_views(operand_groups@))
                &&& spec_groups_ok(m.results@, spec_group_views(result_groups@))
                &&& spec_attrs_ok(m.attributes@, spec_pair_views(supplied@))
                &&& op.name@ == m.qualified_name@
                &&& op.operands@ == spec_flat(spec_group_views(operand_groups@))
                &&& op.results@ == spec_flat(spec_group_views(result_groups@))
                &&& spec_pair_views(op.attributes@) == spec_built_attrs(
                    m.attributes@,
                    spec_pair_views(supplied@),
                )
            },
            Result::Err(e) => match e {
                BuildError::GroupCountMismatch { expected, got } => expected != got && ((expected
                    == m.operands@.len() && got == operand_groups@.len()) || (operand_groups@.len()
                    == m.operands@.len() && expected == m.results@.len() && got
                    == result_groups@.len())),
                BuildError::GroupShapeMismatch { name } => (exists|i: int|
                    0 <= i < m.operands@.len() && !spec_group_fits(
                        #[trigger] m.operands@[i],
                        operand_groups@[i]@,
                    ) && name@ == m.operands@[i].name@) || (spec_groups_ok(
                    m.operands@,
                    spec_group_views(operand_groups@),
                ) && exists|i: int|
                    0 <= i < m.results@.len() && !spec_group_fits(
                        #[trigger] m.results@[i],
                        result_groups@[i]@,
                    ) && name@ == m.results@[i].name@),
                BuildError::MissingRequiredField { name } => spec_groups_ok(
                    m.operands@,
                    spec_group_views(operand_groups@),
                ) && spec_groups_ok(m.results@, spec_group_views(result_groups@)) && exists|i: int|
                    0 <= i < m.attributes@.len() && spec_attr_missing(
                        #[trigger] m.attributes@[i],
                        spec_pair_views(supplied@),
                    ) && name@ == m.attributes@[i].name@,
            },
        },
        res is Ok <==> spec_groups_ok(m.operands@, spec_group_views(operand_groups@))
            && spec_groups_ok(m.results@, spec_group_views(result_groups@)) && spec_attrs_ok(
            m.attributes@,
            spec_pair_views(supplied@),
        ),
{
    if operand_groups.len() != m.operands.len() {
        return Result::Err(
            BuildError::GroupCountMismatch {
                expected: m.operands.len(),
                got: operand_groups.len(),
            },
        );
    }
    if result_groups.len() != m.results.len() {
        return Result::Err(
            BuildError::GroupCountMismatch { expected: m.results.len(), got: result_groups.len() },
        );
    }
    if let Option::Some(name) = check_groups(&m.operands, operand_groups) {
        return Result::Err(BuildError::GroupShapeMismatch { name });
    }
    if let Option::Some(name) = check_groups(&m.results, result_groups) {
        return Result::Err(BuildError::GroupShapeMismatch { name });
    }
    let n = m.attributes.len();
    let mut built: Vec<(String, String)> = Vec::new();
    let mut i: usize = 0;
    proof {
        assert(spec_pair_views(built@) =~= spec_built_attrs(
            m.attributes@.take(0),
            spec_pair_views(supplied@),
        ));
    }
    while i < n
        invariant
            n == m.attributes@.len(),
            0 <= i <= n,
            spec_groups_ok(m.operands@, spec_group_views(operand_groups@)),
            spec_groups_ok(m.results@, spec_group_views(result_groups@)),
            forall|j: int|
                0 <= j < i ==> !spec_attr_missing(
                    #[trigger] m.attributes@[j],
                    spec_pair_views(supplied@),
                ),
            spec_pair_views(built@) == spec_built_attrs(
                m.attributes@.take(i as int),
                spec_pair_views(supplied@),
            ),
        decreases n - i,
    {
        let a = &m.attributes[i];
        proof {
            assert(m.attributes@.take(i + 1).drop_last() =~= m.attributes@.take(i as int));
            assert(m.attributes@.take(i + 1).last() == m.attributes@[i as int]);
        }
        match find_supplied(supplied, a.name.as_str()) {
            Option::Some(v) => {
                built.push((a.name.clone(), v.clone()));
            },
            Option::None => {
                if a.has_default {
                    built.push((a.name.clone(), a.default_value.clone()));
                } else if !a.is_optional {
                    proof {
                        assert(spec_attr_missing(
                            m.attributes@[i as int],
                            spec_pair_views(supplied@),
                        ));
                        assert(!spec_attrs_ok(m.attributes@, spec_pair_views(supplied@)));
                    }
                    return Result::Err(BuildError::MissingRequiredField { name: a.name.clone() });
                }
            },
        }
        proof {
            assert(spec_pair_views(built@) =~= spec_built_attrs(
                m.attributes@.take(i + 1),
                spec_pair_views(supplied@),
            ));
        }
        i = i + 1;
    }
    proof {
        assert(m.attributes@.take(n as int) =~= m.attributes@);
    }
    let operands = flatten_groups(operand_groups);
    let results = flatten_groups(result_groups);
    Result::Ok(
        GenericOp { name: m.qualified_name.clone(), operands, results, attributes: built },
    )
}

/// A defaulted attribute that was not supplied resolves to its schema
/// default in the finalized list, never to an error and never to an empty
/// value.
pub proof fn lemma_default_applied(
    attrs: Seq<AttributeSpec>,
    sup: Seq<(Seq<char>, Seq<char>)>,
    i: int,
)
    requires
        0 <= i < attrs.len(),
        attrs[i].has_default,
        spec_attr_lookup(sup, attrs[i].name@) is None,
    ensures
        spec_built_attrs(attrs, sup).contains((attrs[i].name@, attrs[i].default_value@)),
    decreases attrs.len(),
{
    if i == attrs.len() - 1 {
        let built = spec_built_attrs(attrs, sup);
        assert(built.last() == (attrs[i].name@, attrs[i].default_value@));
    } else {
        lemma_default_applied(attrs.drop_last(), sup, i);
        let pre = spec_built_attrs(attrs.drop_last(), sup);
        let k = choose|k: int|
            0 <= k < pre.len() && pre[k] == (attrs[i].name@, attrs[i].default_value@);
        assert(spec_built_attrs(attrs, sup)[k] == (attrs[i].name@, attrs[i].default_value@));
    }
}

/// Outcome of a best-effort downcast: either the typed wrapper, or the
/// caller's handle handed back unchanged. Ownership is never lost on
/// mismatch.
pub enum DowncastOutcome {
    Converted(TypedOp),
    Unchanged(GenericOp),
}

/// Attempts to identify `op` as the operation `m` describes, by qualified
/// name; on mismatch the original handle comes back unchanged.
pub fn downcast(m: &OperationModel, op: GenericOp) -> (res: DowncastOutcome)
    ensures
        op.name@ == m.qualified_name@ ==> res == DowncastOutcome::Converted(TypedOp { op }),
        op.name@ != m.qualified_name@ ==> res == DowncastOutcome::Unchanged(op),
{
    if str_eq(op.name.as_str(), m.qualified_name.as_str()) {
        DowncastOutcome::Converted(TypedOp { op })
    } else {
        DowncastOutcome::Unchanged(op)
    }
}

/// Returns the generic handle under a typed wrapper: lossless and O(1).
pub fn upcast(t: TypedOp) -> (res: GenericOp)
    ensures
        res == t.op,
{
    t.op
}

/// Downcast followed by upcast is the identity: whatever the outcome, the
/// handle keeps its qualified name and its operand, result and attribute
/// values.
pub proof fn lemma_downcast_upcast_identity(m: OperationModel, op: GenericOp, res: DowncastOutcome)
    requires
        op.name@ == m.qualified_name@ ==> res == DowncastOutcome::Converted(TypedOp { op }),
        op.name@ != m.qualified_name@ ==> res == DowncastOutcome::Unchanged(op),
    ensures
        match res {
            DowncastOutcome::Converted(t) => t.op.name@ == op.name@ && t.op.operands@
                == op.operands@ && t.op.results@ == op.results@ && t.op.attributes@
                == op.attributes@,
            DowncastOutcome::Unchanged(o) => o == op,
        },
{
}

/// Duplicates a typed wrapper: a fresh, independent handle value carrying
/// the same qualified name and the same operand, result and attribute
/// values — shallow duplication of the handle, no deep copy beneath it.
pub fn duplicate(t: &TypedOp) -> (res: TypedOp)
    ensures
        res.op.name@ == t.op.name@,
        res.op.operands@ == t.op.operands@,
        res.op.results@ == t.op.results@,
        spec_pair_views(res.op.attributes@) == spec_pair_views(t.op.attributes@),
{
    let mut operands: Vec<u64> = Vec::new();
    let mut i: usize = 0;
    let n1 = t.op.operands.len();
    while i < n1
        invariant
            n1 == t.op.operands@.len(),
            0 <= i <= n1,
            operands@ == t.op.operands@.take(i as int),
        decreases n1 - i,
    {
        operands.push(t.op.operands[i]);
        proof {
            assert(operands@ =~= t.op.operands@.take(i + 1));
        }
        i = i + 1;
    }
    let mut results: Vec<u64> = Vec::new();
    let mut j: usize = 0;
    let n2 = t.op.results.len();
    while j < n2
        invariant
            n2 == t.op.results@.len(),
            0 <= j <= n2,
            results@ == t.op.results@.take(j as int),
        decreases n2 - j,
    {
        results.push(t.op.results[j]);
        proof {
            assert(results@ =~= t.op.results@.take(j + 1));
        }
        j = j + 1;
    }
    let mut attributes: Vec<(String, String)> = Vec::new();
    let mut k: usize = 0;
    let n3 = t.op.attributes.len();
    while k < n3
        invariant
            n3 == t.op.attributes@.len(),
            0 <= k <= n3,
            spec_pair_views(attributes@) == spec_pair_views(t.op.attributes@.take(k as int)),
        decreases n3 - k,
    {
        let ghost prev = attributes@;
        let pair = (t.op.attributes[k].0.clone(), t.op.attributes[k].1.clone());
        proof {
            assert(pair.0@ == t.op.attributes@[k as int].0@);
            assert(pair.1@ == t.op.attributes@[k as int].1@);
        }
        attributes.push(pair);
        proof {
            assert(attributes@ =~= prev + seq![pair]);
            assert(spec_pair_views(attributes@).len() == attributes@.len());
            assert(spec_pair_views(prev).len() == prev.len());
            assert(spec_pair_views(t.op.attributes@.take(k as int)).len() == k);
            assert(t.op.attributes@.take(k + 1)[k as int] == t.op.attributes@[k as int]);
            let a = spec_pair_views(attributes@);
            let b = spec_pair_views(t.op.attributes@.take(k + 1));
            assert(a.len() == b.len());
            assert forall|m: int| 0 <= m < a.len() implies a[m] == b[m] by {
                if m < k as int {
                    assert(attributes@[m] == prev[m]);
                    assert(spec_pair_views(prev)[m] == spec_pair_views(
                        t.op.attributes@.take(k as int),
                    )[m]);
                    assert(t.op.attributes@.take(k as int)[m] == t.op.attributes@.take(k + 1)[m]);
                } else {
                    assert(attributes@[m] == pair);
                    assert(t.op.attributes@.take(k + 1)[m] == t.op.attributes@[k as int]);
                }
            }
            assert(a =~= b);
        }
        k = k + 1;
    }
    proof {
        assert(t.op.operands@.take(n1 as int) =~= t.op.operands@);
        assert(t.op.results@.take(n2 as int) =~= t.op.results@);
        assert(t.op.attributes@.take(n3 as int) =~= t.op.attributes@);
    }
    TypedOp { op: GenericOp { name: t.op.name.clone(), operands, results, attributes } }
}

/// Outcome of running a generic handle against a whole namespace: the
/// matching variant's position, or the handle unchanged.
pub enum DispatchOutcome {
    Matched { index: usize, typed: TypedOp },
    Unmatched { original: GenericOp },
}

/// No two operations of one namespace share a qualified name.
pub open spec fn spec_namespace_unique(models: Seq<OperationModel>) -> bool {
    forall|i: int, j: int|
        0 <= i < j < models.len() ==> (#[trigger] models[i]).qualified_name@
            != (#[trigger] models[j]).qualified_name@
}

/// The dispatch sum type's identification function: total over every input
/// handle. First match by qualified name; with unique names, match order is
/// immaterial.
pub fn dispatch_downcast(models: &Vec<OperationModel>, op: GenericOp) -> (res: DispatchOutcome)
    ensures
        match res {
            DispatchOutcome::Matched { index, typed } => index < models@.len()
                && models@[index as int].qualified_name@ == op.name@ && typed.op == op && (forall|
                j: int,
            |
                0 <= j < index ==> (#[trigger] models@[j]).qualified_name@ != op.name@),
            DispatchOutcome::Unmatched { original } => original == op && (forall|j: int|
                0 <= j < models@.len() ==> (#[trigger] models@[j]).qualified_name@ != op.name@),
        },
{
    let n = models.len();
    let mut i: usize = 0;
    while i < n
        invariant
            n == models@.len(),
            0 <= i <= n,
            forall|j: int| 0 <= j < i ==> (#[trigger] models@[j]).qualified_name@ != op.name@,
        decreases n - i,
    {
        if str_eq(op.name.as_str(), models[i].qualified_name.as_str()) {
            return DispatchOutcome::Matched { index: i, typed: TypedOp { op } };
        }
        i = i + 1;
    }
    DispatchOutcome::Unmatched { original: op }
}

/// With unique qualified names, a handle matches at most one variant: the
/// identification is total and unambiguous, and a handle matching no variant
/// comes back unchanged.
pub proof fn lemma_dispatch_unambiguous(models: Seq<OperationModel>, name: Seq<char>, i: int, j: int)
    requires
        spec_namespace_unique(models),
        0 <= i < models.len(),
        0 <= j < models.len(),
        models[i].qualified_name@ == name,
        models[j].qualified_name@ == name,
    ensures
        i == j,
{
}

/// Total fixed length of the first `i` fields: how many values the `One`
/// fields among them always occupy.
pub open spec fn spec_fixed_len(fields: Seq<FieldSpec>, i: int) -> nat
    decreases i,
{
    if i <= 0 {
        0
    } else {
        spec_fixed_len(fields, i - 1) + fields[i - 1].cardinality.spec_min_len()
    }
}

/// How many of the first `i` fields have variable runtime length.
pub open spec fn spec_var_count(fields: Seq<FieldSpec>, i: int) -> nat
    decreases i,
{
    if i <= 0 {
        0
    } else {
        spec_var_count(fields, i - 1) + if fields[i - 1].cardinality.spec_is_variable() {
            1nat
        } else {
            0nat
        }
    }
}

/// The positional span of field `i` in a handle holding `total` values, when
/// the cardinality arithmetic can determine it: at most one variable-length
/// field, and enough values for the fixed fields.
pub open spec fn spec_field_range(fields: Seq<FieldSpec>, i: int, total: nat) -> Option<
    (nat, nat),
> {
    let n = fields.len() as int;
    if spec_var_count(fields, n) > 1 || total < spec_fixed_len(fields, n) {
        Option::None
    } else {
        let extra = (total - spec_fixed_len(fields, n)) as nat;
        let start = spec_fixed_len(fields, i) + if spec_var_count(fields, i) > 0 {
            extra
        } else {
            0nat
        };
        let flen = if fields[i].cardinality.spec_is_variable() {
            extra
        } else {
            1nat
        };
        Option::Some((start, start + flen))
    }
}

proof fn lemma_fixed_le(fields: Seq<FieldSpec>, i: int, j: int)
    requires
        0 <= i <= j <= fields.len(),
    ensures
        spec_fixed_len(fields, i) <= spec_fixed_len(fields, j),
        spec_fixed_len(fields, j) - spec_fixed_len(fields, i) <= j - i,
        spec_var_count(fields, i) <= spec_var_count(fields, j),
    decreases j - i,
{
    if i < j {
        lemma_fixed_le(fields, i, j - 1);
    }
}

proof fn lemma_var_exists(fields: Seq<FieldSpec>, i: int)
    requires
        0 <= i <= fields.len(),
        spec_var_count(fields, i) > 0,
    ensures
        exists|u: int| 0 <= u < i && (#[trigger] fields[u].cardinality).spec_is_variable(),
    decreases i,
{
    if fields[i - 1].cardinality.spec_is_variable() {
        assert(fields[i - 1].cardinality.spec_is_variable());
    } else {
        lemma_var_exists(fields, i - 1);
    }
}

proof fn lemma_two_vars(fields: Seq<FieldSpec>, a: int, b: int)
    requires
        0 <= a < b < fields.len(),
        fields[a].cardinality.spec_is_variable(),
        fields[b].cardinality.spec_is_variable(),
    ensures
        spec_var_count(fields, fields.len() as int) >= 2,
{
    lemma_fixed_le(fields, 0, a);
    lemma_fixed_le(fields, a + 1, b);
    lemma_fixed_le(fields, b + 1, fields.len() as int);
    assert(spec_var_count(fields, a + 1) >= 1);
    assert(spec_var_count(fields, b + 1) >= spec_var_count(fields, b) + 1);
    assert(spec_var_count(fields, b) >= spec_var_count(fields, a + 1));
}

proof fn lemma_prefix_fixed(fields: Seq<FieldSpec>, gs: Seq<Seq<u64>>, i: int)
    requires
        spec_groups_ok(fields, gs),
        spec_var_count(fields, fields.len() as int) <= 1,
        0 <= i <= fields.len(),
    ensures
        spec_var_count(fields, i) == 0 ==> spec_prefix_len(gs, i) == spec_fixed_len(fields, i),
        spec_var_count(fields, i) == 1 ==> exists|v: int|
            0 <= v < i && (#[trigger] fields[v].cardinality).spec_is_variable() && spec_prefix_len(
                gs,
                i,
            ) == spec_fixed_len(fields, i) + gs[v].len(),
    decreases i,
{
    lemma_fixed_le(fields, i, fields.len() as int);
    if i > 0 {
        lemma_prefix_fixed(fields, gs, i - 1);
        lemma_fixed_le(fields, i - 1, fields.len() as int);
        if fields[i - 1].cardinality.spec_is_variable() {
            assert(spec_var_count(fields, i - 1) == 0) by {
                if spec_var_count(fields, i - 1) >= 1 {
                    lemma_var_exists(fields, i - 1);
                    let u = choose|u: int|
                        0 <= u < i - 1 && (#[trigger] fields[u].cardinality).spec_is_variable();
                    lemma_two_vars(fields, u, i - 1);
                }
            }
            assert(fields[i - 1].cardinality.spec_min_len() == 0);
            assert(spec_prefix_len(gs, i) == spec_fixed_len(fields, i) + gs[i - 1].len());
        } else {
            assert(gs[i - 1].len() == 1 && fields[i - 1].cardinality.spec_min_len() == 1) by {
                assert(fields[i - 1].cardinality == Cardinality::One);
            }
            if spec_var_count(fields, i) == 1 {
                let v = choose|v: int|
                    0 <= v < i - 1 && (#[trigger] fields[v].cardinality).spec_is_variable()
                        && spec_prefix_len(gs, i - 1) == spec_fixed_len(fields, i - 1)
                        + gs[v].len();
                assert(0 <= v < i && fields[v].cardinality.spec_is_variable() && spec_prefix_len(
                    gs,
                    i,
                ) == spec_fixed_len(fields, i) + gs[v].len());
            }
        }
    }
}

/// With at most one variable-length field, the positional span the
/// cardinality arithmetic computes for field `i` of a handle built from
/// `gs` is exactly where group `i` was laid out.
pub proof fn lemma_range_matches_groups(fields: Seq<FieldSpec>, gs: Seq<Seq<u64>>, i: int)
    requires
        spec_groups_ok(fields, gs),
        spec_var_count(fields, fields.len() as int) <= 1,
        0 <= i < fields.len(),
    ensures
        spec_field_range(fields, i, spec_flat(gs).len()) == Option::Some(
            (spec_prefix_len(gs, i), (spec_prefix_len(gs, i) + gs[i].len()) as nat),
        ),
{
    let n = fields.len() as int;
    lemma_flat_len(gs);
    lemma_prefix_fixed(fields, gs, n);
    lemma_prefix_fixed(fields, gs, i);
    lemma_fixed_le(fields, i, n);
    let total = spec_flat(gs).len();
    if spec_var_count(fields, n) == 0 {
        assert(spec_var_count(fields, i) == 0 && spec_var_count(fields, i + 1) == 0) by {
            lemma_fixed_le(fields, i + 1, n);
        }
        assert(!fields[i].cardinality.spec_is_variable());
        assert(gs[i].len() == 1) by {
            assert(fields[i].cardinality == Cardinality::One);
        }
    } else {
        let v = choose|v: int|
            0 <= v < n && (#[trigger] fields[v].cardinality).spec_is_variable() && spec_prefix_len(
                gs,
                n,
            ) == spec_fixed_len(fields, n) + gs[v].len();
        assert(total - spec_fixed_len(fields, n) == gs[v].len());
        if fields[i].cardinality.spec_is_variable() {
            assert(i == v) by {
                if i != v {
                    if i < v {
                        lemma_two_vars(fields, i, v);
                    } else {
                        lemma_two_vars(fields, v, i);
                    }
                }
            }
            assert(spec_var_count(fields, i) == 0) by {
                if spec_var_count(fields, i) >= 1 {
                    lemma_var_exists(fields, i);
                    let u = choose|u: int|
                        0 <= u < i && (#[trigger] fields[u].cardinality).spec_is_variable();
                    lemma_two_vars(fields, u, i);
                }
            }
        } else {
            assert(gs[i].len() == 1) by {
                assert(fields[i].cardinality == Cardinality::One);
            }
            if spec_var_count(fields, i) == 1 {
                let u = choose|u: int|
                    0 <= u < i && (#[trigger] fields[u].cardinality).spec_is_variable()
                        && spec_prefix_len(gs, i) == spec_fixed_len(fields, i) + gs[u].len();
                assert(u == v) by {
                    if u != v {
                        if u < v {
                            lemma_two_vars(fields, u, v);
                        } else {
                            lemma_two_vars(fields, v, u);
                        }
                    }
                }
            }
        }
    }
}

/// Reading field `i` as a single value: present exactly when the arithmetic
/// places one value there.
pub open spec fn spec_read_one(fields: Seq<FieldSpec>, vals: Seq<u64>, i: int) -> Option<u64> {
    match spec_field_range(fields, i, vals.len()) {
        Option::Some((s, e)) => if e <= vals.len() && e == s + 1 {
            Option::Some(vals[s as int])
        } else {
            Option::None
        },
        Option::None => Option::None,
    }
}

/// Computes the positional span of field `i` in a list of `total` values, or
/// nothing when the arithmetic cannot determine it: more than one
/// variable-length field, or fewer values than the fixed fields need.
pub fn field_range(fields: &Vec<FieldSpec>, i: usize, total: usize) -> (res: Option<(usize, usize)>)
    requires
        i < fields@.len(),
    ensures
        match res {
            Option::Some(p) => spec_field_range(fields@, i as int, total as nat) == Option::Some(
                ((p.0 as nat), (p.1 as nat)),
            ) && p.0 <= p.1 <= total,
            Option::None => spec_field_range(fields@, i as int, total as nat) is None,
        },
{
    let n = fields.len();
    let mut fixed_all: usize = 0;
    let mut var_all: usize = 0;
    let mut fixed_i: usize = 0;
    let mut var_i: usize = 0;
    let mut k: usize = 0;
    while k < n
        invariant
            n == fields@.len(),
            i < n,
            0 <= k <= n,
            fixed_all == spec_fixed_len(fields@, k as int),
            var_all == spec_var_count(fields@, k as int),
            fixed_i == spec_fixed_len(fields@, if k < i { k as int } else { i as int }),
            var_i == spec_var_count(fields@, if k < i { k as int } else { i as int }),
            fixed_all <= k,
            var_all <= k,
        decreases n - k,
    {
        let m = fields[k].cardinality.min_len();
        let v = fields[k].cardinality.is_variable();
        fixed_all = fixed_all + m;
        if v {
            var_all = var_all + 1;
        }
        if k < i {
            fixed_i = fixed_i + m;
            if v {
                var_i = var_i + 1;
            }
        }
        k = k + 1;
    }
    if var_all > 1 {
        return Option::None;
    }
    if total < fixed_all {
        return Option::None;
    }
    let extra = total - fixed_all;
    proof {
        lemma_fixed_le(fields@, i as int, n as int);
        lemma_fixed_le(fields@, i + 1, n as int);
        if fields@[i as int].cardinality.spec_is_variable() && spec_var_count(fields@, i as int)
            > 0 {
            lemma_var_exists(fields@, i as int);
            let u = choose|u: int|
                0 <= u < i && (#[trigger] fields@[u].cardinality).spec_is_variable();
            lemma_two_vars(fields@, u, i as int);
        }
    }
    let start = if var_i > 0 {
        fixed_i + extra
    } else {
        fixed_i
    };
    let end = if fields[i].cardinality.is_variable() {
        start + extra
    } else {
        start + 1
    };
    Option::Some((start, end))
}

/// Reads field `i` of `vals` as exactly one value; absent when the
/// arithmetic cannot place one value there.
pub fn read_one(fields: &Vec<FieldSpec>, vals: &Vec<u64>, i: usize) -> (res: Option<u64>)
    requires
        i < fields@.len(),
    ensures
        res == spec_read_one(fields@, vals@, i as int),
{
    match field_range(fields, i, vals.len()) {
        Option::Some(p) => {
            if p.1 <= vals.len() && p.1 - p.0 == 1 {
                Option::Some(vals[p.0])
            } else {
                Option::None
            }
        },
        Option::None => Option::None,
    }
}

/// Reads field `i` of `vals` as a finite value list: empty or singleton for
/// an optional field, any length for a variadic one.
pub fn read_group(fields: &Vec<FieldSpec>, vals: &Vec<u64>, i: usize) -> (res: Option<Vec<u64>>)
    requires
        i < fields@.len(),
    ensures
        match spec_field_range(fields@, i as int, vals@.len()) {
            Option::Some(p) => res matches Option::Some(g) && p.1 <= vals@.len() && g@
                == vals@.subrange(p.0 as int, p.1 as int),
            Option::None => res is None,
        },
{
    match field_range(fields, i, vals.len()) {
        Option::Some(p) => {
            let mut g: Vec<u64> = Vec::new();
            let mut j: usize = p.0;
            while j < p.1
                invariant
                    p.0 <= j <= p.1 <= vals@.len(),
                    g@ == vals@.subrange(p.0 as int, j as int),
                decreases p.1 - j,
            {
                g.push(vals[j]);
                proof {
                    assert(vals@.subrange(p.0 as int, j + 1) =~= vals@.subrange(
                        p.0 as int,
                        j as int,
                    ) + seq![vals@[j as int]]);
                }
                j = j + 1;
            }
            proof {
                assert(g@ == vals@.subrange(p.0 as int, p.1 as int));
            }
            Option::Some(g)
        },
        Option::None => Option::None,
    }
}

/// Round trip through the builder: every field of a handle the builder
/// produced reads back as exactly the values supplied for it, as long as at
/// most one field of the list is variable-length.
pub proof fn lemma_build_read_back(fields: Seq<FieldSpec>, gs: Seq<Seq<u64>>, i: int)
    requires
        spec_groups_ok(fields, gs),
        spec_var_count(fields, fields.len() as int) <= 1,
        0 <= i < fields.len(),
    ensures
        spec_flat(gs).subrange(
            spec_prefix_len(gs, i) as int,
            (spec_prefix_len(gs, i) + gs[i].len()) as int,
        ) == gs[i],
        fields[i].cardinality == Cardinality::One ==> spec_read_one(fields, spec_flat(gs), i)
            == Option::Some(gs[i][0]),
{
    lemma_flat_group(gs, i);
    lemma_range_matches_groups(fields, gs, i);
    if fields[i].cardinality == Cardinality::One {
        let s = spec_prefix_len(gs, i) as int;
        assert(spec_flat(gs).subrange(s, s + 1)[0] == spec_flat(gs)[s]);
    }
}

/// An operation with the single-result trait and a `One`-cardinality result
/// never reads back an absent result from a handle the builder produced: the
/// one result is exactly what was supplied.
pub proof fn lemma_single_result_present(m: OperationModel, rgs: Seq<Seq<u64>>, op: GenericOp)
    requires
        m.wf(),
        m.spec_has_trait(crate::model::TraitTag::SingleResult),
        spec_groups_ok(m.results@, rgs),
        op.results@ == spec_flat(rgs),
    ensures
        spec_read_one(m.results@, op.results@, 0) == Option::Some(rgs[0][0]),
        spec_read_one(m.results@, op.results@, 0) is Some,
{
    assert(m.results@.len() == 1 && m.results@[0].cardinality == Cardinality::One);
    assert(spec_var_count(m.results@, 1) == 0);
    lemma_build_read_back(m.results@, rgs, 0);
}

/// Total of the first `i` segment sizes: where segment `i` starts.
pub open spec fn spec_sizes_sum(sizes: Seq<usize>, i: int) -> nat
    decreases i,
{
    if i <= 0 {
        0
    } else {
        (spec_sizes_sum(sizes, i - 1) + sizes[i - 1]) as nat
    }
}

/// Whether a segment-sizes list fits the declared fields and a handle of
/// `total` values: one entry per field, each respecting its cardinality,
/// adding up to the whole value list.
pub open spec fn spec_segments_ok(fields: Seq<FieldSpec>, sizes: Seq<usize>, total: nat) -> bool {
    &&& fields.len() == sizes.len()
    &&& forall|k: int|
        0 <= k < fields.len() ==> match #[trigger] fields[k].cardinality {
            Cardinality::One => sizes[k] == 1,
            Cardinality::Optional => sizes[k] <= 1,
            Cardinality::Variadic => true,
        }
    &&& spec_sizes_sum(sizes, sizes.len() as int) == total
}

/// The span of field `i` under an explicit segment-sizes companion: how an
/// operation with several variadic groups is read.
pub open spec fn spec_segment_range(
    fields: Seq<FieldSpec>,
    sizes: Seq<usize>,
    i: int,
    total: nat,
) -> Option<(nat, nat)> {
    if !spec_segments_ok(fields, sizes, total) {
        Option::None
    } else {
        Option::Some((spec_sizes_sum(sizes, i), (spec_sizes_sum(sizes, i) + sizes[i]) as nat))
    }
}

proof fn lemma_sizes_sum_mono(sizes: Seq<usize>, i: int, j: int)
    requires
        0 <= i <= j <= sizes.len(),
    ensures
        spec_sizes_sum(sizes, i) <= spec_sizes_sum(sizes, j),
    decreases j - i,
{
    if i < j {
        lemma_sizes_sum_mono(sizes, i, j - 1);
    }
}

/// Computes the positional span of field `i` from an explicit segment-sizes
/// list, or nothing when the sizes do not fit the fields and the handle.
pub fn segment_range(fields: &Vec<FieldSpec>, sizes: &Vec<usize>, i: usize, total: usize) -> (res:
    Option<(usize, usize)>)
    requires
        i < fields@.len(),
    ensures
        match res {
            Option::Some(p) => spec_segment_range(fields@, sizes@, i as int, total as nat)
                == Option::Some(((p.0 as nat), (p.1 as nat))) && p.0 <= p.1 <= total,
            Option::None => spec_segment_range(fields@, sizes@, i as int, total as nat) is None,
        },
{
    let n = fields.len();
    if sizes.len() != n {
        return Option::None;
    }
    let mut acc: usize = 0;
    let mut start: usize = 0;
    let mut k: usize = 0;
    while k < n
        invariant
            n == fields@.len(),
            n == sizes@.len(),
            i < n,
            0 <= k <= n,
            acc == spec_sizes_sum(sizes@, k as int),
            acc <= total,
            forall|j: int|
                0 <= j < k ==> match #[trigger] fields@[j].cardinality {
                    Cardinality::One => sizes@[j] == 1,
                    Cardinality::Optional => sizes@[j] <= 1,
                    Cardinality::Variadic => true,
                },
            k > i ==> start == spec_sizes_sum(sizes@, i as int),
        decreases n - k,
    {
        let fits = match fields[k].cardinality {
            Cardinality::One => sizes[k] == 1,
            Cardinality::Optional => sizes[k] <= 1,
            Cardinality::Variadic => true,
        };
        if !fits {
            return Option::None;
        }
        if sizes[k] > total - acc {
            proof {
                lemma_sizes_sum_mono(sizes@, k + 1, n as int);
            }
            return Option::None;
        }
        if k == i {
            start = acc;
        }
        acc = acc + sizes[k];
        k = k + 1;
    }
    if acc != total {
        return Option::None;
    }
    proof {
        lemma_sizes_sum_mono(sizes@, i + 1, n as int);
    }
    Option::Some((start, start + sizes[i]))
}

/// Reads field `i` of `vals` under an explicit segment-sizes list.
pub fn read_group_with_segments(
    fields: &Vec<FieldSpec>,
    vals: &Vec<u64>,
    sizes: &Vec<usize>,
    i: usize,
) -> (res: Option<Vec<u64>>)
    requires
        i < fields@.len(),
    ensures
        match spec_segment_range(fields@, sizes@, i as int, vals@.len()) {
            Option::Some(p) => res matches Option::Some(g) && p.1 <= vals@.len() && g@
                == vals@.subrange(p.0 as int, p.1 as int),
            Option::None => res is None,
        },
{
    match segment_range(fields, sizes, i, vals.len()) {
        Option::Some(p) => {
            let mut g: Vec<u64> = Vec::new();
            let mut j: usize = p.0;
            while j < p.1
                invariant
                    p.0 <= j <= p.1 <= vals@.len(),
                    g@ == vals@.subrange(p.0 as int, j as int),
                decreases p.1 - j,
            {
                g.push(vals[j]);
                proof {
                    assert(vals@.subrange(p.0 as int, j + 1) =~= vals@.subrange(
                        p.0 as int,
                        j as int,
                    ) + seq![vals@[j as int]]);
                }
                j = j + 1;
            }
            proof {
                assert(g@ == vals@.subrange(p.0 as int, p.1 as int));
            }
            Option::Some(g)
        },
        Option::None => Option::None,
    }
}

proof fn lemma_sizes_sum_is_prefix(gs: Seq<Seq<u64>>, sizes: Seq<usize>, k: int)
    requires
        sizes.len() == gs.len(),
        forall|j: int| 0 <= j < gs.len() ==> #[trigger] sizes[j] == gs[j].len(),
        0 <= k <= gs.len(),
    ensures
        spec_sizes_sum(sizes, k) == spec_prefix_len(gs, k),
    decreases k,
{
    if k > 0 {
        lemma_sizes_sum_is_prefix(gs, sizes, k - 1);
    }
}

/// Round trip through the builder under segment sizes: with one size per
/// group, every field of a handle the builder produced reads back as exactly
/// the values supplied for it, however many variadic groups the operation
/// declares.
pub proof fn lemma_segment_read_back(
    fields: Seq<FieldSpec>,
    gs: Seq<Seq<u64>>,
    sizes: Seq<usize>,
    i: int,
)
    requires
        spec_groups_ok(fields, gs),
        sizes.len() == gs.len(),
        forall|j: int| 0 <= j < gs.len() ==> #[trigger] sizes[j] == gs[j].len(),
        0 <= i < fields.len(),
    ensures
        spec_segment_range(fields, sizes, i, spec_flat(gs).len()) == Option::Some(
            (spec_prefix_len(gs, i), (spec_prefix_len(gs, i) + gs[i].len()) as nat),
        ),
        spec_flat(gs).subrange(
            spec_prefix_len(gs, i) as int,
            (spec_prefix_len(gs, i) + gs[i].len()) as int,
        ) == gs[i],
{
    lemma_flat_len(gs);
    lemma_sizes_sum_is_prefix(gs, sizes, fields.len() as int);
    lemma_sizes_sum_is_prefix(gs, sizes, i);
    assert(spec_segments_ok(fields, sizes, spec_flat(gs).len()));
    lemma_flat_group(gs, i);
}

} // verus!
