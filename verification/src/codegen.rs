//! The code generators: from normalized operation models to the generated
//! source text, one typed wrapper per operation and one dispatch sum type
//! per namespace.

use vstd::prelude::*;

use convert_case::{Case, Casing};

use crate::builder::{spec_model_view, AttrView, FieldView, ModelView, PortView};
use crate::model::{AttributeSpec, Cardinality, FieldSpec, OperationModel};
use crate::text::{append_decimal, append_doc_body, spec_decimal, spec_doc_body};

verus! {

/// The Pascal-cased form of a name, as the casing normalizer computes it.
pub uninterp spec fn pascal_of(s: Seq<char>) -> Seq<char>;

/// The snake-cased form of a name, as the casing normalizer computes it.
pub uninterp spec fn snake_of(s: Seq<char>) -> Seq<char>;

/// Relies on convert_case's `Casing::to_case` with `Case::Pascal`: the
/// result depends on the input characters alone.
#[verifier::external_body]
pub fn pascal_case(s: &str) -> (r: String)
    ensures
        r@ == pascal_of(s@),
{
    s.to_case(Case::Pascal)
}

/// Relies on convert_case's `Casing::to_case` with `Case::Snake`: the
/// result depends on the input characters alone.
#[verifier::external_body]
pub fn snake_case(s: &str) -> (r: String)
    ensures
        r@ == snake_of(s@),
{
    s.to_case(Case::Snake)
}

/// The return type an accessor exposes for one field, by cardinality:
/// the single typed value, a present-or-absent value, or a finite range.
pub open spec fn spec_card_type(f: FieldView) -> Seq<char> {
    match f.cardinality {
        Cardinality::One => f.constraint.accessor_type,
        Cardinality::Optional => "Option<"@ + f.constraint.accessor_type + ">"@,
        Cardinality::Variadic => "ValueRange<"@ + f.constraint.accessor_type + ">"@,
    }
}

/// One generated accessor line for a positional field.
pub open spec fn spec_accessor_line(f: FieldView, i: nat, kind: Seq<char>) -> Seq<char> {
    "    pub fn "@ + f.name + "(&self) -> "@ + spec_card_type(f) + " { self.operation."@ + kind
        + "("@ + spec_decimal(i) + ") }\n"@
}

/// The accessor lines of a whole field list, in declaration order.
pub open spec fn spec_accessor_lines(fs: Seq<FieldView>, kind: Seq<char>) -> Seq<char>
    decreases fs.len(),
{
    if fs.len() == 0 {
        Seq::empty()
    } else {
        spec_accessor_lines(fs.drop_last(), kind) + spec_accessor_line(
            fs.last(),
            (fs.len() - 1) as nat,
            kind,
        )
    }
}

/// One generated accessor line for a named attribute.
pub open spec fn spec_attr_line(a: AttrView) -> Seq<char> {
    "    pub fn "@ + a.name + "(&self) -> "@ + a.storage + " { self.operation.attribute(\""@
        + a.name + "\") }\n"@
}

/// The accessor lines of a whole attribute list.
pub open spec fn spec_attr_lines(attrs: Seq<AttrView>) -> Seq<char>
    decreases attrs.len(),
{
    if attrs.len() == 0 {
        Seq::empty()
    } else {
        spec_attr_lines(attrs.drop_last()) + spec_attr_line(attrs.last())
    }
}

/// One generated accessor line for a region or successor.
pub open spec fn spec_port_line(p: PortView, i: nat, single: Seq<char>, multi: Seq<char>, kind: Seq<char>) -> Seq<char> {
    "    pub fn "@ + p.name + "(&self) -> "@ + (if p.is_variadic {
        multi
    } else {
        single
    }) + " { self.operation."@ + kind + "("@ + spec_decimal(i) + ") }\n"@
}

/// The accessor lines of a whole region or successor list.
pub open spec fn spec_port_lines(ps: Seq<PortView>, single: Seq<char>, multi: Seq<char>, kind: Seq<char>) -> Seq<char>
    decreases ps.len(),
{
    if ps.len() == 0 {
        Seq::empty()
    } else {
        spec_port_lines(ps.drop_last(), single, multi, kind) + spec_port_line(
            ps.last(),
            (ps.len() - 1) as nat,
            single,
            multi,
            kind,
        )
    }
}

/// Builds one accessor line for a positional field.
fn accessor_line(f: &FieldSpec, i: usize, kind: &str) -> (r: String)
    ensures
        r@ == spec_accessor_line(crate::builder::spec_field_view(*f), i as nat, kind@),
{
    let mut out = "    pub fn ".to_owned();
    out.append(f.name.as_str());
    out.append("(&self) -> ");
    match f.cardinality {
        Cardinality::One => {
            out.append(f.constraint.accessor_type.as_str());
        },
        Cardinality::Optional => {
            out.append("Option<");
            out.append(f.constraint.accessor_type.as_str());
            out.append(">");
        },
        Cardinality::Variadic => {
            out.append("ValueRange<");
            out.append(f.constraint.accessor_type.as_str());
            out.append(">");
        },
    }
    out.append(" { self.operation.");
    out.append(kind);
    out.append("(");
    append_decimal(&mut out, i as u64);
    out.append(") }\n");
    proof {
        assert(out@ =~= spec_accessor_line(crate::builder::spec_field_view(*f), i as nat, kind@));
    }
    out
}

/// Builds one accessor line for a named attribute.
fn attr_line(a: &AttributeSpec) -> (r: String)
    ensures
        r@ == spec_attr_line(crate::builder::spec_attr_view(*a)),
{
    let mut out = "    pub fn ".to_owned();
    out.append(a.name.as_str());
    out.append("(&self) -> ");
    out.append(a.constraint.storage_type.as_str());
    out.append(" { self.operation.attribute(\"");
    out.append(a.name.as_str());
    out.append("\") }\n");
    proof {
        assert(out@ =~= spec_attr_line(crate::builder::spec_attr_view(*a)));
    }
    out
}

/// Builds one accessor line for a region or successor.
fn port_line(name: &str, is_variadic: bool, i: usize, single: &str, multi: &str, kind: &str) -> (r:
    String)
    ensures
        r@ == spec_port_line(
            PortView { name: name@, is_variadic },
            i as nat,
            single@,
            multi@,
            kind@,
        ),
{
    let mut out = "    pub fn ".to_owned();
    out.append(name);
    out.append("(&self) -> ");
    if is_variadic {
        out.append(multi);
    } else {
        out.append(single);
    }
    out.append(" { self.operation.");
    out.append(kind);
    out.append("(");
    append_decimal(&mut out, i as u64);
    out.append(") }\n");
    proof {
        assert(out@ =~= spec_port_line(
            PortView { name: name@, is_variadic },
            i as nat,
            single@,
            multi@,
            kind@,
        ));
    }
    out
}

/// One `create` parameter for a declared operand, by cardinality; a
/// trailing comma ends every fragment, so the list needs no separators.
pub open spec fn spec_create_arg(f: FieldView) -> Seq<char> {
    f.name + (match f.cardinality {
        Cardinality::One => ": Value<'c>, "@,
        Cardinality::Optional => ": Option<Value<'c>>, "@,
        Cardinality::Variadic => ": &[Value<'c>], "@,
    })
}

pub open spec fn spec_create_args(fs: Seq<FieldView>) -> Seq<char>
    decreases fs.len(),
{
    if fs.len() == 0 {
        Seq::empty()
    } else {
        spec_create_args(fs.drop_last()) + spec_create_arg(fs.last())
    }
}

/// One `create` parameter per required attribute: neither defaulted nor
/// optional ones appear, they are set through the returned builder.
pub open spec fn spec_attr_arg(a: AttrView) -> Seq<char> {
    if !a.has_default && !a.is_optional {
        a.name + ": Attribute<'c>, "@
    } else {
        Seq::empty()
    }
}

pub open spec fn spec_attr_args(attrs: Seq<AttrView>) -> Seq<char>
    decreases attrs.len(),
{
    if attrs.len() == 0 {
        Seq::empty()
    } else {
        spec_attr_args(attrs.drop_last()) + spec_attr_arg(attrs.last())
    }
}

/// The builder call that hands one declared operand over.
pub open spec fn spec_create_call(f: FieldView) -> Seq<char> {
    (match f.cardinality {
        Cardinality::One => ".operand("@,
        Cardinality::Optional => ".operand_opt("@,
        Cardinality::Variadic => ".operands("@,
    }) + f.name + ")"@
}

pub open spec fn spec_create_calls(fs: Seq<FieldView>) -> Seq<char>
    decreases fs.len(),
{
    if fs.len() == 0 {
        Seq::empty()
    } else {
        spec_create_calls(fs.drop_last()) + spec_create_call(fs.last())
    }
}

/// The builder call that sets one required attribute.
pub open spec fn spec_attr_call(a: AttrView) -> Seq<char> {
    if !a.has_default && !a.is_optional {
        ".attribute(\""@ + a.name + "\", "@ + a.name + ")"@
    } else {
        Seq::empty()
    }
}

pub open spec fn spec_attr_calls(attrs: Seq<AttrView>) -> Seq<char>
    decreases attrs.len(),
{
    if attrs.len() == 0 {
        Seq::empty()
    } else {
        spec_attr_calls(attrs.drop_last()) + spec_attr_call(attrs.last())
    }
}

fn create_arg_line(f: &FieldSpec) -> (r: String)
    ensures
        r@ == spec_create_arg(crate::builder::spec_field_view(*f)),
{
    let mut out = f.name.clone();
    match f.cardinality {
        Cardinality::One => out.append(": Value<'c>, "),
        Cardinality::Optional => out.append(": Option<Value<'c>>, "),
        Cardinality::Variadic => out.append(": &[Value<'c>], "),
    }
    proof {
        assert(out@ =~= spec_create_arg(crate::builder::spec_field_view(*f)));
    }
    out
}

fn create_call_line(f: &FieldSpec) -> (r: String)
    ensures
        r@ == spec_create_call(crate::builder::spec_field_view(*f)),
{
    let mut out = match f.cardinality {
        Cardinality::One => ".operand(".to_owned(),
        Cardinality::Optional => ".operand_opt(".to_owned(),
        Cardinality::Variadic => ".operands(".to_owned(),
    };
    out.append(f.name.as_str());
    out.append(")");
    proof {
        assert(out@ =~= spec_create_call(crate::builder::spec_field_view(*f)));
    }
    out
}

fn attr_arg_line(a: &AttributeSpec) -> (r: String)
    ensures
        r@ == spec_attr_arg(crate::builder::spec_attr_view(*a)),
{
    if !a.has_default && !a.is_optional {
        let mut out = a.name.clone();
        out.append(": Attribute<'c>, ");
        proof {
            assert(out@ =~= spec_attr_arg(crate::builder::spec_attr_view(*a)));
        }
        out
    } else {
        let out = String::new();
        proof {
            assert(out@ =~= spec_attr_arg(crate::builder::spec_attr_view(*a)));
        }
        out
    }
}

fn attr_call_line(a: &AttributeSpec) -> (r: String)
    ensures
        r@ == spec_attr_call(crate::builder::spec_attr_view(*a)),
{
    if !a.has_default && !a.is_optional {
        let mut out = ".attribute(\"".to_owned();
        out.append(a.name.as_str());
        out.append("\", ");
        out.append(a.name.as_str());
        out.append(")");
        proof {
            assert(out@ =~= spec_attr_call(crate::builder::spec_attr_view(*a)));
        }
        out
    } else {
        let out = String::new();
        proof {
            assert(out@ =~= spec_attr_call(crate::builder::spec_attr_view(*a)));
        }
        out
    }
}

/// The whole generated typed wrapper of one operation: the borrowed-handle
/// struct, the qualified name, one accessor per declared field, the
/// best-effort conversion from a generic handle, and the construction entry
/// point.
pub open spec fn spec_wrapper_text(v: ModelView) -> Seq<char> {
    "/// "@ + spec_doc_body(v.documentation) + "\n"@ + "pub struct "@ + pascal_of(v.short_name)
        + "<'c> {\n    operation: Operation<'c>,\n}\n"@ + "impl<'c> "@ + pascal_of(v.short_name)
        + "<'c> {\n"@ + "    pub fn name(&self) -> &'static str {\n        \""@ + v.qualified_name
        + "\"\n    }\n"@
        + "    pub fn as_operation(&self) -> &Operation<'c> {\n        &self.operation\n    }\n"@
        + spec_accessor_lines(v.operands, "operand"@) + spec_accessor_lines(
        v.results,
        "result"@,
    ) + spec_attr_lines(v.attributes) + spec_port_lines(
        v.regions,
        "RegionRef"@,
        "RegionRange"@,
        "region"@,
    ) + spec_port_lines(v.successors, "BlockRef"@, "BlockRange"@, "successor"@)
        + "    pub fn try_from(operation: Operation<'c>) -> Result<Self, Operation<'c>> {\n        if operation.name() == \""@
        + v.qualified_name
        + "\" {\n            Ok(Self { operation })\n        } else {\n            Err(operation)\n        }\n    }\n"@
        + "    pub fn create("@ + spec_create_args(v.operands) + spec_attr_args(v.attributes)
        + ") -> OperationBuilder<'c> {\n        OperationBuilder::new(\""@ + v.qualified_name
        + "\")"@ + spec_create_calls(v.operands) + spec_attr_calls(v.attributes) + "\n    }\n"@
        + "}\n"@
}

/// Generates the typed wrapper of one operation.
pub fn generate_operation(m: &OperationModel) -> (r: String)
    ensures
        r@ == spec_wrapper_text(spec_model_view(*m)),
{
    let pascal = pascal_case(m.short_name.as_str());
    let mut out = "/// ".to_owned();
    append_doc_body(&mut out, m.documentation.as_str());
    out.append("\n");
    out.append("pub struct ");
    out.append(pascal.as_str());
    out.append("<'c> {\n    operation: Operation<'c>,\n}\n");
    out.append("impl<'c> ");
    out.append(pascal.as_str());
    out.append("<'c> {\n");
    out.append("    pub fn name(&self) -> &'static str {\n        \"");
    out.append(m.qualified_name.as_str());
    out.append("\"\n    }\n");
    out.append("    pub fn as_operation(&self) -> &Operation<'c> {\n        &self.operation\n    }\n");
    let ghost base0 = out@;
    let n1 = m.operands.len();
    let mut i: usize = 0;
    proof {
        assert(crate::builder::spec_fields_view(m.operands@).take(0) =~= Seq::<
            FieldView,
        >::empty());
    }
    while i < n1
        invariant
            n1 == m.operands@.len(),
            0 <= i <= n1,
            out@ == base0 + spec_accessor_lines(
                crate::builder::spec_fields_view(m.operands@).take(i as int),
                "operand"@,
            ),
        decreases n1 - i,
    {
        let line = accessor_line(&m.operands[i], i, "operand");
        out.append(line.as_str());
        proof {
            let fv = crate::builder::spec_fields_view(m.operands@);
            assert(fv.take(i + 1).drop_last() =~= fv.take(i as int));
            assert(fv.take(i + 1).last() == fv[i as int]);
            assert(fv[i as int] == crate::builder::spec_field_view(m.operands@[i as int]));
            assert(out@ =~= base0 + spec_accessor_lines(fv.take(i + 1), "operand"@));
        }
        i = i + 1;
    }
    proof {
        let fv = crate::builder::spec_fields_view(m.operands@);
        assert(fv.take(n1 as int) =~= fv);
    }
    let ghost base1 = out@;
    let n2 = m.results.len();
    let mut j: usize = 0;
    proof {
        assert(crate::builder::spec_fields_view(m.results@).take(0) =~= Seq::<FieldView>::empty());
    }
    while j < n2
        invariant
            n2 == m.results@.len(),
            0 <= j <= n2,
            out@ == base1 + spec_accessor_lines(
                crate::builder::spec_fields_view(m.results@).take(j as int),
                "result"@,
            ),
        decreases n2 - j,
    {
        let line = accessor_line(&m.results[j], j, "result");
        out.append(line.as_str());
        proof {
            let fv = crate::builder::spec_fields_view(m.results@);
            assert(fv.take(j + 1).drop_last() =~= fv.take(j as int));
            assert(fv.take(j + 1).last() == fv[j as int]);
            assert(fv[j as int] == crate::builder::spec_field_view(m.results@[j as int]));
            assert(out@ =~= base1 + spec_accessor_lines(fv.take(j + 1), "result"@));
        }
        j = j + 1;
    }
    proof {
        let fv = crate::builder::spec_fields_view(m.results@);
        assert(fv.take(n2 as int) =~= fv);
    }
    let ghost base2 = out@;
    let n3 = m.attributes.len();
    let mut k: usize = 0;
    proof {
        assert(crate::builder::spec_attrs_view(m.attributes@).take(0) =~= Seq::<AttrView>::empty());
    }
    while k < n3
        invariant
            n3 == m.attributes@.len(),
            0 <= k <= n3,
            out@ == base2 + spec_attr_lines(
                crate::builder::spec_attrs_view(m.attributes@).take(k as int),
            ),
        decreases n3 - k,
    {
        let line = attr_line(&m.attributes[k]);
        out.append(line.as_str());
        proof {
            let av = crate::builder::spec_attrs_view(m.attributes@);
            assert(av.take(k + 1).drop_last() =~= av.take(k as int));
            assert(av.take(k + 1).last() == av[k as int]);
            assert(av[k as int] == crate::builder::spec_attr_view(m.attributes@[k as int]));
            assert(out@ =~= base2 + spec_attr_lines(av.take(k + 1)));
        }
        k = k + 1;
    }
    proof {
        let av = crate::builder::spec_attrs_view(m.attributes@);
        assert(av.take(n3 as int) =~= av);
    }
    let ghost base3 = out@;
    let n4 = m.regions.len();
    let mut k4: usize = 0;
    proof {
        assert(crate::builder::spec_regions_view(m.regions@).take(0) =~= Seq::<PortView>::empty());
    }
    while k4 < n4
        invariant
            n4 == m.regions@.len(),
            0 <= k4 <= n4,
            out@ == base3 + spec_port_lines(
                crate::builder::spec_regions_view(m.regions@).take(k4 as int),
                "RegionRef"@,
                "RegionRange"@,
                "region"@,
            ),
        decreases n4 - k4,
    {
        let line = port_line(
            m.regions[k4].name.as_str(),
            m.regions[k4].is_variadic,
            k4,
            "RegionRef",
            "RegionRange",
            "region",
        );
        out.append(line.as_str());
        proof {
            let pv = crate::builder::spec_regions_view(m.regions@);
            assert(pv.take(k4 + 1).drop_last() =~= pv.take(k4 as int));
            assert(pv.take(k4 + 1).last() == pv[k4 as int]);
            assert(pv[k4 as int] == crate::builder::spec_region_view(m.regions@[k4 as int]));
            assert(out@ =~= base3 + spec_port_lines(
                pv.take(k4 + 1),
                "RegionRef"@,
                "RegionRange"@,
                "region"@,
            ));
        }
        k4 = k4 + 1;
    }
    proof {
        let pv = crate::builder::spec_regions_view(m.regions@);
        assert(pv.take(n4 as int) =~= pv);
    }
    let ghost base4 = out@;
    let n5 = m.successors.len();
    let mut k5: usize = 0;
    proof {
        assert(crate::builder::spec_successors_view(m.successors@).take(0) =~= Seq::<
            PortView,
        >::empty());
    }
    while k5 < n5
        invariant
            n5 == m.successors@.len(),
            0 <= k5 <= n5,
            out@ == base4 + spec_port_lines(
                crate::builder::spec_successors_view(m.successors@).take(k5 as int),
                "BlockRef"@,
                "BlockRange"@,
                "successor"@,
            ),
        decreases n5 - k5,
    {
        let line = port_line(
            m.successors[k5].name.as_str(),
            m.successors[k5].is_variadic,
            k5,
            "BlockRef",
            "BlockRange",
            "successor",
        );
        out.append(line.as_str());
        proof {
            let pv = crate::builder::spec_successors_view(m.successors@);
            assert(pv.take(k5 + 1).drop_last() =~= pv.take(k5 as int));
            assert(pv.take(k5 + 1).last() == pv[k5 as int]);
            assert(pv[k5 as int] == crate::builder::spec_successor_view(
                m.successors@[k5 as int],
            ));
            assert(out@ =~= base4 + spec_port_lines(
                pv.take(k5 + 1),
                "BlockRef"@,
                "BlockRange"@,
                "successor"@,
            ));
        }
        k5 = k5 + 1;
    }
    proof {
        let pv = crate::builder::spec_successors_view(m.successors@);
        assert(pv.take(n5 as int) =~= pv);
    }
    out.append("    pub fn try_from(operation: Operation<'c>) -> Result<Self, Operation<'c>> {\n        if operation.name() == \"");
    out.append(m.qualified_name.as_str());
    out.append("\" {\n            Ok(Self { operation })\n        } else {\n            Err(operation)\n        }\n    }\n");
    out.append("    pub fn create(");
    let ghost base5 = out@;
    let n6 = m.operands.len();
    let mut k6: usize = 0;
    proof {
        assert(crate::builder::spec_fields_view(m.operands@).take(0) =~= Seq::<
            FieldView,
        >::empty());
    }
    while k6 < n6
        invariant
            n6 == m.operands@.len(),
            0 <= k6 <= n6,
            out@ == base5 + spec_create_args(
                crate::builder::spec_fields_view(m.operands@).take(k6 as int),
            ),
        decreases n6 - k6,
    {
        let line = create_arg_line(&m.operands[k6]);
        out.append(line.as_str());
        proof {
            let fv = crate::builder::spec_fields_view(m.operands@);
            assert(fv.take(k6 + 1).drop_last() =~= fv.take(k6 as int));
            assert(fv.take(k6 + 1).last() == fv[k6 as int]);
            assert(fv[k6 as int] == crate::builder::spec_field_view(m.operands@[k6 as int]));
            assert(out@ =~= base5 + spec_create_args(fv.take(k6 + 1)));
        }
        k6 = k6 + 1;
    }
    proof {
        let fv = crate::builder::spec_fields_view(m.operands@);
        assert(fv.take(n6 as int) =~= fv);
    }
    let ghost base6 = out@;
    let n7 = m.attributes.len();
    let mut k7: usize = 0;
    proof {
        assert(crate::builder::spec_attrs_view(m.attributes@).take(0) =~= Seq::<
            AttrView,
        >::empty());
    }
    while k7 < n7
        invariant
            n7 == m.attributes@.len(),
            0 <= k7 <= n7,
            out@ == base6 + spec_attr_args(
                crate::builder::spec_attrs_view(m.attributes@).take(k7 as int),
            ),
        decreases n7 - k7,
    {
        let line = attr_arg_line(&m.attributes[k7]);
        out.append(line.as_str());
        proof {
            let av = crate::builder::spec_attrs_view(m.attributes@);
            assert(av.take(k7 + 1).drop_last() =~= av.take(k7 as int));
            assert(av.take(k7 + 1).last() == av[k7 as int]);
            assert(av[k7 as int] == crate::builder::spec_attr_view(m.attributes@[k7 as int]));
            assert(out@ =~= base6 + spec_attr_args(av.take(k7 + 1)));
        }
        k7 = k7 + 1;
    }
    proof {
        let av = crate::builder::spec_attrs_view(m.attributes@);
        assert(av.take(n7 as int) =~= av);
    }
    out.append(") -> OperationBuilder<'c> {\n        OperationBuilder::new(\"");
    out.append(m.qualified_name.as_str());
    out.append("\")");
    let ghost base7 = out@;
    let mut k8: usize = 0;
    proof {
        assert(crate::builder::spec_fields_view(m.operands@).take(0) =~= Seq::<
            FieldView,
        >::empty());
    }
    while k8 < n6
        invariant
            n6 == m.operands@.len(),
            0 <= k8 <= n6,
            out@ == base7 + spec_create_calls(
                crate::builder::spec_fields_view(m.operands@).take(k8 as int),
            ),
        decreases n6 - k8,
    {
        let line = create_call_line(&m.operands[k8]);
        out.append(line.as_str());
        proof {
            let fv = crate::builder::spec_fields_view(m.operands@);
            assert(fv.take(k8 + 1).drop_last() =~= fv.take(k8 as int));
            assert(fv.take(k8 + 1).last() == fv[k8 as int]);
            assert(fv[k8 as int] == crate::builder::spec_field_view(m.operands@[k8 as int]));
            assert(out@ =~= base7 + spec_create_calls(fv.take(k8 + 1)));
        }
        k8 = k8 + 1;
    }
    proof {
        let fv = crate::builder::spec_fields_view(m.operands@);
        assert(fv.take(n6 as int) =~= fv);
    }
    let ghost base8 = out@;
    let mut k9: usize = 0;
    proof {
        assert(crate::builder::spec_attrs_view(m.attributes@).take(0) =~= Seq::<
            AttrView,
        >::empty());
    }
    while k9 < n7
        invariant
            n7 == m.attributes@.len(),
            0 <= k9 <= n7,
            out@ == base8 + spec_attr_calls(
                crate::builder::spec_attrs_view(m.attributes@).take(k9 as int),
            ),
        decreases n7 - k9,
    {
        let line = attr_call_line(&m.attributes[k9]);
        out.append(line.as_str());
        proof {
            let av = crate::builder::spec_attrs_view(m.attributes@);
            assert(av.take(k9 + 1).drop_last() =~= av.take(k9 as int));
            assert(av.take(k9 + 1).last() == av[k9 as int]);
            assert(av[k9 as int] == crate::builder::spec_attr_view(m.attributes@[k9 as int]));
            assert(out@ =~= base8 + spec_attr_calls(av.take(k9 + 1)));
        }
        k9 = k9 + 1;
    }
    proof {
        let av = crate::builder::spec_attrs_view(m.attributes@);
        assert(av.take(n7 as int) =~= av);
    }
    out.append("\n    }\n");
    out.append("}\n");
    proof {
        assert(out@ =~= spec_wrapper_text(spec_model_view(*m)));
    }
    out
}

/// The views of a model list.
pub open spec fn spec_models_view(ms: Seq<OperationModel>) -> Seq<ModelView> {
    ms.map_values(|m: OperationModel| spec_model_view(m))
}

pub open spec fn spec_variant_decl(v: ModelView) -> Seq<char> {
    "    "@ + pascal_of(v.short_name) + "("@ + pascal_of(v.short_name) + "<'c>),\n"@
}

pub open spec fn spec_variant_decls(ms: Seq<ModelView>) -> Seq<char>
    decreases ms.len(),
{
    if ms.len() == 0 {
        Seq::empty()
    } else {
        spec_variant_decls(ms.drop_last()) + spec_variant_decl(ms.last())
    }
}

pub open spec fn spec_clone_arm(ename: Seq<char>, v: ModelView) -> Seq<char> {
    "            "@ + ename + "::"@ + pascal_of(v.short_name) + "(op) => "@ + ename + "::"@
        + pascal_of(v.short_name) + "("@ + pascal_of(v.short_name)
        + " { operation: op.as_operation().clone() }),\n"@
}

pub open spec fn spec_clone_arms(ename: Seq<char>, ms: Seq<ModelView>) -> Seq<char>
    decreases ms.len(),
{
    if ms.len() == 0 {
        Seq::empty()
    } else {
        spec_clone_arms(ename, ms.drop_last()) + spec_clone_arm(ename, ms.last())
    }
}

pub open spec fn spec_match_arm(ename: Seq<char>, v: ModelView) -> Seq<char> {
    "            \""@ + v.qualified_name + "\" => Ok("@ + ename + "::"@ + pascal_of(v.short_name)
        + "("@ + pascal_of(v.short_name) + "::try_from(operation)?)),\n"@
}

pub open spec fn spec_match_arms(ename: Seq<char>, ms: Seq<ModelView>) -> Seq<char>
    decreases ms.len(),
{
    if ms.len() == 0 {
        Seq::empty()
    } else {
        spec_match_arms(ename, ms.drop_last()) + spec_match_arm(ename, ms.last())
    }
}

pub open spec fn spec_as_arm(ename: Seq<char>, v: ModelView) -> Seq<char> {
    "            "@ + ename + "::"@ + pascal_of(v.short_name) + "(op) => op.as_operation(),\n"@
}

pub open spec fn spec_as_arms(ename: Seq<char>, ms: Seq<ModelView>) -> Seq<char>
    decreases ms.len(),
{
    if ms.len() == 0 {
        Seq::empty()
    } else {
        spec_as_arms(ename, ms.drop_last()) + spec_as_arm(ename, ms.last())
    }
}

pub open spec fn spec_from_impl(ename: Seq<char>, v: ModelView) -> Seq<char> {
    "impl<'c> From<"@ + pascal_of(v.short_name) + "<'c>> for "@ + ename
        + "<'c> {\n    fn from(op: "@ + pascal_of(v.short_name) + "<'c>) -> Self {\n        "@
        + ename + "::"@ + pascal_of(v.short_name) + "(op)\n    }\n}\n"@
}

pub open spec fn spec_from_impls(ename: Seq<char>, ms: Seq<ModelView>) -> Seq<char>
    decreases ms.len(),
{
    if ms.len() == 0 {
        Seq::empty()
    } else {
        spec_from_impls(ename, ms.drop_last()) + spec_from_impl(ename, ms.last())
    }
}

/// The whole generated dispatch sum type of one namespace: one variant per
/// operation, duplication, display delegating to the generic handle, total
/// identification by qualified name that hands a foreign handle back
/// unchanged, the lossless way back to the generic handle, and one
/// conversion impl per variant.
pub open spec fn spec_enum_text(ename: Seq<char>, ms: Seq<ModelView>) -> Seq<char> {
    "pub enum "@ + ename + "<'c> {\n"@ + spec_variant_decls(ms) + "}\n"@ + "impl<'c> Clone for "@
        + ename + "<'c> {\n    fn clone(&self) -> Self {\n        match self {\n"@
        + spec_clone_arms(ename, ms) + "        }\n    }\n}\n"@
        + "impl<'c> std::fmt::Display for "@ + ename
        + "<'c> {\n    fn fmt(&self, formatter: &mut std::fmt::Formatter<'_>) -> std::fmt::Result {\n        std::fmt::Display::fmt(self.as_operation(), formatter)\n    }\n}\n"@
        + "impl<'c> "@ + ename
        + "<'c> {\n    pub fn try_new(operation: Operation<'c>) -> Result<Self, Operation<'c>> {\n        match operation.name() {\n"@
        + spec_match_arms(ename, ms)
        + "            _ => Err(operation),\n        }\n    }\n"@
        + "    pub fn as_operation(&self) -> &Operation<'c> {\n        match self {\n"@
        + spec_as_arms(ename, ms) + "        }\n    }\n}\n"@ + spec_from_impls(ename, ms)
}

fn variant_decl(pascal: &str) -> (r: String)
    ensures
        r@ == "    "@ + pascal@ + "("@ + pascal@ + "<'c>),\n"@,
{
    let mut out = "    ".to_owned();
    out.append(pascal);
    out.append("(");
    out.append(pascal);
    out.append("<'c>),\n");
    proof {
        assert(out@ =~= "    "@ + pascal@ + "("@ + pascal@ + "<'c>),\n"@);
    }
    out
}

fn clone_arm(ename: &str, pascal: &str) -> (r: String)
    ensures
        r@ == "            "@ + ename@ + "::"@ + pascal@ + "(op) => "@ + ename@ + "::"@ + pascal@
            + "("@ + pascal@ + " { operation: op.as_operation().clone() }),\n"@,
{
    let mut out = "            ".to_owned();
    out.append(ename);
    out.append("::");
    out.append(pascal);
    out.append("(op) => ");
    out.append(ename);
    out.append("::");
    out.append(pascal);
    out.append("(");
    out.append(pascal);
    out.append(" { operation: op.as_operation().clone() }),\n");
    proof {
        assert(out@ =~= "            "@ + ename@ + "::"@ + pascal@ + "(op) => "@ + ename@ + "::"@
            + pascal@ + "("@ + pascal@ + " { operation: op.as_operation().clone() }),\n"@);
    }
    out
}

fn match_arm(ename: &str, pascal: &str, qualified: &str) -> (r: String)
    ensures
        r@ == "            \""@ + qualified@ + "\" => Ok("@ + ename@ + "::"@ + pascal@ + "("@
            + pascal@ + "::try_from(operation)?)),\n"@,
{
    let mut out = "            \"".to_owned();
    out.append(qualified);
    out.append("\" => Ok(");
    out.append(ename);
    out.append("::");
    out.append(pascal);
    out.append("(");
    out.append(pascal);
    out.append("::try_from(operation)?)),\n");
    proof {
        assert(out@ =~= "            \""@ + qualified@ + "\" => Ok("@ + ename@ + "::"@ + pascal@
            + "("@ + pascal@ + "::try_from(operation)?)),\n"@);
    }
    out
}

fn as_arm(ename: &str, pascal: &str) -> (r: String)
    ensures
        r@ == "            "@ + ename@ + "::"@ + pascal@ + "(op) => op.as_operation(),\n"@,
{
    let mut out = "            ".to_owned();
    out.append(ename);
    out.append("::");
    out.append(pascal);
    out.append("(op) => op.as_operation(),\n");
    proof {
        assert(out@ =~= "            "@ + ename@ + "::"@ + pascal@
            + "(op) => op.as_operation(),\n"@);
    }
    out
}

fn from_impl(ename: &str, pascal: &str) -> (r: String)
    ensures
        r@ == "impl<'c> From<"@ + pascal@ + "<'c>> for "@ + ename@ + "<'c> {\n    fn from(op: "@
            + pascal@ + "<'c>) -> Self {\n        "@ + ename@ + "::"@ + pascal@
            + "(op)\n    }\n}\n"@,
{
    let mut out = "impl<'c> From<".to_owned();
    out.append(pascal);
    out.append("<'c>> for ");
    out.append(ename);
    out.append("<'c> {\n    fn from(op: ");
    out.append(pascal);
    out.append("<'c>) -> Self {\n        ");
    out.append(ename);
    out.append("::");
    out.append(pascal);
    out.append("(op)\n    }\n}\n");
    proof {
        assert(out@ =~= "impl<'c> From<"@ + pascal@ + "<'c>> for "@ + ename@
            + "<'c> {\n    fn from(op: "@ + pascal@ + "<'c>) -> Self {\n        "@ + ename@ + "::"@
            + pascal@ + "(op)\n    }\n}\n"@);
    }
    out
}

/// Generates the dispatch sum type of one namespace, or nothing at all when
/// the namespace declares no operation: absence, not an empty enum.
pub fn generate_operation_enum(dialect_name: &str, models: &Vec<OperationModel>) -> (res: Option<
    String,
>)
    ensures
        res is None <==> models@.len() == 0,
        res matches Option::Some(s) ==> s@ == spec_enum_text(
            pascal_of(dialect_name@) + "Operation"@,
            spec_models_view(models@),
        ),
{
    if models.len() == 0 {
        return Option::None;
    }
    let mut ename = pascal_case(dialect_name);
    ename.append("Operation");
    let ghost en = pascal_of(dialect_name@) + "Operation"@;
    let n = models.len();
    let mut variants = String::new();
    let mut clones = String::new();
    let mut matches = String::new();
    let mut as_ops = String::new();
    let mut froms = String::new();
    let mut i: usize = 0;
    proof {
        let mv = spec_models_view(models@);
        assert(mv.take(0) =~= Seq::<ModelView>::empty());
        assert(variants@ =~= spec_variant_decls(mv.take(0)));
        assert(clones@ =~= spec_clone_arms(en, mv.take(0)));
        assert(matches@ =~= spec_match_arms(en, mv.take(0)));
        assert(as_ops@ =~= spec_as_arms(en, mv.take(0)));
        assert(froms@ =~= spec_from_impls(en, mv.take(0)));
    }
    while i < n
        invariant
            n == models@.len(),
            0 <= i <= n,
            ename@ == en,
            variants@ == spec_variant_decls(spec_models_view(models@).take(i as int)),
            clones@ == spec_clone_arms(en, spec_models_view(models@).take(i as int)),
            matches@ == spec_match_arms(en, spec_models_view(models@).take(i as int)),
            as_ops@ == spec_as_arms(en, spec_models_view(models@).take(i as int)),
            froms@ == spec_from_impls(en, spec_models_view(models@).take(i as int)),
        decreases n - i,
    {
        let pascal = pascal_case(models[i].short_name.as_str());
        let v = variant_decl(pascal.as_str());
        variants.append(v.as_str());
        let c = clone_arm(ename.as_str(), pascal.as_str());
        clones.append(c.as_str());
        let ma = match_arm(ename.as_str(), pascal.as_str(), models[i].qualified_name.as_str());
        matches.append(ma.as_str());
        let ao = as_arm(ename.as_str(), pascal.as_str());
        as_ops.append(ao.as_str());
        let fr = from_impl(ename.as_str(), pascal.as_str());
        froms.append(fr.as_str());
        proof {
            let mv = spec_models_view(models@);
            assert(mv.take(i + 1).drop_last() =~= mv.take(i as int));
            assert(mv.take(i + 1).last() == mv[i as int]);
            assert(mv[i as int] == spec_model_view(models@[i as int]));
            assert(variants@ =~= spec_variant_decls(mv.take(i + 1)));
            assert(clones@ =~= spec_clone_arms(en, mv.take(i + 1)));
            assert(matches@ =~= spec_match_arms(en, mv.take(i + 1)));
            assert(as_ops@ =~= spec_as_arms(en, mv.take(i + 1)));
            assert(froms@ =~= spec_from_impls(en, mv.take(i + 1)));
        }
        i = i + 1;
    }
    proof {
        let mv = spec_models_view(models@);
        assert(mv.take(n as int) =~= mv);
    }
    let mut out = "pub enum ".to_owned();
    out.append(ename.as_str());
    out.append("<'c> {\n");
    out.append(variants.as_str());
    out.append("}\n");
    out.append("impl<'c> Clone for ");
    out.append(ename.as_str());
    out.append("<'c> {\n    fn clone(&self) -> Self {\n        match self {\n");
    out.append(clones.as_str());
    out.append("        }\n    }\n}\n");
    out.append("impl<'c> std::fmt::Display for ");
    out.append(ename.as_str());
    out.append("<'c> {\n    fn fmt(&self, formatter: &mut std::fmt::Formatter<'_>) -> std::fmt::Result {\n        std::fmt::Display::fmt(self.as_operation(), formatter)\n    }\n}\n");
    out.append("impl<'c> ");
    out.append(ename.as_str());
    out.append("<'c> {\n    pub fn try_new(operation: Operation<'c>) -> Result<Self, Operation<'c>> {\n        match operation.name() {\n");
    out.append(matches.as_str());
    out.append("            _ => Err(operation),\n        }\n    }\n");
    out.append("    pub fn as_operation(&self) -> &Operation<'c> {\n        match self {\n");
    out.append(as_ops.as_str());
    out.append("        }\n    }\n}\n");
    out.append(froms.as_str());
    proof {
        assert(out@ =~= spec_enum_text(en, spec_models_view(models@)));
    }
    Option::Some(out)
}

/// The generated source of all operation wrappers, in order.
pub open spec fn spec_ops_text(ms: Seq<ModelView>) -> Seq<char>
    decreases ms.len(),
{
    if ms.len() == 0 {
        Seq::empty()
    } else {
        spec_ops_text(ms.drop_last()) + spec_wrapper_text(ms.last())
    }
}

/// The whole generated module of one namespace: its documentation, every
/// typed wrapper, and — only when at least one operation is declared — the
/// dispatch sum type.
pub open spec fn spec_module_text(ns: Seq<char>, doc: Seq<char>, ms: Seq<ModelView>) -> Seq<
    char,
> {
    "/// `"@ + ns + "` dialect.\n/// "@ + spec_doc_body(doc) + "\n"@ + "pub mod "@ + snake_of(
        ns,
    ) + " {\n"@
        + spec_ops_text(ms) + (if ms.len() > 0 {
        spec_enum_text(pascal_of(ns) + "Operation"@, ms)
    } else {
        Seq::empty()
    }) + "}\n"@
}

/// Generates the whole namespace module.
pub fn generate_dialect_module(name: &str, doc: &str, models: &Vec<OperationModel>) -> (r: String)
    ensures
        r@ == spec_module_text(name@, doc@, spec_models_view(models@)),
{
    let mut out = "/// `".to_owned();
    out.append(name);
    out.append("` dialect.\n/// ");
    append_doc_body(&mut out, doc);
    out.append("\n");
    out.append("pub mod ");
    let snake = snake_case(name);
    out.append(snake.as_str());
    out.append(" {\n");
    let ghost base = out@;
    let n = models.len();
    let mut i: usize = 0;
    proof {
        let mv = spec_models_view(models@);
        assert(mv.take(0) =~= Seq::<ModelView>::empty());
    }
    while i < n
        invariant
            n == models@.len(),
            0 <= i <= n,
            out@ == base + spec_ops_text(spec_models_view(models@).take(i as int)),
        decreases n - i,
    {
        let text = generate_operation(&models[i]);
        out.append(text.as_str());
        proof {
            let mv = spec_models_view(models@);
            assert(mv.take(i + 1).drop_last() =~= mv.take(i as int));
            assert(mv.take(i + 1).last() == mv[i as int]);
            assert(mv[i as int] == spec_model_view(models@[i as int]));
            assert(out@ =~= base + spec_ops_text(mv.take(i + 1)));
        }
        i = i + 1;
    }
    proof {
        let mv = spec_models_view(models@);
        assert(mv.take(n as int) =~= mv);
    }
    match generate_operation_enum(name, models) {
        Option::Some(e) => {
            out.append(e.as_str());
        },
        Option::None => {},
    }
    out.append("}\n");
    proof {
        assert(out@ =~= spec_module_text(name@, doc@, spec_models_view(models@)));
    }
    out
}

} // verus!
