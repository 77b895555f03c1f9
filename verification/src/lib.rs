//! Build-time generator that turns a declarative schema of IR operation
//! definitions into a typed binding layer over a generic, dynamically typed
//! operation handle: one module per namespace, holding a typed wrapper and
//! builder per operation and a dispatch sum type for runtime identification.

use vstd::prelude::*;

pub mod builder;
pub mod codegen;
pub mod handle;
pub mod model;
pub mod record;
pub mod text;

use crate::builder::{
    build_operation_model, spec_build_model, spec_model_view, FieldView, ModelError, ModelView,
};
use crate::codegen::{generate_dialect_module, spec_models_view, spec_module_text};
use crate::model::{OperationModel, TraitTag};
use crate::record::{
    derives_from, find_field, spec_derives, spec_lookup, FieldValue, Record, RecordKeeper,
};
use crate::text::str_eq;

verus! {

/// Whether `r` is the dialect record declaring the namespace `ns`.
pub open spec fn spec_is_dialect_named(r: Record, ns: Seq<char>) -> bool {
    spec_derives(r, "Dialect"@) && match spec_lookup(r, "name"@) {
        Option::Some(FieldValue::Text(s)) => s@ == ns,
        _ => false,
    }
}

/// The first dialect record declaring `ns`, at or after position `i`.
pub open spec fn spec_find_dialect(records: Seq<Record>, ns: Seq<char>, i: int) -> Option<int>
    decreases records.len() - i,
{
    if i < 0 || i >= records.len() {
        Option::None
    } else if spec_is_dialect_named(records[i], ns) {
        Option::Some(i)
    } else {
        spec_find_dialect(records, ns, i + 1)
    }
}

/// Whether `r` is an operation record owned by the namespace `ns`.
pub open spec fn spec_is_namespace_op(r: Record, ns: Seq<char>) -> bool {
    spec_derives(r, "Op"@) && match spec_lookup(r, "dialect"@) {
        Option::Some(FieldValue::Text(s)) => s@ == ns,
        _ => false,
    }
}

/// The models of every namespace operation among the first `i` records, in
/// keeper order; any failing build fails the whole run.
pub open spec fn spec_build_upto(records: Seq<Record>, i: int, ns: Seq<char>) -> Result<
    Seq<ModelView>,
    (),
>
    decreases i,
{
    if i <= 0 {
        Result::Ok(Seq::empty())
    } else {
        match spec_build_upto(records, i - 1, ns) {
            Result::Ok(s) => if spec_is_namespace_op(records[i - 1], ns) {
                match spec_build_model(records, records[i - 1], ns) {
                    Result::Ok(m) => Result::Ok(s + seq![m]),
                    Result::Err(u) => Result::Err(u),
                }
            } else {
                Result::Ok(s)
            },
            Result::Err(u) => Result::Err(u),
        }
    }
}

/// The names of the schema's dialect records among the first `i` records,
/// in keeper order: what the namespace-not-found diagnostic lists.
pub open spec fn spec_dialect_names(records: Seq<Record>, i: int) -> Seq<Seq<char>>
    decreases i,
{
    if i <= 0 {
        Seq::empty()
    } else {
        spec_dialect_names(records, i - 1) + (if spec_derives(records[i - 1], "Dialect"@) {
            match spec_lookup(records[i - 1], "name"@) {
                Option::Some(FieldValue::Text(s)) => seq![s@],
                _ => Seq::empty(),
            }
        } else {
            Seq::empty()
        })
    }
}

/// The documentation of a record, empty when absent or wrongly shaped.
pub open spec fn spec_doc_lenient(r: Record) -> Seq<char> {
    match spec_lookup(r, "description"@) {
        Option::Some(FieldValue::Text(d)) => d@,
        _ => Seq::empty(),
    }
}

/// The one generated artifact of a run: a pure function of the schema
/// records and the requested namespace.
pub open spec fn spec_generated_source(records: Seq<Record>, ns: Seq<char>) -> Result<
    Seq<char>,
    (),
> {
    match spec_find_dialect(records, ns, 0) {
        Option::None => Result::Err(()),
        Option::Some(ix) => match spec_build_upto(records, records.len() as int, ns) {
            Result::Ok(ms) => Result::Ok(
                spec_module_text(ns, spec_doc_lenient(records[ix]), ms),
            ),
            Result::Err(u) => Result::Err(u),
        },
    }
}

/// Generation is a pure, deterministic function of its inputs: two runs on
/// identical schema input and identical namespace yield byte-identical
/// generated source.
pub proof fn lemma_generation_idempotent(
    records: Seq<Record>,
    ns: Seq<char>,
    a: Seq<char>,
    b: Seq<char>,
)
    requires
        spec_generated_source(records, ns) == Result::<Seq<char>, ()>::Ok(a),
        spec_generated_source(records, ns) == Result::<Seq<char>, ()>::Ok(b),
    ensures
        a == b,
{
}

/// Whether a path is explicitly relative: it starts with a current- or
/// parent-directory component, so the surrounding tool passes it to the
/// schema parser as it stands instead of prefixing the default include
/// directory.
pub open spec fn spec_is_explicitly_relative(p: Seq<char>) -> bool {
    p.len() >= 1 && p[0] == '.' && (p.len() == 1 || p[1] == '/' || (p[1] == '.' && (p.len() == 2
        || p[2] == '/')))
}

/// Decides whether a path is explicitly relative.
pub fn is_explicitly_relative(p: &str) -> (r: bool)
    ensures
        r == spec_is_explicitly_relative(p@),
{
    let n = p.unicode_len();
    if n == 0 {
        return false;
    }
    if p.get_char(0) != '.' {
        return false;
    }
    if n == 1 {
        return true;
    }
    let c1 = p.get_char(1);
    if c1 == '/' {
        return true;
    }
    if c1 != '.' {
        return false;
    }
    if n == 2 {
        return true;
    }
    p.get_char(2) == '/'
}

/// One include directory as the parser receives it: an explicitly relative
/// path stands as given, everything else under the default directory.
pub open spec fn spec_resolved_dir(base: Seq<char>, p: Seq<char>) -> Seq<char> {
    if spec_is_explicitly_relative(p) {
        p
    } else {
        base + "/"@ + p
    }
}

/// The whole resolved include directory list, in order.
pub open spec fn spec_resolved_dirs(base: Seq<char>, ps: Seq<String>) -> Seq<Seq<char>>
    decreases ps.len(),
{
    if ps.len() == 0 {
        Seq::empty()
    } else {
        spec_resolved_dirs(base, ps.drop_last()) + seq![spec_resolved_dir(base, ps.last()@)]
    }
}

/// Resolves the include directories handed to schema ingestion against the
/// default include directory.
pub fn resolve_include_dirs(base: &str, dirs: &Vec<String>) -> (res: Vec<String>)
    ensures
        spec_str_views(res@) == spec_resolved_dirs(base@, dirs@),
{
    let n = dirs.len();
    let mut out: Vec<String> = Vec::new();
    let mut i: usize = 0;
    proof {
        assert(dirs@.take(0) =~= Seq::<String>::empty());
        assert(spec_str_views(out@) =~= spec_resolved_dirs(base@, dirs@.take(0)));
    }
    while i < n
        invariant
            n == dirs@.len(),
            0 <= i <= n,
            out@.len() == i,
            spec_str_views(out@) == spec_resolved_dirs(base@, dirs@.take(i as int)),
        decreases n - i,
    {
        let ghost prev = out@;
        let d = if is_explicitly_relative(dirs[i].as_str()) {
            dirs[i].clone()
        } else {
            let mut j = base.to_owned();
            j.append("/");
            j.append(dirs[i].as_str());
            j
        };
        let ghost dv = d@;
        proof {
            assert(dv == spec_resolved_dir(base@, dirs@[i as int]@));
        }
        out.push(d);
        proof {
            assert(out@ =~= prev + seq![d]);
            assert(dirs@.take(i + 1).drop_last() =~= dirs@.take(i as int));
            assert(dirs@.take(i + 1).last() == dirs@[i as int]);
            let a = spec_str_views(out@);
            let b = spec_resolved_dirs(base@, dirs@.take(i + 1));
            assert(spec_str_views(prev).len() == prev.len());
            assert(spec_resolved_dirs(base@, dirs@.take(i as int)).len() == i);
            assert(a.len() == b.len());
            assert forall|m: int| 0 <= m < a.len() implies a[m] == b[m] by {
                if m < i as int {
                    assert(out@[m] == prev[m]);
                    assert(spec_str_views(prev)[m] == spec_resolved_dirs(
                        base@,
                        dirs@.take(i as int),
                    )[m]);
                } else {
                    assert(out@[m] == d);
                }
            }
            assert(a =~= b);
        }
        i = i + 1;
    }
    proof {
        assert(dirs@.take(n as int) =~= dirs@);
    }
    out
}

/// The one source handed to the schema parser: an include directive per
/// schema file, concatenated in order.
pub open spec fn spec_include_source(files: Seq<String>) -> Seq<char>
    decreases files.len(),
{
    if files.len() == 0 {
        Seq::empty()
    } else {
        spec_include_source(files.drop_last()) + "include \""@ + files.last()@ + "\""@
    }
}

/// Concatenates the include directives for the given schema files.
pub fn include_directives(files: &Vec<String>) -> (res: String)
    ensures
        res@ == spec_include_source(files@),
{
    let n = files.len();
    let mut out = String::new();
    let mut i: usize = 0;
    proof {
        assert(files@.take(0) =~= Seq::<String>::empty());
        assert(out@ =~= spec_include_source(files@.take(0)));
    }
    while i < n
        invariant
            n == files@.len(),
            0 <= i <= n,
            out@ == spec_include_source(files@.take(i as int)),
        decreases n - i,
    {
        out.append("include \"");
        out.append(files[i].as_str());
        out.append("\"");
        proof {
            assert(files@.take(i + 1).drop_last() =~= files@.take(i as int));
            assert(files@.take(i + 1).last() == files@[i as int]);
            assert(out@ =~= spec_include_source(files@.take(i + 1)));
        }
        i = i + 1;
    }
    proof {
        assert(files@.take(n as int) =~= files@);
    }
    out
}

/// A fatal generation failure.
#[derive(Debug)]
pub enum Error {
    /// The requested namespace is absent from the schema; carries the names
    /// of the namespaces the schema does declare, to aid diagnosis.
    NamespaceNotFound { requested: String, known: Vec<String> },
    /// Normalizing one operation failed.
    Model(ModelError),
}

/// The artifact of a successful run: the generated module source, and the
/// non-fatal warnings accumulated while building the models.
pub struct GenerationOutput {
    pub source: String,
    pub warnings: Vec<String>,
}

/// The views of a string list.
pub open spec fn spec_str_views(s: Seq<String>) -> Seq<Seq<char>> {
    s.map_values(|x: String| x@)
}

/// The warnings one field list contributes: one per opaque accessor type.
pub open spec fn spec_opaque_warns(qn: Seq<char>, fs: Seq<FieldView>) -> Seq<Seq<char>>
    decreases fs.len(),
{
    if fs.len() == 0 {
        Seq::empty()
    } else {
        spec_opaque_warns(qn, fs.drop_last()) + (if fs.last().constraint.is_opaque {
            seq!["unchecked accessor type for "@ + qn + "."@ + fs.last().name]
        } else {
            Seq::empty()
        })
    }
}

/// The warnings a tag list contributes: one per preserved unknown trait.
pub open spec fn spec_unknown_warns(qn: Seq<char>, tags: Seq<TraitTag>) -> Seq<Seq<char>>
    decreases tags.len(),
{
    if tags.len() == 0 {
        Seq::empty()
    } else {
        spec_unknown_warns(qn, tags.drop_last()) + (match tags.last() {
            TraitTag::Unknown(s) => seq!["unknown trait "@ + s@ + " on "@ + qn],
            _ => Seq::empty(),
        })
    }
}

/// Every warning one model carries.
pub open spec fn spec_warnings_of(v: ModelView) -> Seq<Seq<char>> {
    spec_opaque_warns(v.qualified_name, v.operands) + spec_opaque_warns(
        v.qualified_name,
        v.results,
    ) + spec_unknown_warns(v.qualified_name, v.tags)
}

/// Every warning a model list carries, in order.
pub open spec fn spec_warnings_all(ms: Seq<ModelView>) -> Seq<Seq<char>>
    decreases ms.len(),
{
    if ms.len() == 0 {
        Seq::empty()
    } else {
        spec_warnings_all(ms.drop_last()) + spec_warnings_of(ms.last())
    }
}

fn opaque_warning(qn: &str, field: &str) -> (r: String)
    ensures
        r@ == "unchecked accessor type for "@ + qn@ + "."@ + field@,
{
    let mut out = "unchecked accessor type for ".to_owned();
    out.append(qn);
    out.append(".");
    out.append(field);
    proof {
        assert(out@ =~= "unchecked accessor type for "@ + qn@ + "."@ + field@);
    }
    out
}

fn unknown_trait_warning(qn: &str, tag: &str) -> (r: String)
    ensures
        r@ == "unknown trait "@ + tag@ + " on "@ + qn@,
{
    let mut out = "unknown trait ".to_owned();
    out.append(tag);
    out.append(" on ");
    out.append(qn);
    proof {
        assert(out@ =~= "unknown trait "@ + tag@ + " on "@ + qn@);
    }
    out
}

/// Collects the non-fatal conditions one model carries, so they are visible
/// to the caller, not merely swallowed: opaque constraint fallbacks and
/// preserved unknown traits.
pub fn collect_warnings(m: &OperationModel) -> (res: Vec<String>)
    ensures
        spec_str_views(res@) == spec_warnings_of(spec_model_view(*m)),
{
    let mut out: Vec<String> = Vec::new();
    let ghost v = spec_model_view(*m);
    let n1 = m.operands.len();
    let mut i: usize = 0;
    proof {
        assert(v.operands.take(0) =~= Seq::<FieldView>::empty());
        assert(spec_str_views(out@) =~= spec_opaque_warns(v.qualified_name, v.operands.take(0)));
    }
    while i < n1
        invariant
            n1 == m.operands@.len(),
            v == spec_model_view(*m),
            0 <= i <= n1,
            spec_str_views(out@) == spec_opaque_warns(v.qualified_name, v.operands.take(i as int)),
        decreases n1 - i,
    {
        proof {
            assert(v.operands.take(i + 1).drop_last() =~= v.operands.take(i as int));
            assert(v.operands.take(i + 1).last() == v.operands[i as int]);
            assert(v.operands[i as int] == crate::builder::spec_field_view(
                m.operands@[i as int],
            ));
        }
        if m.operands[i].constraint.is_opaque {
            let ghost prev = out@;
            let w = opaque_warning(m.qualified_name.as_str(), m.operands[i].name.as_str());
            let ghost wv = w@;
            out.push(w);
            proof {
                assert(spec_str_views(out@) =~= spec_str_views(prev) + seq![wv]);
                assert(spec_str_views(out@) =~= spec_opaque_warns(
                    v.qualified_name,
                    v.operands.take(i + 1),
                ));
            }
        } else {
            proof {
                assert(spec_str_views(out@) =~= spec_opaque_warns(
                    v.qualified_name,
                    v.operands.take(i + 1),
                ));
            }
        }
        i = i + 1;
    }
    proof {
        assert(v.operands.take(n1 as int) =~= v.operands);
    }
    let ghost base1 = spec_str_views(out@);
    let n2 = m.results.len();
    let mut j: usize = 0;
    proof {
        assert(v.results.take(0) =~= Seq::<FieldView>::empty());
    }
    while j < n2
        invariant
            n2 == m.results@.len(),
            v == spec_model_view(*m),
            0 <= j <= n2,
            spec_str_views(out@) == base1 + spec_opaque_warns(
                v.qualified_name,
                v.results.take(j as int),
            ),
        decreases n2 - j,
    {
        proof {
            assert(v.results.take(j + 1).drop_last() =~= v.results.take(j as int));
            assert(v.results.take(j + 1).last() == v.results[j as int]);
            assert(v.results[j as int] == crate::builder::spec_field_view(m.results@[j as int]));
        }
        if m.results[j].constraint.is_opaque {
            let ghost prev = out@;
            let w = opaque_warning(m.qualified_name.as_str(), m.results[j].name.as_str());
            let ghost wv = w@;
            out.push(w);
            proof {
                assert(spec_str_views(out@) =~= spec_str_views(prev) + seq![wv]);
                assert(spec_str_views(out@) =~= base1 + spec_opaque_warns(
                    v.qualified_name,
                    v.results.take(j + 1),
                ));
            }
        } else {
            proof {
                assert(spec_str_views(out@) =~= base1 + spec_opaque_warns(
                    v.qualified_name,
                    v.results.take(j + 1),
                ));
            }
        }
        j = j + 1;
    }
    proof {
        assert(v.results.take(n2 as int) =~= v.results);
    }
    let ghost base2 = spec_str_views(out@);
    let n3 = m.traits.len();
    let mut k: usize = 0;
    proof {
        assert(v.tags.take(0) =~= Seq::<TraitTag>::empty());
    }
    while k < n3
        invariant
            n3 == m.traits@.len(),
            v == spec_model_view(*m),
            0 <= k <= n3,
            spec_str_views(out@) == base2 + spec_unknown_warns(
                v.qualified_name,
                v.tags.take(k as int),
            ),
        decreases n3 - k,
    {
        proof {
            assert(v.tags.take(k + 1).drop_last() =~= v.tags.take(k as int));
            assert(v.tags.take(k + 1).last() == v.tags[k as int]);
            assert(v.tags[k as int] == m.traits@[k as int]);
        }
        match &m.traits[k] {
            TraitTag::Unknown(s) => {
                let ghost prev = out@;
                let w = unknown_trait_warning(m.qualified_name.as_str(), s.as_str());
                let ghost wv = w@;
                out.push(w);
                proof {
                    assert(spec_str_views(out@) =~= spec_str_views(prev) + seq![wv]);
                    assert(spec_str_views(out@) =~= base2 + spec_unknown_warns(
                        v.qualified_name,
                        v.tags.take(k + 1),
                    ));
                }
            },
            _ => {
                proof {
                    assert(spec_str_views(out@) =~= base2 + spec_unknown_warns(
                        v.qualified_name,
                        v.tags.take(k + 1),
                    ));
                }
            },
        }
        k = k + 1;
    }
    proof {
        assert(v.tags.take(n3 as int) =~= v.tags);
        assert(spec_str_views(out@) =~= spec_warnings_of(v));
    }
    out
}

proof fn lemma_build_upto_err(records: Seq<Record>, i: int, j: int, ns: Seq<char>)
    requires
        0 <= i <= j <= records.len(),
        spec_build_upto(records, i, ns) is Err,
    ensures
        spec_build_upto(records, j, ns) is Err,
    decreases j - i,
{
    if i < j {
        lemma_build_upto_err(records, i + 1, j, ns);
    }
}

/// The single entry point of a generation run: locates the requested
/// namespace, normalizes every operation it declares, and emits the whole
/// namespace module, with the accumulated non-fatal warnings. A run either
/// completes or aborts with the first fatal, attributable error; it never
/// emits partial output.
pub fn generate_dialect(keeper: &RecordKeeper, namespace: &str) -> (res: Result<
    GenerationOutput,
    Error,
>)
    ensures
        res is Ok <==> spec_generated_source(keeper.records@, namespace@) is Ok,
        res matches Result::Ok(out) ==> spec_generated_source(keeper.records@, namespace@)
            == Result::<Seq<char>, ()>::Ok(out.source@) && (spec_build_upto(
            keeper.records@,
            keeper.records@.len() as int,
            namespace@,
        ) matches Result::Ok(ms) && spec_str_views(out.warnings@) == spec_warnings_all(ms)),
        res matches Result::Err(e) ==> match e {
            Error::NamespaceNotFound { requested, known } => requested@ == namespace@
                && spec_find_dialect(keeper.records@, namespace@, 0) is None && spec_str_views(
                known@,
            ) == spec_dialect_names(keeper.records@, keeper.records@.len() as int),
            Error::Model(_) => spec_find_dialect(keeper.records@, namespace@, 0) is Some
                && spec_build_upto(keeper.records@, keeper.records@.len() as int, namespace@)
                is Err,
        },
{
    let n = keeper.records.len();
    let mut dialect_ix: Option<usize> = Option::None;
    let mut known: Vec<String> = Vec::new();
    let mut i: usize = 0;
    while i < n && dialect_ix.is_none()
        invariant
            n == keeper.records@.len(),
            0 <= i <= n,
            match dialect_ix {
                Option::None => spec_find_dialect(keeper.records@, namespace@, 0)
                    == spec_find_dialect(keeper.records@, namespace@, i as int) && spec_str_views(
                    known@,
                ) == spec_dialect_names(keeper.records@, i as int),
                Option::Some(d) => d < n && spec_find_dialect(keeper.records@, namespace@, 0)
                    == Option::Some(d as int),
            },
        decreases n - i,
    {
        let r = &keeper.records[i];
        let ghost prevk = known@;
        if derives_from(r, "Dialect") {
            match find_field(r, "name") {
                Option::Some(FieldValue::Text(s)) => {
                    if str_eq(s.as_str(), namespace) {
                        dialect_ix = Option::Some(i);
                    } else {
                        known.push(s.clone());
                    }
                },
                _ => {},
            }
        }
        proof {
            if dialect_ix is Some {
                assert(spec_is_dialect_named(keeper.records@[i as int], namespace@));
                assert(spec_find_dialect(keeper.records@, namespace@, i as int)
                    == Option::Some(i as int));
            } else {
                assert(!spec_is_dialect_named(keeper.records@[i as int], namespace@));
                assert(spec_str_views(known@).len() == known@.len());
                assert(spec_str_views(prevk).len() == prevk.len());
                assert(spec_str_views(known@) =~= spec_dialect_names(keeper.records@, i + 1));
            }
        }
        i = i + 1;
    }
    let ix = match dialect_ix {
        Option::Some(ix) => ix,
        Option::None => {
            return Result::Err(
                Error::NamespaceNotFound { requested: namespace.to_owned(), known },
            );
        },
    };
    let dialect = &keeper.records[ix];
    let doc = match find_field(dialect, "description") {
        Option::Some(FieldValue::Text(d)) => d.clone(),
        _ => String::new(),
    };
    let mut models: Vec<OperationModel> = Vec::new();
    let mut k: usize = 0;
    proof {
        assert(spec_models_view(models@) =~= Seq::<ModelView>::empty());
    }
    while k < n
        invariant
            n == keeper.records@.len(),
            0 <= k <= n,
            ix < n,
            spec_find_dialect(keeper.records@, namespace@, 0) == Option::Some(ix as int),
            spec_build_upto(keeper.records@, k as int, namespace@) == Result::<
                Seq<ModelView>,
                (),
            >::Ok(spec_models_view(models@)),
        decreases n - k,
    {
        let r = &keeper.records[k];
        let is_op = derives_from(r, "Op");
        let owned = if is_op {
            match find_field(r, "dialect") {
                Option::Some(FieldValue::Text(s)) => str_eq(s.as_str(), namespace),
                _ => false,
            }
        } else {
            false
        };
        if owned {
            match build_operation_model(keeper, r, namespace) {
                Result::Ok(m) => {
                    let ghost prev = models@;
                    models.push(m);
                    proof {
                        assert(models@ =~= prev + seq![m]);
                        assert(spec_models_view(models@) =~= spec_models_view(prev) + seq![
                            spec_model_view(m),
                        ]);
                    }
                },
                Result::Err(e) => {
                    proof {
                        lemma_build_upto_err(keeper.records@, k + 1, n as int, namespace@);
                    }
                    return Result::Err(Error::Model(e));
                },
            }
        }
        k = k + 1;
    }
    proof {
        assert(doc@ == spec_doc_lenient(keeper.records@[ix as int]));
    }
    let source = generate_dialect_module(namespace, doc.as_str(), &models);
    let ghost ms = spec_models_view(models@);
    let mut warnings: Vec<String> = Vec::new();
    let nw = models.len();
    let mut w: usize = 0;
    proof {
        assert(ms.take(0) =~= Seq::<ModelView>::empty());
        assert(spec_str_views(warnings@) =~= spec_warnings_all(ms.take(0)));
    }
    while w < nw
        invariant
            nw == models@.len(),
            n == keeper.records@.len(),
            ix < n,
            ms == spec_models_view(models@),
            0 <= w <= nw,
            spec_find_dialect(keeper.records@, namespace@, 0) == Option::Some(ix as int),
            spec_build_upto(keeper.records@, n as int, namespace@) == Result::<
                Seq<ModelView>,
                (),
            >::Ok(ms),
            source@ == spec_module_text(
                namespace@,
                spec_doc_lenient(keeper.records@[ix as int]),
                ms,
            ),
            spec_str_views(warnings@) == spec_warnings_all(ms.take(w as int)),
        decreases nw - w,
    {
        let ghost prevw = warnings@;
        let mut ws = collect_warnings(&models[w]);
        let ghost wsv = ws@;
        warnings.append(&mut ws);
        proof {
            assert(ms.take(w + 1).drop_last() =~= ms.take(w as int));
            assert(ms.take(w + 1).last() == ms[w as int]);
            assert(ms[w as int] == spec_model_view(models@[w as int]));
            assert(warnings@ =~= prevw + wsv);
            assert(spec_str_views(warnings@) =~= spec_str_views(prevw) + spec_str_views(wsv));
            assert(spec_str_views(warnings@) =~= spec_warnings_all(ms.take(w + 1)));
        }
        w = w + 1;
    }
    proof {
        assert(ms.take(nw as int) =~= ms);
    }
    Result::Ok(GenerationOutput { source, warnings })
}

} // verus!
