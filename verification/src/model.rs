//! The normalized per-operation model: the checked, statically shaped data
//! that every code generator consumes.

use vstd::prelude::*;

verus! {

/// Cardinality of one declared operand or result field.
#[derive(Clone, Copy, PartialEq, Eq, Structural, Debug)]
pub enum Cardinality {
    One,
    Optional,
    Variadic,
}

impl Cardinality {
    /// Smallest number of runtime values a field of this cardinality occupies.
    pub open spec fn spec_min_len(self) -> nat {
        match self {
            Cardinality::One => 1,
            Cardinality::Optional => 0,
            Cardinality::Variadic => 0,
        }
    }

    /// True for fields whose runtime length is not fixed by the schema.
    pub open spec fn spec_is_variable(self) -> bool {
        self != Cardinality::One
    }

    pub fn min_len(self) -> (r: usize)
        ensures
            r == self.spec_min_len(),
    {
        match self {
            Cardinality::One => 1,
            Cardinality::Optional => 0,
            Cardinality::Variadic => 0,
        }
    }

    pub fn is_variable(self) -> (r: bool)
        ensures
            r == self.spec_is_variable(),
    {
        match self {
            Cardinality::One => false,
            _ => true,
        }
    }
}

/// A resolved type constraint: the accessor type the generated code exposes,
/// the expression template that narrows a generic value to it, whether the
/// constraint may sit under a variadic marker, and whether resolution fell
/// back to the permissive opaque type.
pub struct TypeConstraint {
    pub accessor_type: String,
    pub narrow_expr_template: String,
    pub is_variadic_compatible: bool,
    pub is_opaque: bool,
}

/// One declared operand or result.
pub struct FieldSpec {
    pub name: String,
    pub constraint: TypeConstraint,
    pub cardinality: Cardinality,
}

/// The resolved constraint of one attribute: the storage type its value is
/// kept under.
pub struct AttributeConstraint {
    pub storage_type: String,
}

/// One declared attribute. `default_value` is meaningful only when
/// `has_default` holds; a defaulted attribute is never required in the
/// builder's fallible path.
pub struct AttributeSpec {
    pub name: String,
    pub constraint: AttributeConstraint,
    pub has_default: bool,
    pub default_value: String,
    pub is_optional: bool,
}

/// One declared region.
pub struct RegionSpec {
    pub name: String,
    pub is_variadic: bool,
}

/// One declared successor.
pub struct SuccessorSpec {
    pub name: String,
    pub is_variadic: bool,
}

/// A trait applied to an operation. The fixed vocabulary drives structural
/// checks; unrecognized tags are preserved and have no structural effect.
pub enum TraitTag {
    SingleResult,
    Terminator,
    NoSideEffect,
    SymbolTable,
    SizeInference,
    Unknown(String),
}

/// One normalized operation, immutable once built.
pub struct OperationModel {
    pub namespace: String,
    pub short_name: String,
    pub qualified_name: String,
    pub operands: Vec<FieldSpec>,
    pub results: Vec<FieldSpec>,
    pub attributes: Vec<AttributeSpec>,
    pub regions: Vec<RegionSpec>,
    pub successors: Vec<SuccessorSpec>,
    pub traits: Vec<TraitTag>,
    pub documentation: String,
}

/// The qualified name derived from a namespace and a short name.
pub open spec fn spec_qualified(ns: Seq<char>, short: Seq<char>) -> Seq<char> {
    ns + "."@ + short
}

/// How many fields of `fields` are variadic.
pub open spec fn spec_variadic_count(fields: Seq<FieldSpec>) -> nat
    decreases fields.len(),
{
    if fields.len() == 0 {
        0
    } else {
        spec_variadic_count(fields.drop_last()) + if fields.last().cardinality
            == Cardinality::Variadic {
            1nat
        } else {
            0nat
        }
    }
}

/// The names of a field list, as character sequences.
pub open spec fn spec_field_names(fields: Seq<FieldSpec>) -> Seq<Seq<char>> {
    fields.map_values(|f: FieldSpec| f.name@)
}

/// The names of an attribute list.
pub open spec fn spec_attr_names(attrs: Seq<AttributeSpec>) -> Seq<Seq<char>> {
    attrs.map_values(|a: AttributeSpec| a.name@)
}

/// The names of a region list.
pub open spec fn spec_region_names(rs: Seq<RegionSpec>) -> Seq<Seq<char>> {
    rs.map_values(|r: RegionSpec| r.name@)
}

/// The names of a successor list.
pub open spec fn spec_successor_names(ss: Seq<SuccessorSpec>) -> Seq<Seq<char>> {
    ss.map_values(|s: SuccessorSpec| s.name@)
}

/// True when no two entries of `names` are equal: names are unique per
/// field-kind list.
pub open spec fn spec_names_unique(names: Seq<Seq<char>>) -> bool {
    forall|i: int, j: int| 0 <= i < j < names.len() ==> names[i] != names[j]
}

impl OperationModel {
    /// Whether `tag` is among the operation's traits.
    pub open spec fn spec_has_trait(self, tag: TraitTag) -> bool {
        exists|i: int| 0 <= i < self.traits@.len() && self.traits@[i] == tag
    }

    /// Well-formedness: the invariants every built model carries.
    pub open spec fn wf(self) -> bool {
        &&& self.namespace@.len() > 0
        &&& self.qualified_name@ == spec_qualified(self.namespace@, self.short_name@)
        &&& spec_names_unique(spec_field_names(self.operands@))
        &&& spec_names_unique(spec_field_names(self.results@))
        &&& spec_names_unique(spec_attr_names(self.attributes@))
        &&& spec_names_unique(spec_region_names(self.regions@))
        &&& spec_names_unique(spec_successor_names(self.successors@))
        &&& (self.spec_has_trait(TraitTag::SizeInference) || spec_variadic_count(self.operands@)
            <= 1)
        &&& (self.spec_has_trait(TraitTag::SizeInference) || spec_variadic_count(self.results@)
            <= 1)
        &&& (self.spec_has_trait(TraitTag::SingleResult) ==> self.results@.len() == 1
            && self.results@[0].cardinality == Cardinality::One)
    }

    /// Decides whether `tag` is among the operation's traits. Unknown tags
    /// never match a fixed tag, so forward-compatible schemas keep working.
    pub fn has_fixed_trait(&self, tag: TraitTag) -> (r: bool)
        requires
            !(tag matches TraitTag::Unknown(_)),
        ensures
            r == self.spec_has_trait(tag),
    {
        let n = self.traits.len();
        let mut i: usize = 0;
        while i < n
            invariant
                n == self.traits@.len(),
                !(tag matches TraitTag::Unknown(_)),
                0 <= i <= n,
                forall|k: int| 0 <= k < i ==> self.traits@[k] != tag,
            decreases n - i,
        {
            let hit = match (&self.traits[i], &tag) {
                (TraitTag::SingleResult, TraitTag::SingleResult) => true,
                (TraitTag::Terminator, TraitTag::Terminator) => true,
                (TraitTag::NoSideEffect, TraitTag::NoSideEffect) => true,
                (TraitTag::SymbolTable, TraitTag::SymbolTable) => true,
                (TraitTag::SizeInference, TraitTag::SizeInference) => true,
                _ => false,
            };
            if hit {
                return true;
            }
            i = i + 1;
        }
        false
    }
}

} // verus!
