//! The declaration registry and the reflection pass's schema registry.
//!
//! Declarations are registered one by one; the whole-program generation
//! phase then iterates the registry. The registry refuses a second
//! declaration whose derived exported symbol collides with a registered
//! one, so no two accepted declarations share a symbol name. The schema
//! registry holds exactly one structural schema per distinct type name and
//! fails fast on a conflicting shape under an already-registered name.

use vstd::prelude::*;
use crate::model::{TypeExpr, TypeExprV};

verus! {

/// One registered declaration, fully rendered: everything the two emitters
/// and the header writer need, kept bit- and name-consistent because all
/// fields are derived from the same parse.
pub struct Function {
    /// Exported symbol name, `membrane_<namespace>_<name>`.
    pub extern_c_fn_name: String,
    /// The C header line for the exported entry point.
    pub header: String,
    /// The camel-cased client-side operation name.
    pub fn_name: String,
    /// Whether envelopes keep arriving after the first one.
    pub is_stream: bool,
    /// The declared success type's client-side name.
    pub return_type: String,
    /// The declared error type's client-side name.
    pub error_type: String,
    pub namespace: String,
    pub disable_logging: bool,
    /// The head of the client-side operation.
    pub client_head: String,
}

/// The declaration registry of one generation run.
pub struct Registry {
    pub entries: Vec<Function>,
}

impl Registry {
    /// No two registered declarations share an exported symbol name.
    pub open spec fn wf(self) -> bool {
        forall|i: int, j: int|
            0 <= i < j < self.entries@.len() ==> #[trigger] self.entries@[i].extern_c_fn_name@
                != #[trigger] self.entries@[j].extern_c_fn_name@
    }

    pub open spec fn spec_has_symbol(self, sym: Seq<char>) -> bool {
        exists|i: int|
            0 <= i < self.entries@.len() && #[trigger] self.entries@[i].extern_c_fn_name@ == sym
    }

    pub fn new() -> (r: Registry)
        ensures
            r.wf(),
            r.entries@.len() == 0,
    {
        Registry { entries: Vec::new() }
    }

    /// Whether a declaration with this exported symbol is already registered.
    pub fn has_symbol(&self, sym: &String) -> (r: bool)
        ensures
            r == self.spec_has_symbol(sym@),
    {
        let mut i: usize = 0;
        while i < self.entries.len()
            invariant
                i <= self.entries@.len(),
                forall|j: int|
                    0 <= j < i ==> #[trigger] self.entries@[j].extern_c_fn_name@ != sym@,
            decreases self.entries@.len() - i,
        {
            if self.entries[i].extern_c_fn_name.eq(sym) {
                return true;
            }
            i = i + 1;
        }
        false
    }

    /// Registers one declaration. A declaration whose exported symbol is
    /// already taken is refused and the registry is left unchanged; any
    /// other declaration is appended, so registration order is kept.
    pub fn register(&mut self, f: Function) -> (r: Result<(), Function>)
        requires
            old(self).wf(),
        ensures
            final(self).wf(),
            match r {
                Ok(()) => !old(self).spec_has_symbol(f.extern_c_fn_name@) && final(self).entries@
                    == old(self).entries@.push(f),
                Err(g) => old(self).spec_has_symbol(f.extern_c_fn_name@) && final(self).entries@
                    == old(self).entries@ && g == f,
            },
    {
        if self.has_symbol(&f.extern_c_fn_name) {
            Err(f)
        } else {
            self.entries.push(f);
            Ok(())
        }
    }
}

/// One field of a reflected aggregate type.
pub struct Field {
    pub name: String,
    pub ty: TypeExpr,
}

/// Mathematical shape of a `Field`.
pub struct FieldV {
    pub name: Seq<char>,
    pub ty: TypeExprV,
}

impl View for Field {
    type V = FieldV;

    open spec fn view(&self) -> FieldV {
        FieldV { name: self.name@, ty: self.ty@ }
    }
}

/// The shapes of a field sequence.
pub open spec fn fields_view(fs: Seq<Field>) -> Seq<FieldV> {
    fs.map_values(|f: Field| f@)
}

/// The shapes of a sequence of names.
pub open spec fn strings_view(vs: Seq<String>) -> Seq<Seq<char>> {
    vs.map_values(|v: String| v@)
}

/// The structural shape of one reflected user-defined type.
pub enum SchemaKind {
    /// Field names and types, in declaration order.
    Aggregate(Vec<Field>),
    /// Variant names in declaration order; the order is part of the wire
    /// protocol, because variant identity is index-based.
    Enumeration(Vec<String>),
}

/// Mathematical shape of a `SchemaKind`.
pub enum SchemaKindV {
    Aggregate(Seq<FieldV>),
    Enumeration(Seq<Seq<char>>),
}

impl View for SchemaKind {
    type V = SchemaKindV;

    open spec fn view(&self) -> SchemaKindV {
        match self {
            SchemaKind::Aggregate(fs) => SchemaKindV::Aggregate(fields_view(fs@)),
            SchemaKind::Enumeration(vs) => SchemaKindV::Enumeration(strings_view(vs@)),
        }
    }
}

/// The schema inferred for one distinct type name.
pub struct TypeSchema {
    pub name: String,
    pub kind: SchemaKind,
}

/// Mathematical shape of a `TypeSchema`.
pub struct TypeSchemaV {
    pub name: Seq<char>,
    pub kind: SchemaKindV,
}

impl View for TypeSchema {
    type V = TypeSchemaV;

    open spec fn view(&self) -> TypeSchemaV {
        TypeSchemaV { name: self.name@, kind: self.kind@ }
    }
}

/// Structural equality of two base types.
pub fn prim_eq(a: &crate::model::Prim, b: &crate::model::Prim) -> (r: bool)
    ensures
        r == (a@ == b@),
{
    match (a, b) {
        (crate::model::Prim::Bool, crate::model::Prim::Bool) => true,
        (crate::model::Prim::I8, crate::model::Prim::I8) => true,
        (crate::model::Prim::I16, crate::model::Prim::I16) => true,
        (crate::model::Prim::I32, crate::model::Prim::I32) => true,
        (crate::model::Prim::I64, crate::model::Prim::I64) => true,
        (crate::model::Prim::I128, crate::model::Prim::I128) => true,
        (crate::model::Prim::U8, crate::model::Prim::U8) => true,
        (crate::model::Prim::U16, crate::model::Prim::U16) => true,
        (crate::model::Prim::U32, crate::model::Prim::U32) => true,
        (crate::model::Prim::U64, crate::model::Prim::U64) => true,
        (crate::model::Prim::U128, crate::model::Prim::U128) => true,
        (crate::model::Prim::F32, crate::model::Prim::F32) => true,
        (crate::model::Prim::F64, crate::model::Prim::F64) => true,
        (crate::model::Prim::Str, crate::model::Prim::Str) => true,
        (crate::model::Prim::Unit, crate::model::Prim::Unit) => true,
        (crate::model::Prim::Named(x), crate::model::Prim::Named(y)) => x.eq(y),
        _ => false,
    }
}

/// Structural equality of two type expressions.
pub fn type_eq(a: &TypeExpr, b: &TypeExpr) -> (r: bool)
    ensures
        r == (a@ == b@),
{
    if a.optional != b.optional {
        return false;
    }
    prim_eq(&a.prim, &b.prim)
}

/// Structural equality of two schema shapes.
pub fn schema_kind_eq(a: &SchemaKind, b: &SchemaKind) -> (r: bool)
    ensures
        r == (a@ == b@),
{
    match (a, b) {
        (SchemaKind::Aggregate(xs), SchemaKind::Aggregate(ys)) => {
            if xs.len() != ys.len() {
                proof {
                    assert(fields_view(xs@).len() == xs@.len());
                    assert(fields_view(ys@).len() == ys@.len());
                }
                return false;
            }
            let mut i: usize = 0;
            while i < xs.len()
                invariant
                    i <= xs@.len(),
                    xs@.len() == ys@.len(),
                    a@ == SchemaKindV::Aggregate(fields_view(xs@)),
                    b@ == SchemaKindV::Aggregate(fields_view(ys@)),
                    forall|j: int| 0 <= j < i ==> #[trigger] xs@[j]@ == ys@[j]@,
                decreases xs@.len() - i,
            {
                let fa = &xs[i];
                let fb = &ys[i];
                if !fa.name.eq(&fb.name) || !type_eq(&fa.ty, &fb.ty) {
                    proof {
                        assert(fields_view(xs@)[i as int] == xs@[i as int]@);
                        assert(fields_view(ys@)[i as int] == ys@[i as int]@);
                    }
                    return false;
                }
                i = i + 1;
            }
            proof {
                assert(fields_view(xs@) =~= fields_view(ys@));
            }
            true
        },
        (SchemaKind::Enumeration(xs), SchemaKind::Enumeration(ys)) => {
            if xs.len() != ys.len() {
                proof {
                    assert(strings_view(xs@).len() == xs@.len());
                    assert(strings_view(ys@).len() == ys@.len());
                }
                return false;
            }
            let mut i: usize = 0;
            while i < xs.len()
                invariant
                    i <= xs@.len(),
                    xs@.len() == ys@.len(),
                    a@ == SchemaKindV::Enumeration(strings_view(xs@)),
                    b@ == SchemaKindV::Enumeration(strings_view(ys@)),
                    forall|j: int| 0 <= j < i ==> #[trigger] xs@[j]@ == ys@[j]@,
                decreases xs@.len() - i,
            {
                if !xs[i].eq(&ys[i]) {
                    proof {
                        assert(strings_view(xs@)[i as int] == xs@[i as int]@);
                        assert(strings_view(ys@)[i as int] == ys@[i as int]@);
                    }
                    return false;
                }
                i = i + 1;
            }
            proof {
                assert(strings_view(xs@) =~= strings_view(ys@));
            }
            true
        },
        _ => false,
    }
}

/// The reflection pass's whole-program schema table.
pub struct SchemaRegistry {
    pub schemas: Vec<TypeSchema>,
}

impl SchemaRegistry {
    /// One schema per distinct type name.
    pub open spec fn wf(self) -> bool {
        forall|i: int, j: int|
            0 <= i < j < self.schemas@.len() ==> #[trigger] self.schemas@[i].name@
                != #[trigger] self.schemas@[j].name@
    }

    pub open spec fn spec_lookup(self, name: Seq<char>) -> Option<TypeSchemaV> {
        if exists|i: int| 0 <= i < self.schemas@.len() && #[trigger] self.schemas@[i].name@ == name {
            let i = choose|i: int|
                0 <= i < self.schemas@.len() && #[trigger] self.schemas@[i].name@ == name;
            Some(self.schemas@[i]@)
        } else {
            None
        }
    }

    pub fn new() -> (r: SchemaRegistry)
        ensures
            r.wf(),
            r.schemas@.len() == 0,
    {
        SchemaRegistry { schemas: Vec::new() }
    }

    /// Registers the schema derived for one type name. A name seen for the
    /// first time is recorded; the same name with the same shape is a
    /// no-op, so the pass runs once per distinct name however many
    /// declarations share the type; the same name under a conflicting
    /// shape is a build-time inconsistency and is refused.
    pub fn register(&mut self, s: TypeSchema) -> (r: Result<bool, TypeSchema>)
        requires
            old(self).wf(),
        ensures
            final(self).wf(),
            match r {
                Ok(fresh) => {
                    &&& fresh ==> old(self).spec_lookup(s.name@) is None && final(self).schemas@
                        == old(self).schemas@.push(s)
                    &&& !fresh ==> old(self).spec_lookup(s.name@) == Some(s@)
                        && final(self).schemas@ == old(self).schemas@
                },
                Err(t) => {
                    &&& old(self).spec_lookup(s.name@) matches Some(u) && u != s@
                    &&& final(self).schemas@ == old(self).schemas@
                    &&& t == s
                },
            },
    {
        let mut i: usize = 0;
        while i < self.schemas.len()
            invariant
                *self == *old(self),
                old(self).wf(),
                i <= self.schemas@.len(),
                forall|j: int| 0 <= j < i ==> #[trigger] self.schemas@[j].name@ != s.name@,
            decreases self.schemas@.len() - i,
        {
            if self.schemas[i].name.eq(&s.name) {
                let same = schema_kind_eq(&self.schemas[i].kind, &s.kind);
                proof {
                    let k = i as int;
                    assert(0 <= k < self.schemas@.len() && self.schemas@[k].name@ == s.name@);
                    let c = choose|j: int|
                        0 <= j < self.schemas@.len() && #[trigger] self.schemas@[j].name@
                            == s.name@;
                    if c < k {
                        assert(self.schemas@[c].name@ != self.schemas@[k].name@);
                    } else if k < c {
                        assert(self.schemas@[k].name@ != self.schemas@[c].name@);
                    }
                    assert(c == k);
                }
                if same {
                    return Ok(false);
                } else {
                    return Err(s);
                }
            }
            i = i + 1;
        }
        self.schemas.push(s);
        Ok(true)
    }
}

} // verus!
