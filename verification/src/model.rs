//! The typed intermediate form of a declaration: delivery model, type
//! expressions, parameters and options.

use vstd::prelude::*;

verus! {

/// Delivery model of one declared operation, decided by the shape of its
/// declared return type.
#[derive(Clone, Copy, PartialEq, Eq, Structural, Debug)]
pub enum OutputStyle {
    /// A single future-like completion: exactly one envelope per call.
    Serialized,
    /// The function itself produces a lazy sequence of results.
    StreamSerialized,
    /// A pre-existing module-scoped receiver that the bridge taps and relays.
    Channel,
}

/// A base type that can cross the boundary.
pub enum Prim {
    Bool,
    I8,
    I16,
    I32,
    I64,
    I128,
    U8,
    U16,
    U32,
    U64,
    U128,
    F32,
    F64,
    Str,
    /// The empty unit success type `()`.
    Unit,
    /// A user-defined aggregate or enumeration type, resolved later by the
    /// reflection pass.
    Named(String),
}

/// Mathematical shape of a `Prim`.
pub enum PrimV {
    Bool,
    I8,
    I16,
    I32,
    I64,
    I128,
    U8,
    U16,
    U32,
    U64,
    U128,
    F32,
    F64,
    Str,
    Unit,
    Named(Seq<char>),
}

impl View for Prim {
    type V = PrimV;

    open spec fn view(&self) -> PrimV {
        match self {
            Prim::Bool => PrimV::Bool,
            Prim::I8 => PrimV::I8,
            Prim::I16 => PrimV::I16,
            Prim::I32 => PrimV::I32,
            Prim::I64 => PrimV::I64,
            Prim::I128 => PrimV::I128,
            Prim::U8 => PrimV::U8,
            Prim::U16 => PrimV::U16,
            Prim::U32 => PrimV::U32,
            Prim::U64 => PrimV::U64,
            Prim::U128 => PrimV::U128,
            Prim::F32 => PrimV::F32,
            Prim::F64 => PrimV::F64,
            Prim::Str => PrimV::Str,
            Prim::Unit => PrimV::Unit,
            Prim::Named(n) => PrimV::Named(n@),
        }
    }
}

/// A type expression as written in a declaration: a base type, possibly
/// wrapped in the presence-or-absence wrapper (`Option`).
pub struct TypeExpr {
    pub prim: Prim,
    pub optional: bool,
}

/// Mathematical shape of a `TypeExpr`.
pub struct TypeExprV {
    pub prim: PrimV,
    pub optional: bool,
}

impl View for TypeExpr {
    type V = TypeExprV;

    open spec fn view(&self) -> TypeExprV {
        TypeExprV { prim: self.prim@, optional: self.optional }
    }
}

/// One declared parameter: its variable name and its native type expression.
/// Parameter order is the single source of truth for both emitters.
pub struct Parameter {
    pub name: String,
    pub ty: TypeExpr,
}

/// Mathematical shape of a `Parameter`.
pub struct ParameterV {
    pub name: Seq<char>,
    pub ty: TypeExprV,
}

impl View for Parameter {
    type V = ParameterV;

    open spec fn view(&self) -> ParameterV {
        ParameterV { name: self.name@, ty: self.ty@ }
    }
}

/// The shapes of a parameter sequence.
pub open spec fn params_view(ps: Seq<Parameter>) -> Seq<ParameterV> {
    ps.map_values(|p: Parameter| p@)
}

/// The typed intermediate form of one parsed declaration.
pub struct Declaration {
    pub name: String,
    pub inputs: Vec<Parameter>,
    pub style: OutputStyle,
    pub output: TypeExpr,
    pub error: TypeExpr,
}

/// Mathematical shape of a `Declaration`.
pub struct DeclarationV {
    pub name: Seq<char>,
    pub inputs: Seq<ParameterV>,
    pub style: OutputStyle,
    pub output: TypeExprV,
    pub error: TypeExprV,
}

impl View for Declaration {
    type V = DeclarationV;

    open spec fn view(&self) -> DeclarationV {
        DeclarationV {
            name: self.name@,
            inputs: params_view(self.inputs@),
            style: self.style,
            output: self.output@,
            error: self.error@,
        }
    }
}

/// The recognized attribute options of a declaration.
pub struct Options {
    pub namespace: String,
    pub disable_logging: bool,
}

/// Mathematical shape of `Options`.
pub struct OptionsV {
    pub namespace: Seq<char>,
    pub disable_logging: bool,
}

impl View for Options {
    type V = OptionsV;

    open spec fn view(&self) -> OptionsV {
        OptionsV { namespace: self.namespace@, disable_logging: self.disable_logging }
    }
}

} // verus!
