//! Naming and signature emission: the exported symbol name, the C header
//! line, and the client-side binding signature for one declaration.
//!
//! The bridge emitter and the client emitter must agree on the exported
//! symbol name and on the argument order; both sides are derived here from
//! the same `Declaration`, so the agreement is by construction.

use vstd::prelude::*;
use crate::model::{Declaration, OutputStyle, Parameter, ParameterV, Prim, PrimV, TypeExpr,
    TypeExprV};
use crate::strutil::{mixed_case, spec_mixed_case};

verus! {

/// The exported symbol name derived from `(namespace, name)`.
pub open spec fn spec_symbol(namespace: Seq<char>, name: Seq<char>) -> Seq<char> {
    "membrane_"@ + namespace + "_"@ + name
}

/// Derives the exported symbol name for a declaration: `membrane_<ns>_<name>`.
pub fn extern_symbol(namespace: &str, name: &str) -> (r: String)
    ensures
        r@ == spec_symbol(namespace@, name@),
{
    let mut s = String::new();
    s.append("membrane_");
    s.append(namespace);
    s.append("_");
    s.append(name);
    proof {
        assert(s@ =~= spec_symbol(namespace@, name@));
    }
    s
}

/// Two declarations with underscore-free namespaces receive the same
/// exported symbol only if they agree on both namespace and name: within
/// such namespaces the symbol name is uniquely derived from the pair.
pub proof fn lemma_symbol_unique(ns1: Seq<char>, n1: Seq<char>, ns2: Seq<char>, n2: Seq<char>)
    requires
        !ns1.contains('_'),
        !ns2.contains('_'),
        spec_symbol(ns1, n1) == spec_symbol(ns2, n2),
    ensures
        ns1 == ns2,
        n1 == n2,
{
    reveal_strlit("membrane_");
    reveal_strlit("_");
    let p = "membrane_"@;
    let u = "_"@;
    let s = spec_symbol(ns1, n1);
    assert(p.len() == 9);
    assert(u.len() == 1);
    assert(u[0] == '_');
    if ns1.len() < ns2.len() {
        let i = 9 + ns1.len() as int;
        assert(s[i] == '_');
        assert(spec_symbol(ns2, n2)[i] == ns2[ns1.len() as int]);
        assert(ns2.contains('_'));
        assert(false);
    }
    if ns2.len() < ns1.len() {
        let i = 9 + ns2.len() as int;
        assert(s[i] == '_');
        assert(spec_symbol(ns1, n1)[i] == ns1[ns2.len() as int]);
        assert(ns1.contains('_'));
        assert(false);
    }
    assert(ns1.len() == ns2.len());
    assert forall|i: int| 0 <= i < ns1.len() implies ns1[i] == ns2[i] by {
        assert(spec_symbol(ns1, n1)[9 + i] == ns1[i]);
        assert(spec_symbol(ns2, n2)[9 + i] == ns2[i]);
    }
    assert(ns1 =~= ns2);
    assert(spec_symbol(ns1, n1).len() == 10 + ns1.len() + n1.len());
    assert(spec_symbol(ns2, n2).len() == 10 + ns2.len() + n2.len());
    assert(n1.len() == n2.len());
    assert forall|i: int| 0 <= i < n1.len() implies n1[i] == n2[i] by {
        assert(spec_symbol(ns1, n1)[10 + ns1.len() + i] == n1[i]);
        assert(spec_symbol(ns2, n2)[10 + ns2.len() + i] == n2[i]);
    }
    assert(n1 =~= n2);
}

/// An unrepresentable type: no mapping rule matches it in the position it
/// was used in.
pub struct UnsupportedType {
    /// The offending type's name as written.
    pub ty_name: String,
}

/// The C representation of a base type in parameter position.
pub open spec fn spec_c_prim(p: PrimV) -> Option<Seq<char>> {
    match p {
        PrimV::Bool => Some("uint8_t"@),
        PrimV::I8 => Some("int8_t"@),
        PrimV::I16 => Some("int16_t"@),
        PrimV::I32 => Some("int32_t"@),
        PrimV::I64 => Some("int64_t"@),
        PrimV::U8 => Some("uint8_t"@),
        PrimV::U16 => Some("uint16_t"@),
        PrimV::U32 => Some("uint32_t"@),
        PrimV::U64 => Some("uint64_t"@),
        PrimV::F32 => Some("float"@),
        PrimV::F64 => Some("double"@),
        // 128-bit integers cross the boundary as decimal strings.
        PrimV::I128 => Some("const char *"@),
        PrimV::U128 => Some("const char *"@),
        PrimV::Str => Some("const char *"@),
        // Aggregates and enumerations cross as serialized payload pointers.
        PrimV::Named(_) => Some("const char *"@),
        PrimV::Unit => None,
    }
}

/// Whether a base type already crosses the boundary as a pointer.
pub open spec fn spec_c_prim_is_pointer(p: PrimV) -> bool {
    match p {
        PrimV::I128 | PrimV::U128 | PrimV::Str | PrimV::Named(_) => true,
        _ => false,
    }
}

/// The C representation of a full type expression in parameter position:
/// an optional scalar is passed through a nullable pointer, a type that is
/// already a pointer stays one.
pub open spec fn spec_c_type(t: TypeExprV) -> Option<Seq<char>> {
    match spec_c_prim(t.prim) {
        None => None,
        Some(base) => if t.optional && !spec_c_prim_is_pointer(t.prim) {
            Some("const "@ + base + " *"@)
        } else {
            Some(base)
        },
    }
}

/// Maps a type expression to its C parameter representation, or reports it
/// unsupported in that position.
pub fn c_type(t: &TypeExpr) -> (r: Result<String, UnsupportedType>)
    ensures
        match r {
            Ok(s) => spec_c_type(t@) == Some(s@),
            Err(e) => spec_c_type(t@) is None && e.ty_name@ == "()"@,
        },
{
    let base: &str = match &t.prim {
        Prim::Bool => "uint8_t",
        Prim::I8 => "int8_t",
        Prim::I16 => "int16_t",
        Prim::I32 => "int32_t",
        Prim::I64 => "int64_t",
        Prim::U8 => "uint8_t",
        Prim::U16 => "uint16_t",
        Prim::U32 => "uint32_t",
        Prim::U64 => "uint64_t",
        Prim::F32 => "float",
        Prim::F64 => "double",
        Prim::I128 => "const char *",
        Prim::U128 => "const char *",
        Prim::Str => "const char *",
        Prim::Named(_) => "const char *",
        Prim::Unit => {
            return Err(UnsupportedType { ty_name: String::from_str("()") });
        },
    };
    let pointer_already = match &t.prim {
        Prim::I128 | Prim::U128 | Prim::Str | Prim::Named(_) => true,
        _ => false,
    };
    if t.optional && !pointer_already {
        let mut s = String::new();
        s.append("const ");
        s.append(base);
        s.append(" *");
        proof {
            assert(s@ =~= "const "@ + base@ + " *"@);
        }
        Ok(s)
    } else {
        Ok(String::from_str(base))
    }
}

/// The client-side type name of a base type. 64-bit unsigned and 128-bit
/// integers exceed the client's native signed 64-bit numeric range and map
/// to its big-integer type.
pub open spec fn spec_dart_prim(p: PrimV) -> Seq<char> {
    match p {
        PrimV::Bool => "bool"@,
        PrimV::I8 | PrimV::I16 | PrimV::I32 | PrimV::I64 => "int"@,
        PrimV::U8 | PrimV::U16 | PrimV::U32 => "int"@,
        PrimV::U64 | PrimV::I128 | PrimV::U128 => "BigInt"@,
        PrimV::F32 | PrimV::F64 => "double"@,
        PrimV::Str => "String"@,
        PrimV::Unit => "void"@,
        PrimV::Named(n) => n,
    }
}

/// The client-side type of a full type expression; the presence wrapper is
/// the client's nullable marker.
pub open spec fn spec_dart_type(t: TypeExprV) -> Seq<char> {
    if t.optional {
        spec_dart_prim(t.prim) + "?"@
    } else {
        spec_dart_prim(t.prim)
    }
}

/// Maps a type expression to its client-side type name.
pub fn dart_type(t: &TypeExpr) -> (r: String)
    ensures
        r@ == spec_dart_type(t@),
{
    let base: String = match &t.prim {
        Prim::Bool => String::from_str("bool"),
        Prim::I8 | Prim::I16 | Prim::I32 | Prim::I64 => String::from_str("int"),
        Prim::U8 | Prim::U16 | Prim::U32 => String::from_str("int"),
        Prim::U64 | Prim::I128 | Prim::U128 => String::from_str("BigInt"),
        Prim::F32 | Prim::F64 => String::from_str("double"),
        Prim::Str => String::from_str("String"),
        Prim::Unit => String::from_str("void"),
        Prim::Named(n) => n.clone(),
    };
    if t.optional {
        let mut s = base;
        s.append("?");
        proof {
            assert(s@ =~= spec_dart_type(t@));
        }
        s
    } else {
        base
    }
}

/// One C argument: the type, a space, and the name — except that a
/// pointer type's star hugs the name, as C headers are written.
pub open spec fn spec_c_arg(ct: Seq<char>, name: Seq<char>) -> Seq<char> {
    if ct.len() > 0 && ct[ct.len() - 1] == '*' {
        ct + name
    } else {
        ct + " "@ + name
    }
}

/// The C argument list fragment of a header line: one `, <c type> <name>`
/// piece per parameter, in declaration order.
pub open spec fn spec_header_args(ps: Seq<ParameterV>) -> Option<Seq<char>>
    decreases ps.len(),
{
    if ps.len() == 0 {
        Some(Seq::empty())
    } else {
        match (spec_header_args(ps.drop_last()), spec_c_type(ps.last().ty)) {
            (Some(rest), Some(ct)) => Some(rest + ", "@ + spec_c_arg(ct, ps.last().name)),
            _ => None,
        }
    }
}

/// One header line, in the form the static binding check consumes:
/// `int32_t <symbol>(int64_t port, <c type> <name>, ...);`.
pub open spec fn spec_header_line(namespace: Seq<char>, d: crate::model::DeclarationV) -> Option<
    Seq<char>,
> {
    match spec_header_args(d.inputs) {
        Some(args) => Some(
            "int32_t "@ + spec_symbol(namespace, d.name) + "(int64_t port"@ + args + ");"@,
        ),
        None => None,
    }
}

/// Emits the header line for one declaration: the exported symbol with the
/// port handle first and the mapped parameters after it, in declaration
/// order. Fails only where a parameter's type has no C representation.
pub fn header_line(namespace: &str, d: &Declaration) -> (r: Result<String, UnsupportedType>)
    ensures
        match r {
            Ok(s) => spec_header_line(namespace@, d@) == Some(s@),
            Err(_) => spec_header_line(namespace@, d@) is None,
        },
{
    let mut args = String::new();
    let ghost psv = d@.inputs;
    let mut i: usize = 0;
    proof {
        assert(psv.take(0) =~= Seq::<ParameterV>::empty());
    }
    while i < d.inputs.len()
        invariant
            i <= d.inputs.len(),
            psv == d@.inputs,
            psv.len() == d.inputs.len(),
            forall|j: int| 0 <= j < psv.len() ==> psv[j] == #[trigger] d.inputs@[j]@,
            spec_header_args(psv.take(i as int)) == Some(args@),
        decreases d.inputs.len() - i,
    {
        let p = &d.inputs[i];
        let ct = match c_type(&p.ty) {
            Ok(ct) => ct,
            Err(e) => {
                proof {
                    lemma_header_args_none(psv, i as int);
                }
                return Err(e);
            },
        };
        let ghost old_args = args@;
        args.append(", ");
        args.append(ct.as_str());
        let ctn = ct.as_str().unicode_len();
        let pointer = ctn > 0 && ct.as_str().get_char(ctn - 1) == '*';
        if !pointer {
            args.append(" ");
        }
        args.append(p.name.as_str());
        proof {
            assert(args@ =~= old_args + ", "@ + spec_c_arg(ct@, p.name@));
            assert(psv.take(i + 1).drop_last() =~= psv.take(i as int));
            assert(psv.take(i + 1).last() == psv[i as int]);
        }
        i = i + 1;
    }
    proof {
        assert(psv.take(psv.len() as int) =~= psv);
    }
    let mut line = String::new();
    line.append("int32_t ");
    let sym = extern_symbol(namespace, d.name.as_str());
    line.append(sym.as_str());
    line.append("(int64_t port");
    line.append(args.as_str());
    line.append(");");
    proof {
        assert(line@ =~= "int32_t "@ + spec_symbol(namespace@, d@.name) + "(int64_t port"@ + args@
            + ");"@);
    }
    Ok(line)
}

/// A parameter list whose prefix already fails to map stays unmapped when
/// extended: the argument fragment of the whole list is then `None` too.
proof fn lemma_header_args_none(ps: Seq<ParameterV>, i: int)
    requires
        0 <= i < ps.len(),
        spec_c_type(ps[i].ty) is None,
    ensures
        spec_header_args(ps) is None,
    decreases ps.len(),
{
    if i == ps.len() - 1 {
    } else {
        lemma_header_args_none(ps.drop_last(), i);
    }
}

/// One rendered client-side named parameter: optional parameters are
/// nullable and omittable, required ones carry the `required` marker.
pub open spec fn spec_dart_param(p: ParameterV) -> Seq<char> {
    if p.ty.optional {
        spec_dart_type(p.ty) + " "@ + spec_mixed_case(p.name)
    } else {
        "required "@ + spec_dart_type(p.ty) + " "@ + spec_mixed_case(p.name)
    }
}

/// The client-side named-parameter list, in declaration order, separated by
/// `, `.
pub open spec fn spec_dart_params(ps: Seq<ParameterV>) -> Seq<char>
    decreases ps.len(),
{
    if ps.len() == 0 {
        Seq::empty()
    } else if ps.len() == 1 {
        spec_dart_param(ps[0])
    } else {
        spec_dart_params(ps.drop_last()) + ", "@ + spec_dart_param(ps.last())
    }
}

/// The head of the client-side operation for one declaration: a single-shot
/// future for `Serialized`, a subscribable stream for the two streaming
/// styles, with the declaration's camel-cased name and named parameters.
pub open spec fn spec_client_signature(d: crate::model::DeclarationV) -> Seq<char> {
    let ret = spec_dart_type(d.output);
    let params = if d.inputs.len() == 0 {
        "()"@
    } else {
        "({"@ + spec_dart_params(d.inputs) + "})"@
    };
    match d.style {
        OutputStyle::Serialized => "Future<"@ + ret + "> "@ + spec_mixed_case(d.name) + params
            + " async {"@,
        _ => "Stream<"@ + ret + "> "@ + spec_mixed_case(d.name) + params + " {"@,
    }
}

/// Emits the client-side operation head for one declaration.
pub fn client_signature(d: &Declaration) -> (r: String)
    ensures
        r@ == spec_client_signature(d@),
{
    let mut params = String::new();
    if d.inputs.len() == 0 {
        params.append("()");
        proof {
            assert(params@ =~= "()"@);
        }
    } else {
        let ghost psv = d@.inputs;
        let mut list = String::new();
        let mut i: usize = 0;
        proof {
            assert(psv.take(1).len() == 1);
        }
        while i < d.inputs.len()
            invariant
                i <= d.inputs.len(),
                psv == d@.inputs,
                psv.len() == d.inputs.len(),
                psv.len() > 0,
                forall|j: int| 0 <= j < psv.len() ==> psv[j] == #[trigger] d.inputs@[j]@,
                i > 0 ==> spec_dart_params(psv.take(i as int)) == list@,
                i == 0 ==> list@ == Seq::<char>::empty(),
            decreases d.inputs.len() - i,
        {
            if i > 0 {
                list.append(", ");
            }
            let p = &d.inputs[i];
            if !p.ty.optional {
                list.append("required ");
            }
            let dt = dart_type(&p.ty);
            list.append(dt.as_str());
            list.append(" ");
            let mc = mixed_case(p.name.as_str());
            list.append(mc.as_str());
            proof {
                assert(psv.take(i + 1).last() == psv[i as int]);
                if i > 0 {
                    assert(psv.take(i + 1).drop_last() =~= psv.take(i as int));
                    assert(list@ =~= spec_dart_params(psv.take(i as int)) + ", "@ + spec_dart_param(
                        psv[i as int],
                    ));
                } else {
                    assert(psv.take(1).len() == 1);
                    assert(list@ =~= spec_dart_param(psv[0]));
                }
            }
            i = i + 1;
        }
        proof {
            assert(psv.take(psv.len() as int) =~= psv);
        }
        params.append("({");
        params.append(list.as_str());
        params.append("})");
        proof {
            assert(params@ =~= "({"@ + spec_dart_params(psv) + "})"@);
        }
    }
    let ret = dart_type(&d.output);
    let mc = mixed_case(d.name.as_str());
    let mut s = String::new();
    match d.style {
        OutputStyle::Serialized => {
            s.append("Future<");
            s.append(ret.as_str());
            s.append("> ");
            s.append(mc.as_str());
            s.append(params.as_str());
            s.append(" async {");
        },
        _ => {
            s.append("Stream<");
            s.append(ret.as_str());
            s.append("> ");
            s.append(mc.as_str());
            s.append(params.as_str());
            s.append(" {");
        },
    }
    proof {
        assert(s@ =~= spec_client_signature(d@));
    }
    s
}

} // verus!
