//! The whole-declaration pipeline: options and declaration in, the
//! rendered bridge-side and client-side artifacts out, all derived from
//! one parse so the two sides cannot drift apart.

use vstd::prelude::*;
use crate::emit::{client_signature, extern_symbol, header_line, spec_client_signature,
    spec_dart_type, spec_header_line, spec_symbol};
use crate::model::{Declaration, OutputStyle, Options};
use crate::parse::{extract_options, parse_declaration, spec_extract_options,
    spec_parse_declaration, spec_parse_enum_item, parse_enum_item, ParseError};
use crate::registry::{Function, TypeSchema};
use crate::strutil::{mixed_case, spec_mixed_case};
use crate::token::{Token, tokens_view};

verus! {

/// Why one declaration could not be generated.
#[derive(Clone, Copy, PartialEq, Eq, Structural, Debug)]
pub enum BuildError {
    /// The option list or the declaration violates the grammar.
    Malformed(ParseError),
    /// A parameter type has no C representation.
    Unsupported,
}

/// Everything generated for one declaration.
pub struct Generated {
    /// The typed intermediate form the artifacts were derived from.
    pub declaration: Declaration,
    /// The registry entry both emitters share.
    pub function: Function,
}

/// Turns one annotated asynchronous declaration into its bridge-side and
/// client-side artifacts: the exported symbol `membrane_<ns>_<name>`, the
/// C header line with the port handle first and the parameters in
/// declaration order, and the client operation head with the camel-cased
/// name and the mapped parameter types. Fails exactly where the option
/// list or the declaration is malformed, or where a parameter type has
/// no C representation.
pub fn async_dart(attrs: &Vec<Token>, decl: &Vec<Token>) -> (r: Result<Generated, BuildError>)
    ensures
        match r {
            Ok(g) => {
                &&& spec_extract_options(tokens_view(attrs@)) matches Ok(o)
                    && spec_parse_declaration(tokens_view(decl@)) matches Ok(d)
                    && g.declaration@ == d
                    && g.function.namespace@ == o.namespace
                    && g.function.disable_logging == o.disable_logging
                    && g.function.extern_c_fn_name@ == spec_symbol(o.namespace, d.name)
                    && g.function.fn_name@ == spec_mixed_case(d.name)
                    && g.function.is_stream == (d.style != OutputStyle::Serialized)
                    && g.function.return_type@ == spec_dart_type(d.output)
                    && g.function.error_type@ == spec_dart_type(d.error)
                    && Some(g.function.header@) == spec_header_line(o.namespace, d)
                    && g.function.client_head@ == spec_client_signature(d)
            },
            Err(BuildError::Malformed(e)) => {
                spec_extract_options(tokens_view(attrs@)) == Err::<
                    crate::model::OptionsV,
                    _,
                >(e) || (spec_extract_options(tokens_view(attrs@)) is Ok
                    && spec_parse_declaration(tokens_view(decl@)) == Err::<
                    crate::model::DeclarationV,
                    _,
                >(e))
            },
            Err(BuildError::Unsupported) => {
                &&& spec_extract_options(tokens_view(attrs@)) is Ok
                &&& spec_parse_declaration(tokens_view(decl@)) matches Ok(d) && spec_header_line(
                    spec_extract_options(tokens_view(attrs@))->Ok_0.namespace,
                    d,
                ) is None
            },
        },
{
    let opts: Options = match extract_options(attrs) {
        Ok(o) => o,
        Err(e) => {
            return Err(BuildError::Malformed(e));
        },
    };
    let d: Declaration = match parse_declaration(decl) {
        Ok(d) => d,
        Err(e) => {
            return Err(BuildError::Malformed(e));
        },
    };
    let header = match header_line(opts.namespace.as_str(), &d) {
        Ok(h) => h,
        Err(_) => {
            return Err(BuildError::Unsupported);
        },
    };
    let symbol = extern_symbol(opts.namespace.as_str(), d.name.as_str());
    let fn_name = mixed_case(d.name.as_str());
    let client_head = client_signature(&d);
    let return_type = crate::emit::dart_type(&d.output);
    let error_type = crate::emit::dart_type(&d.error);
    let is_stream = !matches!(d.style, OutputStyle::Serialized);
    let f = Function {
        extern_c_fn_name: symbol,
        header,
        fn_name,
        is_stream,
        return_type,
        error_type,
        namespace: opts.namespace,
        disable_logging: opts.disable_logging,
        client_head,
    };
    Ok(Generated { declaration: d, function: f })
}

/// The client-side registration of one enumeration: the namespace its
/// declarations live in and the structural schema the reflection pass
/// records for it.
pub struct EnumTrace {
    pub namespace: String,
    pub schema: TypeSchema,
}

/// Registers one enumeration item for the reflection pass: its variant
/// names in declaration order, which is part of the wire protocol because
/// variant identity is index-based.
pub fn dart_enum(attrs: &Vec<Token>, item: &Vec<Token>) -> (r: Result<EnumTrace, BuildError>)
    ensures
        match r {
            Ok(t) => {
                &&& spec_extract_options(tokens_view(attrs@)) matches Ok(o)
                    && spec_parse_enum_item(tokens_view(item@)) matches Ok(s)
                    && t.namespace@ == o.namespace
                    && t.schema@ == s
            },
            Err(BuildError::Malformed(e)) => {
                spec_extract_options(tokens_view(attrs@)) == Err::<
                    crate::model::OptionsV,
                    _,
                >(e) || (spec_extract_options(tokens_view(attrs@)) is Ok
                    && spec_parse_enum_item(tokens_view(item@)) == Err::<
                    crate::registry::TypeSchemaV,
                    _,
                >(e))
            },
            Err(BuildError::Unsupported) => false,
        },
{
    let opts: Options = match extract_options(attrs) {
        Ok(o) => o,
        Err(e) => {
            return Err(BuildError::Malformed(e));
        },
    };
    let schema: TypeSchema = match parse_enum_item(item) {
        Ok(s) => s,
        Err(e) => {
            return Err(BuildError::Malformed(e));
        },
    };
    Ok(EnumTrace { namespace: opts.namespace, schema })
}

} // verus!
