//! The declaration parser: token stream to typed intermediate form.
//!
//! The return-type grammar is the sole determinant of the delivery model:
//! a bare `Result<T, E>` is a single completion, an
//! `impl Stream<Item = Result<T, E>>` is a produced stream, and a
//! `Lazy<(T, Receiver<Result<T, E>>)>` static is an externally driven
//! channel. Every other return shape is refused with a diagnostic naming
//! the unsupported shape.

use vstd::prelude::*;
use crate::model::{Declaration, DeclarationV, Options, OptionsV, OutputStyle, Parameter,
    ParameterV, Prim, PrimV, TypeExpr, TypeExprV, params_view};
use crate::registry::{SchemaKind, SchemaKindV, TypeSchema, TypeSchemaV, strings_view};
use crate::token::{spec_is_word, is_word, Token, TokenV, tokens_view};

verus! {

/// The grammar rule a malformed declaration or option list violated.
#[derive(Clone, Copy, PartialEq, Eq, Structural, Debug)]
pub enum ParseError {
    /// A token other than the one the grammar requires here.
    UnexpectedToken,
    /// A method-form receiver parameter; only free functions are bridged.
    SelfNotSupported,
    /// The return type must be the two-channel `Result` form.
    ExpectedResult,
    /// A tuple cannot be returned; wrap it in a named aggregate type.
    TupleNotSupported,
    /// A bare vector cannot be returned; wrap it in a named aggregate type.
    VecNotSupported,
    /// The success type must be a named aggregate or scalar type.
    ExpectedStructOrScalar,
    /// An `impl` return type that is not `impl Stream<Item = Result>`.
    ExpectedStream,
    /// A static declaration must bind a one-time lazy initializer.
    ExpectedLazy,
    /// The lazy initializer must wrap a parenthesized producer/receiver pair.
    ExpectedParen,
    /// The second element of the pair must be a `Receiver`.
    ExpectedReceiver,
    /// An option other than `namespace` and `disable_logging`.
    UnknownOption,
    /// The required `namespace` option is missing.
    MissingNamespace,
    /// An option may be given at most once.
    DuplicateOption,
    /// A parameter type no mapping rule covers.
    UnsupportedParamType,
}

/// The base type a type word denotes; an unknown word names a user type.
pub open spec fn spec_prim_of(w: Seq<char>) -> PrimV {
    if w == "bool"@ {
        PrimV::Bool
    } else if w == "i8"@ {
        PrimV::I8
    } else if w == "i16"@ {
        PrimV::I16
    } else if w == "i32"@ {
        PrimV::I32
    } else if w == "i64"@ {
        PrimV::I64
    } else if w == "i128"@ {
        PrimV::I128
    } else if w == "u8"@ {
        PrimV::U8
    } else if w == "u16"@ {
        PrimV::U16
    } else if w == "u32"@ {
        PrimV::U32
    } else if w == "u64"@ {
        PrimV::U64
    } else if w == "u128"@ {
        PrimV::U128
    } else if w == "f32"@ {
        PrimV::F32
    } else if w == "f64"@ {
        PrimV::F64
    } else if w == "String"@ {
        PrimV::Str
    } else {
        PrimV::Named(w)
    }
}

/// Maps one type word to its base type.
pub fn prim_of(w: &String) -> (r: Prim)
    ensures
        r@ == spec_prim_of(w@),
{
    if w.eq(&String::from_str("bool")) {
        Prim::Bool
    } else if w.eq(&String::from_str("i8")) {
        Prim::I8
    } else if w.eq(&String::from_str("i16")) {
        Prim::I16
    } else if w.eq(&String::from_str("i32")) {
        Prim::I32
    } else if w.eq(&String::from_str("i64")) {
        Prim::I64
    } else if w.eq(&String::from_str("i128")) {
        Prim::I128
    } else if w.eq(&String::from_str("u8")) {
        Prim::U8
    } else if w.eq(&String::from_str("u16")) {
        Prim::U16
    } else if w.eq(&String::from_str("u32")) {
        Prim::U32
    } else if w.eq(&String::from_str("u64")) {
        Prim::U64
    } else if w.eq(&String::from_str("u128")) {
        Prim::U128
    } else if w.eq(&String::from_str("f32")) {
        Prim::F32
    } else if w.eq(&String::from_str("f64")) {
        Prim::F64
    } else if w.eq(&String::from_str("String")) {
        Prim::Str
    } else {
        Prim::Named(w.clone())
    }
}

/// A parsed path: its first and last segment, and the position after it.
pub struct PathEnds {
    pub first: String,
    pub last: String,
    pub end: usize,
}

/// Reads a possibly `::`-separated path starting at `pos`: the first and
/// last segment words and the position after the path.
pub open spec fn spec_parse_path(t: Seq<TokenV>, pos: int) -> Result<
    (Seq<char>, Seq<char>, int),
    ParseError,
>
    decreases t.len() - pos,
{
    if pos < 0 || pos >= t.len() {
        Err(ParseError::UnexpectedToken)
    } else if !(t[pos] is Word) {
        Err(ParseError::UnexpectedToken)
    } else {
        let w = t[pos]->Word_0;
        if pos + 2 < t.len() && t[pos + 1] == TokenV::Colon && t[pos + 2] == TokenV::Colon {
            match spec_parse_path(t, pos + 3) {
                Ok((_, last, end)) => Ok((w, last, end)),
                Err(e) => Err(e),
            }
        } else {
            Ok((w, w, pos + 1))
        }
    }
}

/// Reads one path; see `spec_parse_path`.
pub fn parse_path(tokens: &Vec<Token>, pos: usize) -> (r: Result<PathEnds, ParseError>)
    ensures
        match r {
            Ok(p) => spec_parse_path(tokens_view(tokens@), pos as int) == Ok::<_, ParseError>(
                (p.first@, p.last@, p.end as int),
            ) && pos < p.end <= tokens@.len(),
            Err(e) => spec_parse_path(tokens_view(tokens@), pos as int) == Err::<
                (Seq<char>, Seq<char>, int),
                _,
            >(e),
        },
    decreases tokens@.len() - pos,
{
    let ghost t = tokens_view(tokens@);
    proof {
        assert(pos < tokens@.len() ==> t[pos as int] == tokens@[pos as int]@);
        assert(pos + 1 < tokens@.len() ==> t[pos as int + 1] == tokens@[pos as int + 1]@);
        assert(pos + 2 < tokens@.len() ==> t[pos as int + 2] == tokens@[pos as int + 2]@);
    }
    if pos >= tokens.len() {
        return Err(ParseError::UnexpectedToken);
    }
    let w = match &tokens[pos] {
        Token::Word(w) => w.clone(),
        _ => {
            return Err(ParseError::UnexpectedToken);
        },
    };
    let has_sep = tokens.len() - pos > 2 && matches!(&tokens[pos + 1], Token::Colon) && matches!(
        &tokens[pos + 2],
        Token::Colon,
    );
    if has_sep {
        match parse_path(tokens, pos + 3) {
            Ok(rest) => Ok(PathEnds { first: w, last: rest.last, end: rest.end }),
            Err(e) => Err(e),
        }
    } else {
        Ok(PathEnds { first: w.clone(), last: w, end: pos + 1 })
    }
}

/// Reads the two-channel `Result<T, E>` return form: the success type
/// (a named aggregate, a scalar, or the empty unit type) and the error
/// type. A tuple or vector success type is refused with the diagnostic
/// naming it; a missing error channel is refused as well.
pub open spec fn spec_parse_type(t: Seq<TokenV>, pos: int) -> Result<
    (TypeExprV, TypeExprV, int),
    ParseError,
> {
    if !spec_is_word(t, pos, "Result"@) {
        Err(ParseError::ExpectedResult)
    } else if !(pos + 1 < t.len() && t[pos + 1] == TokenV::Lt) {
        Err(ParseError::UnexpectedToken)
    } else {
        let after = if pos + 2 < t.len() && t[pos + 2] == TokenV::LParen {
            if pos + 3 < t.len() && t[pos + 3] == TokenV::RParen {
                Ok((TypeExprV { prim: PrimV::Unit, optional: false }, pos + 4))
            } else {
                Err(ParseError::TupleNotSupported)
            }
        } else {
            match spec_parse_path(t, pos + 2) {
                Ok((first, last, end)) => {
                    if end < t.len() && t[end] == TokenV::Comma {
                        Ok((TypeExprV { prim: spec_prim_of(last), optional: false }, end))
                    } else if first == "Vec"@ {
                        Err(ParseError::VecNotSupported)
                    } else {
                        Err(ParseError::ExpectedStructOrScalar)
                    }
                },
                Err(_) => Err(ParseError::ExpectedStructOrScalar),
            }
        };
        match after {
            Err(e) => Err(e),
            Ok((out, p)) => {
                if !(p < t.len() && t[p] == TokenV::Comma) {
                    Err(ParseError::UnexpectedToken)
                } else {
                    match spec_parse_path(t, p + 1) {
                        Err(e) => Err(e),
                        Ok((_, elast, eend)) => {
                            if eend < t.len() && t[eend] == TokenV::Gt {
                                Ok(
                                    (
                                        out,
                                        TypeExprV { prim: spec_prim_of(elast), optional: false },
                                        eend + 1,
                                    ),
                                )
                            } else {
                                Err(ParseError::UnexpectedToken)
                            }
                        },
                    }
                }
            },
        }
    }
}

/// Reads one `Result<T, E>` return form; see `spec_parse_type`.
pub fn parse_type(tokens: &Vec<Token>, pos: usize) -> (r: Result<
    (TypeExpr, TypeExpr, usize),
    ParseError,
>)
    ensures
        match r {
            Ok((out, err, end)) => spec_parse_type(tokens_view(tokens@), pos as int) == Ok::<
                _,
                ParseError,
            >((out@, err@, end as int)) && pos < end <= tokens@.len(),
            Err(e) => spec_parse_type(tokens_view(tokens@), pos as int) == Err::<
                (TypeExprV, TypeExprV, int),
                _,
            >(e),
        },
{
    let ghost t = tokens_view(tokens@);
    proof {
        assert forall|j: int| 0 <= j < t.len() implies t[j] == tokens@[j]@ by {}
    }
    if !is_word(tokens, pos, "Result") {
        return Err(ParseError::ExpectedResult);
    }
    if !(tokens.len() - pos > 1 && matches!(&tokens[pos + 1], Token::Lt)) {
        return Err(ParseError::UnexpectedToken);
    }
    let (out, p): (TypeExpr, usize) = if tokens.len() - pos > 2 && matches!(
        &tokens[pos + 2],
        Token::LParen,
    ) {
        if tokens.len() - pos > 3 && matches!(&tokens[pos + 3], Token::RParen) {
            (TypeExpr { prim: Prim::Unit, optional: false }, pos + 4)
        } else {
            return Err(ParseError::TupleNotSupported);
        }
    } else {
        match parse_path(tokens, pos + 2) {
            Ok(pe) => {
                if pe.end < tokens.len() && matches!(&tokens[pe.end], Token::Comma) {
                    (TypeExpr { prim: prim_of(&pe.last), optional: false }, pe.end)
                } else if pe.first.eq(&String::from_str("Vec")) {
                    return Err(ParseError::VecNotSupported);
                } else {
                    return Err(ParseError::ExpectedStructOrScalar);
                }
            },
            Err(_) => {
                return Err(ParseError::ExpectedStructOrScalar);
            },
        }
    };
    if !(p < tokens.len() && matches!(&tokens[p], Token::Comma)) {
        return Err(ParseError::UnexpectedToken);
    }
    match parse_path(tokens, p + 1) {
        Err(e) => Err(e),
        Ok(pe) => {
            if pe.end < tokens.len() && matches!(&tokens[pe.end], Token::Gt) {
                Ok((out, TypeExpr { prim: prim_of(&pe.last), optional: false }, pe.end + 1))
            } else {
                Err(ParseError::UnexpectedToken)
            }
        },
    }
}

/// Classifies a bare `Result` return type: the single-completion model.
pub open spec fn spec_parse_return_type(t: Seq<TokenV>, pos: int) -> Result<
    (OutputStyle, TypeExprV, TypeExprV, int),
    ParseError,
> {
    match spec_parse_type(t, pos) {
        Ok((out, err, end)) => Ok((OutputStyle::Serialized, out, err, end)),
        Err(e) => Err(e),
    }
}

/// Reads a bare `Result` return type, the `Serialized` delivery model:
/// exactly one envelope per call.
pub fn parse_return_type(tokens: &Vec<Token>, pos: usize) -> (r: Result<
    (OutputStyle, TypeExpr, TypeExpr, usize),
    ParseError,
>)
    ensures
        match r {
            Ok((style, out, err, end)) => spec_parse_return_type(tokens_view(tokens@), pos as int)
                == Ok::<_, ParseError>((style, out@, err@, end as int)) && pos < end
                <= tokens@.len(),
            Err(e) => spec_parse_return_type(tokens_view(tokens@), pos as int) == Err::<
                (OutputStyle, TypeExprV, TypeExprV, int),
                _,
            >(e),
        },
{
    match parse_type(tokens, pos) {
        Ok((out, err, end)) => Ok((OutputStyle::Serialized, out, err, end)),
        Err(e) => Err(e),
    }
}

/// Reads an `impl Stream<Item = Result<T, E>>` return type: the produced
/// stream delivery model.
pub open spec fn spec_parse_stream_return_type(t: Seq<TokenV>, pos: int) -> Result<
    (OutputStyle, TypeExprV, TypeExprV, int),
    ParseError,
> {
    if !spec_is_word(t, pos, "impl"@) {
        Err(ParseError::UnexpectedToken)
    } else if !(spec_is_word(t, pos + 1, "Stream"@) && pos + 2 < t.len() && t[pos + 2]
        == TokenV::Lt && spec_is_word(t, pos + 3, "Item"@)) {
        Err(ParseError::ExpectedStream)
    } else if !(pos + 4 < t.len() && t[pos + 4] == TokenV::Eq) {
        Err(ParseError::UnexpectedToken)
    } else {
        match spec_parse_type(t, pos + 5) {
            Err(e) => Err(e),
            Ok((out, err, end)) => {
                if end < t.len() && t[end] == TokenV::Gt {
                    Ok((OutputStyle::StreamSerialized, out, err, end + 1))
                } else {
                    Err(ParseError::UnexpectedToken)
                }
            },
        }
    }
}

/// Reads an `impl Stream<Item = Result<T, E>>` return type, the
/// `StreamSerialized` delivery model: one envelope per produced item.
pub fn parse_stream_return_type(tokens: &Vec<Token>, pos: usize) -> (r: Result<
    (OutputStyle, TypeExpr, TypeExpr, usize),
    ParseError,
>)
    ensures
        match r {
            Ok((style, out, err, end)) => spec_parse_stream_return_type(
                tokens_view(tokens@),
                pos as int,
            ) == Ok::<_, ParseError>((style, out@, err@, end as int)) && pos < end
                <= tokens@.len(),
            Err(e) => spec_parse_stream_return_type(tokens_view(tokens@), pos as int) == Err::<
                (OutputStyle, TypeExprV, TypeExprV, int),
                _,
            >(e),
        },
{
    if !is_word(tokens, pos, "impl") {
        return Err(ParseError::UnexpectedToken);
    }
    let n = tokens.len();
    proof {
        assert(tokens_view(tokens@).len() == tokens@.len());
        assert(pos < n);
    }
    if !(is_word(tokens, pos + 1, "Stream") && n - pos > 2 && matches!(
        &tokens[pos + 2],
        Token::Lt,
    ) && is_word(tokens, pos + 3, "Item")) {
        return Err(ParseError::ExpectedStream);
    }
    if !(n - pos > 4 && matches!(&tokens[pos + 4], Token::Eq)) {
        return Err(ParseError::UnexpectedToken);
    }
    proof {
        assert(pos + 2 < tokens@.len() ==> tokens_view(tokens@)[pos as int + 2] == tokens@[pos
            as int + 2]@);
        assert(pos + 4 < tokens@.len() ==> tokens_view(tokens@)[pos as int + 4] == tokens@[pos
            as int + 4]@);
    }
    match parse_type(tokens, pos + 5) {
        Err(e) => Err(e),
        Ok((out, err, end)) => {
            proof {
                assert(end < tokens@.len() ==> tokens_view(tokens@)[end as int] == tokens@[end
                    as int]@);
            }
            if end < tokens.len() && matches!(&tokens[end], Token::Gt) {
                Ok((OutputStyle::StreamSerialized, out, err, end + 1))
            } else {
                Err(ParseError::UnexpectedToken)
            }
        },
    }
}

/// Scans past one type expression, tracking bracket depth, up to the next
/// separating comma at depth zero.
pub open spec fn spec_skip_type(t: Seq<TokenV>, pos: int, depth: int) -> Result<int, ParseError>
    decreases t.len() - pos,
{
    if pos < 0 || pos >= t.len() {
        Err(ParseError::UnexpectedToken)
    } else if depth == 0 && t[pos] == TokenV::Comma {
        Ok(pos)
    } else if t[pos] == TokenV::Lt || t[pos] == TokenV::LParen || t[pos] == TokenV::LBracket {
        spec_skip_type(t, pos + 1, depth + 1)
    } else if t[pos] == TokenV::Gt || t[pos] == TokenV::RParen || t[pos] == TokenV::RBracket {
        if depth == 0 {
            Err(ParseError::UnexpectedToken)
        } else {
            spec_skip_type(t, pos + 1, depth - 1)
        }
    } else {
        spec_skip_type(t, pos + 1, depth)
    }
}

/// Scans past one type expression up to its separating comma.
fn skip_type(tokens: &Vec<Token>, pos: usize) -> (r: Result<usize, ParseError>)
    ensures
        match r {
            Ok(c) => spec_skip_type(tokens_view(tokens@), pos as int, 0) == Ok::<_, ParseError>(
                c as int,
            ) && pos <= c < tokens@.len(),
            Err(e) => spec_skip_type(tokens_view(tokens@), pos as int, 0) == Err::<int, _>(e),
        },
{
    let ghost t = tokens_view(tokens@);
    let n = tokens.len();
    let mut i = pos;
    let mut depth: usize = 0;
    proof {
        assert(t.len() == tokens@.len());
    }
    while i < n
        invariant
            t == tokens_view(tokens@),
            t.len() == tokens@.len(),
            n == tokens@.len(),
            pos <= i,
            spec_skip_type(t, pos as int, 0) == spec_skip_type(t, i as int, depth as int),
            depth <= i - pos,
        decreases n - i,
    {
        proof {
            assert(t[i as int] == tokens@[i as int]@);
        }
        match &tokens[i] {
            Token::Comma => {
                if depth == 0 {
                    return Ok(i);
                }
                i = i + 1;
            },
            Token::Lt | Token::LParen | Token::LBracket => {
                depth = depth + 1;
                i = i + 1;
            },
            Token::Gt | Token::RParen | Token::RBracket => {
                if depth == 0 {
                    return Err(ParseError::UnexpectedToken);
                }
                depth = depth - 1;
                i = i + 1;
            },
            _ => {
                i = i + 1;
            },
        }
    }
    Err(ParseError::UnexpectedToken)
}

/// Reads a `Lazy<(T, Receiver<Result<T, E>>)>` static return form up to
/// and including the closing parenthesis of the pair: the externally
/// driven channel delivery model. The position returned still has the
/// lazy wrapper's closing angle bracket ahead of it.
pub open spec fn spec_parse_channel_return_type(t: Seq<TokenV>, pos: int) -> Result<
    (OutputStyle, TypeExprV, TypeExprV, int),
    ParseError,
> {
    if !spec_is_word(t, pos, "Lazy"@) {
        Err(ParseError::ExpectedLazy)
    } else if !(pos + 1 < t.len() && t[pos + 1] == TokenV::Lt) {
        Err(ParseError::UnexpectedToken)
    } else if !(pos + 2 < t.len() && t[pos + 2] == TokenV::LParen) {
        Err(ParseError::ExpectedParen)
    } else {
        match spec_skip_type(t, pos + 3, 0) {
            Err(e) => Err(e),
            Ok(c) => {
                if !spec_is_word(t, c + 1, "Receiver"@) {
                    Err(ParseError::ExpectedReceiver)
                } else if !(c + 2 < t.len() && t[c + 2] == TokenV::Lt) {
                    Err(ParseError::UnexpectedToken)
                } else {
                    match spec_parse_type(t, c + 3) {
                        Err(e) => Err(e),
                        Ok((out, err, e2)) => {
                            if !(e2 < t.len() && t[e2] == TokenV::Gt) {
                                Err(ParseError::UnexpectedToken)
                            } else if !(e2 + 1 < t.len() && t[e2 + 1] == TokenV::RParen) {
                                Err(ParseError::UnexpectedToken)
                            } else {
                                Ok((OutputStyle::Channel, out, err, e2 + 2))
                            }
                        },
                    }
                }
            },
        }
    }
}

/// Reads a `Lazy<(T, Receiver<Result<T, E>>)>` static return form, the
/// `Channel` delivery model: the bridge taps a pre-existing receiver.
pub fn parse_channel_return_type(tokens: &Vec<Token>, pos: usize) -> (r: Result<
    (OutputStyle, TypeExpr, TypeExpr, usize),
    ParseError,
>)
    ensures
        match r {
            Ok((style, out, err, end)) => spec_parse_channel_return_type(
                tokens_view(tokens@),
                pos as int,
            ) == Ok::<_, ParseError>((style, out@, err@, end as int)) && pos < end
                <= tokens@.len(),
            Err(e) => spec_parse_channel_return_type(tokens_view(tokens@), pos as int) == Err::<
                (OutputStyle, TypeExprV, TypeExprV, int),
                _,
            >(e),
        },
{
    let ghost t = tokens_view(tokens@);
    proof {
        assert forall|j: int| 0 <= j < t.len() implies t[j] == tokens@[j]@ by {}
        assert(t.len() == tokens@.len());
    }
    if !is_word(tokens, pos, "Lazy") {
        return Err(ParseError::ExpectedLazy);
    }
    let n = tokens.len();
    if !(n - pos > 1 && matches!(&tokens[pos + 1], Token::Lt)) {
        return Err(ParseError::UnexpectedToken);
    }
    if !(n - pos > 2 && matches!(&tokens[pos + 2], Token::LParen)) {
        return Err(ParseError::ExpectedParen);
    }
    let c = match skip_type(tokens, pos + 3) {
        Ok(c) => c,
        Err(e) => {
            return Err(e);
        },
    };
    if !is_word(tokens, c + 1, "Receiver") {
        return Err(ParseError::ExpectedReceiver);
    }
    if !(n - c > 2 && matches!(&tokens[c + 2], Token::Lt)) {
        return Err(ParseError::UnexpectedToken);
    }
    match parse_type(tokens, c + 3) {
        Err(e) => Err(e),
        Ok((out, err, e2)) => {
            if !(e2 < n && matches!(&tokens[e2], Token::Gt)) {
                return Err(ParseError::UnexpectedToken);
            }
            if !(n - e2 > 1 && matches!(&tokens[e2 + 1], Token::RParen)) {
                return Err(ParseError::UnexpectedToken);
            }
            Ok((OutputStyle::Channel, out, err, e2 + 2))
        },
    }
}

/// Reads one parameter's type expression: a base type word or path, or
/// the presence wrapper `Option<...>` around one. Any other generic type
/// has no mapping rule and is refused.
pub open spec fn spec_parse_param_type(t: Seq<TokenV>, pos: int) -> Result<
    (TypeExprV, int),
    ParseError,
> {
    match spec_parse_path(t, pos) {
        Err(e) => Err(e),
        Ok((_, last, end)) => {
            if end < t.len() && t[end] == TokenV::Lt {
                if last != "Option"@ {
                    Err(ParseError::UnsupportedParamType)
                } else {
                    match spec_parse_path(t, end + 1) {
                        Err(e) => Err(e),
                        Ok((_, ilast, iend)) => {
                            if iend < t.len() && t[iend] == TokenV::Gt {
                                Ok(
                                    (
                                        TypeExprV { prim: spec_prim_of(ilast), optional: true },
                                        iend + 1,
                                    ),
                                )
                            } else {
                                Err(ParseError::UnsupportedParamType)
                            }
                        },
                    }
                }
            } else {
                Ok((TypeExprV { prim: spec_prim_of(last), optional: false }, end))
            }
        },
    }
}

/// Reads one parameter's type expression; see `spec_parse_param_type`.
pub fn parse_param_type(tokens: &Vec<Token>, pos: usize) -> (r: Result<
    (TypeExpr, usize),
    ParseError,
>)
    ensures
        match r {
            Ok((ty, end)) => spec_parse_param_type(tokens_view(tokens@), pos as int) == Ok::<
                _,
                ParseError,
            >((ty@, end as int)) && pos < end <= tokens@.len(),
            Err(e) => spec_parse_param_type(tokens_view(tokens@), pos as int) == Err::<
                (TypeExprV, int),
                _,
            >(e),
        },
{
    let ghost t = tokens_view(tokens@);
    proof {
        assert forall|j: int| 0 <= j < t.len() implies t[j] == tokens@[j]@ by {}
        assert(t.len() == tokens@.len());
    }
    let n = tokens.len();
    match parse_path(tokens, pos) {
        Err(e) => Err(e),
        Ok(pe) => {
            if pe.end < n && matches!(&tokens[pe.end], Token::Lt) {
                if !pe.last.eq(&String::from_str("Option")) {
                    return Err(ParseError::UnsupportedParamType);
                }
                match parse_path(tokens, pe.end + 1) {
                    Err(e) => Err(e),
                    Ok(ipe) => {
                        if ipe.end < n && matches!(&tokens[ipe.end], Token::Gt) {
                            Ok(
                                (
                                    TypeExpr { prim: prim_of(&ipe.last), optional: true },
                                    ipe.end + 1,
                                ),
                            )
                        } else {
                            Err(ParseError::UnsupportedParamType)
                        }
                    },
                }
            } else {
                Ok((TypeExpr { prim: prim_of(&pe.last), optional: false }, pe.end))
            }
        },
    }
}

/// A parsed path ends past its start and within the tokens.
pub proof fn lemma_parse_path_bounds(t: Seq<TokenV>, pos: int)
    ensures
        spec_parse_path(t, pos) matches Ok((f, l, end)) ==> pos < end <= t.len(),
    decreases t.len() - pos,
{
    if 0 <= pos < t.len() && t[pos] is Word {
        if pos + 2 < t.len() && t[pos + 1] == TokenV::Colon && t[pos + 2] == TokenV::Colon {
            lemma_parse_path_bounds(t, pos + 3);
        }
    }
}

/// A parsed parameter type ends past its start and within the tokens.
pub proof fn lemma_parse_param_type_bounds(t: Seq<TokenV>, pos: int)
    ensures
        spec_parse_param_type(t, pos) matches Ok((ty, end)) ==> pos < end <= t.len(),
{
    lemma_parse_path_bounds(t, pos);
    match spec_parse_path(t, pos) {
        Ok((f, l, end)) => {
            if end < t.len() && t[end] == TokenV::Lt {
                lemma_parse_path_bounds(t, end + 1);
            }
        },
        Err(_) => {},
    }
}

#[via_fn]
proof fn spec_parse_params_decreases(t: Seq<TokenV>, pos: int) {
    lemma_parse_param_type_bounds(t, pos + 2);
}

/// Reads the parameter list after its opening parenthesis, including the
/// closing one. Parameters keep declaration order; a method-form `self`
/// receiver is refused.
pub open spec fn spec_parse_params(t: Seq<TokenV>, pos: int) -> Result<
    (Seq<ParameterV>, int),
    ParseError,
>
    decreases t.len() - pos,
    via spec_parse_params_decreases
{
    if pos < 0 || pos >= t.len() {
        Err(ParseError::UnexpectedToken)
    } else if t[pos] == TokenV::RParen {
        Ok((Seq::empty(), pos + 1))
    } else if t[pos] == TokenV::Word("self"@) || (t[pos] == TokenV::Other('&') && spec_is_word(
        t,
        pos + 1,
        "self"@,
    )) {
        Err(ParseError::SelfNotSupported)
    } else if !(t[pos] is Word) {
        Err(ParseError::UnexpectedToken)
    } else if !(pos + 1 < t.len() && t[pos + 1] == TokenV::Colon) {
        Err(ParseError::SelfNotSupported)
    } else {
        let name = t[pos]->Word_0;
        match spec_parse_param_type(t, pos + 2) {
            Err(e) => Err(e),
            Ok((ty, e1)) => {
                if e1 < t.len() && t[e1] == TokenV::Comma {
                    match spec_parse_params(t, e1 + 1) {
                        Err(e) => Err(e),
                        Ok((rest, e2)) => Ok(
                            (seq![ParameterV { name, ty }] + rest, e2),
                        ),
                    }
                } else if e1 < t.len() && t[e1] == TokenV::RParen {
                    Ok((seq![ParameterV { name, ty }], e1 + 1))
                } else {
                    Err(ParseError::UnexpectedToken)
                }
            },
        }
    }
}

/// Reads the parameter list; see `spec_parse_params`.
pub fn parse_params(tokens: &Vec<Token>, pos: usize) -> (r: Result<
    (Vec<Parameter>, usize),
    ParseError,
>)
    ensures
        match r {
            Ok((ps, end)) => spec_parse_params(tokens_view(tokens@), pos as int) == Ok::<
                _,
                ParseError,
            >((params_view(ps@), end as int)) && pos < end <= tokens@.len(),
            Err(e) => spec_parse_params(tokens_view(tokens@), pos as int) == Err::<
                (Seq<ParameterV>, int),
                _,
            >(e),
        },
    decreases tokens@.len() - pos,
{
    let ghost t = tokens_view(tokens@);
    proof {
        assert forall|j: int| 0 <= j < t.len() implies t[j] == tokens@[j]@ by {}
        assert(t.len() == tokens@.len());
    }
    let n = tokens.len();
    if pos >= n {
        return Err(ParseError::UnexpectedToken);
    }
    if matches!(&tokens[pos], Token::RParen) {
        let ps: Vec<Parameter> = Vec::new();
        proof {
            assert(params_view(ps@) =~= Seq::<ParameterV>::empty());
        }
        return Ok((ps, pos + 1));
    }
    if is_word(tokens, pos, "self") || (matches!(&tokens[pos], Token::Other('&')) && is_word(
        tokens,
        pos + 1,
        "self",
    )) {
        return Err(ParseError::SelfNotSupported);
    }
    let name = match &tokens[pos] {
        Token::Word(w) => w.clone(),
        _ => {
            return Err(ParseError::UnexpectedToken);
        },
    };
    if !(n - pos > 1 && matches!(&tokens[pos + 1], Token::Colon)) {
        return Err(ParseError::SelfNotSupported);
    }
    match parse_param_type(tokens, pos + 2) {
        Err(e) => Err(e),
        Ok((ty, e1)) => {
            let p = Parameter { name, ty };
            if e1 < n && matches!(&tokens[e1], Token::Comma) {
                match parse_params(tokens, e1 + 1) {
                    Err(e) => Err(e),
                    Ok((mut rest, e2)) => {
                        let ghost restv = rest@;
                        rest.insert(0, p);
                        proof {
                            assert(rest@ =~= seq![p] + restv);
                            assert(params_view(rest@) =~= seq![p@] + params_view(restv));
                        }
                        Ok((rest, e2))
                    },
                }
            } else if e1 < n && matches!(&tokens[e1], Token::RParen) {
                let mut ps: Vec<Parameter> = Vec::new();
                ps.push(p);
                proof {
                    assert(params_view(ps@) =~= seq![p@]);
                }
                Ok((ps, e1 + 1))
            } else {
                Err(ParseError::UnexpectedToken)
            }
        },
    }
}

/// Reads the attribute option list: exactly one `namespace = "..."` is
/// required, an optional `disable_logging = true|false` is the only other
/// recognized option, a repeated option or an unrecognized one is a hard
/// failure.
pub open spec fn spec_parse_options(
    t: Seq<TokenV>,
    pos: int,
    ns: Option<Seq<char>>,
    dl: Option<bool>,
) -> Result<OptionsV, ParseError>
    decreases t.len() - pos,
{
    if pos >= t.len() {
        match ns {
            None => Err(ParseError::MissingNamespace),
            Some(n) => Ok(
                OptionsV {
                    namespace: n,
                    disable_logging: match dl {
                        Some(b) => b,
                        None => false,
                    },
                },
            ),
        }
    } else if pos < 0 || !(t[pos] is Word) {
        Err(ParseError::UnknownOption)
    } else if !(pos + 1 < t.len() && t[pos + 1] == TokenV::Eq) {
        Err(ParseError::UnknownOption)
    } else {
        let key = t[pos]->Word_0;
        if key == "namespace"@ {
            if !(pos + 2 < t.len() && t[pos + 2] is LitStr) {
                Err(ParseError::UnknownOption)
            } else if ns is Some {
                Err(ParseError::DuplicateOption)
            } else if pos + 3 < t.len() && t[pos + 3] != TokenV::Comma {
                Err(ParseError::UnexpectedToken)
            } else {
                let next = if pos + 4 <= t.len() {
                    pos + 4
                } else {
                    t.len() as int
                };
                spec_parse_options(t, next, Some(t[pos + 2]->LitStr_0), dl)
            }
        } else if key == "disable_logging"@ {
            let val = if pos + 2 < t.len() && t[pos + 2] == TokenV::Word("true"@) {
                Some(true)
            } else if pos + 2 < t.len() && t[pos + 2] == TokenV::Word("false"@) {
                Some(false)
            } else {
                None
            };
            match val {
                None => Err(ParseError::UnknownOption),
                Some(b) => {
                    if dl is Some {
                        Err(ParseError::DuplicateOption)
                    } else if pos + 3 < t.len() && t[pos + 3] != TokenV::Comma {
                        Err(ParseError::UnexpectedToken)
                    } else {
                        let next = if pos + 4 <= t.len() {
                            pos + 4
                        } else {
                            t.len() as int
                        };
                        spec_parse_options(t, next, ns, Some(b))
                    }
                },
            }
        } else {
            Err(ParseError::UnknownOption)
        }
    }
}

/// The whole option list of a declaration.
pub open spec fn spec_extract_options(t: Seq<TokenV>) -> Result<OptionsV, ParseError> {
    spec_parse_options(t, 0, None, None)
}

fn parse_options_from(
    tokens: &Vec<Token>,
    pos: usize,
    ns: Option<String>,
    dl: Option<bool>,
) -> (r: Result<Options, ParseError>)
    ensures
        match r {
            Ok(o) => spec_parse_options(
                tokens_view(tokens@),
                pos as int,
                match ns {
                    Some(n) => Some(n@),
                    None => None,
                },
                dl,
            ) == Ok::<_, ParseError>(o@),
            Err(e) => spec_parse_options(
                tokens_view(tokens@),
                pos as int,
                match ns {
                    Some(n) => Some(n@),
                    None => None,
                },
                dl,
            ) == Err::<OptionsV, _>(e),
        },
    decreases tokens@.len() - pos,
{
    let ghost t = tokens_view(tokens@);
    proof {
        assert forall|j: int| 0 <= j < t.len() implies t[j] == tokens@[j]@ by {}
        assert(t.len() == tokens@.len());
    }
    let n = tokens.len();
    if pos >= n {
        return match ns {
            None => Err(ParseError::MissingNamespace),
            Some(nsv) => Ok(
                Options {
                    namespace: nsv,
                    disable_logging: match dl {
                        Some(b) => b,
                        None => false,
                    },
                },
            ),
        };
    }
    let key = match &tokens[pos] {
        Token::Word(w) => w.clone(),
        _ => {
            return Err(ParseError::UnknownOption);
        },
    };
    if !(n - pos > 1 && matches!(&tokens[pos + 1], Token::Eq)) {
        return Err(ParseError::UnknownOption);
    }
    if key.eq(&String::from_str("namespace")) {
        let val = if n - pos > 2 {
            match &tokens[pos + 2] {
                Token::LitStr(s) => Some(s.clone()),
                _ => None,
            }
        } else {
            None
        };
        let val = match val {
            Some(v) => v,
            None => {
                return Err(ParseError::UnknownOption);
            },
        };
        if ns.is_some() {
            return Err(ParseError::DuplicateOption);
        }
        if n - pos > 3 && !matches!(&tokens[pos + 3], Token::Comma) {
            return Err(ParseError::UnexpectedToken);
        }
        let next = if n - pos > 4 {
            pos + 4
        } else {
            n
        };
        parse_options_from(tokens, next, Some(val), dl)
    } else if key.eq(&String::from_str("disable_logging")) {
        let val: Option<bool> = if is_word(tokens, pos + 2, "true") {
            Some(true)
        } else if is_word(tokens, pos + 2, "false") {
            Some(false)
        } else {
            None
        };
        let b = match val {
            Some(b) => b,
            None => {
                return Err(ParseError::UnknownOption);
            },
        };
        if dl.is_some() {
            return Err(ParseError::DuplicateOption);
        }
        if n - pos > 3 && !matches!(&tokens[pos + 3], Token::Comma) {
            return Err(ParseError::UnexpectedToken);
        }
        let next = if n - pos > 4 {
            pos + 4
        } else {
            n
        };
        parse_options_from(tokens, next, ns, Some(b))
    } else {
        Err(ParseError::UnknownOption)
    }
}

/// Reads the whole attribute option list of a declaration.
pub fn extract_options(tokens: &Vec<Token>) -> (r: Result<Options, ParseError>)
    ensures
        match r {
            Ok(o) => spec_extract_options(tokens_view(tokens@)) == Ok::<_, ParseError>(o@),
            Err(e) => spec_extract_options(tokens_view(tokens@)) == Err::<OptionsV, _>(e),
        },
{
    parse_options_from(tokens, 0, None, None)
}

/// Scans past a brace-balanced block body, given the number of still-open
/// braces, to the position after the brace that closes the first one.
pub open spec fn spec_skip_block(t: Seq<TokenV>, pos: int, depth: int) -> Result<int, ParseError>
    decreases t.len() - pos,
{
    if depth <= 0 {
        Ok(pos)
    } else if pos < 0 || pos >= t.len() {
        Err(ParseError::UnexpectedToken)
    } else if t[pos] == TokenV::LBrace {
        spec_skip_block(t, pos + 1, depth + 1)
    } else if t[pos] == TokenV::RBrace {
        spec_skip_block(t, pos + 1, depth - 1)
    } else {
        spec_skip_block(t, pos + 1, depth)
    }
}

/// Scans past a brace-balanced block body.
fn skip_block(tokens: &Vec<Token>, pos: usize) -> (r: Result<usize, ParseError>)
    ensures
        match r {
            Ok(c) => spec_skip_block(tokens_view(tokens@), pos as int, 1) == Ok::<_, ParseError>(
                c as int,
            ) && pos <= c <= tokens@.len(),
            Err(e) => spec_skip_block(tokens_view(tokens@), pos as int, 1) == Err::<int, _>(e),
        },
{
    let ghost t = tokens_view(tokens@);
    let n = tokens.len();
    let mut i = pos;
    // one less than the number of still-open braces
    let mut extra: usize = 0;
    proof {
        assert(t.len() == tokens@.len());
    }
    while i < n
        invariant
            t == tokens_view(tokens@),
            t.len() == tokens@.len(),
            n == tokens@.len(),
            pos <= i,
            extra <= i - pos,
            spec_skip_block(t, pos as int, 1) == spec_skip_block(t, i as int, extra as int + 1),
        decreases n - i,
    {
        proof {
            assert(t[i as int] == tokens@[i as int]@);
        }
        match &tokens[i] {
            Token::LBrace => {
                extra = extra + 1;
                i = i + 1;
            },
            Token::RBrace => {
                if extra == 0 {
                    proof {
                        assert(spec_skip_block(t, i as int, 1) == spec_skip_block(
                            t,
                            i as int + 1,
                            0,
                        ));
                        assert(spec_skip_block(t, i as int + 1, 0) == Ok::<int, ParseError>(
                            i as int + 1,
                        ));
                    }
                    return Ok(i + 1);
                }
                extra = extra - 1;
                i = i + 1;
            },
            _ => {
                i = i + 1;
            },
        }
    }
    Err(ParseError::UnexpectedToken)
}

/// Reads one whole declaration: either a module-scoped static binding of
/// an externally supplied lazy receiver pair, which carries no
/// parameters, or an asynchronous free function whose return-type shape
/// picks between single completion and produced stream. The declared
/// parameter order is kept.
pub open spec fn spec_parse_declaration(t: Seq<TokenV>) -> Result<DeclarationV, ParseError> {
    if !spec_is_word(t, 0, "pub"@) {
        Err(ParseError::UnexpectedToken)
    } else if spec_is_word(t, 1, "static"@) {
        if !(2 < t.len() && t[2] is Word) {
            Err(ParseError::UnexpectedToken)
        } else if !(3 < t.len() && t[3] == TokenV::Colon) {
            Err(ParseError::UnexpectedToken)
        } else {
            match spec_parse_channel_return_type(t, 4) {
                Err(e) => Err(e),
                Ok((style, out, err, p)) => {
                    if !(p < t.len() && t[p] == TokenV::Gt) {
                        Err(ParseError::UnexpectedToken)
                    } else if !(p + 1 < t.len() && t[p + 1] == TokenV::Eq) {
                        Err(ParseError::UnexpectedToken)
                    } else if !(t.len() >= p + 4 && t[t.len() - 1] == TokenV::Semi) {
                        Err(ParseError::UnexpectedToken)
                    } else {
                        Ok(
                            DeclarationV {
                                name: t[2]->Word_0,
                                inputs: Seq::empty(),
                                style,
                                output: out,
                                error: err,
                            },
                        )
                    }
                },
            }
        }
    } else {
        let q: int = if spec_is_word(t, 1, "async"@) {
            2
        } else {
            1
        };
        if !spec_is_word(t, q, "fn"@) {
            Err(ParseError::UnexpectedToken)
        } else if !(q + 1 < t.len() && t[q + 1] is Word) {
            Err(ParseError::UnexpectedToken)
        } else if !(q + 2 < t.len() && t[q + 2] == TokenV::LParen) {
            Err(ParseError::UnexpectedToken)
        } else {
            match spec_parse_params(t, q + 3) {
                Err(e) => Err(e),
                Ok((ps, e1)) => {
                    if !(e1 < t.len() && t[e1] == TokenV::Arrow) {
                        Err(ParseError::UnexpectedToken)
                    } else {
                        let ret = if spec_is_word(t, e1 + 1, "impl"@) {
                            spec_parse_stream_return_type(t, e1 + 1)
                        } else {
                            spec_parse_return_type(t, e1 + 1)
                        };
                        match ret {
                            Err(e) => Err(e),
                            Ok((style, out, err, e2)) => {
                                if !(e2 < t.len() && t[e2] == TokenV::LBrace) {
                                    Err(ParseError::UnexpectedToken)
                                } else {
                                    match spec_skip_block(t, e2 + 1, 1) {
                                        Err(e) => Err(e),
                                        Ok(e3) => {
                                            if e3 == t.len() {
                                                Ok(
                                                    DeclarationV {
                                                        name: t[q + 1]->Word_0,
                                                        inputs: ps,
                                                        style,
                                                        output: out,
                                                        error: err,
                                                    },
                                                )
                                            } else {
                                                Err(ParseError::UnexpectedToken)
                                            }
                                        },
                                    }
                                }
                            },
                        }
                    }
                },
            }
        }
    }
}

/// Reads one whole declaration; see `spec_parse_declaration`.
#[verifier::rlimit(80)]
pub fn parse_declaration(tokens: &Vec<Token>) -> (r: Result<Declaration, ParseError>)
    ensures
        match r {
            Ok(d) => spec_parse_declaration(tokens_view(tokens@)) == Ok::<_, ParseError>(d@),
            Err(e) => spec_parse_declaration(tokens_view(tokens@)) == Err::<DeclarationV, _>(e),
        },
{
    let ghost t = tokens_view(tokens@);
    proof {
        assert forall|j: int| 0 <= j < t.len() implies t[j] == tokens@[j]@ by {}
        assert(t.len() == tokens@.len());
    }
    let n = tokens.len();
    if !is_word(tokens, 0, "pub") {
        return Err(ParseError::UnexpectedToken);
    }
    if is_word(tokens, 1, "static") {
        if !(n > 2 && matches!(&tokens[2], Token::Word(_))) {
            return Err(ParseError::UnexpectedToken);
        }
        let name = match &tokens[2] {
            Token::Word(w) => w.clone(),
            _ => {
                return Err(ParseError::UnexpectedToken);
            },
        };
        if !(n > 3 && matches!(&tokens[3], Token::Colon)) {
            return Err(ParseError::UnexpectedToken);
        }
        match parse_channel_return_type(tokens, 4) {
            Err(e) => Err(e),
            Ok((style, out, err, p)) => {
                if !(p < n && matches!(&tokens[p], Token::Gt)) {
                    return Err(ParseError::UnexpectedToken);
                }
                if !(n - p > 1 && matches!(&tokens[p + 1], Token::Eq)) {
                    return Err(ParseError::UnexpectedToken);
                }
                if !(n >= 4 && n - p >= 4 && matches!(&tokens[n - 1], Token::Semi)) {
                    return Err(ParseError::UnexpectedToken);
                }
                let inputs: Vec<Parameter> = Vec::new();
                proof {
                    assert(params_view(inputs@) =~= Seq::<ParameterV>::empty());
                }
                Ok(Declaration { name, inputs, style, output: out, error: err })
            },
        }
    } else {
        let q: usize = if is_word(tokens, 1, "async") {
            2
        } else {
            1
        };
        if !is_word(tokens, q, "fn") {
            return Err(ParseError::UnexpectedToken);
        }
        if !(n - q > 1 && matches!(&tokens[q + 1], Token::Word(_))) {
            return Err(ParseError::UnexpectedToken);
        }
        let name = match &tokens[q + 1] {
            Token::Word(w) => w.clone(),
            _ => {
                return Err(ParseError::UnexpectedToken);
            },
        };
        if !(n - q > 2 && matches!(&tokens[q + 2], Token::LParen)) {
            return Err(ParseError::UnexpectedToken);
        }
        match parse_params(tokens, q + 3) {
            Err(e) => Err(e),
            Ok((ps, e1)) => {
                if !(e1 < n && matches!(&tokens[e1], Token::Arrow)) {
                    return Err(ParseError::UnexpectedToken);
                }
                let ret = if is_word(tokens, e1 + 1, "impl") {
                    parse_stream_return_type(tokens, e1 + 1)
                } else {
                    parse_return_type(tokens, e1 + 1)
                };
                match ret {
                    Err(e) => Err(e),
                    Ok((style, out, err, e2)) => {
                        if !(e2 < n && matches!(&tokens[e2], Token::LBrace)) {
                            return Err(ParseError::UnexpectedToken);
                        }
                        match skip_block(tokens, e2 + 1) {
                            Err(e) => Err(e),
                            Ok(e3) => {
                                if e3 == n {
                                    Ok(
                                        Declaration {
                                            name,
                                            inputs: ps,
                                            style,
                                            output: out,
                                            error: err,
                                        },
                                    )
                                } else {
                                    Err(ParseError::UnexpectedToken)
                                }
                            },
                        }
                    },
                }
            },
        }
    }
}

/// Scans past one balanced delimiter group, given the opening and closing
/// token and the number of still-open groups, to the position after the
/// token that closes the first one.
pub open spec fn spec_skip_group(
    t: Seq<TokenV>,
    pos: int,
    depth: int,
    open: TokenV,
    close: TokenV,
) -> Result<int, ParseError>
    decreases t.len() - pos,
{
    if depth <= 0 {
        Ok(pos)
    } else if pos < 0 || pos >= t.len() {
        Err(ParseError::UnexpectedToken)
    } else if t[pos] == open {
        spec_skip_group(t, pos + 1, depth + 1, open, close)
    } else if t[pos] == close {
        spec_skip_group(t, pos + 1, depth - 1, open, close)
    } else {
        spec_skip_group(t, pos + 1, depth, open, close)
    }
}

/// A skipped group ends past its start and within the tokens.
pub proof fn lemma_skip_group_bounds(t: Seq<TokenV>, pos: int, depth: int, open: TokenV,
    close: TokenV)
    ensures
        depth >= 1 ==> (spec_skip_group(t, pos, depth, open, close) matches Ok(p) ==> pos < p
            <= t.len()),
    decreases t.len() - pos,
{
    if depth >= 1 && 0 <= pos < t.len() {
        if t[pos] == open {
            lemma_skip_group_bounds(t, pos + 1, depth + 1, open, close);
        } else if t[pos] == close {
            if depth > 1 {
                lemma_skip_group_bounds(t, pos + 1, depth - 1, open, close);
            }
        } else {
            lemma_skip_group_bounds(t, pos + 1, depth, open, close);
        }
    }
}

/// Scans past one balanced bracket group.
fn skip_group_brackets(tokens: &Vec<Token>, pos: usize) -> (r: Result<usize, ParseError>)
    ensures
        match r {
            Ok(c) => spec_skip_group(
                tokens_view(tokens@),
                pos as int,
                1,
                TokenV::LBracket,
                TokenV::RBracket,
            ) == Ok::<_, ParseError>(c as int) && pos < c <= tokens@.len(),
            Err(e) => spec_skip_group(
                tokens_view(tokens@),
                pos as int,
                1,
                TokenV::LBracket,
                TokenV::RBracket,
            ) == Err::<int, _>(e),
        },
{
    let ghost t = tokens_view(tokens@);
    let n = tokens.len();
    let mut i = pos;
    // one less than the number of still-open brackets
    let mut extra: usize = 0;
    proof {
        assert(t.len() == tokens@.len());
    }
    while i < n
        invariant
            t == tokens_view(tokens@),
            t.len() == tokens@.len(),
            n == tokens@.len(),
            pos <= i,
            extra <= i - pos,
            spec_skip_group(t, pos as int, 1, TokenV::LBracket, TokenV::RBracket)
                == spec_skip_group(t, i as int, extra as int + 1, TokenV::LBracket,
            TokenV::RBracket),
        decreases n - i,
    {
        proof {
            assert(t[i as int] == tokens@[i as int]@);
        }
        match &tokens[i] {
            Token::LBracket => {
                extra = extra + 1;
                i = i + 1;
            },
            Token::RBracket => {
                if extra == 0 {
                    proof {
                        assert(spec_skip_group(t, i as int, 1, TokenV::LBracket, TokenV::RBracket)
                            == spec_skip_group(t, i as int + 1, 0, TokenV::LBracket,
                        TokenV::RBracket));
                        assert(spec_skip_group(t, i as int + 1, 0, TokenV::LBracket,
                        TokenV::RBracket) == Ok::<int, ParseError>(i as int + 1));
                    }
                    return Ok(i + 1);
                }
                extra = extra - 1;
                i = i + 1;
            },
            _ => {
                i = i + 1;
            },
        }
    }
    Err(ParseError::UnexpectedToken)
}

/// Scans past one balanced parenthesis group.
fn skip_group_parens(tokens: &Vec<Token>, pos: usize) -> (r: Result<usize, ParseError>)
    ensures
        match r {
            Ok(c) => spec_skip_group(
                tokens_view(tokens@),
                pos as int,
                1,
                TokenV::LParen,
                TokenV::RParen,
            ) == Ok::<_, ParseError>(c as int) && pos < c <= tokens@.len(),
            Err(e) => spec_skip_group(
                tokens_view(tokens@),
                pos as int,
                1,
                TokenV::LParen,
                TokenV::RParen,
            ) == Err::<int, _>(e),
        },
{
    let ghost t = tokens_view(tokens@);
    let n = tokens.len();
    let mut i = pos;
    // one less than the number of still-open parentheses
    let mut extra: usize = 0;
    proof {
        assert(t.len() == tokens@.len());
    }
    while i < n
        invariant
            t == tokens_view(tokens@),
            t.len() == tokens@.len(),
            n == tokens@.len(),
            pos <= i,
            extra <= i - pos,
            spec_skip_group(t, pos as int, 1, TokenV::LParen, TokenV::RParen) == spec_skip_group(
                t,
                i as int,
                extra as int + 1,
                TokenV::LParen,
                TokenV::RParen,
            ),
        decreases n - i,
    {
        proof {
            assert(t[i as int] == tokens@[i as int]@);
        }
        match &tokens[i] {
            Token::LParen => {
                extra = extra + 1;
                i = i + 1;
            },
            Token::RParen => {
                if extra == 0 {
                    proof {
                        assert(spec_skip_group(t, i as int, 1, TokenV::LParen, TokenV::RParen)
                            == spec_skip_group(t, i as int + 1, 0, TokenV::LParen,
                        TokenV::RParen));
                        assert(spec_skip_group(t, i as int + 1, 0, TokenV::LParen, TokenV::RParen)
                            == Ok::<int, ParseError>(i as int + 1));
                    }
                    return Ok(i + 1);
                }
                extra = extra - 1;
                i = i + 1;
            },
            _ => {
                i = i + 1;
            },
        }
    }
    Err(ParseError::UnexpectedToken)
}

/// Scans past one balanced brace group.
fn skip_group_braces(tokens: &Vec<Token>, pos: usize) -> (r: Result<usize, ParseError>)
    ensures
        match r {
            Ok(c) => spec_skip_group(
                tokens_view(tokens@),
                pos as int,
                1,
                TokenV::LBrace,
                TokenV::RBrace,
            ) == Ok::<_, ParseError>(c as int) && pos < c <= tokens@.len(),
            Err(e) => spec_skip_group(
                tokens_view(tokens@),
                pos as int,
                1,
                TokenV::LBrace,
                TokenV::RBrace,
            ) == Err::<int, _>(e),
        },
{
    let ghost t = tokens_view(tokens@);
    let n = tokens.len();
    let mut i = pos;
    // one less than the number of still-open braces
    let mut extra: usize = 0;
    proof {
        assert(t.len() == tokens@.len());
    }
    while i < n
        invariant
            t == tokens_view(tokens@),
            t.len() == tokens@.len(),
            n == tokens@.len(),
            pos <= i,
            extra <= i - pos,
            spec_skip_group(t, pos as int, 1, TokenV::LBrace, TokenV::RBrace) == spec_skip_group(
                t,
                i as int,
                extra as int + 1,
                TokenV::LBrace,
                TokenV::RBrace,
            ),
        decreases n - i,
    {
        proof {
            assert(t[i as int] == tokens@[i as int]@);
        }
        match &tokens[i] {
            Token::LBrace => {
                extra = extra + 1;
                i = i + 1;
            },
            Token::RBrace => {
                if extra == 0 {
                    proof {
                        assert(spec_skip_group(t, i as int, 1, TokenV::LBrace, TokenV::RBrace)
                            == spec_skip_group(t, i as int + 1, 0, TokenV::LBrace,
                        TokenV::RBrace));
                        assert(spec_skip_group(t, i as int + 1, 0, TokenV::LBrace, TokenV::RBrace)
                            == Ok::<int, ParseError>(i as int + 1));
                    }
                    return Ok(i + 1);
                }
                extra = extra - 1;
                i = i + 1;
            },
            _ => {
                i = i + 1;
            },
        }
    }
    Err(ParseError::UnexpectedToken)
}

#[via_fn]
proof fn spec_skip_attrs_decreases(t: Seq<TokenV>, pos: int) {
    lemma_skip_group_bounds(t, pos + 2, 1, TokenV::LBracket, TokenV::RBracket);
}

/// Scans past the outer attributes in front of an item: zero or more
/// `#[...]` groups, which the declaration surface carries but the
/// reflection pass discards.
pub open spec fn spec_skip_attrs(t: Seq<TokenV>, pos: int) -> Result<int, ParseError>
    decreases t.len() - pos,
    via spec_skip_attrs_decreases
{
    if 0 <= pos && pos + 1 < t.len() && t[pos] == TokenV::Pound && t[pos + 1]
        == TokenV::LBracket {
        match spec_skip_group(t, pos + 2, 1, TokenV::LBracket, TokenV::RBracket) {
            Err(e) => Err(e),
            Ok(p) => spec_skip_attrs(t, p),
        }
    } else {
        Ok(pos)
    }
}

/// Scans past the outer attributes in front of an item.
fn skip_attrs(tokens: &Vec<Token>, pos: usize) -> (r: Result<usize, ParseError>)
    ensures
        match r {
            Ok(c) => spec_skip_attrs(tokens_view(tokens@), pos as int) == Ok::<_, ParseError>(
                c as int,
            ) && pos <= c && (pos as int <= tokens@.len() ==> c <= tokens@.len()),
            Err(e) => spec_skip_attrs(tokens_view(tokens@), pos as int) == Err::<int, _>(e),
        },
{
    let ghost t = tokens_view(tokens@);
    let n = tokens.len();
    proof {
        assert(t.len() == tokens@.len());
    }
    if pos >= n {
        return Ok(pos);
    }
    let mut i = pos;
    loop
        invariant
            t == tokens_view(tokens@),
            t.len() == tokens@.len(),
            n == tokens@.len(),
            pos <= i <= n,
            spec_skip_attrs(t, pos as int) == spec_skip_attrs(t, i as int),
        decreases n - i,
    {
        proof {
            assert(i < n ==> t[i as int] == tokens@[i as int]@);
            assert(i + 1 < n ==> t[i as int + 1] == tokens@[i as int + 1]@);
        }
        let is_attr = n - i > 1 && matches!(&tokens[i], Token::Pound) && matches!(
            &tokens[i + 1],
            Token::LBracket,
        );
        if !is_attr {
            return Ok(i);
        }
        match skip_group_brackets(tokens, i + 2) {
            Err(e) => {
                return Err(e);
            },
            Ok(p) => {
                i = p;
            },
        }
    }
}

#[via_fn]
proof fn spec_parse_variants_decreases(t: Seq<TokenV>, pos: int) {
    lemma_skip_group_bounds(t, pos + 2, 1, TokenV::LParen, TokenV::RParen);
    lemma_skip_group_bounds(t, pos + 2, 1, TokenV::LBrace, TokenV::RBrace);
}

/// Reads the variant list of an enumeration, after its opening brace and
/// including the closing one: the variant names in declaration order.
/// Associated data after a name — a parenthesized or braced payload — is
/// part of the variant and skipped; only the names and their order enter
/// the schema, because variant identity on the wire is index-based.
pub open spec fn spec_parse_variants(t: Seq<TokenV>, pos: int) -> Result<
    (Seq<Seq<char>>, int),
    ParseError,
>
    decreases t.len() - pos,
    via spec_parse_variants_decreases
{
    if pos < 0 || pos >= t.len() {
        Err(ParseError::UnexpectedToken)
    } else if t[pos] == TokenV::RBrace {
        Ok((Seq::empty(), pos + 1))
    } else if !(t[pos] is Word) {
        Err(ParseError::UnexpectedToken)
    } else {
        let v = t[pos]->Word_0;
        let after = if pos + 1 < t.len() && t[pos + 1] == TokenV::LParen {
            spec_skip_group(t, pos + 2, 1, TokenV::LParen, TokenV::RParen)
        } else if pos + 1 < t.len() && t[pos + 1] == TokenV::LBrace {
            spec_skip_group(t, pos + 2, 1, TokenV::LBrace, TokenV::RBrace)
        } else {
            Ok(pos + 1)
        };
        match after {
            Err(e) => Err(e),
            Ok(p) => {
                if p < t.len() && t[p] == TokenV::Comma {
                    match spec_parse_variants(t, p + 1) {
                        Err(e) => Err(e),
                        Ok((rest, end)) => Ok((seq![v] + rest, end)),
                    }
                } else if p < t.len() && t[p] == TokenV::RBrace {
                    Ok((seq![v], p + 1))
                } else {
                    Err(ParseError::UnexpectedToken)
                }
            },
        }
    }
}

/// Reads one whole enumeration item into the structural schema the
/// reflection pass records: its name and its variant names in declaration
/// order. Outer attributes in front of the item are read and discarded.
pub open spec fn spec_parse_enum_item(t: Seq<TokenV>) -> Result<TypeSchemaV, ParseError> {
    match spec_skip_attrs(t, 0) {
        Err(e) => Err(e),
        Ok(a) => {
            let q: int = if spec_is_word(t, a, "pub"@) {
                a + 1
            } else {
                a
            };
            if !spec_is_word(t, q, "enum"@) {
                Err(ParseError::UnexpectedToken)
            } else if !(q + 1 < t.len() && t[q + 1] is Word) {
                Err(ParseError::UnexpectedToken)
            } else if !(q + 2 < t.len() && t[q + 2] == TokenV::LBrace) {
                Err(ParseError::UnexpectedToken)
            } else {
                match spec_parse_variants(t, q + 3) {
                    Err(e) => Err(e),
                    Ok((vs, end)) => {
                        if end == t.len() {
                            Ok(
                                TypeSchemaV {
                                    name: t[q + 1]->Word_0,
                                    kind: SchemaKindV::Enumeration(vs),
                                },
                            )
                        } else {
                            Err(ParseError::UnexpectedToken)
                        }
                    },
                }
            }
        },
    }
}

fn parse_variants(tokens: &Vec<Token>, pos: usize) -> (r: Result<(Vec<String>, usize), ParseError>)
    ensures
        match r {
            Ok((vs, end)) => spec_parse_variants(tokens_view(tokens@), pos as int) == Ok::<
                _,
                ParseError,
            >((strings_view(vs@), end as int)) && pos < end <= tokens@.len(),
            Err(e) => spec_parse_variants(tokens_view(tokens@), pos as int) == Err::<
                (Seq<Seq<char>>, int),
                _,
            >(e),
        },
    decreases tokens@.len() - pos,
{
    let ghost t = tokens_view(tokens@);
    proof {
        assert forall|j: int| 0 <= j < t.len() implies t[j] == tokens@[j]@ by {}
        assert(t.len() == tokens@.len());
    }
    let n = tokens.len();
    if pos >= n {
        return Err(ParseError::UnexpectedToken);
    }
    if matches!(&tokens[pos], Token::RBrace) {
        let vs: Vec<String> = Vec::new();
        proof {
            assert(strings_view(vs@) =~= Seq::<Seq<char>>::empty());
        }
        return Ok((vs, pos + 1));
    }
    let v = match &tokens[pos] {
        Token::Word(w) => w.clone(),
        _ => {
            return Err(ParseError::UnexpectedToken);
        },
    };
    let after: Result<usize, ParseError> = if n - pos > 1 && matches!(
        &tokens[pos + 1],
        Token::LParen,
    ) {
        skip_group_parens(tokens, pos + 2)
    } else if n - pos > 1 && matches!(&tokens[pos + 1], Token::LBrace) {
        skip_group_braces(tokens, pos + 2)
    } else {
        Ok(pos + 1)
    };
    let p = match after {
        Ok(p) => p,
        Err(e) => {
            return Err(e);
        },
    };
    if p < n && matches!(&tokens[p], Token::Comma) {
        match parse_variants(tokens, p + 1) {
            Err(e) => Err(e),
            Ok((mut rest, end)) => {
                let ghost restv = rest@;
                rest.insert(0, v);
                proof {
                    assert(rest@ =~= seq![v] + restv);
                    assert(strings_view(rest@) =~= seq![v@] + strings_view(restv));
                }
                Ok((rest, end))
            },
        }
    } else if p < n && matches!(&tokens[p], Token::RBrace) {
        let mut vs: Vec<String> = Vec::new();
        vs.push(v);
        proof {
            assert(strings_view(vs@) =~= seq![vs@[0]@]);
        }
        Ok((vs, p + 1))
    } else {
        Err(ParseError::UnexpectedToken)
    }
}

/// Reads one whole enumeration item; see `spec_parse_enum_item`.
pub fn parse_enum_item(tokens: &Vec<Token>) -> (r: Result<TypeSchema, ParseError>)
    ensures
        match r {
            Ok(s) => spec_parse_enum_item(tokens_view(tokens@)) == Ok::<_, ParseError>(s@),
            Err(e) => spec_parse_enum_item(tokens_view(tokens@)) == Err::<TypeSchemaV, _>(e),
        },
{
    let ghost t = tokens_view(tokens@);
    proof {
        assert forall|j: int| 0 <= j < t.len() implies t[j] == tokens@[j]@ by {}
        assert(t.len() == tokens@.len());
    }
    let n = tokens.len();
    let a = match skip_attrs(tokens, 0) {
        Ok(a) => a,
        Err(e) => {
            return Err(e);
        },
    };
    let q: usize = if is_word(tokens, a, "pub") {
        a + 1
    } else {
        a
    };
    if !is_word(tokens, q, "enum") {
        return Err(ParseError::UnexpectedToken);
    }
    if !(n - q > 1 && matches!(&tokens[q + 1], Token::Word(_))) {
        return Err(ParseError::UnexpectedToken);
    }
    let name = match &tokens[q + 1] {
        Token::Word(w) => w.clone(),
        _ => {
            return Err(ParseError::UnexpectedToken);
        },
    };
    if !(n - q > 2 && matches!(&tokens[q + 2], Token::LBrace)) {
        return Err(ParseError::UnexpectedToken);
    }
    match parse_variants(tokens, q + 3) {
        Err(e) => Err(e),
        Ok((vs, end)) => {
            if end == n {
                Ok(TypeSchema { name, kind: SchemaKind::Enumeration(vs) })
            } else {
                Err(ParseError::UnexpectedToken)
            }
        },
    }
}

} // verus!
