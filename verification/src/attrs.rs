//! The arguments of the `#[cog_config(..)]` and route attributes, the
//! registration data they produce, `#[gearbox_app]`'s check, and how the
//! framework's crates are named in generated code.

use vstd::prelude::*;
use crate::cog::{arc_inner, extract_arc_inner};
use crate::syntax::{ErrorSite, MacroError, TypeInfo, ident_value, lit_str_value, parse_ident, parse_lit_str, str_eq};
use crate::text::{all_ascii, ascii_lower, lower_of, str_to_lower};

verus! {

/// A token of a macro's argument list.
pub enum ArgToken {
    /// A literal, as written.
    Literal(String),
    /// An identifier or keyword.
    Ident(String),
    /// A punctuation character.
    Punct(char),
    /// A delimited group, as written.
    Group(String),
}

pub open spec fn msg_expected_lit() -> Seq<char> { "expected string literal"@ }
pub open spec fn msg_expected_ident() -> Seq<char> { "expected identifier"@ }
pub open spec fn msg_end_of_input() -> Seq<char> { "unexpected end of input, "@ }

/// What `syn` says when the string literal it expects at `i` is missing.
pub open spec fn lit_missing(ts: Seq<ArgToken>, i: int) -> Seq<char> {
    if i >= ts.len() { msg_end_of_input() + msg_expected_lit() } else { msg_expected_lit() }
}

/// What `syn` says when the identifier it expects at `i` is missing: at
/// the end, or at a token that is no identifier, or at a keyword.
pub open spec fn ident_missing(ts: Seq<ArgToken>, i: int) -> Seq<char> {
    if i >= ts.len() {
        msg_end_of_input() + msg_expected_ident()
    } else {
        match ts[i] {
            ArgToken::Ident(k) => msg_expected_ident() + ", found keyword `"@ + k@ + "`"@,
            _ => msg_expected_ident(),
        }
    }
}

/// Whether the token at `i` is an identifier `syn` accepts as one (not a keyword).
pub open spec fn ident_at(ts: Seq<ArgToken>, i: int) -> bool {
    &&& 0 <= i < ts.len()
    &&& ts[i] matches ArgToken::Ident(n) && ident_value(n@) is Some
}
pub open spec fn msg_expected_validate() -> Seq<char> { "expected `validate`"@ }
pub open spec fn msg_expected_eq() -> Seq<char> { "expected `=`"@ }
pub open spec fn msg_unexpected() -> Seq<char> { "unexpected token"@ }

/// The value of the string literal token at `i`, when there is one.
pub open spec fn lit_at(ts: Seq<ArgToken>, i: int) -> Option<Seq<char>> {
    if 0 <= i < ts.len() {
        match ts[i] {
            ArgToken::Literal(l) => lit_str_value(l@),
            _ => None,
        }
    } else {
        None
    }
}

/// The value of the string literal token at `i`, when there is one.
pub fn lit_token_at(ts: &Vec<ArgToken>, i: usize) -> (r: Option<String>)
    ensures
        opt_eq(r, lit_at(ts@, i as int)),
{
    lit_token(ts, i)
}

fn lit_token(ts: &Vec<ArgToken>, i: usize) -> (r: Option<String>)
    ensures
        opt_eq(r, lit_at(ts@, i as int)),
{
    if i < ts.len() {
        match &ts[i] {
            ArgToken::Literal(l) => parse_lit_str(l.as_str()),
            _ => None,
        }
    } else {
        None
    }
}

/// Whether an optional string has the optional view `o`.
pub open spec fn opt_eq(r: Option<String>, o: Option<Seq<char>>) -> bool {
    match o {
        Some(v) => r matches Some(s) && s@ == v,
        None => r is None,
    }
}

fn err(site: ErrorSite, m: &str) -> (r: MacroError)
    ensures
        r.site == site && r.message@ == m@,
{
    MacroError { site, message: String::from_str(m) }
}

/// Parsed `#[cog_config("key")]` or `#[cog_config("key", validate = "fn")]`.
pub struct CogConfigArgs {
    pub key: String,
    pub validate_fn: Option<String>,
}

/// What `#[cog_config(..)]`'s arguments parse to: the key; then, after a
/// comma, `validate = "name"`; nothing may follow.
pub open spec fn config_args_outcome(r: Result<CogConfigArgs, MacroError>, ts: Seq<ArgToken>) -> bool {
    match lit_at(ts, 0) {
        None => r matches Err(e) && e.site == ErrorSite::Args && e.message@ == lit_missing(ts, 0),
        Some(key) => if ts.len() == 1 {
            r matches Ok(a) && a.key@ == key && a.validate_fn is None
        } else if ts[1] != ArgToken::Punct(',') {
            r matches Err(e) && e.site == ErrorSite::Args && e.message@ == msg_unexpected()
        } else if !ident_at(ts, 2) {
            r matches Err(e) && e.site == ErrorSite::Args && e.message@ == ident_missing(ts, 2)
        } else if ts[2]->Ident_0@ != "validate"@ {
            r matches Err(e) && e.site == ErrorSite::Args && e.message@ == msg_expected_validate()
        } else if !(ts.len() > 3 && ts[3] == ArgToken::Punct('=')) {
            r matches Err(e) && e.site == ErrorSite::Args && e.message@ == msg_expected_eq()
        } else {
            match lit_at(ts, 4) {
                None => r matches Err(e) && e.site == ErrorSite::Args && e.message@ == lit_missing(ts, 4),
                Some(f) => if ts.len() == 5 {
                    r matches Ok(a) && a.key@ == key && (a.validate_fn matches Some(v) && v@ == f)
                } else {
                    r matches Err(e) && e.site == ErrorSite::Args && e.message@ == msg_unexpected()
                },
            }
        },
    }
}

fn lit_missing_msg(ts: &Vec<ArgToken>, i: usize) -> (r: MacroError)
    ensures
        r.site == ErrorSite::Args,
        r.message@ == lit_missing(ts@, i as int),
{
    if i >= ts.len() {
        let mut m = String::from_str("unexpected end of input, ");
        m.append("expected string literal");
        MacroError { site: ErrorSite::Args, message: m }
    } else {
        err(ErrorSite::Args, "expected string literal")
    }
}

fn ident_missing_msg(ts: &Vec<ArgToken>, i: usize) -> (r: MacroError)
    ensures
        r.site == ErrorSite::Args,
        r.message@ == ident_missing(ts@, i as int),
{
    if i >= ts.len() {
        let mut m = String::from_str("unexpected end of input, ");
        m.append("expected identifier");
        MacroError { site: ErrorSite::Args, message: m }
    } else {
        match &ts[i] {
            ArgToken::Ident(k) => {
                let mut m = String::from_str("expected identifier");
                m.append(", found keyword `");
                m.append(k.as_str());
                m.append("`");
                MacroError { site: ErrorSite::Args, message: m }
            }
            _ => err(ErrorSite::Args, "expected identifier"),
        }
    }
}

fn is_punct(t: &ArgToken, c: char) -> (r: bool)
    ensures
        r == (*t == ArgToken::Punct(c)),
{
    match t {
        ArgToken::Punct(d) => *d == c,
        _ => false,
    }
}

impl CogConfigArgs {
    /// Parses the arguments of `#[cog_config(..)]`.
    pub fn parse(ts: &Vec<ArgToken>) -> (r: Result<CogConfigArgs, MacroError>)
        ensures
            config_args_outcome(r, ts@),
    {
        let key = match lit_token(ts, 0) {
            Some(k) => k,
            None => return Err(lit_missing_msg(ts, 0)),
        };
        if ts.len() == 1 {
            return Ok(CogConfigArgs { key, validate_fn: None });
        }
        if !is_punct(&ts[1], ',') {
            return Err(err(ErrorSite::Args, "unexpected token"));
        }
        if ts.len() <= 2 {
            return Err(ident_missing_msg(ts, 2));
        }
        match &ts[2] {
            ArgToken::Ident(i) => {
                if parse_ident(i.as_str()).is_none() {
                    return Err(ident_missing_msg(ts, 2));
                }
                if !str_eq(i.as_str(), "validate") {
                    return Err(err(ErrorSite::Args, "expected `validate`"));
                }
            }
            _ => return Err(ident_missing_msg(ts, 2)),
        }
        if ts.len() <= 3 || !is_punct(&ts[3], '=') {
            return Err(err(ErrorSite::Args, "expected `=`"));
        }
        let f = match lit_token(ts, 4) {
            Some(f) => f,
            None => return Err(lit_missing_msg(ts, 4)),
        };
        if ts.len() != 5 {
            return Err(err(ErrorSite::Args, "unexpected token"));
        }
        Ok(CogConfigArgs { key, validate_fn: Some(f) })
    }
}

/// What `#[cog_config(..)]` emits: `CogConfig` with `CONFIG_KEY` (and
/// `validate` when named), a type-id getter, and the registration.
pub struct CogConfigPlan {
    pub struct_name: String,
    pub key: String,
    pub validate_fn: Option<String>,
    pub type_id_fn: String,
}

/// `#[cog_config(..)]` on the struct named `struct_name`.
pub fn generate_cog_config(attr: &Vec<ArgToken>, struct_name: &str) -> (r: Result<CogConfigPlan, MacroError>)
    ensures
        r matches Err(e) ==> config_args_outcome(Err(e), attr@),
        r matches Ok(p) ==> {
            &&& (exists|a: CogConfigArgs| #[trigger] config_args_outcome(Ok(a), attr@)
                && a.key@ == p.key@ && a.validate_fn == p.validate_fn)
            &&& p.struct_name@ == struct_name@
            &&& p.type_id_fn@ == "__config_type_id_"@ + lower_of(struct_name@)
            &&& all_ascii(struct_name@) ==> p.type_id_fn@
                == "__config_type_id_"@ + Seq::new(struct_name@.len(), |i: int| ascii_lower(struct_name@[i]))
        },
        (r is Ok) <==> (exists|a: CogConfigArgs| #[trigger] config_args_outcome(Ok(a), attr@)),
{
    let args = match CogConfigArgs::parse(attr) {
        Ok(a) => a,
        Err(e) => return Err(e),
    };
    let mut type_id_fn = String::from_str("__config_type_id_");
    type_id_fn.append(str_to_lower(struct_name).as_str());
    Ok(CogConfigPlan {
        struct_name: String::from_str(struct_name),
        key: args.key,
        validate_fn: args.validate_fn,
        type_id_fn,
    })
}

/// The string literal an attribute's argument list consists of (the
/// route path of `#[get("..")]` and the like).
pub open spec fn single_lit(ts: Seq<ArgToken>) -> Option<Seq<char>> {
    if ts.len() == 1 { lit_at(ts, 0) } else { None }
}

/// What `syn` says of an argument list that is not one string literal:
/// the literal is missing, or tokens follow it.
pub open spec fn single_lit_error(ts: Seq<ArgToken>) -> Seq<char> {
    if lit_at(ts, 0) is None { lit_missing(ts, 0) } else { msg_unexpected() }
}

/// Parses an argument list that is one string literal.
pub fn parse_single_lit(ts: &Vec<ArgToken>) -> (r: Result<String, MacroError>)
    ensures
        match single_lit(ts@) {
            Some(v) => r matches Ok(s) && s@ == v,
            None => r matches Err(e) && e.site == ErrorSite::Args && e.message@ == single_lit_error(ts@),
        },
{
    let v = match lit_token(ts, 0) {
        Some(v) => v,
        None => return Err(lit_missing_msg(ts, 0)),
    };
    if ts.len() != 1 {
        return Err(err(ErrorSite::Args, "unexpected token"));
    }
    Ok(v)
}

/// A parameter of a route handler: `self`, or a pattern with its type
/// (`binding` is the identifier when the pattern is one).
pub enum FnParam {
    Receiver,
    Typed { binding: Option<String>, ty: TypeInfo },
}

/// A route handler function: its name and parameters.
pub struct FnInput {
    pub name: String,
    pub params: Vec<FnParam>,
}

/// How a handler parameter is rewritten: `Arc<T>` parameters become the
/// `Inject<T>` extractor (destructured by name when the pattern is an
/// identifier); all others are kept.
pub enum ParamPlan {
    Keep,
    Inject { binding: Option<String>, inner: String },
}

/// The rewrite of one parameter.
pub open spec fn transforms(p: ParamPlan, f: FnParam) -> bool {
    match f {
        FnParam::Receiver => p is Keep,
        FnParam::Typed { binding, ty } => match arc_inner(ty) {
            Some(t) => p matches ParamPlan::Inject { binding: b, inner } && inner@ == t && b == binding,
            None => p is Keep,
        },
    }
}

/// Rewrites one handler parameter.
pub fn transform_param(arg: &FnParam) -> (r: ParamPlan)
    ensures
        transforms(r, *arg),
{
    match arg {
        FnParam::Receiver => ParamPlan::Keep,
        FnParam::Typed { binding, ty } => match extract_arc_inner(ty) {
            Some(inner) => ParamPlan::Inject { binding: crate::syntax::copy_opt(binding), inner },
            None => ParamPlan::Keep,
        },
    }
}

/// What a route macro emits: the handler `__handler_<name>` with rewritten
/// parameters, registered under the path and method.
pub struct RoutePlan {
    pub path: String,
    pub method: String,
    pub method_fn: String,
    pub handler_name: String,
    pub params: Vec<ParamPlan>,
}

/// `#[get]`, `#[post]`, `#[put]`, `#[delete]`, `#[patch]`: the path from the
/// attribute, the handler renamed, its `Arc<T>` parameters injected, and the
/// routing function named after the lower-cased method.
pub fn generate_route(method: &str, attr: &Vec<ArgToken>, item: &FnInput) -> (r: Result<RoutePlan, MacroError>)
    ensures
        (r is Ok) <==> single_lit(attr@) is Some,
        r matches Err(e) ==> e.site == ErrorSite::Args && e.message@ == single_lit_error(attr@),
        r matches Ok(p) ==> {
            &&& p.path@ == single_lit(attr@)->Some_0
            &&& p.method@ == method@
            &&& p.method_fn@ == lower_of(method@)
            &&& all_ascii(method@) ==> p.method_fn@ == Seq::new(method@.len(), |i: int| ascii_lower(method@[i]))
            &&& p.handler_name@ == "__handler_"@ + item.name@
            &&& p.params@.len() == item.params@.len()
            &&& forall|i: int| 0 <= i < item.params@.len() ==> transforms(#[trigger] p.params@[i], item.params@[i])
        },
{
    let path = match parse_single_lit(attr) {
        Ok(p) => p,
        Err(e) => return Err(e),
    };
    let mut handler_name = String::from_str("__handler_");
    handler_name.append(item.name.as_str());
    let mut params: Vec<ParamPlan> = Vec::new();
    let mut i: usize = 0;
    while i < item.params.len()
        invariant
            0 <= i <= item.params@.len(),
            params@.len() == i,
            forall|k: int| 0 <= k < i ==> transforms(#[trigger] params@[k], item.params@[k]),
        decreases item.params@.len() - i,
    {
        params.push(transform_param(&item.params[i]));
        i = i + 1;
    }
    Ok(RoutePlan {
        path,
        method: String::from_str(method),
        method_fn: str_to_lower(method),
        handler_name,
        params,
    })
}

pub open spec fn msg_not_main() -> Seq<char> {
    "#[gearbox_app] can only be applied to fn main()"@
}

/// `#[gearbox_app]` accepts only `fn main`.
pub fn generate_gearbox_app(fn_name: &str) -> (r: Result<(), MacroError>)
    ensures
        r is Ok <==> fn_name@ == "main"@,
        r matches Err(e) ==> e.site == ErrorSite::Name && e.message@ == msg_not_main(),
{
    if str_eq(fn_name, "main") {
        Ok(())
    } else {
        Err(err(ErrorSite::Name, "#[gearbox_app] can only be applied to fn main()"))
    }
}

/// How `proc_macro_crate` found a dependency of the calling crate: the
/// calling crate itself, or a dependency under this name.
pub enum FoundCrate {
    Itself,
    Name(String),
}

/// The path generated code uses for a framework crate.
pub enum CratePath {
    /// `crate`.
    This,
    /// The identifier of a dependency.
    Named(String),
}

/// Whether `p` names the crate as `f` found it.
pub open spec fn path_for(p: CratePath, f: FoundCrate) -> bool {
    match f {
        FoundCrate::Itself => p is This,
        FoundCrate::Name(n) => p matches CratePath::Named(m) && m@ == n@,
    }
}

/// The path of a found crate: the calling crate is `crate`, a dependency is its name.
pub fn found_to_tokens(found: FoundCrate) -> (r: CratePath)
    ensures
        path_for(r, found),
{
    match found {
        FoundCrate::Itself => CratePath::This,
        FoundCrate::Name(n) => CratePath::Named(n),
    }
}

/// The path of a framework crate: the `gearbox-rs` facade when the calling crate depends
/// on it, else the direct crate when it does, else the fallback identifier.
pub fn resolve_crate(facade: Option<FoundCrate>, direct: Option<FoundCrate>, fallback: &str) -> (r: CratePath)
    ensures
        match (facade, direct) {
            (Some(f), _) => path_for(r, f),
            (None, Some(d)) => path_for(r, d),
            (None, None) => r matches CratePath::Named(m) && m@ == fallback@,
        },
{
    match facade {
        Some(f) => found_to_tokens(f),
        None => match direct {
            Some(d) => found_to_tokens(d),
            None => CratePath::Named(String::from_str(fallback)),
        },
    }
}

} // verus!
