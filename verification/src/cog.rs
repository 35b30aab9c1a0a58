//! The `#[cog]` attribute: how each field of a cog is initialised, the
//! checks on its field attributes, its lifecycle hooks, and which
//! attributes survive on the emitted struct.

use vstd::prelude::*;
use crate::syntax::{
    AttrInfo, DataShape, ErrorSite, FieldInput, MacroError, StructInput, TypeInfo, attr_is,
    attr_named, first_attr, has_attr, has_attr_spec, ident_value, parse_ident, check_path,
    path_parses, find_attr,
};

verus! {

/// The inner type `T` of `Arc<T>`: the type's last path segment is `Arc`
/// with exactly one angle-bracketed type argument.
pub open spec fn arc_inner(ty: TypeInfo) -> Option<Seq<char>> {
    match ty.last_segment {
        Some(s) => if s@ == "Arc"@ && ty.type_arg_count == 1 {
            match ty.first_type_arg {
                Some(t) => Some(t@),
                None => None,
            }
        } else {
            None
        },
        None => None,
    }
}

/// Extracts the inner type `T` from `Arc<T>`.
pub fn extract_arc_inner(ty: &TypeInfo) -> (r: Option<String>)
    ensures
        r matches Some(v) ==> arc_inner(*ty) == Some(v@),
        r is None ==> arc_inner(*ty) is None,
{
    match &ty.last_segment {
        Some(s) => {
            if crate::syntax::str_eq(s.as_str(), "Arc") && ty.type_arg_count == 1 {
                match &ty.first_type_arg {
                    Some(t) => Some(t.clone()),
                    None => None,
                }
            } else {
                None
            }
        }
        None => None,
    }
}

/// How a cog field is initialised.
pub enum FieldKind {
    /// `#[inject]`: fetched from the registry by its inner type.
    Inject(String),
    /// `#[config]`: loaded from configuration.
    Config,
    /// No attribute: `Default::default()`.
    Default,
    /// `#[default(path)]`: a call of `path()`.
    DefaultFn(String),
    /// `#[default_async(path)]`: `path(hub.clone()).await?`.
    DefaultAsyncFn(String),
}

/// A cog field: name, type text and how it is initialised.
pub struct ParsedField {
    pub name: String,
    pub ty: String,
    pub kind: FieldKind,
}

/// The path argument of the first attribute named `name`: absent, the
/// argument text when it parses as a path, or failing to parse (`Err`
/// holds the attribute's index).
pub open spec fn path_arg(attrs: Seq<AttrInfo>, name: Seq<char>) -> Option<Result<Seq<char>, int>> {
    match first_attr(attrs, name) {
        None => None,
        Some(i) => match attrs[i].args {
            Some(t) => if path_parses(t@) {
                Some(Ok(t@))
            } else {
                Some(Err(i))
            },
            None => Some(Err(i)),
        },
    }
}

fn path_arg_of(attrs: &Vec<AttrInfo>, name: &str) -> (r: Option<Result<String, usize>>)
    ensures
        match path_arg(attrs@, name@) {
            None => r is None,
            Some(Ok(p)) => r matches Some(Ok(v)) && v@ == p,
            Some(Err(i)) => r matches Some(Err(j)) && j == i,
        },
{
    match find_attr(attrs, name) {
        None => None,
        Some(i) => match &attrs[i].args {
            Some(t) => if check_path(t.as_str()) {
                Some(Ok(t.clone()))
            } else {
                Some(Err(i))
            },
            None => Some(Err(i)),
        },
    }
}

pub open spec fn msg_default_path(name: Seq<char>, ty: Seq<char>) -> Seq<char> {
    "#[default] on field '"@ + name
        + "' requires a function path. Expected: #[default(my_function)] where my_function: fn() -> "@
        + ty
}

pub open spec fn msg_default_async_path(name: Seq<char>, ty: Seq<char>) -> Seq<char> {
    "#[default_async] on field '"@ + name
        + "' requires a function path. Expected: #[default_async(my_function)] where my_function: async fn(&Arc<Hub>) -> Result<"@
        + ty + ", Error>"@
}

pub open spec fn msg_conflict(name: Seq<char>) -> Seq<char> {
    "field '"@ + name
        + "' has conflicting attributes. Use only one of: #[inject], #[config], #[default(fn)], #[default_async(fn)]"@
}

pub open spec fn msg_inject_arc(name: Seq<char>) -> Seq<char> {
    "#[inject] field '"@ + name + "' must be Arc<T>"@
}

/// How many of the four initialisation attributes a field carries.
pub open spec fn init_attr_count(f: FieldInput) -> nat {
    (if has_attr_spec(f.attrs@, "inject"@) { 1nat } else { 0nat })
        + (if has_attr_spec(f.attrs@, "config"@) { 1nat } else { 0nat })
        + (if path_arg(f.attrs@, "default"@) is Some { 1nat } else { 0nat })
        + (if path_arg(f.attrs@, "default_async"@) is Some { 1nat } else { 0nat })
}

/// What `parse_field` decides for field `f` at `index`: the first failing
/// check in order (a `#[default]` path that does not parse, then a
/// `#[default_async]` one, then more than one initialisation attribute,
/// then an `#[inject]` type that is not `Arc<T>`), or the field's kind.
pub open spec fn field_outcome(r: Result<ParsedField, MacroError>, f: FieldInput, index: usize) -> bool {
    match (path_arg(f.attrs@, "default"@), path_arg(f.attrs@, "default_async"@)) {
        (Some(Err(j)), _) => r matches Err(e) && e.site == ErrorSite::FieldAttr(index, j as usize)
            && e.message@ == msg_default_path(f.ident@, f.ty.text@),
        (_, Some(Err(j))) => r matches Err(e) && e.site == ErrorSite::FieldAttr(index, j as usize)
            && e.message@ == msg_default_async_path(f.ident@, f.ty.text@),
        (d, da) => if init_attr_count(f) > 1 {
            r matches Err(e) && e.site == ErrorSite::Field(index) && e.message@ == msg_conflict(f.ident@)
        } else if has_attr_spec(f.attrs@, "inject"@) {
            match arc_inner(f.ty) {
                Some(t) => r matches Ok(p) && p.name@ == f.ident@ && p.ty@ == f.ty.text@
                    && (p.kind matches FieldKind::Inject(v) && v@ == t),
                None => r matches Err(e) && e.site == ErrorSite::FieldType(index)
                    && e.message@ == msg_inject_arc(f.ident@),
            }
        } else {
            r matches Ok(p) && p.name@ == f.ident@ && p.ty@ == f.ty.text@ && {
                if has_attr_spec(f.attrs@, "config"@) {
                    p.kind is Config
                } else {
                    match (d, da) {
                        (Some(Ok(fp)), _) => p.kind matches FieldKind::DefaultFn(v) && v@ == fp,
                        (_, Some(Ok(fp))) => p.kind matches FieldKind::DefaultAsyncFn(v) && v@ == fp,
                        _ => p.kind is Default,
                    }
                }
            }
        },
    }
}

/// Whether `parse_field` accepts field `f`.
pub open spec fn field_ok(f: FieldInput) -> bool {
    &&& !(path_arg(f.attrs@, "default"@) matches Some(Err(_)))
    &&& !(path_arg(f.attrs@, "default_async"@) matches Some(Err(_)))
    &&& init_attr_count(f) <= 1
    &&& (has_attr_spec(f.attrs@, "inject"@) ==> arc_inner(f.ty) is Some)
}

/// Whether the lifecycle hook attributes of `input` name methods.
pub open spec fn hooks_ok(input: StructInput) -> bool {
    &&& !(method_arg(input.attrs@, "on_start"@) matches Some(Err(_)))
    &&& !(method_arg(input.attrs@, "on_shutdown"@) matches Some(Err(_)))
}

/// Whether `#[cog]` accepts `input`.
pub open spec fn cog_ok(input: StructInput) -> bool {
    &&& hooks_ok(input)
    &&& input.data matches DataShape::Named(fs) && forall|i: int| 0 <= i < fs@.len() ==> field_ok(#[trigger] fs@[i])
}

/// Reads how a cog field is initialised, rejecting conflicting or
/// malformed attributes.
pub fn parse_field(field: &FieldInput, index: usize) -> (r: Result<ParsedField, MacroError>)
    ensures
        field_outcome(r, *field, index),
        r is Ok <==> field_ok(*field),
{
    let has_inject = has_attr(&field.attrs, "inject");
    let has_config = has_attr(&field.attrs, "config");
    let default_fn = match path_arg_of(&field.attrs, "default") {
        Some(Err(j)) => {
            let mut m = String::from_str("#[default] on field '");
            m.append(field.ident.as_str());
            m.append("' requires a function path. Expected: #[default(my_function)] where my_function: fn() -> ");
            m.append(field.ty.text.as_str());
            return Err(MacroError { site: ErrorSite::FieldAttr(index, j), message: m });
        }
        Some(Ok(p)) => Some(p),
        None => None,
    };
    let default_async_fn = match path_arg_of(&field.attrs, "default_async") {
        Some(Err(j)) => {
            let mut m = String::from_str("#[default_async] on field '");
            m.append(field.ident.as_str());
            m.append("' requires a function path. Expected: #[default_async(my_function)] where my_function: async fn(&Arc<Hub>) -> Result<");
            m.append(field.ty.text.as_str());
            m.append(", Error>");
            return Err(MacroError { site: ErrorSite::FieldAttr(index, j), message: m });
        }
        Some(Ok(p)) => Some(p),
        None => None,
    };
    let count: u8 = (if has_inject { 1u8 } else { 0u8 }) + (if has_config { 1u8 } else { 0u8 })
        + (if default_fn.is_some() { 1u8 } else { 0u8 })
        + (if default_async_fn.is_some() { 1u8 } else { 0u8 });
    if count > 1 {
        let mut m = String::from_str("field '");
        m.append(field.ident.as_str());
        m.append("' has conflicting attributes. Use only one of: #[inject], #[config], #[default(fn)], #[default_async(fn)]");
        return Err(MacroError { site: ErrorSite::Field(index), message: m });
    }
    let kind = if has_inject {
        match extract_arc_inner(&field.ty) {
            Some(inner) => FieldKind::Inject(inner),
            None => {
                let mut m = String::from_str("#[inject] field '");
                m.append(field.ident.as_str());
                m.append("' must be Arc<T>");
                return Err(MacroError { site: ErrorSite::FieldType(index), message: m });
            }
        }
    } else if has_config {
        FieldKind::Config
    } else if let Some(p) = default_fn {
        FieldKind::DefaultFn(p)
    } else if let Some(p) = default_async_fn {
        FieldKind::DefaultAsyncFn(p)
    } else {
        FieldKind::Default
    };
    Ok(ParsedField { name: field.ident.clone(), ty: field.ty.text.clone(), kind })
}

/// The method named by the first attribute `name` of the struct: absent,
/// its identifier, or the index of an attribute whose argument is no
/// identifier.
pub open spec fn method_arg(attrs: Seq<AttrInfo>, name: Seq<char>) -> Option<Result<Seq<char>, int>> {
    match first_attr(attrs, name) {
        None => None,
        Some(i) => match attrs[i].args {
            Some(t) => match ident_value(t@) {
                Some(p) => Some(Ok(p)),
                None => Some(Err(i)),
            },
            None => Some(Err(i)),
        },
    }
}

pub open spec fn msg_method_name(name: Seq<char>) -> Seq<char> {
    "#["@ + name + "] requires a method name, e.g. #["@ + name + "(my_method)]"@
}

/// Whether `r` is what `get_struct_attr_path` gives for attribute `name`.
pub open spec fn method_outcome(r: Result<Option<String>, MacroError>, attrs: Seq<AttrInfo>, name: Seq<char>) -> bool {
    match method_arg(attrs, name) {
        None => r matches Ok(None),
        Some(Ok(m)) => r matches Ok(Some(v)) && v@ == m,
        Some(Err(i)) => r matches Err(e) && e.site == ErrorSite::ItemAttr(i as usize)
            && e.message@ == msg_method_name(name),
    }
}

/// The method named by the struct attribute `#[name(method)]`, if present.
pub fn get_struct_attr_path(attrs: &Vec<AttrInfo>, name: &str) -> (r: Result<Option<String>, MacroError>)
    ensures
        method_outcome(r, attrs@, name@),
{
    match find_attr(attrs, name) {
        None => Ok(None),
        Some(i) => {
            let parsed = match &attrs[i].args {
                Some(t) => parse_ident(t.as_str()),
                None => None,
            };
            match parsed {
                Some(m) => Ok(Some(m)),
                None => {
                    let mut m = String::from_str("#[");
                    m.append(name);
                    m.append("] requires a method name, e.g. #[");
                    m.append(name);
                    m.append("(my_method)]");
                    Err(MacroError { site: ErrorSite::ItemAttr(i), message: m })
                }
            }
        }
    }
}

/// The indices `0..n` of `attrs` whose attribute is not one of `drop`.
pub open spec fn kept(attrs: Seq<AttrInfo>, drop: Seq<Seq<char>>, n: int) -> Seq<usize>
    decreases n,
{
    if n <= 0 {
        Seq::empty()
    } else if exists|k: int| 0 <= k < drop.len() && attr_is(attrs[n - 1], #[trigger] drop[k]) {
        kept(attrs, drop, n - 1)
    } else {
        kept(attrs, drop, n - 1).push((n - 1) as usize)
    }
}

fn keep_attrs(attrs: &Vec<AttrInfo>, drop: &Vec<&str>) -> (r: Vec<usize>)
    ensures
        r@ == kept(attrs@, Seq::new(drop@.len(), |k: int| drop@[k]@), attrs@.len() as int),
{
    let ghost d = Seq::new(drop@.len(), |k: int| drop@[k]@);
    let mut r: Vec<usize> = Vec::new();
    let mut i: usize = 0;
    while i < attrs.len()
        invariant
            0 <= i <= attrs@.len(),
            d == Seq::new(drop@.len(), |k: int| drop@[k]@),
            r@ == kept(attrs@, d, i as int),
        decreases attrs@.len() - i,
    {
        let mut dropped = false;
        let mut k: usize = 0;
        while k < drop.len()
            invariant
                0 <= k <= drop@.len(),
                i < attrs@.len(),
                d == Seq::new(drop@.len(), |k: int| drop@[k]@),
                dropped == exists|j: int| 0 <= j < k && attr_is(attrs@[i as int], #[trigger] d[j]),
            decreases drop@.len() - k,
        {
            assert(d[k as int] == drop@[k as int]@);
            if attr_named(&attrs[i], drop[k]) {
                dropped = true;
            }
            k = k + 1;
        }
        if !dropped {
            r.push(i);
        }
        i = i + 1;
    }
    r
}

/// The names of the lifecycle hooks.
pub open spec fn lifecycle_names() -> Seq<Seq<char>> {
    seq!["on_start"@, "on_shutdown"@]
}

/// The names of the cog field attributes.
pub open spec fn cog_field_names() -> Seq<Seq<char>> {
    seq!["inject"@, "config"@, "default"@, "default_async"@]
}

/// The struct attributes kept on the emitted struct: all but `#[on_start]`
/// and `#[on_shutdown]`, by index.
pub fn strip_lifecycle_attrs(attrs: &Vec<AttrInfo>) -> (r: Vec<usize>)
    ensures
        r@ == kept(attrs@, lifecycle_names(), attrs@.len() as int),
{
    let drop = vec!["on_start", "on_shutdown"];
    let r = keep_attrs(attrs, &drop);
    assert(Seq::new(drop@.len(), |k: int| drop@[k]@) =~= lifecycle_names());
    r
}

/// The field attributes kept on the emitted struct: all but `#[inject]`,
/// `#[config]`, `#[default]` and `#[default_async]`, by index, per field;
/// nothing for a struct without named fields.
pub fn strip_custom_attrs(data: &DataShape) -> (r: Vec<Vec<usize>>)
    ensures
        match *data {
            DataShape::Named(fs) => r@.len() == fs@.len() && forall|i: int| 0 <= i < fs@.len()
                ==> (#[trigger] r@[i])@ == kept(fs@[i].attrs@, cog_field_names(), fs@[i].attrs@.len() as int),
            _ => r@.len() == 0,
        },
{
    let mut r: Vec<Vec<usize>> = Vec::new();
    match data {
        DataShape::Named(fs) => {
            let drop = vec!["inject", "config", "default", "default_async"];
            assert(Seq::new(drop@.len(), |k: int| drop@[k]@) =~= cog_field_names());
            let mut i: usize = 0;
            while i < fs.len()
                invariant
                    0 <= i <= fs@.len(),
                    r@.len() == i,
                    Seq::new(drop@.len(), |k: int| drop@[k]@) == cog_field_names(),
                    forall|k: int| 0 <= k < i ==> (#[trigger] r@[k])@
                        == kept(fs@[k].attrs@, cog_field_names(), fs@[k].attrs@.len() as int),
                decreases fs@.len() - i,
            {
                r.push(keep_attrs(&fs[i].attrs, &drop));
                i = i + 1;
            }
        }
        _ => {}
    }
    r
}

/// Everything `#[cog]` emits for a struct: its name and factory, its
/// lifecycle hooks, its fields with their initialisation, the types it
/// depends on, and the attributes kept on the struct and on each field.
pub struct CogPlan {
    pub struct_name: String,
    pub factory_name: String,
    pub on_start: Option<String>,
    pub on_shutdown: Option<String>,
    pub fields: Vec<ParsedField>,
    pub inject_types: Vec<String>,
    pub kept_attrs: Vec<usize>,
    pub kept_field_attrs: Vec<Vec<usize>>,
}

pub open spec fn msg_cog_not_struct() -> Seq<char> {
    "#[cog] can only be applied to structs"@
}

pub open spec fn msg_cog_not_named() -> Seq<char> {
    "#[cog] only supports structs with named fields"@
}

/// The inner types of the `#[inject]` fields, in order.
pub open spec fn injected(fs: Seq<ParsedField>) -> Seq<Seq<char>>
    decreases fs.len(),
{
    if fs.len() == 0 {
        Seq::empty()
    } else {
        match fs.last().kind {
            FieldKind::Inject(t) => injected(fs.drop_last()).push(t@),
            _ => injected(fs.drop_last()),
        }
    }
}

/// Whether `p` is the `#[cog]` plan of `input`: its hooks, names, each
/// field's initialisation, its dependencies (the inner types of the
/// `#[inject]` fields) and the attributes it keeps.
pub open spec fn cog_plan(input: StructInput, p: CogPlan) -> bool {
    &&& method_outcome(Ok(p.on_start), input.attrs@, "on_start"@)
    &&& method_outcome(Ok(p.on_shutdown), input.attrs@, "on_shutdown"@)
    &&& p.struct_name@ == input.ident@
    &&& p.factory_name@ == "__"@ + input.ident@ + "Factory"@
    &&& input.data matches DataShape::Named(fs) && p.fields@.len() == fs@.len()
        && (forall|i: int| 0 <= i < fs@.len() ==> field_outcome(Ok(#[trigger] p.fields@[i]), fs@[i], i as usize))
    &&& views_eq(p.inject_types@, injected(p.fields@))
    &&& p.kept_attrs@ == kept(input.attrs@, lifecycle_names(), input.attrs@.len() as int)
    &&& input.data matches DataShape::Named(fs) && p.kept_field_attrs@.len() == fs@.len()
        && forall|i: int| 0 <= i < fs@.len() ==> (#[trigger] p.kept_field_attrs@[i])@
            == kept(fs@[i].attrs@, cog_field_names(), fs@[i].attrs@.len() as int)
}

/// `#[cog]`: reads the hooks (`#[on_start]`, then `#[on_shutdown]`), the
/// named fields and each field's initialisation, failing at the first
/// problem; plans the factory `__<Name>Factory`.
pub fn generate_cog_internal(input: &StructInput) -> (r: Result<CogPlan, MacroError>)
    ensures
        method_arg(input.attrs@, "on_start"@) matches Some(Err(_))
            ==> (r matches Err(e) && method_outcome(Err(e), input.attrs@, "on_start"@)),
        !(method_arg(input.attrs@, "on_start"@) matches Some(Err(_)))
            && (method_arg(input.attrs@, "on_shutdown"@) matches Some(Err(_)))
            ==> (r matches Err(e) && method_outcome(Err(e), input.attrs@, "on_shutdown"@)),
        hooks_ok(*input) && input.data is Unnamed
            ==> (r matches Err(e) && e.site == ErrorSite::Input && e.message@ == msg_cog_not_named()),
        hooks_ok(*input) && (input.data is Enum || input.data is Union)
            ==> (r matches Err(e) && e.site == ErrorSite::Input && e.message@ == msg_cog_not_struct()),
        r matches Err(e) ==> (hooks_ok(*input) && input.data is Named ==> (input.data matches DataShape::Named(fs)
            && exists|i: int| 0 <= i < fs@.len() && !field_ok(#[trigger] fs@[i])
                && (forall|k: int| 0 <= k < i ==> field_ok(#[trigger] fs@[k]))
                && field_outcome(Err(e), fs@[i], i as usize))),
        r is Ok <==> cog_ok(*input),
        r matches Ok(p) ==> cog_plan(*input, p),
{
    let on_start = match get_struct_attr_path(&input.attrs, "on_start") {
        Ok(m) => m,
        Err(e) => return Err(e),
    };
    let on_shutdown = match get_struct_attr_path(&input.attrs, "on_shutdown") {
        Ok(m) => m,
        Err(e) => return Err(e),
    };
    let fs = match &input.data {
        DataShape::Named(fs) => fs,
        DataShape::Unnamed => {
            return Err(MacroError {
                site: ErrorSite::Input,
                message: String::from_str("#[cog] only supports structs with named fields"),
            });
        }
        _ => {
            return Err(MacroError {
                site: ErrorSite::Input,
                message: String::from_str("#[cog] can only be applied to structs"),
            });
        }
    };
    let mut fields: Vec<ParsedField> = Vec::new();
    let mut inject_types: Vec<String> = Vec::new();
    let mut i: usize = 0;
    while i < fs.len()
        invariant
            0 <= i <= fs@.len(),
            input.data is Named,
            input.data->Named_0 == *fs,
            hooks_ok(*input),
            fields@.len() == i,
            forall|k: int| 0 <= k < i ==> field_outcome(Ok(#[trigger] fields@[k]), fs@[k], k as usize),
            forall|k: int| 0 <= k < i ==> field_ok(#[trigger] fs@[k]),
            views_eq(inject_types@, injected(fields@)),
        decreases fs@.len() - i,
    {
        let f = match parse_field(&fs[i], i) {
            Ok(f) => f,
            Err(e) => {
                assert(!field_ok(fs@[i as int]));
                return Err(e);
            }
        };
        let ghost before = fields@;
        match &f.kind {
            FieldKind::Inject(t) => inject_types.push(t.clone()),
            _ => {}
        }
        fields.push(f);
        assert(fields@.drop_last() =~= before);
        i = i + 1;
    }
    let mut factory_name = String::from_str("__");
    factory_name.append(input.ident.as_str());
    factory_name.append("Factory");
    Ok(CogPlan {
        struct_name: input.ident.clone(),
        factory_name,
        on_start,
        on_shutdown,
        fields,
        inject_types,
        kept_attrs: strip_lifecycle_attrs(&input.attrs),
        kept_field_attrs: strip_custom_attrs(&input.data),
    })
}

/// Whether the strings of `v` have the views `s`.
pub open spec fn views_eq(v: Seq<String>, s: Seq<Seq<char>>) -> bool {
    v.len() == s.len() && forall|i: int| 0 <= i < v.len() ==> #[trigger] v[i]@ == s[i]
}

// ----- laws -----

/// Whether attribute `a` is one of the names in `drop`.
pub open spec fn dropped_by(a: AttrInfo, drop: Seq<Seq<char>>) -> bool {
    exists|k: int| 0 <= k < drop.len() && attr_is(a, #[trigger] drop[k])
}

/// The kept indices are increasing, point below `n` at attributes not
/// named in `drop`, and include every such attribute.
pub proof fn lemma_kept(attrs: Seq<AttrInfo>, drop: Seq<Seq<char>>, n: int)
    requires
        0 <= n <= attrs.len(),
        attrs.len() <= usize::MAX,
    ensures
        forall|i: int| 0 <= i < kept(attrs, drop, n).len() ==> (#[trigger] kept(attrs, drop, n)[i]) < n
            && !dropped_by(attrs[kept(attrs, drop, n)[i] as int], drop),
        forall|i: int, j: int| 0 <= i < j < kept(attrs, drop, n).len()
            ==> kept(attrs, drop, n)[i] < kept(attrs, drop, n)[j],
        forall|j: int| 0 <= j < n && !dropped_by(#[trigger] attrs[j], drop)
            ==> kept(attrs, drop, n).contains(j as usize),
    decreases n,
{
    if n > 0 {
        lemma_kept(attrs, drop, n - 1);
        let prev = kept(attrs, drop, n - 1);
        if !dropped_by(attrs[n - 1], drop) {
            let cur = kept(attrs, drop, n);
            assert(cur == prev.push((n - 1) as usize));
            assert(((n - 1) as usize) as int == n - 1);
            assert forall|i: int, j: int| 0 <= i < j < cur.len() implies cur[i] < cur[j] by {
                if j < cur.len() - 1 {
                    assert(cur[i] == prev[i] && cur[j] == prev[j]);
                } else {
                    assert(cur[i] == prev[i]);
                }
            }
            assert forall|j: int| 0 <= j < n && !dropped_by(#[trigger] attrs[j], drop)
                implies cur.contains(j as usize) by {
                if j < n - 1 {
                    let k = choose|k: int| 0 <= k < prev.len() && prev[k] == j as usize;
                    assert(cur[k] == j as usize);
                } else {
                    assert(cur[cur.len() - 1] == j as usize);
                }
            }
        }
    }
}

/// `#[cog]` never keeps `#[on_start]` or `#[on_shutdown]` on the emitted
/// struct, nor `#[inject]`, `#[config]`, `#[default]` or `#[default_async]`
/// on its fields; every other attribute is kept, in order.
pub proof fn law_cog_strips_its_attributes(input: StructInput, p: CogPlan)
    requires
        cog_ok(input),
        p.kept_attrs@ == kept(input.attrs@, lifecycle_names(), input.attrs@.len() as int),
        input.data matches DataShape::Named(fs) && p.kept_field_attrs@.len() == fs@.len()
            && forall|i: int| 0 <= i < fs@.len() ==> (#[trigger] p.kept_field_attrs@[i])@
                == kept(fs@[i].attrs@, cog_field_names(), fs@[i].attrs@.len() as int),
    ensures
        forall|i: int| 0 <= i < p.kept_attrs@.len() ==> (#[trigger] p.kept_attrs@[i]) < input.attrs@.len()
            && !attr_is(input.attrs@[p.kept_attrs@[i] as int], "on_start"@)
            && !attr_is(input.attrs@[p.kept_attrs@[i] as int], "on_shutdown"@),
        forall|j: int| 0 <= j < input.attrs@.len() && !dropped_by(#[trigger] input.attrs@[j], lifecycle_names())
            ==> p.kept_attrs@.contains(j as usize),
        forall|i: int, j: int| 0 <= i < j < p.kept_attrs@.len() ==> p.kept_attrs@[i] < p.kept_attrs@[j],
        input.data matches DataShape::Named(fs) && forall|f: int, i: int|
            0 <= f < fs@.len() && 0 <= i < p.kept_field_attrs@[f]@.len()
            ==> !dropped_by(fs@[f].attrs@[#[trigger] p.kept_field_attrs@[f]@[i] as int], cog_field_names()),
{
    assert(input.attrs@.len() == input.attrs.len());
    lemma_kept(input.attrs@, lifecycle_names(), input.attrs@.len() as int);
    assert forall|i: int| 0 <= i < p.kept_attrs@.len() implies (#[trigger] p.kept_attrs@[i]) < input.attrs@.len()
        && !attr_is(input.attrs@[p.kept_attrs@[i] as int], "on_start"@)
        && !attr_is(input.attrs@[p.kept_attrs@[i] as int], "on_shutdown"@) by {
        let a = input.attrs@[p.kept_attrs@[i] as int];
        assert(lifecycle_names()[0] == "on_start"@);
        assert(lifecycle_names()[1] == "on_shutdown"@);
        if attr_is(a, "on_start"@) {
            assert(dropped_by(a, lifecycle_names()));
        }
        if attr_is(a, "on_shutdown"@) {
            assert(dropped_by(a, lifecycle_names()));
        }
    }
    match input.data {
        DataShape::Named(fs) => {
            assert forall|f: int, i: int| 0 <= f < fs@.len() && 0 <= i < p.kept_field_attrs@[f]@.len()
                implies !dropped_by(fs@[f].attrs@[#[trigger] p.kept_field_attrs@[f]@[i] as int], cog_field_names()) by {
                assert(fs@[f].attrs@.len() == fs@[f].attrs.len());
                lemma_kept(fs@[f].attrs@, cog_field_names(), fs@[f].attrs@.len() as int);
            }
        }
        _ => {}
    }
}

/// How an accepted field is initialised follows its one initialisation
/// attribute: `#[inject]` gives an injection of the `Arc`'s inner type,
/// `#[config]` configuration, `#[default(f)]` and `#[default_async(f)]`
/// a call of `f`, and no attribute `Default::default()`.
pub proof fn law_field_kind_follows_attribute(p: ParsedField, f: FieldInput, index: usize)
    requires
        field_outcome(Ok(p), f, index),
    ensures
        field_ok(f),
        init_attr_count(f) <= 1,
        p.kind is Inject <==> has_attr_spec(f.attrs@, "inject"@),
        p.kind matches FieldKind::Inject(t) ==> arc_inner(f.ty) == Some(t@),
        p.kind is Config <==> has_attr_spec(f.attrs@, "config"@),
        p.kind matches FieldKind::DefaultFn(v) ==> path_arg(f.attrs@, "default"@) == Some(Ok::<Seq<char>, int>(v@)),
        p.kind matches FieldKind::DefaultAsyncFn(v)
            ==> path_arg(f.attrs@, "default_async"@) == Some(Ok::<Seq<char>, int>(v@)),
        p.kind is Default <==> init_attr_count(f) == 0,
{
}

/// How many of the first `n` fields carry `#[inject]`.
pub open spec fn inject_count(fs: Seq<FieldInput>, n: int) -> nat
    decreases n,
{
    if n <= 0 {
        0
    } else if has_attr_spec(fs[n - 1].attrs@, "inject"@) {
        inject_count(fs, n - 1) + 1
    } else {
        inject_count(fs, n - 1)
    }
}

proof fn lemma_inject_count_monotone(fs: Seq<FieldInput>, a: int, b: int)
    requires
        0 <= a <= b,
    ensures
        inject_count(fs, a) <= inject_count(fs, b),
    decreases b - a,
{
    if a < b {
        lemma_inject_count_monotone(fs, a, b - 1);
    }
}

proof fn lemma_injected_prefix(ps: Seq<ParsedField>, fs: Seq<FieldInput>, n: int)
    requires
        0 <= n <= ps.len(),
        ps.len() == fs.len(),
        forall|k: int| 0 <= k < ps.len() ==> field_outcome(Ok(#[trigger] ps[k]), fs[k], k as usize),
    ensures
        injected(ps.take(n)).len() == inject_count(fs, n),
        forall|k: int| 0 <= k < n && has_attr_spec((#[trigger] fs[k]).attrs@, "inject"@)
            ==> ps[k].kind is Inject && injected(ps.take(n))[inject_count(fs, k) as int] == ps[k].kind->Inject_0@,
    decreases n,
{
    if n > 0 {
        lemma_injected_prefix(ps, fs, n - 1);
        assert(ps.take(n).drop_last() =~= ps.take(n - 1));
        assert(ps.take(n).last() == ps[n - 1]);
        law_field_kind_follows_attribute(ps[n - 1], fs[n - 1], (n - 1) as usize);
        assert forall|k: int| 0 <= k < n && has_attr_spec((#[trigger] fs[k]).attrs@, "inject"@)
            implies ps[k].kind is Inject && injected(ps.take(n))[inject_count(fs, k) as int] == ps[k].kind->Inject_0@ by {
            law_field_kind_follows_attribute(ps[k], fs[k], k as usize);
            if k < n - 1 {
                lemma_inject_count_monotone(fs, k + 1, n - 1);
            }
        }
    }
}

/// `#[cog]` declares one dependency per `#[inject]` field, in field order,
/// so that every injected service starts before this one: there are as many
/// dependencies as `#[inject]` fields, and the dependency counted at the
/// `k`-th field's place is the inner type `T` of that field's `Arc<T>`.
pub proof fn law_deps_are_the_inject_fields(input: StructInput, p: CogPlan)
    requires
        cog_plan(input, p),
    ensures
        input.data matches DataShape::Named(fs) && p.inject_types@.len() == inject_count(fs@, fs@.len() as int),
        input.data matches DataShape::Named(fs) && forall|k: int| 0 <= k < fs@.len()
            && has_attr_spec((#[trigger] fs@[k]).attrs@, "inject"@)
            ==> arc_inner(fs@[k].ty) == Some(p.inject_types@[inject_count(fs@, k) as int]@),
{
    match input.data {
        DataShape::Named(fs) => {
            let ps = p.fields@;
            lemma_injected_prefix(ps, fs@, ps.len() as int);
            assert(ps.take(ps.len() as int) =~= ps);
            assert forall|k: int| 0 <= k < fs@.len() && has_attr_spec((#[trigger] fs@[k]).attrs@, "inject"@)
                implies arc_inner(fs@[k].ty) == Some(p.inject_types@[inject_count(fs@, k) as int]@) by {
                law_field_kind_follows_attribute(ps[k], fs@[k], k as usize);
                lemma_inject_count_monotone(fs@, k + 1, fs@.len() as int);
            }
        }
        _ => {}
    }
}

} // verus!
