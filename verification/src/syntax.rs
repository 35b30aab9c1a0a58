//! Plain-value model of the Rust syntax the macros read (struct
//! definitions, fields, attributes and types), the parsers of `syn` that
//! the macros apply to attribute arguments, and the error the macros
//! report.

use vstd::prelude::*;

verus! {

/// A type as the macros read it: its token text, and, when it is a path
/// type, the identifier of its last segment, the number of that segment's
/// angle-bracketed type arguments and the token text of the first of them.
pub struct TypeInfo {
    pub text: String,
    pub last_segment: Option<String>,
    pub type_arg_count: usize,
    pub first_type_arg: Option<String>,
}

/// An attribute: the identifier its path consists of (`None` when the path
/// is not a single identifier) and the token text of its parenthesised
/// arguments (`None` when it has none).
pub struct AttrInfo {
    pub ident: Option<String>,
    pub args: Option<String>,
}

/// A named field of a struct.
pub struct FieldInput {
    pub ident: String,
    pub ty: TypeInfo,
    pub attrs: Vec<AttrInfo>,
}

/// The shape of the item a derive is applied to.
pub enum DataShape {
    /// A struct with named fields.
    Named(Vec<FieldInput>),
    /// A tuple or unit struct.
    Unnamed,
    /// An enum.
    Enum,
    /// A union.
    Union,
}

/// The item a derive or attribute macro is applied to.
pub struct StructInput {
    pub ident: String,
    pub attrs: Vec<AttrInfo>,
    pub data: DataShape,
}

/// Where in the input an error points.
#[derive(PartialEq, Eq, Structural, Clone, Copy, Debug)]
pub enum ErrorSite {
    /// The whole input item.
    Input,
    /// The item's attribute at this index.
    ItemAttr(usize),
    /// The field at this index.
    Field(usize),
    /// The type of the field at this index.
    FieldType(usize),
    /// The attribute of a field: field index, attribute index.
    FieldAttr(usize, usize),
    /// The name of the item or function.
    Name,
    /// The macro's own arguments.
    Args,
    /// The macro call as a whole.
    CallSite,
    /// The identifier that opens a `pg_queries!` block.
    Header,
    /// The name of the query at this index.
    Query(usize),
}

/// A compile error the macro reports: where, and what.
pub struct MacroError {
    pub site: ErrorSite,
    pub message: String,
}

/// What `syn` gives as the value of a string literal written as `text`
/// (`None` when `text` is not exactly one string literal).
pub uninterp spec fn lit_str_value(text: Seq<char>) -> Option<Seq<char>>;

/// The identifier `text` consists of, as `syn` parses it.
pub uninterp spec fn ident_value(text: Seq<char>) -> Option<Seq<char>>;

/// Whether `text` parses as a path, as `syn` parses it.
pub uninterp spec fn path_parses(text: Seq<char>) -> bool;

/// Whether `text` parses as a type, as `syn` parses it.
pub uninterp spec fn type_parses(text: Seq<char>) -> bool;

/// The type `text` holds, when it parses as one: the text itself, which
/// the macro later turns back into the type.
pub open spec fn type_value(text: Seq<char>) -> Option<Seq<char>> {
    if type_parses(text) {
        Some(text)
    } else {
        None
    }
}

/// `syn::parse_str::<syn::LitStr>` followed by `LitStr::value`: the value
/// of the string literal that `text` holds, when it holds exactly one.
/// The result is what `syn` computes from `text` alone; nothing more is
/// claimed of it.
#[verifier::external_body]
pub(crate) fn parse_lit_str(text: &str) -> (r: Option<String>)
    ensures
        opt_view(r) == lit_str_value(text@),
{
    match syn::parse_str::<syn::LitStr>(text) {
        Ok(l) => Some(l.value()),
        Err(_) => None,
    }
}

/// `syn::parse_str::<syn::Ident>`: the identifier `text` holds, when it
/// holds exactly one. The result is what `syn` computes from `text` alone.
#[verifier::external_body]
pub(crate) fn parse_ident(text: &str) -> (r: Option<String>)
    ensures
        opt_view(r) == ident_value(text@),
{
    match syn::parse_str::<syn::Ident>(text) {
        Ok(i) => Some(i.to_string()),
        Err(_) => None,
    }
}

/// `syn::parse_str::<syn::Path>`: whether `text` holds exactly one path.
/// The parsed path is dropped; callers hand `text` itself on.
#[verifier::external_body]
pub(crate) fn check_path(text: &str) -> (r: bool)
    ensures
        r == path_parses(text@),
{
    syn::parse_str::<syn::Path>(text).is_ok()
}

/// `syn::parse_str::<syn::Type>`: `Ok` exactly when `text` holds one type,
/// else the parse error's message. Of that message nothing is claimed:
/// its wording is `syn`'s own.
#[verifier::external_body]
pub(crate) fn check_type(text: &str) -> (r: Result<(), String>)
    ensures
        r is Ok <==> type_parses(text@),
{
    match syn::parse_str::<syn::Type>(text) {
        Ok(_) => Ok(()),
        Err(e) => Err(e.to_string()),
    }
}

/// The character view of a result of strings.
pub open spec fn result_view(r: Result<String, String>) -> Result<Seq<char>, Seq<char>> {
    match r {
        Ok(v) => Ok(v@),
        Err(m) => Err(m@),
    }
}

/// The type `text` holds, when it parses as one: `text` itself.
pub fn parse_type(text: &str) -> (r: Option<String>)
    ensures
        opt_view(r) == type_value(text@),
{
    match check_type(text) {
        Ok(()) => Some(String::from_str(text)),
        Err(_) => None,
    }
}

/// The character view of an optional string.
pub open spec fn opt_view(o: Option<String>) -> Option<Seq<char>> {
    match o {
        Some(s) => Some(s@),
        None => None,
    }
}

/// A copy of an optional string.
pub fn copy_opt(o: &Option<String>) -> (r: Option<String>)
    ensures
        r == *o,
{
    match o {
        Some(s) => Some(s.clone()),
        None => None,
    }
}

impl TypeInfo {
    /// A copy of this type.
    pub fn copy(&self) -> (r: TypeInfo)
        ensures
            r == *self,
    {
        TypeInfo {
            text: self.text.clone(),
            last_segment: copy_opt(&self.last_segment),
            type_arg_count: self.type_arg_count,
            first_type_arg: copy_opt(&self.first_type_arg),
        }
    }
}

/// Whether an attribute's path is the single identifier `name`
/// (`Attribute::path().is_ident(name)`).
pub open spec fn attr_is(a: AttrInfo, name: Seq<char>) -> bool {
    a.ident matches Some(i) && i@ == name
}

/// `true` iff some attribute of `attrs` is named `name`.
pub open spec fn has_attr_spec(attrs: Seq<AttrInfo>, name: Seq<char>) -> bool {
    exists|i: int| 0 <= i < attrs.len() && attr_is(#[trigger] attrs[i], name)
}

/// Whether the attribute's path is the single identifier `name`.
pub fn attr_named(a: &AttrInfo, name: &str) -> (r: bool)
    ensures
        r == attr_is(*a, name@),
{
    match &a.ident {
        Some(i) => str_eq(i.as_str(), name),
        None => false,
    }
}

/// The value of the first attribute named `name` whose arguments are a
/// single string literal.
pub open spec fn find_lit_arg(attrs: Seq<AttrInfo>, name: Seq<char>) -> Option<Seq<char>>
    decreases attrs.len(),
{
    if attrs.len() == 0 {
        None
    } else if attr_is(attrs[0], name) && (attrs[0].args matches Some(t) && lit_str_value(t@) is Some) {
        lit_str_value(attrs[0].args->Some_0@)
    } else {
        find_lit_arg(attrs.skip(1), name)
    }
}

/// The value of the first string-literal argument among attributes named `name`.
pub fn lit_arg_of(attrs: &Vec<AttrInfo>, name: &str) -> (r: Option<String>)
    ensures
        r matches Some(v) ==> find_lit_arg(attrs@, name@) == Some(v@),
        r is None ==> find_lit_arg(attrs@, name@) is None,
{
    let mut i: usize = 0;
    assert(attrs@.skip(0) =~= attrs@);
    while i < attrs.len()
        invariant
            0 <= i <= attrs@.len(),
            find_lit_arg(attrs@, name@) == find_lit_arg(attrs@.skip(i as int), name@),
        decreases attrs@.len() - i,
    {
        proof {
            assert(attrs@.skip(i as int).skip(1) =~= attrs@.skip(i + 1));
            assert(attrs@.skip(i as int)[0] == attrs@[i as int]);
        }
        if attr_named(&attrs[i], name) {
            if let Some(t) = &attrs[i].args {
                let v = parse_lit_str(t.as_str());
                if v.is_some() {
                    return v;
                }
            }
        }
        i = i + 1;
    }
    assert(attrs@.skip(i as int).len() == 0);
    None
}

/// The index of the first attribute named `name`, if any.
pub open spec fn first_attr(attrs: Seq<AttrInfo>, name: Seq<char>) -> Option<int>
    decreases attrs.len(),
{
    if attrs.len() == 0 {
        None
    } else if attr_is(attrs.last(), name) && first_attr(attrs.drop_last(), name) is None {
        Some(attrs.len() - 1)
    } else {
        first_attr(attrs.drop_last(), name)
    }
}

/// The index of the first attribute named `name`.
pub fn find_attr(attrs: &Vec<AttrInfo>, name: &str) -> (r: Option<usize>)
    ensures
        r matches Some(i) ==> first_attr(attrs@, name@) == Some(i as int) && i < attrs@.len(),
        r is None ==> first_attr(attrs@, name@) is None,
{
    let mut i: usize = 0;
    while i < attrs.len()
        invariant
            0 <= i <= attrs@.len(),
            first_attr(attrs@.take(i as int), name@) is None,
        decreases attrs@.len() - i,
    {
        proof {
            assert(attrs@.take(i + 1).drop_last() =~= attrs@.take(i as int));
        }
        if attr_named(&attrs[i], name) {
            proof { lemma_first_attr_prefix(attrs@, name@, i as int); }
            return Some(i);
        }
        i = i + 1;
    }
    assert(attrs@.take(attrs@.len() as int) =~= attrs@);
    None
}

/// Once the first attribute named `name` lies in a prefix, extending the
/// prefix keeps it.
pub proof fn lemma_first_attr_prefix(attrs: Seq<AttrInfo>, name: Seq<char>, i: int)
    requires
        0 <= i < attrs.len(),
        first_attr(attrs.take(i), name) is None,
        attr_is(attrs[i], name),
    ensures
        first_attr(attrs, name) == Some(i),
    decreases attrs.len(),
{
    if i == attrs.len() - 1 {
        assert(attrs.drop_last() =~= attrs.take(i));
    } else {
        assert(attrs.drop_last().take(i) =~= attrs.take(i));
        lemma_first_attr_prefix(attrs.drop_last(), name, i);
    }
}

/// The arguments of the first attribute named `name`, parsed as a type
/// (`None` when there is no such attribute or its arguments are no type).
pub open spec fn type_arg_of(attrs: Seq<AttrInfo>, name: Seq<char>) -> Option<Seq<char>> {
    match first_attr(attrs, name) {
        Some(i) => match attrs[i].args {
            Some(t) => type_value(t@),
            None => None,
        },
        None => None,
    }
}

/// The arguments of the first attribute named `name`, parsed as a type.
pub fn type_arg(attrs: &Vec<AttrInfo>, name: &str) -> (r: Option<String>)
    ensures
        opt_view(r) == type_arg_of(attrs@, name@),
{
    match find_attr(attrs, name) {
        Some(i) => match &attrs[i].args {
            Some(t) => parse_type(t.as_str()),
            None => None,
        },
        None => None,
    }
}

/// Character-wise equality of two strings.
pub fn str_eq(a: &str, b: &str) -> (r: bool)
    ensures
        r == (a@ == b@),
{
    let n = a.unicode_len();
    let m = b.unicode_len();
    if n != m {
        return false;
    }
    let mut i: usize = 0;
    while i < n
        invariant
            n == a@.len(),
            m == b@.len(),
            n == m,
            0 <= i <= n,
            forall|j: int| 0 <= j < i ==> a@[j] == b@[j],
        decreases n - i,
    {
        if a.get_char(i) != b.get_char(i) {
            return false;
        }
        i = i + 1;
    }
    assert(a@ =~= b@);
    true
}

/// Whether a field has a marker attribute named `name`.
pub fn has_attr(attrs: &Vec<AttrInfo>, name: &str) -> (r: bool)
    ensures
        r == has_attr_spec(attrs@, name@),
{
    let mut i: usize = 0;
    while i < attrs.len()
        invariant
            0 <= i <= attrs@.len(),
            forall|j: int| 0 <= j < i ==> !attr_is(#[trigger] attrs@[j], name@),
        decreases attrs@.len() - i,
    {
        if attr_named(&attrs[i], name) {
            return true;
        }
        i = i + 1;
    }
    false
}

} // verus!
