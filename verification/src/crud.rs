//! `#[derive(Crud)]`: which fields each DTO carries, the REST paths and
//! handlers that are generated, and how the handlers build entities from
//! request bodies.

use vstd::prelude::*;
use crate::syntax::{DataShape, ErrorSite, MacroError, StructInput, TypeInfo, find_lit_arg, has_attr, has_attr_spec, lit_arg_of, opt_view};
use crate::attrs::{ArgToken, lit_at};
use crate::text::{all_ascii, ascii_lower, push_char, starts, str_starts_with, str_to_lower, lower_of};

verus! {

/// Default page size of the list endpoint.
pub const DEFAULT_PAGE_LIMIT: i64 = 100;

/// A field of a CRUD entity with its markers.
pub struct CrudFieldInfo {
    pub ident: String,
    pub ty: TypeInfo,
    pub is_primary_key: bool,
    pub auto_generated: bool,
    pub readonly: bool,
    pub writeonly: bool,
    pub skip: bool,
}

/// `#[crud(path = "..", read_only, skip_create, skip_delete)]`.
pub struct CrudConfig {
    pub path: Option<String>,
    pub read_only: bool,
    pub skip_create: bool,
    pub skip_delete: bool,
}

/// A CRUD entity: struct name, table, configuration and fields.
pub struct CrudEntityInfo {
    pub name: String,
    pub table: String,
    pub config: CrudConfig,
    pub fields: Vec<CrudFieldInfo>,
}

/// The field selections of the CRUD generator.
#[derive(PartialEq, Eq, Structural, Clone, Copy)]
pub enum CrudSelection {
    /// Primary-key fields.
    PrimaryKey,
    /// Fields stored in the table (all but `#[skip]`).
    Stored,
    /// Fields a client supplies on create and update: not
    /// `#[auto_generated]`, `#[readonly]` or `#[skip]`.
    Writable,
    /// Fields in responses: not `#[writeonly]` or `#[skip]`.
    Readable,
    /// Stored `#[auto_generated]` fields.
    AutoGenerated,
}

pub open spec fn crud_selects(s: CrudSelection, f: CrudFieldInfo) -> bool {
    match s {
        CrudSelection::PrimaryKey => f.is_primary_key,
        CrudSelection::Stored => !f.skip,
        CrudSelection::Writable => !f.auto_generated && !f.readonly && !f.skip,
        CrudSelection::Readable => !f.writeonly && !f.skip,
        CrudSelection::AutoGenerated => f.auto_generated && !f.skip,
    }
}

/// The fields of `fs` in selection `s`, in declaration order.
pub open spec fn crud_select(fs: Seq<CrudFieldInfo>, s: CrudSelection) -> Seq<CrudFieldInfo>
    decreases fs.len(),
{
    if fs.len() == 0 {
        Seq::empty()
    } else if crud_selects(s, fs.last()) {
        crud_select(fs.drop_last(), s).push(fs.last())
    } else {
        crud_select(fs.drop_last(), s)
    }
}

/// `snake_case` of a PascalCase name: an underscore before every capital
/// but the first character, capitals lower-cased.
pub open spec fn snake(s: Seq<char>) -> Seq<char>
    decreases s.len(),
{
    if s.len() == 0 {
        s
    } else {
        let c = s.last();
        if 'A' <= c && c <= 'Z' {
            if s.len() > 1 {
                snake(s.drop_last()).push('_').push(((c as u32) + 32) as char)
            } else {
                seq![((c as u32) + 32) as char]
            }
        } else {
            snake(s.drop_last()).push(c)
        }
    }
}

impl CrudEntityInfo {
    pub open spec fn sel(self, s: CrudSelection) -> Seq<CrudFieldInfo> {
        crud_select(self.fields@, s)
    }

    /// The REST path: the configured one, or `/` and the pluralised
    /// snake_case name.
    pub open spec fn path_spec(self) -> Seq<char> {
        match self.config.path {
            Some(p) => p@,
            None => "/"@ + snake(self.name@) + "s"@,
        }
    }

    fn fields_in(&self, s: CrudSelection) -> (r: Vec<&CrudFieldInfo>)
        ensures
            r@.len() == self.sel(s).len(),
            forall|i: int| 0 <= i < r@.len() ==> *r@[i] == #[trigger] self.sel(s)[i],
    {
        let mut r: Vec<&CrudFieldInfo> = Vec::new();
        let mut i: usize = 0;
        while i < self.fields.len()
            invariant
                0 <= i <= self.fields@.len(),
                r@.len() == crud_select(self.fields@.take(i as int), s).len(),
                forall|k: int| 0 <= k < r@.len() ==> *r@[k] == #[trigger] crud_select(self.fields@.take(i as int), s)[k],
            decreases self.fields@.len() - i,
        {
            proof {
                assert(self.fields@.take(i + 1).drop_last() =~= self.fields@.take(i as int));
            }
            let f = &self.fields[i];
            let keep = match s {
                CrudSelection::PrimaryKey => f.is_primary_key,
                CrudSelection::Stored => !f.skip,
                CrudSelection::Writable => !f.auto_generated && !f.readonly && !f.skip,
                CrudSelection::Readable => !f.writeonly && !f.skip,
                CrudSelection::AutoGenerated => f.auto_generated && !f.skip,
            };
            if keep {
                r.push(f);
            }
            i = i + 1;
        }
        assert(self.fields@.take(self.fields@.len() as int) =~= self.fields@);
        r
    }

    /// Primary-key fields.
    pub fn pk_fields(&self) -> (r: Vec<&CrudFieldInfo>)
        ensures
            r@.len() == self.sel(CrudSelection::PrimaryKey).len(),
            forall|i: int| 0 <= i < r@.len() ==> *r@[i] == #[trigger] self.sel(CrudSelection::PrimaryKey)[i],
    {
        self.fields_in(CrudSelection::PrimaryKey)
    }

    /// Stored fields.
    pub fn db_fields(&self) -> (r: Vec<&CrudFieldInfo>)
        ensures
            r@.len() == self.sel(CrudSelection::Stored).len(),
            forall|i: int| 0 <= i < r@.len() ==> *r@[i] == #[trigger] self.sel(CrudSelection::Stored)[i],
    {
        self.fields_in(CrudSelection::Stored)
    }

    /// Fields of the Create DTO.
    pub fn create_fields(&self) -> (r: Vec<&CrudFieldInfo>)
        ensures
            r@.len() == self.sel(CrudSelection::Writable).len(),
            forall|i: int| 0 <= i < r@.len() ==> *r@[i] == #[trigger] self.sel(CrudSelection::Writable)[i],
    {
        self.fields_in(CrudSelection::Writable)
    }

    /// Fields of the Update DTO: the same as the Create DTO's.
    pub fn update_fields(&self) -> (r: Vec<&CrudFieldInfo>)
        ensures
            r@.len() == self.sel(CrudSelection::Writable).len(),
            forall|i: int| 0 <= i < r@.len() ==> *r@[i] == #[trigger] self.sel(CrudSelection::Writable)[i],
    {
        self.fields_in(CrudSelection::Writable)
    }

    /// Fields of the Response DTO.
    pub fn response_fields(&self) -> (r: Vec<&CrudFieldInfo>)
        ensures
            r@.len() == self.sel(CrudSelection::Readable).len(),
            forall|i: int| 0 <= i < r@.len() ==> *r@[i] == #[trigger] self.sel(CrudSelection::Readable)[i],
    {
        self.fields_in(CrudSelection::Readable)
    }

    /// Stored auto-generated fields.
    pub fn auto_generated_fields(&self) -> (r: Vec<&CrudFieldInfo>)
        ensures
            r@.len() == self.sel(CrudSelection::AutoGenerated).len(),
            forall|i: int| 0 <= i < r@.len() ==> *r@[i] == #[trigger] self.sel(CrudSelection::AutoGenerated)[i],
    {
        self.fields_in(CrudSelection::AutoGenerated)
    }

    /// The struct name in snake_case.
    pub fn snake_case_name(&self) -> (r: String)
        ensures
            r@ == snake(self.name@),
    {
        let n = self.name.unicode_len();
        let mut r = String::new();
        let mut i: usize = 0;
        while i < n
            invariant
                n == self.name@.len(),
                0 <= i <= n,
                r@ == snake(self.name@.take(i as int)),
            decreases n - i,
        {
            let c = self.name.get_char(i);
            proof {
                assert(self.name@.take(i + 1).drop_last() =~= self.name@.take(i as int));
            }
            if 'A' <= c && c <= 'Z' {
                if i > 0 {
                    push_char(&mut r, '_');
                } else {
                    assert(r@ =~= Seq::<char>::empty());
                }
                push_char(&mut r, ((c as u8) + 32) as char);
            } else {
                push_char(&mut r, c);
            }
            i = i + 1;
        }
        assert(self.name@.take(n as int) =~= self.name@);
        r
    }

    /// The REST path of the entity.
    pub fn effective_path(&self) -> (r: String)
        ensures
            r@ == self.path_spec(),
    {
        match &self.config.path {
            Some(p) => p.clone(),
            None => {
                let mut r = String::from_str("/");
                r.append(self.snake_case_name().as_str());
                r.append("s");
                r
            }
        }
    }
}

// ----- reading the entity -----

/// The configuration the items of `#[crud(..)]` from `i` on give, starting
/// from `acc`: the items, separated by commas, are `path = "<path>"`,
/// `read_only`, `skip_create` and `skip_delete`, later ones overriding
/// earlier ones; `None` when an item is malformed.
pub open spec fn config_parse(ts: Seq<ArgToken>, i: int, acc: CrudConfigView) -> Option<CrudConfigView>
    decreases ts.len() - i,
{
    if i >= ts.len() {
        Some(acc)
    } else {
        match ts[i] {
            ArgToken::Ident(n) => {
                let next = if n@ == "read_only"@ {
                    Some((CrudConfigView { read_only: true, ..acc }, i + 1))
                } else if n@ == "skip_create"@ {
                    Some((CrudConfigView { skip_create: true, ..acc }, i + 1))
                } else if n@ == "skip_delete"@ {
                    Some((CrudConfigView { skip_delete: true, ..acc }, i + 1))
                } else if n@ == "path"@ && i + 1 < ts.len() && ts[i + 1] == ArgToken::Punct('=')
                    && lit_at(ts, i + 2) is Some {
                    Some((CrudConfigView { path: lit_at(ts, i + 2), ..acc }, i + 3))
                } else {
                    None
                };
                match next {
                    None => None,
                    Some((acc2, j)) => if j >= ts.len() {
                        Some(acc2)
                    } else if ts[j] == ArgToken::Punct(',') {
                        config_parse(ts, j + 1, acc2)
                    } else {
                        None
                    },
                }
            },
            _ => None,
        }
    }
}

/// The configuration `#[crud(..)]` with arguments `ts` gives.
pub open spec fn crud_config_of(ts: Seq<ArgToken>) -> Option<CrudConfigView> {
    config_parse(ts, 0, default_config())
}

/// The abstract value of a CRUD configuration.
pub struct CrudConfigView {
    pub path: Option<Seq<char>>,
    pub read_only: bool,
    pub skip_create: bool,
    pub skip_delete: bool,
}

pub open spec fn view_config(c: CrudConfig) -> CrudConfigView {
    CrudConfigView { path: opt_view(c.path), read_only: c.read_only, skip_create: c.skip_create, skip_delete: c.skip_delete }
}

pub open spec fn default_config() -> CrudConfigView {
    CrudConfigView { path: None, read_only: false, skip_create: false, skip_delete: false }
}

pub open spec fn msg_bad_crud_item() -> Seq<char> {
    "expected `path = \"...\"`, `read_only`, `skip_create` or `skip_delete`"@
}

/// Parses the arguments of `#[crud(..)]`; later items override earlier ones.
pub fn parse_crud_config(ts: &Vec<ArgToken>) -> (r: Result<CrudConfig, MacroError>)
    ensures
        match crud_config_of(ts@) {
            Some(v) => r matches Ok(c) && view_config(c) == v,
            None => r matches Err(e) && e.site == ErrorSite::Args && e.message@ == msg_bad_crud_item(),
        },
{
    let mut c = CrudConfig { path: None, read_only: false, skip_create: false, skip_delete: false };
    let mut i: usize = 0;
    while i < ts.len()
        invariant
            0 <= i <= ts@.len(),
            config_parse(ts@, i as int, view_config(c)) == crud_config_of(ts@),
        decreases ts@.len() - i,
    {
        let ghost acc = view_config(c);
        let ghost i0 = i as int;
        let bad = MacroError {
            site: ErrorSite::Args,
            message: String::from_str("expected `path = \"...\"`, `read_only`, `skip_create` or `skip_delete`"),
        };
        let n = match &ts[i] {
            ArgToken::Ident(n) => n,
            _ => return Err(bad),
        };
        if crate::syntax::str_eq(n.as_str(), "read_only") {
            c.read_only = true;
            i = i + 1;
        } else if crate::syntax::str_eq(n.as_str(), "skip_create") {
            c.skip_create = true;
            i = i + 1;
        } else if crate::syntax::str_eq(n.as_str(), "skip_delete") {
            c.skip_delete = true;
            i = i + 1;
        } else if crate::syntax::str_eq(n.as_str(), "path") && i + 1 < ts.len()
            && matches!(ts[i + 1], ArgToken::Punct('=')) {
            match crate::attrs::lit_token_at(ts, i + 2) {
                Some(p) => {
                    c.path = Some(p);
                    i = i + 3;
                }
                None => return Err(bad),
            }
        } else {
            return Err(bad);
        }
        if i < ts.len() {
            if matches!(ts[i], ArgToken::Punct(',')) {
                i = i + 1;
            } else {
                return Err(bad);
            }
        }
    }
    Ok(c)
}

/// Whether `fi` is the CRUD field read from `f`.
pub open spec fn reads_crud_field(fi: CrudFieldInfo, f: crate::syntax::FieldInput) -> bool {
    &&& fi.ident@ == f.ident@
    &&& fi.ty == f.ty
    &&& fi.is_primary_key == has_attr_spec(f.attrs@, "primary_key"@)
    &&& fi.auto_generated == has_attr_spec(f.attrs@, "auto_generated"@)
    &&& fi.readonly == has_attr_spec(f.attrs@, "readonly"@)
    &&& fi.writeonly == has_attr_spec(f.attrs@, "writeonly"@)
    &&& fi.skip == has_attr_spec(f.attrs@, "skip"@)
}

/// Reads a CRUD entity: the table from `#[table("..")]`, and per field the
/// `#[primary_key]`, `#[auto_generated]`, `#[readonly]`, `#[writeonly]`
/// and `#[skip]` markers.
pub fn parse_crud_entity(input: &StructInput, config: CrudConfig) -> (r: Result<CrudEntityInfo, MacroError>)
    ensures
        find_lit_arg(input.attrs@, "table"@) is None ==> (r matches Err(e) && e.site == ErrorSite::Input
            && e.message@ == crate::entity::msg_table_required()),
        find_lit_arg(input.attrs@, "table"@) is Some ==> match input.data {
            DataShape::Named(fs) => (r matches Ok(e) && {
                &&& e.name@ == input.ident@
                &&& e.table@ == find_lit_arg(input.attrs@, "table"@)->Some_0
                &&& e.config == config
                &&& e.fields@.len() == fs@.len()
                &&& forall|i: int| 0 <= i < fs@.len() ==> reads_crud_field(#[trigger] e.fields@[i], fs@[i])
            }),
            _ => (r matches Err(e) && e.site == ErrorSite::Input
                && e.message@ == msg_crud_not_named()),
        },
{
    let table = match lit_arg_of(&input.attrs, "table") {
        Some(t) => t,
        None => {
            return Err(MacroError {
                site: ErrorSite::Input,
                message: String::from_str("#[table(\"name\")] attribute is required"),
            });
        }
    };
    match &input.data {
        DataShape::Named(fs) => {
            let mut fields: Vec<CrudFieldInfo> = Vec::new();
            let mut i: usize = 0;
            while i < fs.len()
                invariant
                    0 <= i <= fs@.len(),
                    fields@.len() == i,
                    forall|k: int| 0 <= k < i ==> reads_crud_field(#[trigger] fields@[k], fs@[k]),
                decreases fs@.len() - i,
            {
                let f = &fs[i];
                fields.push(CrudFieldInfo {
                    ident: f.ident.clone(),
                    ty: f.ty.copy(),
                    is_primary_key: has_attr(&f.attrs, "primary_key"),
                    auto_generated: has_attr(&f.attrs, "auto_generated"),
                    readonly: has_attr(&f.attrs, "readonly"),
                    writeonly: has_attr(&f.attrs, "writeonly"),
                    skip: has_attr(&f.attrs, "skip"),
                });
                i = i + 1;
            }
            Ok(CrudEntityInfo { name: input.ident.clone(), table, config, fields })
        }
        _ => Err(MacroError {
            site: ErrorSite::Input,
            message: String::from_str("Crud can only be derived for structs with named fields"),
        }),
    }
}

pub open spec fn msg_crud_not_named() -> Seq<char> {
    "Crud can only be derived for structs with named fields"@
}

// ----- DTOs -----

/// A generated struct: its name and fields (name, type text).
pub struct DtoPlan {
    pub name: String,
    pub fields: Vec<(String, String)>,
}

/// The type of an Update DTO field: the field's type when its text starts
/// with `Option`, `Option<..>` around it otherwise.
pub open spec fn update_type(t: Seq<char>) -> Seq<char> {
    if starts(t, "Option"@) { t } else { "Option<"@ + t + ">"@ }
}

/// Whether a DTO lists `fs` with their own types.
pub open spec fn lists(d: Seq<(String, String)>, fs: Seq<CrudFieldInfo>) -> bool {
    d.len() == fs.len() && forall|i: int| 0 <= i < fs.len()
        ==> (#[trigger] d[i]).0@ == fs[i].ident@ && d[i].1@ == fs[i].ty.text@
}

/// Whether `d` is the Create DTO of `e`: `<Name>Create` with the writable
/// fields, absent when there are none.
pub open spec fn create_dto_of(d: Option<DtoPlan>, e: CrudEntityInfo) -> bool {
    if e.sel(CrudSelection::Writable).len() == 0 {
        d is None
    } else {
        d matches Some(p) && p.name@ == e.name@ + "Create"@ && lists(p.fields@, e.sel(CrudSelection::Writable))
    }
}

/// Whether `d` is the Update DTO of `e`: `<Name>Update` with the writable
/// fields, each optional, absent when there are none.
pub open spec fn update_dto_of(d: Option<DtoPlan>, e: CrudEntityInfo) -> bool {
    if e.sel(CrudSelection::Writable).len() == 0 {
        d is None
    } else {
        d matches Some(p) && p.name@ == e.name@ + "Update"@
            && p.fields@.len() == e.sel(CrudSelection::Writable).len()
            && forall|i: int| 0 <= i < p.fields@.len() ==> (#[trigger] p.fields@[i]).0@
                == e.sel(CrudSelection::Writable)[i].ident@
                && p.fields@[i].1@ == update_type(e.sel(CrudSelection::Writable)[i].ty.text@)
    }
}

/// Whether `d` is the Query DTO of `e`: `<Name>Query` with the optional
/// `limit` and `offset`.
pub open spec fn query_dto_of(d: DtoPlan, e: CrudEntityInfo) -> bool {
    &&& d.name@ == e.name@ + "Query"@
    &&& d.fields@.len() == 2
    &&& d.fields@[0].0@ == "limit"@ && d.fields@[0].1@ == "Option<i64>"@
    &&& d.fields@[1].0@ == "offset"@ && d.fields@[1].1@ == "Option<i64>"@
}

/// Whether `d` is the Response DTO of `e`: `<Name>Response` with the
/// readable fields.
pub open spec fn response_dto_of(d: DtoPlan, e: CrudEntityInfo) -> bool {
    d.name@ == e.name@ + "Response"@ && lists(d.fields@, e.sel(CrudSelection::Readable))
}

fn dto_fields(fs: &Vec<&CrudFieldInfo>, optional: bool) -> (r: Vec<(String, String)>)
    ensures
        r@.len() == fs@.len(),
        forall|i: int| 0 <= i < fs@.len() ==> (#[trigger] r@[i]).0@ == fs@[i].ident@
            && r@[i].1@ == (if optional { update_type(fs@[i].ty.text@) } else { fs@[i].ty.text@ }),
{
    let mut r: Vec<(String, String)> = Vec::new();
    let mut i: usize = 0;
    while i < fs.len()
        invariant
            0 <= i <= fs@.len(),
            r@.len() == i,
            forall|k: int| 0 <= k < i ==> (#[trigger] r@[k]).0@ == fs@[k].ident@
                && r@[k].1@ == (if optional { update_type(fs@[k].ty.text@) } else { fs@[k].ty.text@ }),
        decreases fs@.len() - i,
    {
        let f = fs[i];
        let ty = if optional && !str_starts_with(f.ty.text.as_str(), "Option") {
            let mut t = String::from_str("Option<");
            t.append(f.ty.text.as_str());
            t.append(">");
            t
        } else {
            f.ty.text.clone()
        };
        r.push((f.ident.clone(), ty));
        i = i + 1;
    }
    r
}

fn suffixed(name: &String, suffix: &str) -> (r: String)
    ensures
        r@ == name@ + suffix@,
{
    let mut r = name.clone();
    r.append(suffix);
    r
}

/// `<Name>Create` with the writable fields; none when there are none.
pub fn generate_create_dto(entity: &CrudEntityInfo) -> (r: Option<DtoPlan>)
    ensures
        create_dto_of(r, *entity),
{
    let fields = entity.create_fields();
    if fields.len() == 0 {
        return None;
    }
    let fs = dto_fields(&fields, false);
    Some(DtoPlan { name: suffixed(&entity.name, "Create"), fields: fs })
}

/// `<Name>Update` with the writable fields, each optional; none when
/// there are none.
pub fn generate_update_dto(entity: &CrudEntityInfo) -> (r: Option<DtoPlan>)
    ensures
        update_dto_of(r, *entity),
{
    let fields = entity.update_fields();
    if fields.len() == 0 {
        return None;
    }
    let fs = dto_fields(&fields, true);
    Some(DtoPlan { name: suffixed(&entity.name, "Update"), fields: fs })
}

/// `<Name>Query`: the pagination parameters `limit` and `offset`.
pub fn generate_query_dto(entity: &CrudEntityInfo) -> (r: DtoPlan)
    ensures
        query_dto_of(r, *entity),
{
    let fields = vec![
        (String::from_str("limit"), String::from_str("Option<i64>")),
        (String::from_str("offset"), String::from_str("Option<i64>")),
    ];
    DtoPlan { name: suffixed(&entity.name, "Query"), fields }
}

/// `<Name>Response` with the readable fields.
pub fn generate_response_dto(entity: &CrudEntityInfo) -> (r: DtoPlan)
    ensures
        response_dto_of(r, *entity),
{
    let fields = entity.response_fields();
    let fs = dto_fields(&fields, false);
    DtoPlan { name: suffixed(&entity.name, "Response"), fields: fs }
}

/// How a stored field is set when a Create DTO becomes an entity.
pub enum Assignment {
    /// From the `into_entity` parameter of the same name.
    Param(String),
    /// `Default::default()`.
    Default(String),
    /// From the Create DTO's field of the same name.
    FromCreate(String),
}

pub open spec fn assigns(a: Assignment, f: CrudFieldInfo) -> bool {
    if f.auto_generated {
        a matches Assignment::Param(n) && n@ == f.ident@
    } else if f.readonly || f.skip {
        a matches Assignment::Default(n) && n@ == f.ident@
    } else {
        a matches Assignment::FromCreate(n) && n@ == f.ident@
    }
}

/// `<Name>Create::into_entity`: its parameters (the auto-generated fields)
/// and how each stored field is set.
pub struct IntoEntityPlan {
    pub params: Vec<(String, String)>,
    pub assignments: Vec<Assignment>,
}

/// The conversions: entity to Response (the readable fields) and, when the
/// Create DTO exists, `into_entity`.
pub struct ConversionsPlan {
    pub response_fields: Vec<String>,
    pub into_entity: Option<IntoEntityPlan>,
}

/// Whether `p` is `<Name>Create::into_entity` of `e`: the auto-generated
/// fields as parameters and an assignment per stored field; absent when
/// there is no Create DTO.
pub open spec fn into_entity_of(p: Option<IntoEntityPlan>, e: CrudEntityInfo) -> bool {
    if e.sel(CrudSelection::Writable).len() == 0 {
        p is None
    } else {
        p matches Some(q) && lists(q.params@, e.sel(CrudSelection::AutoGenerated))
            && q.assignments@.len() == e.sel(CrudSelection::Stored).len()
            && forall|i: int| 0 <= i < q.assignments@.len()
                ==> assigns(#[trigger] q.assignments@[i], e.sel(CrudSelection::Stored)[i])
    }
}

/// Whether `c` holds the conversions of `e`: the Response built from the
/// readable fields, and `into_entity`.
pub open spec fn conversions_of(c: ConversionsPlan, e: CrudEntityInfo) -> bool {
    &&& c.response_fields@.len() == e.sel(CrudSelection::Readable).len()
    &&& forall|i: int| 0 <= i < c.response_fields@.len()
        ==> (#[trigger] c.response_fields@[i])@ == e.sel(CrudSelection::Readable)[i].ident@
    &&& into_entity_of(c.into_entity, e)
}

/// `<Name>Create::into_entity`: present when the Create DTO is.
pub fn generate_entity_from_create(entity: &CrudEntityInfo) -> (r: Option<IntoEntityPlan>)
    ensures
        into_entity_of(r, *entity),
{
    let create = entity.create_fields();
    if create.len() == 0 {
        return None;
    }
    let auto = entity.auto_generated_fields();
    let params = dto_fields(&auto, false);
    let db = entity.db_fields();
    let mut assignments: Vec<Assignment> = Vec::new();
    let mut i: usize = 0;
    while i < db.len()
        invariant
            0 <= i <= db@.len(),
            assignments@.len() == i,
            forall|k: int| 0 <= k < i ==> assigns(#[trigger] assignments@[k], *db@[k]),
        decreases db@.len() - i,
    {
        let f = db[i];
        let a = if f.auto_generated {
            Assignment::Param(f.ident.clone())
        } else if f.readonly || f.skip {
            Assignment::Default(f.ident.clone())
        } else {
            Assignment::FromCreate(f.ident.clone())
        };
        assignments.push(a);
        i = i + 1;
    }
    Some(IntoEntityPlan { params, assignments })
}

/// The entity-to-Response conversion and `into_entity`.
pub fn generate_conversions(entity: &CrudEntityInfo) -> (r: ConversionsPlan)
    ensures
        conversions_of(r, *entity),
{
    let fields = entity.response_fields();
    let mut names: Vec<String> = Vec::new();
    let mut i: usize = 0;
    while i < fields.len()
        invariant
            0 <= i <= fields@.len(),
            names@.len() == i,
            forall|k: int| 0 <= k < i ==> (#[trigger] names@[k])@ == fields@[k].ident@,
        decreases fields@.len() - i,
    {
        names.push(fields[i].ident.clone());
        i = i + 1;
    }
    ConversionsPlan { response_fields: names, into_entity: generate_entity_from_create(entity) }
}

/// All DTOs and conversions of an entity.
pub struct DtosPlan {
    pub create: Option<DtoPlan>,
    pub update: Option<DtoPlan>,
    pub query: DtoPlan,
    pub response: DtoPlan,
    pub conversions: ConversionsPlan,
}

/// Whether `d` holds all DTOs and conversions of `e`.
pub open spec fn dtos_of(d: DtosPlan, e: CrudEntityInfo) -> bool {
    &&& create_dto_of(d.create, e)
    &&& update_dto_of(d.update, e)
    &&& query_dto_of(d.query, e)
    &&& response_dto_of(d.response, e)
    &&& conversions_of(d.conversions, e)
}

/// All DTOs and conversions of an entity.
pub fn generate_dtos(entity: &CrudEntityInfo) -> (r: DtosPlan)
    ensures
        dtos_of(r, *entity),
{
    DtosPlan {
        create: generate_create_dto(entity),
        update: generate_update_dto(entity),
        query: generate_query_dto(entity),
        response: generate_response_dto(entity),
        conversions: generate_conversions(entity),
    }
}

// ----- routes -----

/// The generated REST handlers.
#[derive(PartialEq, Eq, Structural, Clone, Copy, Debug)]
pub enum HandlerKind {
    /// `GET /path`: a page of entities.
    List,
    /// `GET /path/{id}`: one entity.
    Get,
    /// `POST /path`: create.
    Create,
    /// `PUT /path/{id}`: full update.
    Put,
    /// `PATCH /path/{id}`: partial update.
    Patch,
    /// `DELETE /path/{id}`: delete.
    Delete,
}

/// The value given for an auto-generated field when a handler builds an entity.
#[derive(PartialEq, Eq, Structural, Clone, Copy, Debug)]
pub enum AutoValue {
    /// `uuid::Uuid::new_v4()`.
    NewUuid,
    /// `Default::default()`.
    Default,
    /// The id from the request path.
    PathId,
}

/// How a PATCH handler applies a field of the Update DTO: replace when the
/// optional field is `Some`, or unwrap the `Some` into a plain field.
pub enum PatchUpdate {
    ReplaceIfSome(String),
    UnwrapSome(String),
}

/// One generated handler and its registration.
pub struct HandlerPlan {
    pub kind: HandlerKind,
    pub handler_name: String,
    pub path: String,
    pub method: String,
    pub id_type: Option<String>,
    pub auto_values: Option<Vec<AutoValue>>,
    pub patch_updates: Vec<PatchUpdate>,
}

/// The handlers generated for an entity, in registration order, with the
/// entity's snake_case name their messages use.
pub struct RoutesPlan {
    pub path: String,
    pub snake_name: String,
    pub handlers: Vec<HandlerPlan>,
}

/// Whether a type's last path segment is `Uuid`.
pub open spec fn is_uuid(ty: TypeInfo) -> bool {
    ty.last_segment matches Some(s) && s@ == "Uuid"@
}

/// Whether a type's last path segment is `Uuid`.
pub fn type_is_uuid(ty: &TypeInfo) -> (r: bool)
    ensures
        r == is_uuid(*ty),
{
    match &ty.last_segment {
        Some(s) => crate::syntax::str_eq(s.as_str(), "Uuid"),
        None => false,
    }
}

/// The type of the `{id}` path parameter.
pub open spec fn id_type_spec(e: CrudEntityInfo) -> Seq<char> {
    if e.sel(CrudSelection::PrimaryKey).len() == 1 {
        e.sel(CrudSelection::PrimaryKey)[0].ty.text@
    } else {
        "String"@
    }
}

/// The `{id}` path parameter type: the key field's type for one key
/// field, `String` otherwise.
pub fn pk_id_type(pk_fields: &Vec<&CrudFieldInfo>) -> (r: String)
    ensures
        pk_fields@.len() == 1 ==> r@ == pk_fields@[0].ty.text@,
        pk_fields@.len() != 1 ==> r@ == "String"@,
{
    if pk_fields.len() == 1 {
        pk_fields[0].ty.text.clone()
    } else {
        String::from_str("String")
    }
}

/// The handlers generated, in order: list and get always; create unless
/// `read_only` or `skip_create`; put and patch unless `read_only`; delete
/// unless `read_only` or `skip_delete`.
pub open spec fn handler_kinds(c: CrudConfig) -> Seq<HandlerKind> {
    seq![HandlerKind::List, HandlerKind::Get]
        + (if !c.read_only && !c.skip_create { seq![HandlerKind::Create] } else { Seq::empty() })
        + (if !c.read_only { seq![HandlerKind::Put, HandlerKind::Patch] } else { Seq::empty() })
        + (if !c.read_only && !c.skip_delete { seq![HandlerKind::Delete] } else { Seq::empty() })
}

pub open spec fn op_name(k: HandlerKind) -> Seq<char> {
    match k {
        HandlerKind::List => "list"@,
        HandlerKind::Get => "get"@,
        HandlerKind::Create => "create"@,
        HandlerKind::Put => "update"@,
        HandlerKind::Patch => "patch"@,
        HandlerKind::Delete => "delete"@,
    }
}

pub open spec fn method_name(k: HandlerKind) -> Seq<char> {
    match k {
        HandlerKind::List | HandlerKind::Get => "GET"@,
        HandlerKind::Create => "POST"@,
        HandlerKind::Put => "PUT"@,
        HandlerKind::Patch => "PATCH"@,
        HandlerKind::Delete => "DELETE"@,
    }
}

pub open spec fn on_collection(k: HandlerKind) -> bool {
    k == HandlerKind::List || k == HandlerKind::Create
}

/// The value a create handler gives an auto-generated field.
pub open spec fn create_value(f: CrudFieldInfo) -> AutoValue {
    if is_uuid(f.ty) { AutoValue::NewUuid } else { AutoValue::Default }
}

/// The value a put handler gives an auto-generated field.
pub open spec fn put_value(f: CrudFieldInfo) -> AutoValue {
    if f.is_primary_key { AutoValue::PathId } else { create_value(f) }
}

/// The arguments of `into_entity` in a create or put handler (`None`: no
/// auto-generated field, `into_entity()`).
pub open spec fn auto_values_spec(e: CrudEntityInfo, k: HandlerKind) -> Option<Seq<AutoValue>> {
    let auto = e.sel(CrudSelection::AutoGenerated);
    if auto.len() == 0 {
        None
    } else if k == HandlerKind::Create {
        Some(Seq::new(auto.len(), |i: int| create_value(auto[i])))
    } else if auto.len() == 1 && auto[0].is_primary_key {
        Some(seq![AutoValue::PathId])
    } else {
        Some(Seq::new(auto.len(), |i: int| put_value(auto[i])))
    }
}

/// How a patch handler applies a writable field.
pub open spec fn patches(u: PatchUpdate, f: CrudFieldInfo) -> bool {
    if starts(f.ty.text@, "Option"@) {
        u matches PatchUpdate::ReplaceIfSome(n) && n@ == f.ident@
    } else {
        u matches PatchUpdate::UnwrapSome(n) && n@ == f.ident@
    }
}

/// Whether `h` is the handler of kind `k` for entity `e` under `path`.
pub open spec fn describes(h: HandlerPlan, e: CrudEntityInfo, k: HandlerKind, path: Seq<char>) -> bool {
    &&& h.kind == k
    &&& h.handler_name@ == "__crud_"@ + snake(e.name@) + "_"@ + op_name(k)
    &&& h.path@ == (if on_collection(k) { path } else { path + "/{id}"@ })
    &&& h.method@ == method_name(k)
    &&& (if k == HandlerKind::List || k == HandlerKind::Create {
        h.id_type is None
    } else {
        h.id_type matches Some(t) && t@ == id_type_spec(e)
    })
    &&& (if k == HandlerKind::Create || k == HandlerKind::Put {
        match auto_values_spec(e, k) {
            None => h.auto_values matches Some(v) && v@.len() == 0,
            Some(vs) => h.auto_values matches Some(v) && v@ == vs,
        }
    } else {
        h.auto_values is None
    })
    &&& (if k == HandlerKind::Patch {
        h.patch_updates@.len() == e.sel(CrudSelection::Writable).len()
            && forall|i: int| 0 <= i < h.patch_updates@.len()
                ==> patches(#[trigger] h.patch_updates@[i], e.sel(CrudSelection::Writable)[i])
    } else {
        h.patch_updates@.len() == 0
    })
}

fn auto_values(entity: &CrudEntityInfo, kind: HandlerKind) -> (r: Vec<AutoValue>)
    requires
        kind == HandlerKind::Create || kind == HandlerKind::Put,
    ensures
        match auto_values_spec(*entity, kind) {
            None => r@.len() == 0,
            Some(vs) => r@ == vs,
        },
{
    let auto = entity.auto_generated_fields();
    let mut r: Vec<AutoValue> = Vec::new();
    if auto.len() == 0 {
        return r;
    }
    if kind == HandlerKind::Put && auto.len() == 1 && auto[0].is_primary_key {
        r.push(AutoValue::PathId);
        assert(r@ =~= seq![AutoValue::PathId]);
        return r;
    }
    let mut i: usize = 0;
    while i < auto.len()
        invariant
            kind == HandlerKind::Create || kind == HandlerKind::Put,
            0 <= i <= auto@.len(),
            r@.len() == i,
            forall|k: int| 0 <= k < i ==> #[trigger] r@[k]
                == (if kind == HandlerKind::Create { create_value(*auto@[k]) } else { put_value(*auto@[k]) }),
        decreases auto@.len() - i,
    {
        let f = auto[i];
        let v = if kind == HandlerKind::Put && f.is_primary_key {
            AutoValue::PathId
        } else if type_is_uuid(&f.ty) {
            AutoValue::NewUuid
        } else {
            AutoValue::Default
        };
        r.push(v);
        i = i + 1;
    }
    let ghost a = entity.sel(CrudSelection::AutoGenerated);
    if kind == HandlerKind::Create {
        assert(r@ =~= Seq::new(a.len(), |i: int| create_value(a[i])));
    } else {
        assert(r@ =~= Seq::new(a.len(), |i: int| put_value(a[i])));
    }
    r
}

fn patch_updates(entity: &CrudEntityInfo) -> (r: Vec<PatchUpdate>)
    ensures
        r@.len() == entity.sel(CrudSelection::Writable).len(),
        forall|i: int| 0 <= i < r@.len() ==> patches(#[trigger] r@[i], entity.sel(CrudSelection::Writable)[i]),
{
    let fields = entity.update_fields();
    let mut r: Vec<PatchUpdate> = Vec::new();
    let mut i: usize = 0;
    while i < fields.len()
        invariant
            0 <= i <= fields@.len(),
            fields@.len() == entity.sel(CrudSelection::Writable).len(),
            forall|k: int| 0 <= k < fields@.len() ==> *fields@[k] == #[trigger] entity.sel(CrudSelection::Writable)[k],
            r@.len() == i,
            forall|k: int| 0 <= k < i ==> patches(#[trigger] r@[k], *fields@[k]),
        decreases fields@.len() - i,
    {
        let f = fields[i];
        if str_starts_with(f.ty.text.as_str(), "Option") {
            r.push(PatchUpdate::ReplaceIfSome(f.ident.clone()));
        } else {
            r.push(PatchUpdate::UnwrapSome(f.ident.clone()));
        }
        i = i + 1;
    }
    r
}

/// One handler of the entity.
pub fn generate_handler(entity: &CrudEntityInfo, path: &String, kind: HandlerKind) -> (r: HandlerPlan)
    ensures
        describes(r, *entity, kind, path@),
{
    let mut handler_name = String::from_str("__crud_");
    handler_name.append(entity.snake_case_name().as_str());
    handler_name.append("_");
    let (op, method) = match kind {
        HandlerKind::List => ("list", "GET"),
        HandlerKind::Get => ("get", "GET"),
        HandlerKind::Create => ("create", "POST"),
        HandlerKind::Put => ("update", "PUT"),
        HandlerKind::Patch => ("patch", "PATCH"),
        HandlerKind::Delete => ("delete", "DELETE"),
    };
    handler_name.append(op);
    let on_collection = kind == HandlerKind::List || kind == HandlerKind::Create;
    let mut route = path.clone();
    if !on_collection {
        route.append("/{id}");
    }
    let id_type = if on_collection {
        None
    } else {
        let pk = entity.pk_fields();
        Some(pk_id_type(&pk))
    };
    let auto = if kind == HandlerKind::Create || kind == HandlerKind::Put {
        Some(auto_values(entity, kind))
    } else {
        None
    };
    let updates = if kind == HandlerKind::Patch { patch_updates(entity) } else { Vec::new() };
    HandlerPlan {
        kind,
        handler_name,
        path: route,
        method: String::from_str(method),
        id_type,
        auto_values: auto,
        patch_updates: updates,
    }
}

/// Whether `r` holds the handlers of `e`: those of `handler_kinds`, in
/// order, all under the entity's path.
pub open spec fn routes_of(r: RoutesPlan, e: CrudEntityInfo) -> bool {
    &&& r.path@ == e.path_spec()
    &&& r.snake_name@ == snake(e.name@)
    &&& r.handlers@.len() == handler_kinds(e.config).len()
    &&& forall|i: int| 0 <= i < r.handlers@.len()
        ==> describes(#[trigger] r.handlers@[i], e, handler_kinds(e.config)[i], e.path_spec())
}

/// The handlers of `handler_kinds`, all under the
/// entity's path.
pub fn generate_routes(entity: &CrudEntityInfo) -> (r: RoutesPlan)
    ensures
        routes_of(r, *entity),
{
    let path = entity.effective_path();
    let mut kinds: Vec<HandlerKind> = Vec::new();
    kinds.push(HandlerKind::List);
    kinds.push(HandlerKind::Get);
    let c = &entity.config;
    if !c.read_only && !c.skip_create {
        kinds.push(HandlerKind::Create);
    }
    if !c.read_only {
        kinds.push(HandlerKind::Put);
        kinds.push(HandlerKind::Patch);
    }
    if !c.read_only && !c.skip_delete {
        kinds.push(HandlerKind::Delete);
    }
    assert(kinds@ =~= handler_kinds(entity.config));
    let mut handlers: Vec<HandlerPlan> = Vec::new();
    let mut i: usize = 0;
    while i < kinds.len()
        invariant
            0 <= i <= kinds@.len(),
            path@ == entity.path_spec(),
            handlers@.len() == i,
            forall|k: int| 0 <= k < i ==> describes(#[trigger] handlers@[k], *entity, kinds@[k], path@),
        decreases kinds@.len() - i,
    {
        handlers.push(generate_handler(entity, &path, kinds[i]));
        i = i + 1;
    }
    RoutesPlan { path, snake_name: entity.snake_case_name(), handlers }
}

/// The OpenAPI operation id of a handler: the operation, `_`, and the
/// lower-cased entity name.
pub fn operation_id(entity_name: &str, operation: &str) -> (r: String)
    ensures
        r@ == operation@ + "_"@ + lower_of(entity_name@),
        all_ascii(entity_name@) ==> r@
            == operation@ + "_"@ + Seq::new(entity_name@.len(), |i: int| ascii_lower(entity_name@[i])),
{
    let mut r = String::from_str(operation);
    r.append("_");
    r.append(str_to_lower(entity_name).as_str());
    r
}

/// The OpenAPI tags of an entity: its name.
pub fn generate_tags(entity: &CrudEntityInfo) -> (r: Vec<String>)
    ensures
        r@.len() == 1 && r@[0]@ == entity.name@,
{
    vec![entity.name.clone()]
}

/// Everything `#[derive(Crud)]` emits.
pub struct CrudPlan {
    pub dtos: DtosPlan,
    pub routes: RoutesPlan,
}

/// Everything `#[derive(Crud)]` emits for an entity.
pub fn plan_crud(entity: &CrudEntityInfo) -> (r: CrudPlan)
    ensures
        dtos_of(r.dtos, *entity),
        routes_of(r.routes, *entity),
{
    CrudPlan { dtos: generate_dtos(entity), routes: generate_routes(entity) }
}

/// Whether `e` is the CRUD entity read from `input` under `config`.
pub open spec fn crud_entity_of(input: StructInput, config: CrudConfigView, e: CrudEntityInfo) -> bool {
    &&& e.name@ == input.ident@
    &&& e.table@ == find_lit_arg(input.attrs@, "table"@)->Some_0
    &&& view_config(e.config) == config
    &&& input.data matches DataShape::Named(fs) && e.fields@.len() == fs@.len()
        && forall|i: int| 0 <= i < fs@.len() ==> reads_crud_field(#[trigger] e.fields@[i], fs@[i])
}

/// `#[derive(Crud)]`: reads the `#[crud(..)]` arguments (`crud_args`,
/// empty without the attribute), then the entity, and plans the DTOs and
/// handlers; fails at the first problem.
pub fn generate_crud_internal(input: &StructInput, crud_args: &Vec<ArgToken>) -> (r: Result<CrudPlan, MacroError>)
    ensures
        crud_config_of(crud_args@) is None ==> (r matches Err(e) && e.site == ErrorSite::Args
            && e.message@ == msg_bad_crud_item()),
        crud_config_of(crud_args@) is Some && find_lit_arg(input.attrs@, "table"@) is None
            ==> (r matches Err(e) && e.site == ErrorSite::Input
                && e.message@ == crate::entity::msg_table_required()),
        crud_config_of(crud_args@) is Some && find_lit_arg(input.attrs@, "table"@) is Some
            && !(input.data is Named) ==> (r matches Err(e) && e.site == ErrorSite::Input
                && e.message@ == msg_crud_not_named()),
        r is Ok <==> (crud_config_of(crud_args@) is Some && find_lit_arg(input.attrs@, "table"@) is Some
            && input.data is Named),
        r matches Ok(p) ==> exists|e: CrudEntityInfo|
            #[trigger] crud_entity_of(*input, crud_config_of(crud_args@)->Some_0, e)
            && dtos_of(p.dtos, e) && routes_of(p.routes, e),
{
    let config = match parse_crud_config(crud_args) {
        Ok(c) => c,
        Err(e) => return Err(e),
    };
    let ghost cv = view_config(config);
    match parse_crud_entity(input, config) {
        Err(e) => Err(e),
        Ok(entity) => {
            let plan = plan_crud(&entity);
            assert(crud_entity_of(*input, cv, entity));
            Ok(plan)
        }
    }
}

// ----- laws -----

/// A field is in a selection exactly when it is one of the fields and
/// belongs to the selection.
pub proof fn lemma_crud_select_members(fs: Seq<CrudFieldInfo>, s: CrudSelection)
    ensures
        forall|i: int| 0 <= i < crud_select(fs, s).len() ==> crud_selects(s, #[trigger] crud_select(fs, s)[i])
            && fs.contains(crud_select(fs, s)[i]),
        forall|j: int| 0 <= j < fs.len() && crud_selects(s, #[trigger] fs[j]) ==> crud_select(fs, s).contains(fs[j]),
        crud_select(fs, s).len() <= fs.len(),
    decreases fs.len(),
{
    if fs.len() > 0 {
        let init = fs.drop_last();
        lemma_crud_select_members(init, s);
        assert forall|i: int| 0 <= i < crud_select(fs, s).len() implies crud_selects(s, #[trigger] crud_select(fs, s)[i])
            && fs.contains(crud_select(fs, s)[i]) by {
            if i < crud_select(init, s).len() {
                assert(crud_select(fs, s)[i] == crud_select(init, s)[i]);
                let k = choose|k: int| 0 <= k < init.len() && init[k] == crud_select(init, s)[i];
                assert(fs[k] == crud_select(fs, s)[i]);
            } else {
                assert(crud_select(fs, s)[i] == fs.last());
                assert(fs[fs.len() - 1] == fs.last());
            }
        }
        assert forall|j: int| 0 <= j < fs.len() && crud_selects(s, #[trigger] fs[j]) implies crud_select(fs, s).contains(fs[j]) by {
            if j < fs.len() - 1 {
                assert(init[j] == fs[j]);
                let k = choose|k: int| 0 <= k < crud_select(init, s).len() && crud_select(init, s)[k] == init[j];
                assert(crud_select(fs, s)[k] == fs[j]);
            } else {
                assert(crud_select(fs, s)[crud_select(fs, s).len() - 1] == fs[j]);
            }
        }
    }
}

/// Whether `e` has a field named `n` that responses may carry: neither
/// `#[writeonly]` nor `#[skip]`.
pub open spec fn readable_field_named(e: CrudEntityInfo, n: Seq<char>) -> bool {
    exists|j: int| 0 <= j < e.fields@.len() && #[trigger] e.fields@[j].ident@ == n
        && !e.fields@[j].writeonly && !e.fields@[j].skip
}

/// Whether `e` has a field named `n` that clients may supply: neither
/// `#[auto_generated]`, `#[readonly]` nor `#[skip]`.
pub open spec fn writable_field_named(e: CrudEntityInfo, n: Seq<char>) -> bool {
    exists|j: int| 0 <= j < e.fields@.len() && #[trigger] e.fields@[j].ident@ == n
        && !e.fields@[j].auto_generated && !e.fields@[j].readonly && !e.fields@[j].skip
}

/// Responses never carry a `#[writeonly]` or `#[skip]` field, and carry
/// every other field.
pub proof fn law_response_hides_writeonly(p: CrudPlan, e: CrudEntityInfo)
    requires
        dtos_of(p.dtos, e),
    ensures
        forall|i: int| 0 <= i < p.dtos.response.fields@.len()
            ==> readable_field_named(e, (#[trigger] p.dtos.response.fields@[i]).0@),
        forall|j: int| 0 <= j < e.fields@.len() && !(#[trigger] e.fields@[j]).writeonly && !e.fields@[j].skip
            ==> exists|i: int| 0 <= i < p.dtos.response.fields@.len()
                && #[trigger] p.dtos.response.fields@[i].0@ == e.fields@[j].ident@,
{
    let rd = e.sel(CrudSelection::Readable);
    lemma_crud_select_members(e.fields@, CrudSelection::Readable);
    assert forall|i: int| 0 <= i < p.dtos.response.fields@.len()
        implies readable_field_named(e, (#[trigger] p.dtos.response.fields@[i]).0@) by {
        assert(crud_selects(CrudSelection::Readable, rd[i]));
        let j = choose|j: int| 0 <= j < e.fields@.len() && e.fields@[j] == rd[i];
        assert(e.fields@[j].ident@ == p.dtos.response.fields@[i].0@);
    }
    assert forall|j: int| 0 <= j < e.fields@.len() && !(#[trigger] e.fields@[j]).writeonly && !e.fields@[j].skip
        implies exists|i: int| 0 <= i < p.dtos.response.fields@.len()
            && #[trigger] p.dtos.response.fields@[i].0@ == e.fields@[j].ident@ by {
        assert(crud_selects(CrudSelection::Readable, e.fields@[j]));
        let i = choose|i: int| 0 <= i < rd.len() && rd[i] == e.fields@[j];
        assert(p.dtos.response.fields@[i].0@ == rd[i].ident@);
    }
}

/// A client never supplies an `#[auto_generated]`, `#[readonly]` or
/// `#[skip]` field: such fields are in neither the Create nor the Update
/// DTO; the Update DTO has the Create DTO's fields in the same order, each
/// optional.
pub proof fn law_client_fields_writable(p: CrudPlan, e: CrudEntityInfo)
    requires
        dtos_of(p.dtos, e),
    ensures
        p.dtos.create matches Some(c) ==> forall|i: int| 0 <= i < c.fields@.len()
            ==> writable_field_named(e, (#[trigger] c.fields@[i]).0@),
        p.dtos.create is Some <==> p.dtos.update is Some,
        p.dtos.create matches Some(c) ==> (p.dtos.update matches Some(u) && u.fields@.len() == c.fields@.len()
            && forall|i: int| 0 <= i < c.fields@.len() ==> (#[trigger] u.fields@[i]).0@ == c.fields@[i].0@
                && u.fields@[i].1@ == update_type(c.fields@[i].1@)),
{
    let w = e.sel(CrudSelection::Writable);
    lemma_crud_select_members(e.fields@, CrudSelection::Writable);
    if let Some(c) = p.dtos.create {
        assert forall|i: int| 0 <= i < c.fields@.len()
            implies writable_field_named(e, (#[trigger] c.fields@[i]).0@) by {
            assert(crud_selects(CrudSelection::Writable, w[i]));
            let j = choose|j: int| 0 <= j < e.fields@.len() && e.fields@[j] == w[i];
            assert(e.fields@[j].ident@ == c.fields@[i].0@);
        }
    }
}

/// A `read_only` entity gets only the list and get handlers; otherwise
/// put and patch are always there, create unless `skip_create`, delete
/// unless `skip_delete`.
pub proof fn law_handlers_follow_config(c: CrudConfig)
    ensures
        c.read_only ==> handler_kinds(c) == seq![HandlerKind::List, HandlerKind::Get],
        !c.read_only ==> handler_kinds(c).contains(HandlerKind::Put) && handler_kinds(c).contains(HandlerKind::Patch),
        handler_kinds(c).contains(HandlerKind::Create) <==> !c.read_only && !c.skip_create,
        handler_kinds(c).contains(HandlerKind::Delete) <==> !c.read_only && !c.skip_delete,
        handler_kinds(c)[0] == HandlerKind::List && handler_kinds(c)[1] == HandlerKind::Get,
{
    let k = handler_kinds(c);
    let a = seq![HandlerKind::List, HandlerKind::Get];
    let b = if !c.read_only && !c.skip_create { seq![HandlerKind::Create] } else { Seq::<HandlerKind>::empty() };
    let d = if !c.read_only { seq![HandlerKind::Put, HandlerKind::Patch] } else { Seq::<HandlerKind>::empty() };
    let f = if !c.read_only && !c.skip_delete { seq![HandlerKind::Delete] } else { Seq::<HandlerKind>::empty() };
    assert(k == a + b + d + f);
    if c.read_only {
        assert(k =~= a);
    }
    if !c.read_only {
        assert(k[(a.len() + b.len()) as int] == HandlerKind::Put);
        assert(k[(a.len() + b.len() + 1) as int] == HandlerKind::Patch);
    }
    if !c.read_only && !c.skip_create {
        assert(k[2] == HandlerKind::Create);
    }
    if k.contains(HandlerKind::Create) {
        let i = choose|i: int| 0 <= i < k.len() && k[i] == HandlerKind::Create;
        if !(!c.read_only && !c.skip_create) {
            assert(k =~= a + d + f);
        }
    }
    if !c.read_only && !c.skip_delete {
        assert(k[k.len() - 1] == HandlerKind::Delete);
    }
    if k.contains(HandlerKind::Delete) {
        let i = choose|i: int| 0 <= i < k.len() && k[i] == HandlerKind::Delete;
        if !(!c.read_only && !c.skip_delete) {
            assert(k =~= a + b + d);
        }
    }
}

/// The create and put handlers hand `into_entity` exactly as many values
/// as it takes parameters.
pub proof fn law_handlers_fill_into_entity(p: CrudPlan, e: CrudEntityInfo, i: int)
    requires
        dtos_of(p.dtos, e),
        routes_of(p.routes, e),
        0 <= i < p.routes.handlers@.len(),
        p.routes.handlers@[i].kind == HandlerKind::Create || p.routes.handlers@[i].kind == HandlerKind::Put,
        p.dtos.conversions.into_entity is Some,
    ensures
        p.routes.handlers@[i].auto_values matches Some(v)
            && v@.len() == p.dtos.conversions.into_entity->Some_0.params@.len(),
{
    let h = p.routes.handlers@[i];
    assert(describes(h, e, handler_kinds(e.config)[i], e.path_spec()));
}

/// The values a create or put handler hands `into_entity`.
pub open spec fn handed(h: HandlerPlan) -> Seq<AutoValue> {
    match h.auto_values {
        Some(v) => v@,
        None => Seq::empty(),
    }
}

/// The PUT handler rebuilds the entity named by the request path: every
/// auto-generated key field gets the id from the path; each other
/// auto-generated field gets a fresh UUID when it is a `Uuid` and its
/// default otherwise.
pub proof fn law_put_keeps_path_id(p: CrudPlan, e: CrudEntityInfo, h: int)
    requires
        routes_of(p.routes, e),
        0 <= h < p.routes.handlers@.len(),
        p.routes.handlers@[h].kind == HandlerKind::Put,
    ensures
        p.routes.handlers@[h].auto_values is Some,
        handed(p.routes.handlers@[h]).len() == e.sel(CrudSelection::AutoGenerated).len(),
        forall|i: int| 0 <= i < e.sel(CrudSelection::AutoGenerated).len()
            && (#[trigger] e.sel(CrudSelection::AutoGenerated)[i]).is_primary_key
            ==> handed(p.routes.handlers@[h])[i] == AutoValue::PathId,
        forall|i: int| 0 <= i < e.sel(CrudSelection::AutoGenerated).len()
            && !(#[trigger] e.sel(CrudSelection::AutoGenerated)[i]).is_primary_key
            ==> handed(p.routes.handlers@[h])[i] == (if is_uuid(e.sel(CrudSelection::AutoGenerated)[i].ty) {
                    AutoValue::NewUuid
                } else {
                    AutoValue::Default
                }),
{
    assert(describes(p.routes.handlers@[h], e, handler_kinds(e.config)[h], e.path_spec()));
}

/// Whether `a` sets a field from the Create DTO's field named `name`.
pub open spec fn from_create_named(a: Assignment, name: Seq<char>) -> bool {
    a matches Assignment::FromCreate(n) && n@ == name
}

/// Whether the Create DTO has a field named `name`.
pub open spec fn create_carries(d: Option<DtoPlan>, name: Seq<char>) -> bool {
    d matches Some(dd) && exists|j: int| 0 <= j < dd.fields@.len() && (#[trigger] dd.fields@[j]).0@ == name
}

/// `into_entity` keeps what the client sent: every stored field the Create
/// DTO carries (neither auto-generated, read-only nor skipped; write-only
/// fields included) is set from the Create DTO's field of the same name;
/// only read-only or skipped fields that are not auto-generated take their
/// default, and exactly the auto-generated fields come from the parameters.
pub proof fn law_into_entity_keeps_client_values(p: CrudPlan, e: CrudEntityInfo)
    requires
        dtos_of(p.dtos, e),
        p.dtos.conversions.into_entity is Some,
    ensures
        p.dtos.conversions.into_entity->Some_0.assignments@.len() == e.sel(CrudSelection::Stored).len(),
        forall|i: int| 0 <= i < e.sel(CrudSelection::Stored).len()
            && !(#[trigger] e.sel(CrudSelection::Stored)[i]).auto_generated
            && !e.sel(CrudSelection::Stored)[i].readonly && !e.sel(CrudSelection::Stored)[i].skip
            ==> from_create_named(p.dtos.conversions.into_entity->Some_0.assignments@[i],
                    e.sel(CrudSelection::Stored)[i].ident@)
                && create_carries(p.dtos.create, e.sel(CrudSelection::Stored)[i].ident@),
        forall|i: int| 0 <= i < e.sel(CrudSelection::Stored).len()
            && (#[trigger] p.dtos.conversions.into_entity->Some_0.assignments@[i] is Default)
            ==> (e.sel(CrudSelection::Stored)[i].readonly || e.sel(CrudSelection::Stored)[i].skip)
                && !e.sel(CrudSelection::Stored)[i].auto_generated,
        forall|i: int| 0 <= i < e.sel(CrudSelection::Stored).len()
            ==> ((#[trigger] p.dtos.conversions.into_entity->Some_0.assignments@[i] is Param)
                <==> e.sel(CrudSelection::Stored)[i].auto_generated),
{
    let q = p.dtos.conversions.into_entity->Some_0;
    let st = e.sel(CrudSelection::Stored);
    let w = e.sel(CrudSelection::Writable);
    lemma_crud_select_members(e.fields@, CrudSelection::Stored);
    lemma_crud_select_members(e.fields@, CrudSelection::Writable);
    assert forall|i: int| 0 <= i < st.len()
        && !(#[trigger] st[i]).auto_generated && !st[i].readonly && !st[i].skip
        implies from_create_named(q.assignments@[i], st[i].ident@) && create_carries(p.dtos.create, st[i].ident@) by {
        assert(assigns(q.assignments@[i], st[i]));
        assert(e.fields@.contains(st[i]));
        let k = choose|k: int| 0 <= k < e.fields@.len() && e.fields@[k] == st[i];
        assert(crud_selects(CrudSelection::Writable, e.fields@[k]));
        assert(w.contains(e.fields@[k]));
        let j = choose|j: int| 0 <= j < w.len() && w[j] == e.fields@[k];
        let d = p.dtos.create->Some_0;
        assert(d.fields@[j].0@ == w[j].ident@);
    }
    assert forall|i: int| 0 <= i < st.len() && (#[trigger] q.assignments@[i] is Default)
        implies (st[i].readonly || st[i].skip) && !st[i].auto_generated by {
        assert(assigns(q.assignments@[i], st[i]));
    }
    assert forall|i: int| 0 <= i < st.len()
        implies ((#[trigger] q.assignments@[i] is Param) <==> st[i].auto_generated) by {
        assert(assigns(q.assignments@[i], st[i]));
    }
}

} // verus!
