//! The entity model behind `#[derive(PgEntity)]`: which fields are primary
//! keys, which are stored, which an upsert updates, and how the model is
//! read from the annotated struct.

use vstd::prelude::*;
use crate::syntax::{
    DataShape, ErrorSite, FieldInput, MacroError, StructInput, TypeInfo, find_lit_arg,
    has_attr, has_attr_spec, lit_arg_of, opt_view, type_arg, type_arg_of,
};

verus! {

/// One field of an entity.
pub struct FieldInfo {
    pub ident: String,
    pub ty: TypeInfo,
    pub is_primary_key: bool,
    pub skip: bool,
    pub skip_upsert: bool,
    /// Token text of the `#[pg_type(..)]` type the field is bound as.
    pub pg_type: Option<String>,
}

/// An entity: struct name, table, optional schema key and fields in
/// declaration order.
pub struct EntityInfo {
    pub name: String,
    pub table: String,
    pub schema: Option<String>,
    pub fields: Vec<FieldInfo>,
}

/// The field selections the generated code works with.
#[derive(PartialEq, Eq, Structural, Clone, Copy)]
pub enum Selection {
    /// Primary-key fields.
    PrimaryKey,
    /// Fields stored in the table (all but `#[skip]`).
    Stored,
    /// Stored fields outside the primary key.
    NonKey,
    /// Stored non-key fields an upsert overwrites (not `#[skip_upsert]`).
    UpsertUpdate,
}

/// Whether `f` belongs to selection `s`.
pub open spec fn selects(s: Selection, f: FieldInfo) -> bool {
    match s {
        Selection::PrimaryKey => f.is_primary_key,
        Selection::Stored => !f.skip,
        Selection::NonKey => !f.skip && !f.is_primary_key,
        Selection::UpsertUpdate => !f.skip && !f.is_primary_key && !f.skip_upsert,
    }
}

/// The fields of `fs` in selection `s`, in declaration order.
pub open spec fn select(fs: Seq<FieldInfo>, s: Selection) -> Seq<FieldInfo>
    decreases fs.len(),
{
    if fs.len() == 0 {
        Seq::empty()
    } else if selects(s, fs.last()) {
        select(fs.drop_last(), s).push(fs.last())
    } else {
        select(fs.drop_last(), s)
    }
}

/// The names of a sequence of fields.
pub open spec fn names(fs: Seq<FieldInfo>) -> Seq<Seq<char>> {
    Seq::new(fs.len(), |i: int| fs[i].ident@)
}

impl EntityInfo {
    /// The fields in selection `s`.
    pub open spec fn sel(self, s: Selection) -> Seq<FieldInfo> {
        select(self.fields@, s)
    }

    fn fields_in(&self, s: Selection) -> (r: Vec<&FieldInfo>)
        ensures
            r@.len() == self.sel(s).len(),
            forall|i: int| 0 <= i < r@.len() ==> *r@[i] == #[trigger] self.sel(s)[i],
    {
        let mut r: Vec<&FieldInfo> = Vec::new();
        let mut i: usize = 0;
        while i < self.fields.len()
            invariant
                0 <= i <= self.fields@.len(),
                r@.len() == select(self.fields@.take(i as int), s).len(),
                forall|k: int| 0 <= k < r@.len() ==> *r@[k] == #[trigger] select(self.fields@.take(i as int), s)[k],
            decreases self.fields@.len() - i,
        {
            proof {
                assert(self.fields@.take(i + 1).drop_last() =~= self.fields@.take(i as int));
            }
            let f = &self.fields[i];
            let keep = match s {
                Selection::PrimaryKey => f.is_primary_key,
                Selection::Stored => !f.skip,
                Selection::NonKey => !f.skip && !f.is_primary_key,
                Selection::UpsertUpdate => !f.skip && !f.is_primary_key && !f.skip_upsert,
            };
            if keep {
                r.push(f);
            }
            i = i + 1;
        }
        assert(self.fields@.take(self.fields@.len() as int) =~= self.fields@);
        r
    }

    /// The primary-key fields, in declaration order.
    pub fn pk_fields(&self) -> (r: Vec<&FieldInfo>)
        ensures
            r@.len() == self.sel(Selection::PrimaryKey).len(),
            forall|i: int| 0 <= i < r@.len() ==> *r@[i] == #[trigger] self.sel(Selection::PrimaryKey)[i],
    {
        self.fields_in(Selection::PrimaryKey)
    }

    /// The fields stored in the table (all but `#[skip]`), in declaration order.
    pub fn db_fields(&self) -> (r: Vec<&FieldInfo>)
        ensures
            r@.len() == self.sel(Selection::Stored).len(),
            forall|i: int| 0 <= i < r@.len() ==> *r@[i] == #[trigger] self.sel(Selection::Stored)[i],
    {
        self.fields_in(Selection::Stored)
    }

    /// The stored fields outside the primary key, in declaration order.
    pub fn non_pk_fields(&self) -> (r: Vec<&FieldInfo>)
        ensures
            r@.len() == self.sel(Selection::NonKey).len(),
            forall|i: int| 0 <= i < r@.len() ==> *r@[i] == #[trigger] self.sel(Selection::NonKey)[i],
    {
        self.fields_in(Selection::NonKey)
    }

    /// The stored non-key fields without `#[skip_upsert]`, in declaration order.
    pub fn upsert_update_fields(&self) -> (r: Vec<&FieldInfo>)
        ensures
            r@.len() == self.sel(Selection::UpsertUpdate).len(),
            forall|i: int| 0 <= i < r@.len() ==> *r@[i] == #[trigger] self.sel(Selection::UpsertUpdate)[i],
    {
        self.fields_in(Selection::UpsertUpdate)
    }
}

/// Whether `fi` is the entity field read from the struct field `f`.
pub open spec fn reads_field(fi: FieldInfo, f: FieldInput) -> bool {
    &&& fi.ident@ == f.ident@
    &&& fi.ty == f.ty
    &&& fi.is_primary_key == has_attr_spec(f.attrs@, "primary_key"@)
    &&& fi.skip == has_attr_spec(f.attrs@, "skip"@)
    &&& fi.skip_upsert == has_attr_spec(f.attrs@, "skip_upsert"@)
    &&& opt_view(fi.pg_type) == type_arg_of(f.attrs@, "pg_type"@)
}

/// The message when `#[table(..)]` is missing.
pub open spec fn msg_table_required() -> Seq<char> {
    "#[table(\"name\")] attribute is required"@
}

/// The message when the derive is applied to an enum or union.
pub open spec fn msg_not_struct() -> Seq<char> {
    "PgEntity can only be derived for structs"@
}

/// The message when the derive is applied to a tuple or unit struct.
pub open spec fn msg_not_named() -> Seq<char> {
    "PgEntity can only be derived for structs with named fields"@
}

fn read_field(f: &FieldInput) -> (r: FieldInfo)
    ensures
        reads_field(r, *f),
{
    FieldInfo {
        ident: f.ident.clone(),
        ty: f.ty.copy(),
        is_primary_key: has_attr(&f.attrs, "primary_key"),
        skip: has_attr(&f.attrs, "skip"),
        skip_upsert: has_attr(&f.attrs, "skip_upsert"),
        pg_type: type_arg(&f.attrs, "pg_type"),
    }
}

/// Reads the entity model from the struct `#[derive(PgEntity)]` is applied
/// to: the table from `#[table("..")]`, the schema key from
/// `#[schema("..")]`, and per field the `#[primary_key]`, `#[skip]`,
/// `#[skip_upsert]` and `#[pg_type(..)]` markers.
pub fn parse_entity(input: &StructInput) -> (r: Result<EntityInfo, MacroError>)
    ensures
        find_lit_arg(input.attrs@, "table"@) is None ==> (r matches Err(e)
            && e.site == ErrorSite::Input && e.message@ == msg_table_required()),
        find_lit_arg(input.attrs@, "table"@) is Some ==> match input.data {
            DataShape::Named(fs) => (r matches Ok(e) && {
                &&& e.name@ == input.ident@
                &&& e.table@ == find_lit_arg(input.attrs@, "table"@)->Some_0
                &&& opt_view(e.schema) == find_lit_arg(input.attrs@, "schema"@)
                &&& e.fields@.len() == fs@.len()
                &&& forall|i: int| 0 <= i < fs@.len() ==> reads_field(#[trigger] e.fields@[i], fs@[i])
            }),
            DataShape::Unnamed => (r matches Err(e) && e.site == ErrorSite::Input
                && e.message@ == msg_not_named()),
            _ => (r matches Err(e) && e.site == ErrorSite::Input && e.message@ == msg_not_struct()),
        },
{
    let table = match lit_arg_of(&input.attrs, "table") {
        Some(t) => t,
        None => {
            return Err(MacroError {
                site: ErrorSite::Input,
                message: String::from_str("#[table(\"name\")] attribute is required"),
            });
        }
    };
    let schema = lit_arg_of(&input.attrs, "schema");
    match &input.data {
        DataShape::Named(fs) => {
            let mut fields: Vec<FieldInfo> = Vec::new();
            let mut i: usize = 0;
            while i < fs.len()
                invariant
                    0 <= i <= fs@.len(),
                    fields@.len() == i,
                    forall|k: int| 0 <= k < i ==> reads_field(#[trigger] fields@[k], fs@[k]),
                decreases fs@.len() - i,
            {
                fields.push(read_field(&fs[i]));
                i = i + 1;
            }
            Ok(EntityInfo { name: input.ident.clone(), table, schema, fields })
        }
        DataShape::Unnamed => Err(MacroError {
            site: ErrorSite::Input,
            message: String::from_str("PgEntity can only be derived for structs with named fields"),
        }),
        _ => Err(MacroError {
            site: ErrorSite::Input,
            message: String::from_str("PgEntity can only be derived for structs"),
        }),
    }
}

// ----- laws -----

/// A field is in a selection exactly when it is one of the fields and
/// belongs to the selection; the selection keeps the fields' order.
pub proof fn lemma_select_members(fs: Seq<FieldInfo>, s: Selection)
    ensures
        forall|i: int| 0 <= i < select(fs, s).len() ==> selects(s, #[trigger] select(fs, s)[i])
            && fs.contains(select(fs, s)[i]),
        forall|j: int| 0 <= j < fs.len() && selects(s, #[trigger] fs[j]) ==> select(fs, s).contains(fs[j]),
        select(fs, s).len() <= fs.len(),
    decreases fs.len(),
{
    if fs.len() > 0 {
        let init = fs.drop_last();
        lemma_select_members(init, s);
        assert forall|i: int| 0 <= i < select(fs, s).len() implies selects(s, #[trigger] select(fs, s)[i])
            && fs.contains(select(fs, s)[i]) by {
            if i < select(init, s).len() {
                assert(select(fs, s)[i] == select(init, s)[i]);
                let k = choose|k: int| 0 <= k < init.len() && init[k] == select(init, s)[i];
                assert(fs[k] == select(fs, s)[i]);
            } else {
                assert(select(fs, s)[i] == fs.last());
                assert(fs[fs.len() - 1] == fs.last());
            }
        }
        assert forall|j: int| 0 <= j < fs.len() && selects(s, #[trigger] fs[j]) implies select(fs, s).contains(fs[j]) by {
            if j < fs.len() - 1 {
                assert(init[j] == fs[j]);
                let k = choose|k: int| 0 <= k < select(init, s).len() && select(init, s)[k] == init[j];
                assert(select(fs, s)[k] == fs[j]);
            } else {
                assert(select(fs, s)[select(fs, s).len() - 1] == fs[j]);
            }
        }
    }
}

/// `#[skip]` fields are never stored: no column, no insert or update
/// value, no upsert assignment; every other field is stored.
pub proof fn law_skipped_fields_not_stored(e: EntityInfo)
    ensures
        forall|i: int| 0 <= i < e.sel(Selection::Stored).len() ==> !(#[trigger] e.sel(Selection::Stored)[i]).skip,
        forall|i: int| 0 <= i < e.sel(Selection::NonKey).len() ==> !(#[trigger] e.sel(Selection::NonKey)[i]).skip,
        forall|i: int| 0 <= i < e.sel(Selection::UpsertUpdate).len()
            ==> !(#[trigger] e.sel(Selection::UpsertUpdate)[i]).skip,
        forall|j: int| 0 <= j < e.fields@.len() && !(#[trigger] e.fields@[j]).skip
            ==> e.sel(Selection::Stored).contains(e.fields@[j]),
{
    lemma_select_members(e.fields@, Selection::Stored);
    lemma_select_members(e.fields@, Selection::NonKey);
    lemma_select_members(e.fields@, Selection::UpsertUpdate);
    assert forall|j: int| 0 <= j < e.fields@.len() && !(#[trigger] e.fields@[j]).skip
        implies e.sel(Selection::Stored).contains(e.fields@[j]) by {
        assert(selects(Selection::Stored, e.fields@[j]));
    }
}

/// A `#[skip_upsert]` field is still stored (inserted), but an upsert never
/// overwrites it; neither does it overwrite a key field.
pub proof fn law_skip_upsert_still_stored(e: EntityInfo)
    ensures
        forall|j: int| 0 <= j < e.fields@.len() && (#[trigger] e.fields@[j]).skip_upsert && !e.fields@[j].skip
            ==> e.sel(Selection::Stored).contains(e.fields@[j]),
        forall|i: int| 0 <= i < e.sel(Selection::UpsertUpdate).len()
            ==> !(#[trigger] e.sel(Selection::UpsertUpdate)[i]).skip_upsert
                && !e.sel(Selection::UpsertUpdate)[i].is_primary_key,
{
    lemma_select_members(e.fields@, Selection::Stored);
    lemma_select_members(e.fields@, Selection::UpsertUpdate);
    assert forall|j: int| 0 <= j < e.fields@.len() && (#[trigger] e.fields@[j]).skip_upsert && !e.fields@[j].skip
        implies e.sel(Selection::Stored).contains(e.fields@[j]) by {
        assert(selects(Selection::Stored, e.fields@[j]));
    }
}

/// The stored fields split into the stored key fields and the non-key
/// fields: every stored field is in exactly one of the two, and the
/// non-key fields are stored and outside the key.
pub proof fn law_key_split(e: EntityInfo)
    ensures
        forall|i: int| 0 <= i < e.sel(Selection::NonKey).len()
            ==> !(#[trigger] e.sel(Selection::NonKey)[i]).is_primary_key && !e.sel(Selection::NonKey)[i].skip,
        forall|i: int| 0 <= i < e.sel(Selection::Stored).len() ==> {
            let f = #[trigger] e.sel(Selection::Stored)[i];
            f.is_primary_key ==> e.sel(Selection::PrimaryKey).contains(f)
        },
        forall|i: int| 0 <= i < e.sel(Selection::Stored).len() ==> {
            let f = #[trigger] e.sel(Selection::Stored)[i];
            !f.is_primary_key ==> e.sel(Selection::NonKey).contains(f)
        },
        e.sel(Selection::NonKey).len() + e.sel(Selection::PrimaryKey).len() <= e.fields@.len(),
{
    lemma_select_members(e.fields@, Selection::Stored);
    lemma_select_members(e.fields@, Selection::NonKey);
    lemma_select_members(e.fields@, Selection::PrimaryKey);
    crate::sql::lemma_key_split_bounded(e.fields@);
    assert forall|i: int| 0 <= i < e.sel(Selection::Stored).len() implies {
        let f = #[trigger] e.sel(Selection::Stored)[i];
        &&& f.is_primary_key ==> e.sel(Selection::PrimaryKey).contains(f)
        &&& !f.is_primary_key ==> e.sel(Selection::NonKey).contains(f)
    } by {
        let f = e.sel(Selection::Stored)[i];
        let j = choose|j: int| 0 <= j < e.fields@.len() && e.fields@[j] == f;
        assert(selects(Selection::PrimaryKey, e.fields@[j]) == f.is_primary_key);
        assert(selects(Selection::NonKey, e.fields@[j]) == !f.is_primary_key);
    }
}

} // verus!
