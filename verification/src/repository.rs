//! What `#[derive(PgEntity)]` emits, as data: the `PgEntity` constants and
//! key shape, how rows become entities, and for each repository operation
//! its SQL and the values bound to its placeholders.

use vstd::prelude::*;
use crate::entity::{EntityInfo, FieldInfo, Selection, names, parse_entity, reads_field};
use crate::sql::{
    columns_of, count_sql_spec, delete_sql_spec, exists_sql_spec, find_page_sql_spec,
    generate_columns, generate_count_sql, generate_delete_sql, generate_exists_sql,
    generate_find_page_sql, generate_insert_sql, generate_pk_columns, generate_select_by_id_sql,
    generate_update_sql, generate_upsert_sql, insert_sql_spec, pk_columns_of,
    select_by_id_sql_spec, update_sql_spec, upsert_sql_spec,
};
use crate::syntax::{MacroError, StructInput, copy_opt, opt_view};
use crate::text::{join, views, join_strings};
use crate::queries::max_placeholder;
use crate::sql::{assignments, entity_plain, law_placeholders_count_values, placeholder};

verus! {

/// A value bound to a placeholder: `&entity.field`, cast to the field's
/// `#[pg_type]` when it has one.
pub struct BindValue {
    pub field: String,
    pub cast: Option<String>,
}

/// How the key of a lookup is bound: the key as a whole (one key column),
/// or each component of the key tuple in order.
#[derive(PartialEq, Eq, Structural, Clone, Copy, Debug)]
pub enum PkBind {
    Whole,
    Components(usize),
}

/// How `find_by_ids` and `delete_batch` handle several keys: one statement
/// with `pk IN ($1, ...)` over the single key column, or one lookup per key.
pub enum BatchStrategy {
    InList(String),
    PerKey,
}

/// How a field of the entity is initialised from a row: from the column of
/// the same name, or with `Default::default()` for a `#[skip]` field.
pub enum RowInit {
    Column(String),
    Default(String),
}

/// The key type and key expression: one field's type and value, or the
/// tuple of all key fields' types and values.
pub enum KeyShape {
    Single(String),
    Tuple(Vec<String>),
}

/// Everything the `PgRepository` implementation is built from.
pub struct RepositoryPlan {
    pub insert_sql: String,
    pub upsert_sql: String,
    pub update_sql: String,
    pub select_by_id_sql: String,
    pub delete_sql: String,
    pub count_sql: String,
    pub exists_sql: String,
    pub find_page_sql: String,
    pub insert_binds: Vec<BindValue>,
    pub update_binds: Vec<BindValue>,
    pub pk_bind: PkBind,
    pub columns_list: String,
    pub table: String,
    pub batch: BatchStrategy,
    pub from_row: Vec<RowInit>,
}

/// Everything `#[derive(PgEntity)]` emits for one struct.
pub struct PgEntityPlan {
    pub name: String,
    pub table: String,
    pub schema: Option<String>,
    pub columns: Vec<String>,
    pub pk_columns: Vec<String>,
    pub id_type: KeyShape,
    pub id_fn: KeyShape,
    pub repository: RepositoryPlan,
}

/// Whether `b` binds field `f`.
pub open spec fn binds(b: BindValue, f: FieldInfo) -> bool {
    b.field@ == f.ident@ && opt_view(b.cast) == opt_view(f.pg_type)
}

/// Whether `bs` binds the fields `fs`, one by one, in order.
pub open spec fn binds_all(bs: Seq<BindValue>, fs: Seq<FieldInfo>) -> bool {
    bs.len() == fs.len() && forall|i: int| 0 <= i < fs.len() ==> binds(#[trigger] bs[i], fs[i])
}

/// Whether `r` initialises field `f`.
pub open spec fn inits(r: RowInit, f: FieldInfo) -> bool {
    if f.skip {
        r matches RowInit::Default(n) && n@ == f.ident@
    } else {
        r matches RowInit::Column(n) && n@ == f.ident@
    }
}

/// Whether the key shape `k` lists `items` (a single item when there is
/// exactly one key field, a tuple otherwise).
pub open spec fn shapes(k: KeyShape, items: Seq<Seq<char>>) -> bool {
    if items.len() == 1 {
        k matches KeyShape::Single(s) && s@ == items[0]
    } else {
        k matches KeyShape::Tuple(v) && views(v@) == items
    }
}

/// The type texts of a sequence of fields.
pub open spec fn type_texts(fs: Seq<FieldInfo>) -> Seq<Seq<char>> {
    Seq::new(fs.len(), |i: int| fs[i].ty.text@)
}

/// The value bound for a field: `&entity.field`, cast to its `#[pg_type]` when given.
pub fn generate_bind_value(field: &FieldInfo) -> (r: BindValue)
    ensures
        binds(r, *field),
{
    BindValue { field: field.ident.clone(), cast: copy_opt(&field.pg_type) }
}

fn binds_for(fields: &Vec<&FieldInfo>) -> (r: Vec<BindValue>)
    ensures
        r@.len() == fields@.len(),
        forall|i: int| 0 <= i < fields@.len() ==> binds(#[trigger] r@[i], *fields@[i]),
{
    let mut r: Vec<BindValue> = Vec::new();
    let mut i: usize = 0;
    while i < fields.len()
        invariant
            0 <= i <= fields@.len(),
            r@.len() == i,
            forall|k: int| 0 <= k < i ==> binds(#[trigger] r@[k], *fields@[k]),
        decreases fields@.len() - i,
    {
        r.push(generate_bind_value(fields[i]));
        i = i + 1;
    }
    r
}

/// How lookups bind the key: whole for one key column, by components otherwise.
pub fn generate_pk_bind(entity: &EntityInfo) -> (r: PkBind)
    ensures
        entity.sel(Selection::PrimaryKey).len() == 1 ==> r == PkBind::Whole,
        entity.sel(Selection::PrimaryKey).len() != 1
            ==> r == PkBind::Components(entity.sel(Selection::PrimaryKey).len() as usize),
{
    let pk = entity.pk_fields();
    if pk.len() == 1 {
        PkBind::Whole
    } else {
        PkBind::Components(pk.len())
    }
}

/// How a row becomes an entity: each field from its column, `#[skip]` fields by default.
pub fn generate_from_row(entity: &EntityInfo) -> (r: Vec<RowInit>)
    ensures
        r@.len() == entity.fields@.len(),
        forall|i: int| 0 <= i < r@.len() ==> inits(#[trigger] r@[i], entity.fields@[i]),
{
    let mut r: Vec<RowInit> = Vec::new();
    let mut i: usize = 0;
    while i < entity.fields.len()
        invariant
            0 <= i <= entity.fields@.len(),
            r@.len() == i,
            forall|k: int| 0 <= k < i ==> inits(#[trigger] r@[k], entity.fields@[k]),
        decreases entity.fields@.len() - i,
    {
        let f = &entity.fields[i];
        if f.skip {
            r.push(RowInit::Default(f.ident.clone()));
        } else {
            r.push(RowInit::Column(f.ident.clone()));
        }
        i = i + 1;
    }
    r
}

/// The key type: the key field's type, or the tuple of key types.
pub fn generate_id_type(entity: &EntityInfo) -> (r: KeyShape)
    ensures
        shapes(r, type_texts(entity.sel(Selection::PrimaryKey))),
{
    let pk = entity.pk_fields();
    if pk.len() == 1 {
        KeyShape::Single(pk[0].ty.text.clone())
    } else {
        let mut v: Vec<String> = Vec::new();
        let mut i: usize = 0;
        while i < pk.len()
            invariant
                0 <= i <= pk@.len(),
                pk@.len() == entity.sel(Selection::PrimaryKey).len(),
                forall|k: int| 0 <= k < pk@.len() ==> *pk@[k] == #[trigger] entity.sel(Selection::PrimaryKey)[k],
                v@.len() == i,
                forall|k: int| 0 <= k < i ==> #[trigger] v@[k]@ == pk@[k].ty.text@,
            decreases pk@.len() - i,
        {
            v.push(pk[i].ty.text.clone());
            i = i + 1;
        }
        assert(views(v@) =~= type_texts(entity.sel(Selection::PrimaryKey)));
        KeyShape::Tuple(v)
    }
}

/// The key value: a clone of the key field, or the tuple of clones of
/// all key fields, by name.
pub fn generate_id_fn(entity: &EntityInfo) -> (r: KeyShape)
    ensures
        shapes(r, names(entity.sel(Selection::PrimaryKey))),
{
    let pk = generate_pk_columns(entity);
    assert(views(pk@).len() == pk@.len());
    if pk.len() == 1 {
        KeyShape::Single(pk[0].clone())
    } else {
        KeyShape::Tuple(pk)
    }
}

/// The repository: SQL of every operation; insert and upsert
/// bind all stored fields, update binds the non-key fields then the key
/// fields; lookups bind the key; batches use `IN (...)` over a single key
/// column and per-key lookups otherwise.
pub fn generate_repository_impl(entity: &EntityInfo) -> (r: RepositoryPlan)
    ensures
        r.insert_sql@ == insert_sql_spec(*entity),
        r.upsert_sql@ == upsert_sql_spec(*entity),
        r.update_sql@ == update_sql_spec(*entity),
        r.select_by_id_sql@ == select_by_id_sql_spec(*entity),
        r.delete_sql@ == delete_sql_spec(*entity),
        r.count_sql@ == count_sql_spec(*entity),
        r.exists_sql@ == exists_sql_spec(*entity),
        r.find_page_sql@ == find_page_sql_spec(*entity),
        binds_all(r.insert_binds@, entity.sel(Selection::Stored)),
        binds_all(r.update_binds@, entity.sel(Selection::NonKey) + entity.sel(Selection::PrimaryKey)),
        entity.sel(Selection::PrimaryKey).len() == 1 ==> r.pk_bind == PkBind::Whole,
        entity.sel(Selection::PrimaryKey).len() != 1
            ==> r.pk_bind == PkBind::Components(entity.sel(Selection::PrimaryKey).len() as usize),
        r.columns_list@ == join(columns_of(*entity), ", "@),
        r.table@ == entity.table@,
        entity.sel(Selection::PrimaryKey).len() == 1 ==> (r.batch matches BatchStrategy::InList(c)
            && c@ == pk_columns_of(*entity)[0]),
        entity.sel(Selection::PrimaryKey).len() != 1 ==> r.batch is PerKey,
        r.from_row@.len() == entity.fields@.len(),
        forall|i: int| 0 <= i < r.from_row@.len() ==> inits(#[trigger] r.from_row@[i], entity.fields@[i]),
{
    let db_fields = entity.db_fields();
    let insert_binds = binds_for(&db_fields);
    let non_pk = entity.non_pk_fields();
    let pk = entity.pk_fields();
    let mut update_binds = binds_for(&non_pk);
    let pk_binds = binds_for(&pk);
    let mut i: usize = 0;
    let ghost n0 = update_binds@.len();
    while i < pk_binds.len()
        invariant
            0 <= i <= pk_binds@.len(),
            n0 == non_pk@.len(),
            update_binds@.len() == n0 + i,
            forall|k: int| 0 <= k < n0 ==> binds(#[trigger] update_binds@[k], *non_pk@[k]),
            forall|k: int| 0 <= k < i ==> #[trigger] update_binds@[n0 + k] == pk_binds@[k],
        decreases pk_binds@.len() - i,
    {
        update_binds.push(BindValue {
            field: pk_binds[i].field.clone(),
            cast: copy_opt(&pk_binds[i].cast),
        });
        i = i + 1;
    }
    let ghost both = entity.sel(Selection::NonKey) + entity.sel(Selection::PrimaryKey);
    assert forall|k: int| 0 <= k < both.len() implies binds(#[trigger] update_binds@[k], both[k]) by {
        if k >= n0 {
            assert(update_binds@[n0 + (k - n0)] == pk_binds@[k - n0]);
        }
    }
    let columns = generate_columns(entity);
    let pk_columns = generate_pk_columns(entity);
    assert(views(pk_columns@).len() == pk_columns@.len());
    let batch = if pk.len() == 1 {
        BatchStrategy::InList(pk_columns[0].clone())
    } else {
        BatchStrategy::PerKey
    };
    RepositoryPlan {
        insert_sql: generate_insert_sql(entity),
        upsert_sql: generate_upsert_sql(entity),
        update_sql: generate_update_sql(entity),
        select_by_id_sql: generate_select_by_id_sql(entity),
        delete_sql: generate_delete_sql(entity),
        count_sql: generate_count_sql(entity),
        exists_sql: generate_exists_sql(entity),
        find_page_sql: generate_find_page_sql(entity),
        insert_binds,
        update_binds,
        pk_bind: generate_pk_bind(entity),
        columns_list: join_strings(&columns, ", "),
        table: entity.table.clone(),
        batch,
        from_row: generate_from_row(entity),
    }
}

/// `#[derive(PgEntity)]`: reads the entity (failing as `parse_entity`
/// does) and plans the `PgEntity` and `PgRepository` implementations.
pub fn generate_pg_entity(input: &StructInput) -> (r: Result<PgEntityPlan, MacroError>)
    ensures
        r is Ok <==> parse_entity_ok(*input),
        r matches Ok(p) ==> exists|e: EntityInfo| #[trigger] entity_of(*input, e) && plans(p, e),
        crate::syntax::find_lit_arg(input.attrs@, "table"@) is None ==> (r matches Err(e)
            && e.site == crate::syntax::ErrorSite::Input && e.message@ == crate::entity::msg_table_required()),
        crate::syntax::find_lit_arg(input.attrs@, "table"@) is Some && input.data is Unnamed ==> (r matches Err(e)
            && e.site == crate::syntax::ErrorSite::Input && e.message@ == crate::entity::msg_not_named()),
        crate::syntax::find_lit_arg(input.attrs@, "table"@) is Some && (input.data is Enum || input.data is Union)
            ==> (r matches Err(e) && e.site == crate::syntax::ErrorSite::Input
                && e.message@ == crate::entity::msg_not_struct()),
{
    match parse_entity(input) {
        Err(e) => Err(e),
        Ok(entity) => {
            let plan = PgEntityPlan {
                name: entity.name.clone(),
                table: entity.table.clone(),
                schema: copy_opt(&entity.schema),
                columns: generate_columns(&entity),
                pk_columns: generate_pk_columns(&entity),
                id_type: generate_id_type(&entity),
                id_fn: generate_id_fn(&entity),
                repository: generate_repository_impl(&entity),
            };
            assert(entity_of(*input, entity));
            Ok(plan)
        }
    }
}

/// Whether reading `input` as an entity succeeds.
pub open spec fn parse_entity_ok(input: StructInput) -> bool {
    &&& crate::syntax::find_lit_arg(input.attrs@, "table"@) is Some
    &&& input.data is Named
}

/// Whether `e` is the entity read from `input`.
pub open spec fn entity_of(input: StructInput, e: EntityInfo) -> bool {
    &&& e.name@ == input.ident@
    &&& e.table@ == crate::syntax::find_lit_arg(input.attrs@, "table"@)->Some_0
    &&& opt_view(e.schema) == crate::syntax::find_lit_arg(input.attrs@, "schema"@)
    &&& input.data matches crate::syntax::DataShape::Named(fs) && e.fields@.len() == fs@.len()
        && forall|i: int| 0 <= i < fs@.len() ==> reads_field(#[trigger] e.fields@[i], fs@[i])
}

/// Whether `p` is the plan for entity `e`.
pub open spec fn plans(p: PgEntityPlan, e: EntityInfo) -> bool {
    &&& p.name@ == e.name@
    &&& p.table@ == e.table@
    &&& opt_view(p.schema) == opt_view(e.schema)
    &&& views(p.columns@) == columns_of(e)
    &&& views(p.pk_columns@) == pk_columns_of(e)
    &&& shapes(p.id_type, type_texts(e.sel(Selection::PrimaryKey)))
    &&& shapes(p.id_fn, names(e.sel(Selection::PrimaryKey)))
    &&& p.repository.insert_sql@ == insert_sql_spec(e)
    &&& p.repository.upsert_sql@ == upsert_sql_spec(e)
    &&& p.repository.update_sql@ == update_sql_spec(e)
    &&& p.repository.select_by_id_sql@ == select_by_id_sql_spec(e)
    &&& p.repository.delete_sql@ == delete_sql_spec(e)
    &&& p.repository.count_sql@ == count_sql_spec(e)
    &&& p.repository.exists_sql@ == exists_sql_spec(e)
    &&& p.repository.find_page_sql@ == find_page_sql_spec(e)
    &&& binds_all(p.repository.insert_binds@, e.sel(Selection::Stored))
    &&& binds_all(p.repository.update_binds@, e.sel(Selection::NonKey) + e.sel(Selection::PrimaryKey))
    &&& (e.sel(Selection::PrimaryKey).len() == 1 ==> p.repository.pk_bind == PkBind::Whole)
    &&& (e.sel(Selection::PrimaryKey).len() != 1
        ==> p.repository.pk_bind == PkBind::Components(e.sel(Selection::PrimaryKey).len() as usize))
    &&& p.repository.columns_list@ == join(columns_of(e), ", "@)
    &&& p.repository.table@ == e.table@
    &&& (e.sel(Selection::PrimaryKey).len() == 1 ==> (p.repository.batch matches BatchStrategy::InList(c)
        && c@ == pk_columns_of(e)[0]))
    &&& (e.sel(Selection::PrimaryKey).len() != 1 ==> p.repository.batch is PerKey)
    &&& p.repository.from_row@.len() == e.fields@.len()
    &&& forall|i: int| 0 <= i < p.repository.from_row@.len()
        ==> inits(#[trigger] p.repository.from_row@[i], e.fields@[i])
}

// ----- laws -----

/// In the plan of an entity, insert and upsert bind one value per column,
/// the `i`-th value being the `i`-th column's field; update binds the
/// non-key fields first and then one value per key column, in key order.
pub proof fn law_binds_follow_columns(p: PgEntityPlan, e: EntityInfo)
    requires
        plans(p, e),
    ensures
        p.repository.insert_binds@.len() == p.columns@.len(),
        forall|i: int| 0 <= i < p.columns@.len()
            ==> (#[trigger] p.repository.insert_binds@[i]).field@ == p.columns@[i]@,
        p.repository.update_binds@.len() == e.sel(Selection::NonKey).len() + p.pk_columns@.len(),
        forall|k: int| 0 <= k < p.pk_columns@.len()
            ==> (#[trigger] p.repository.update_binds@[e.sel(Selection::NonKey).len() + k]).field@
                == p.pk_columns@[k]@,
{
    let stored = e.sel(Selection::Stored);
    let pk = e.sel(Selection::PrimaryKey);
    let nk = e.sel(Selection::NonKey);
    assert(views(p.columns@).len() == p.columns@.len());
    assert(views(p.pk_columns@).len() == p.pk_columns@.len());
    assert forall|i: int| 0 <= i < p.columns@.len()
        implies (#[trigger] p.repository.insert_binds@[i]).field@ == p.columns@[i]@ by {
        assert(views(p.columns@)[i] == p.columns@[i]@);
        assert(binds(p.repository.insert_binds@[i], stored[i]));
    }
    assert forall|k: int| 0 <= k < p.pk_columns@.len()
        implies (#[trigger] p.repository.update_binds@[nk.len() + k]).field@ == p.pk_columns@[k]@ by {
        assert(views(p.pk_columns@)[k] == p.pk_columns@[k]@);
        assert((nk + pk)[nk.len() + k] == pk[k]);
        assert(binds(p.repository.update_binds@[nk.len() + k], (nk + pk)[nk.len() + k]));
    }
}

/// The key of an entity has one component per key column: a single
/// value named after the one key column, or a tuple of the key columns.
pub proof fn law_id_matches_key_columns(p: PgEntityPlan, e: EntityInfo)
    requires
        plans(p, e),
    ensures
        p.pk_columns@.len() == 1 ==> (p.id_fn matches KeyShape::Single(n) && n@ == p.pk_columns@[0]@),
        p.pk_columns@.len() != 1 ==> (p.id_fn matches KeyShape::Tuple(v) && views(v@) == views(p.pk_columns@)),
        p.pk_columns@.len() == 1 ==> p.id_type is Single,
        p.pk_columns@.len() != 1 ==> (p.id_type matches KeyShape::Tuple(v) && v@.len() == p.pk_columns@.len()),
{
    assert(views(p.pk_columns@).len() == p.pk_columns@.len());
    if p.pk_columns@.len() == 1 {
        assert(views(p.pk_columns@)[0] == p.pk_columns@[0]@);
    } else {
        match p.id_type {
            KeyShape::Tuple(v) => { assert(views(v@).len() == v@.len()); }
            _ => {}
        }
    }
}

/// How many values a key lookup binds.
pub open spec fn key_values(b: PkBind) -> nat {
    match b {
        PkBind::Whole => 1,
        PkBind::Components(n) => n as nat,
    }
}

/// In the plan of an entity whose table and field names have no `$`, each
/// statement's placeholders run from `$1` to exactly the number of values
/// the repository binds to it.
pub proof fn law_statements_bind_every_placeholder(p: PgEntityPlan, e: EntityInfo)
    requires
        plans(p, e),
        entity_plain(e),
    ensures
        max_placeholder(p.repository.insert_sql@) == p.repository.insert_binds@.len(),
        max_placeholder(p.repository.upsert_sql@) == p.repository.insert_binds@.len(),
        max_placeholder(p.repository.update_sql@) == p.repository.update_binds@.len(),
        p.pk_columns@.len() >= 1 ==> max_placeholder(p.repository.select_by_id_sql@) == key_values(p.repository.pk_bind),
        p.pk_columns@.len() >= 1 ==> max_placeholder(p.repository.delete_sql@) == key_values(p.repository.pk_bind),
        p.pk_columns@.len() >= 1 ==> max_placeholder(p.repository.exists_sql@) == key_values(p.repository.pk_bind),
        max_placeholder(p.repository.find_page_sql@) == 2,
        max_placeholder(p.repository.count_sql@) == 0,
{
    assert(e.fields@.len() == e.fields.len());
    law_placeholders_count_values(e);
    crate::sql::lemma_key_split_bounded(e.fields@);
    assert(views(p.pk_columns@).len() == p.pk_columns@.len());
}

/// The condition that picks the row with a given key: `c1 = $1`, then
/// ` AND c2 = $2`, and so on over the key columns.
pub open spec fn key_condition(cols: Seq<Seq<char>>) -> Seq<char>
    decreases cols.len(),
{
    if cols.len() == 0 {
        Seq::empty()
    } else if cols.len() == 1 {
        cols[0] + " = "@ + placeholder(1)
    } else {
        key_condition(cols.drop_last()) + " AND "@ + cols.last() + " = "@ + placeholder(cols.len())
    }
}

proof fn lemma_key_condition(cols: Seq<Seq<char>>)
    ensures
        key_condition(cols) == join(assignments(cols, 1), " AND "@),
    decreases cols.len(),
{
    if cols.len() > 1 {
        lemma_key_condition(cols.drop_last());
        let a = assignments(cols, 1);
        assert(a.drop_last() =~= assignments(cols.drop_last(), 1));
        assert(a.last() == cols.last() + " = "@ + placeholder(cols.len()));
        assert(key_condition(cols) =~= join(a, " AND "@));
    } else if cols.len() == 1 {
        assert(assignments(cols, 1)[0] == cols[0] + " = "@ + placeholder(1));
    }
}

/// Looking up, deleting and testing for an entity by key all pick the same
/// rows: each statement's `WHERE` is the key columns' `col = $i` (from
/// `$1`) joined by ` AND `, so only the row whose every key column equals
/// the given key matches.
pub proof fn law_key_statements_share_condition(p: PgEntityPlan, e: EntityInfo)
    requires
        plans(p, e),
    ensures
        p.repository.delete_sql@ == "DELETE FROM "@ + e.table@ + " WHERE "@ + key_condition(pk_columns_of(e)),
        p.repository.select_by_id_sql@ == "SELECT "@ + join(columns_of(e), ", "@) + " FROM "@ + e.table@
            + " WHERE "@ + key_condition(pk_columns_of(e)),
        p.repository.exists_sql@ == "SELECT EXISTS(SELECT 1 FROM "@ + e.table@ + " WHERE "@
            + key_condition(pk_columns_of(e)) + ")"@,
{
    lemma_key_condition(pk_columns_of(e));
}

} // verus!
