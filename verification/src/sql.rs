//! The SQL statements `#[derive(PgEntity)]` generates, each specified over
//! the entity's selections.

use vstd::prelude::*;
use crate::entity::{EntityInfo, FieldInfo, Selection, names, select};
use crate::text::{decimal, join, views, join_strings, push_decimal};
use crate::queries::{
    is_digit, lemma_max_placeholder_after_plain, lemma_max_placeholder_concat,
    lemma_max_placeholder_plain, lemma_max_placeholder_single, max_placeholder, no_dollar,
};

verus! {

/// `$i`.
pub open spec fn placeholder(i: nat) -> Seq<char> {
    "$"@ + decimal(i)
}

/// `$from`, `$from+1`, ... (`n` of them).
pub open spec fn placeholders(from: nat, n: nat) -> Seq<Seq<char>> {
    Seq::new(n, |k: int| placeholder((from + k) as nat))
}

/// `col = $i` for each column, numbered from `from`.
pub open spec fn assignments(cols: Seq<Seq<char>>, from: nat) -> Seq<Seq<char>> {
    Seq::new(cols.len(), |k: int| cols[k] + " = "@ + placeholder((from + k) as nat))
}

/// `col = EXCLUDED.col` for each column.
pub open spec fn excluded_updates(cols: Seq<Seq<char>>) -> Seq<Seq<char>> {
    Seq::new(cols.len(), |k: int| cols[k] + " = EXCLUDED."@ + cols[k])
}

/// Stored column names of an entity.
pub open spec fn columns_of(e: EntityInfo) -> Seq<Seq<char>> {
    names(e.sel(Selection::Stored))
}

/// Primary-key column names of an entity.
pub open spec fn pk_columns_of(e: EntityInfo) -> Seq<Seq<char>> {
    names(e.sel(Selection::PrimaryKey))
}

pub open spec fn insert_sql_spec(e: EntityInfo) -> Seq<char> {
    "INSERT INTO "@ + e.table@ + " ("@ + join(columns_of(e), ", "@) + ") VALUES ("@
        + join(placeholders(1, columns_of(e).len()), ", "@) + ")"@
}

pub open spec fn upsert_sql_spec(e: EntityInfo) -> Seq<char> {
    let updates = excluded_updates(names(e.sel(Selection::UpsertUpdate)));
    let head = "INSERT INTO "@ + e.table@ + " ("@ + join(columns_of(e), ", "@) + ") VALUES ("@
        + join(placeholders(1, columns_of(e).len()), ", "@) + ") ON CONFLICT ("@
        + join(pk_columns_of(e), ", "@);
    if updates.len() == 0 {
        head + ") DO NOTHING"@
    } else {
        head + ") DO UPDATE SET "@ + join(updates, ", "@)
    }
}

pub open spec fn update_sql_spec(e: EntityInfo) -> Seq<char> {
    let non_key = names(e.sel(Selection::NonKey));
    "UPDATE "@ + e.table@ + " SET "@ + join(assignments(non_key, 1), ", "@) + " WHERE "@
        + join(assignments(pk_columns_of(e), (non_key.len() + 1) as nat), " AND "@)
}

pub open spec fn select_by_id_sql_spec(e: EntityInfo) -> Seq<char> {
    "SELECT "@ + join(columns_of(e), ", "@) + " FROM "@ + e.table@ + " WHERE "@
        + join(assignments(pk_columns_of(e), 1), " AND "@)
}

pub open spec fn delete_sql_spec(e: EntityInfo) -> Seq<char> {
    "DELETE FROM "@ + e.table@ + " WHERE "@ + join(assignments(pk_columns_of(e), 1), " AND "@)
}

pub open spec fn count_sql_spec(e: EntityInfo) -> Seq<char> {
    "SELECT COUNT(*) FROM "@ + e.table@
}

pub open spec fn exists_sql_spec(e: EntityInfo) -> Seq<char> {
    "SELECT EXISTS(SELECT 1 FROM "@ + e.table@ + " WHERE "@
        + join(assignments(pk_columns_of(e), 1), " AND "@) + ")"@
}

pub open spec fn find_page_sql_spec(e: EntityInfo) -> Seq<char> {
    "SELECT "@ + join(columns_of(e), ", "@) + " FROM "@ + e.table@ + " ORDER BY "@
        + join(pk_columns_of(e), ", "@) + " LIMIT $1 OFFSET $2"@
}

/// A field is in at most one of the key and non-key selections, so their
/// sizes add up to at most the number of fields.
pub proof fn lemma_key_split_bounded(fs: Seq<FieldInfo>)
    ensures
        select(fs, Selection::NonKey).len() + select(fs, Selection::PrimaryKey).len() <= fs.len(),
        select(fs, Selection::Stored).len() <= fs.len(),
    decreases fs.len(),
{
    if fs.len() > 0 {
        lemma_key_split_bounded(fs.drop_last());
    }
}

fn names_of(fields: &Vec<&FieldInfo>) -> (r: Vec<String>)
    ensures
        views(r@) == Seq::new(fields@.len(), |i: int| fields@[i].ident@),
{
    let mut r: Vec<String> = Vec::new();
    let mut i: usize = 0;
    while i < fields.len()
        invariant
            0 <= i <= fields@.len(),
            r@.len() == i,
            forall|k: int| 0 <= k < i ==> #[trigger] r@[k]@ == fields@[k].ident@,
        decreases fields@.len() - i,
    {
        r.push(fields[i].ident.clone());
        i = i + 1;
    }
    assert(views(r@) =~= Seq::new(fields@.len(), |i: int| fields@[i].ident@));
    r
}

/// The stored column names, in declaration order (`COLUMNS`).
pub fn generate_columns(entity: &EntityInfo) -> (r: Vec<String>)
    ensures
        views(r@) == columns_of(*entity),
{
    let fields = entity.db_fields();
    let r = names_of(&fields);
    assert(views(r@) =~= columns_of(*entity));
    r
}

/// The primary-key column names, in declaration order (`PK_COLUMNS`).
pub fn generate_pk_columns(entity: &EntityInfo) -> (r: Vec<String>)
    ensures
        views(r@) == pk_columns_of(*entity),
{
    let fields = entity.pk_fields();
    let r = names_of(&fields);
    assert(views(r@) =~= pk_columns_of(*entity));
    r
}

fn numbered_placeholders(from: usize, n: usize) -> (r: Vec<String>)
    requires
        from + n <= usize::MAX + 1,
    ensures
        views(r@) == placeholders(from as nat, n as nat),
{
    let mut r: Vec<String> = Vec::new();
    let mut k: usize = 0;
    while k < n
        invariant
            from + n <= usize::MAX + 1,
            0 <= k <= n,
            r@.len() == k,
            forall|j: int| 0 <= j < k ==> #[trigger] r@[j]@ == placeholder((from + j) as nat),
        decreases n - k,
    {
        let mut s = String::new();
        s.append("$");
        push_decimal(&mut s, from + k);
        r.push(s);
        k = k + 1;
    }
    assert(views(r@) =~= placeholders(from as nat, n as nat));
    r
}

fn numbered_assignments(cols: &Vec<String>, from: usize) -> (r: Vec<String>)
    requires
        from + cols@.len() <= usize::MAX + 1,
    ensures
        views(r@) == assignments(views(cols@), from as nat),
{
    let mut r: Vec<String> = Vec::new();
    let mut k: usize = 0;
    while k < cols.len()
        invariant
            from + cols@.len() <= usize::MAX + 1,
            0 <= k <= cols@.len(),
            r@.len() == k,
            forall|j: int| 0 <= j < k ==> #[trigger] r@[j]@
                == cols@[j]@ + " = "@ + placeholder((from + j) as nat),
        decreases cols@.len() - k,
    {
        let mut s = cols[k].clone();
        s.append(" = $");
        push_decimal(&mut s, from + k);
        proof {
            assert(s@ =~= cols@[k as int]@ + " = "@ + placeholder((from + k) as nat)) by {
                reveal_strlit(" = $");
                reveal_strlit(" = ");
                reveal_strlit("$");
            }
        }
        r.push(s);
        k = k + 1;
    }
    assert(views(r@) =~= assignments(views(cols@), from as nat));
    r
}

fn excluded_list(cols: &Vec<String>) -> (r: Vec<String>)
    ensures
        views(r@) == excluded_updates(views(cols@)),
{
    let mut r: Vec<String> = Vec::new();
    let mut k: usize = 0;
    while k < cols.len()
        invariant
            0 <= k <= cols@.len(),
            r@.len() == k,
            forall|j: int| 0 <= j < k ==> #[trigger] r@[j]@
                == cols@[j]@ + " = EXCLUDED."@ + cols@[j]@,
        decreases cols@.len() - k,
    {
        let mut s = cols[k].clone();
        s.append(" = EXCLUDED.");
        s.append(cols[k].as_str());
        r.push(s);
        k = k + 1;
    }
    assert(views(r@) =~= excluded_updates(views(cols@)));
    r
}

/// `INSERT INTO table (columns) VALUES ($1, ..., $n)`.
pub fn generate_insert_sql(entity: &EntityInfo) -> (r: String)
    ensures
        r@ == insert_sql_spec(*entity),
{
    let columns = generate_columns(entity);
    proof { lemma_key_split_bounded(entity.fields@); }
    let placeholders = numbered_placeholders(1, columns.len());
    let mut s = String::from_str("INSERT INTO ");
    s.append(entity.table.as_str());
    s.append(" (");
    s.append(join_strings(&columns, ", ").as_str());
    s.append(") VALUES (");
    s.append(join_strings(&placeholders, ", ").as_str());
    s.append(")");
    s
}

/// `INSERT ... ON CONFLICT (pk) DO UPDATE SET col = EXCLUDED.col, ...`, or
/// `... DO NOTHING` when no field is left to update.
pub fn generate_upsert_sql(entity: &EntityInfo) -> (r: String)
    ensures
        r@ == upsert_sql_spec(*entity),
{
    let columns = generate_columns(entity);
    let pk_columns = generate_pk_columns(entity);
    proof { lemma_key_split_bounded(entity.fields@); }
    let placeholders = numbered_placeholders(1, columns.len());
    let update_fields = entity.upsert_update_fields();
    let update_names = names_of(&update_fields);
    assert(views(update_names@) =~= names(entity.sel(Selection::UpsertUpdate)));
    let updates = excluded_list(&update_names);
    let mut s = String::from_str("INSERT INTO ");
    s.append(entity.table.as_str());
    s.append(" (");
    s.append(join_strings(&columns, ", ").as_str());
    s.append(") VALUES (");
    s.append(join_strings(&placeholders, ", ").as_str());
    s.append(") ON CONFLICT (");
    s.append(join_strings(&pk_columns, ", ").as_str());
    if updates.len() == 0 {
        s.append(") DO NOTHING");
    } else {
        s.append(") DO UPDATE SET ");
        s.append(join_strings(&updates, ", ").as_str());
    }
    s
}

/// `UPDATE table SET non_key = $1, ... WHERE pk = $k AND ...`: non-key
/// columns are numbered first, key columns after them.
pub fn generate_update_sql(entity: &EntityInfo) -> (r: String)
    ensures
        r@ == update_sql_spec(*entity),
{
    let non_pk = entity.non_pk_fields();
    let non_pk_names = names_of(&non_pk);
    assert(views(non_pk_names@) =~= names(entity.sel(Selection::NonKey)));
    let pk_columns = generate_pk_columns(entity);
    proof { lemma_key_split_bounded(entity.fields@); }
    assert(entity.fields@.len() == entity.fields.len());
    assert(non_pk_names@.len() == entity.sel(Selection::NonKey).len());
    assert(views(pk_columns@).len() == pk_columns@.len());
    assert(names(entity.sel(Selection::PrimaryKey)).len() == entity.sel(Selection::PrimaryKey).len());
    let sets = numbered_assignments(&non_pk_names, 1);
    let from = if pk_columns.len() == 0 { 1 } else { non_pk_names.len() + 1 };
    let wheres = numbered_assignments(&pk_columns, from);
    assert(views(wheres@) =~= assignments(pk_columns_of(*entity), (non_pk_names@.len() + 1) as nat));
    let mut s = String::from_str("UPDATE ");
    s.append(entity.table.as_str());
    s.append(" SET ");
    s.append(join_strings(&sets, ", ").as_str());
    s.append(" WHERE ");
    s.append(join_strings(&wheres, " AND ").as_str());
    s
}

/// `SELECT columns FROM table WHERE pk = $1 AND ...`.
pub fn generate_select_by_id_sql(entity: &EntityInfo) -> (r: String)
    ensures
        r@ == select_by_id_sql_spec(*entity),
{
    let columns = generate_columns(entity);
    let pk_columns = generate_pk_columns(entity);
    proof { lemma_key_split_bounded(entity.fields@); }
    assert(pk_columns@.len() == pk_columns.len());
    let wheres = numbered_assignments(&pk_columns, 1);
    let mut s = String::from_str("SELECT ");
    s.append(join_strings(&columns, ", ").as_str());
    s.append(" FROM ");
    s.append(entity.table.as_str());
    s.append(" WHERE ");
    s.append(join_strings(&wheres, " AND ").as_str());
    s
}

/// `DELETE FROM table WHERE pk = $1 AND ...`.
pub fn generate_delete_sql(entity: &EntityInfo) -> (r: String)
    ensures
        r@ == delete_sql_spec(*entity),
{
    let pk_columns = generate_pk_columns(entity);
    proof { lemma_key_split_bounded(entity.fields@); }
    assert(pk_columns@.len() == pk_columns.len());
    let wheres = numbered_assignments(&pk_columns, 1);
    let mut s = String::from_str("DELETE FROM ");
    s.append(entity.table.as_str());
    s.append(" WHERE ");
    s.append(join_strings(&wheres, " AND ").as_str());
    s
}

/// `SELECT COUNT(*) FROM table`.
pub fn generate_count_sql(entity: &EntityInfo) -> (r: String)
    ensures
        r@ == count_sql_spec(*entity),
{
    let mut s = String::from_str("SELECT COUNT(*) FROM ");
    s.append(entity.table.as_str());
    s
}

/// `SELECT EXISTS(SELECT 1 FROM table WHERE pk = $1 AND ...)`.
pub fn generate_exists_sql(entity: &EntityInfo) -> (r: String)
    ensures
        r@ == exists_sql_spec(*entity),
{
    let pk_columns = generate_pk_columns(entity);
    proof { lemma_key_split_bounded(entity.fields@); }
    assert(pk_columns@.len() == pk_columns.len());
    let wheres = numbered_assignments(&pk_columns, 1);
    let mut s = String::from_str("SELECT EXISTS(SELECT 1 FROM ");
    s.append(entity.table.as_str());
    s.append(" WHERE ");
    s.append(join_strings(&wheres, " AND ").as_str());
    s.append(")");
    s
}

/// `SELECT columns FROM table ORDER BY pk LIMIT $1 OFFSET $2`.
pub fn generate_find_page_sql(entity: &EntityInfo) -> (r: String)
    ensures
        r@ == find_page_sql_spec(*entity),
{
    let columns = generate_columns(entity);
    let pk_columns = generate_pk_columns(entity);
    let mut s = String::from_str("SELECT ");
    s.append(join_strings(&columns, ", ").as_str());
    s.append(" FROM ");
    s.append(entity.table.as_str());
    s.append(" ORDER BY ");
    s.append(join_strings(&pk_columns, ", ").as_str());
    s.append(" LIMIT $1 OFFSET $2");
    s
}

// ----- placeholder numbering -----

/// Whether no text of `parts` has a `$`.
pub open spec fn all_plain(parts: Seq<Seq<char>>) -> bool {
    forall|i: int| 0 <= i < parts.len() ==> no_dollar(#[trigger] parts[i])
}

/// Whether neither the table nor any field name of `e` has a `$`.
pub open spec fn entity_plain(e: EntityInfo) -> bool {
    &&& no_dollar(e.table@)
    &&& forall|j: int| 0 <= j < e.fields@.len() ==> no_dollar(#[trigger] e.fields@[j].ident@)
}

/// The largest placeholder of `$from, ..., $(from + n - 1)`: 0 for none.
pub open spec fn last_number(from: nat, n: nat) -> nat {
    if n == 0 { 0 } else { (from + n - 1) as nat }
}

proof fn lemma_plain_concat(a: Seq<char>, b: Seq<char>)
    requires
        no_dollar(a),
        no_dollar(b),
    ensures
        no_dollar(a + b),
{
    assert forall|i: int| 0 <= i < (a + b).len() implies (a + b)[i] != '$' by {
        if i < a.len() {
            assert((a + b)[i] == a[i]);
        } else {
            assert((a + b)[i] == b[i - a.len()]);
        }
    }
}

proof fn lemma_join_plain(parts: Seq<Seq<char>>, sep: Seq<char>)
    requires
        all_plain(parts),
        no_dollar(sep),
    ensures
        no_dollar(join(parts, sep)),
    decreases parts.len(),
{
    if parts.len() == 1 {
        assert(no_dollar(parts[0]));
    } else if parts.len() > 1 {
        lemma_join_plain(parts.drop_last(), sep);
        assert(no_dollar(parts[parts.len() - 1]));
        lemma_plain_concat(join(parts.drop_last(), sep), sep);
        lemma_plain_concat(join(parts.drop_last(), sep) + sep, parts.last());
    }
}

proof fn lemma_names_plain(e: EntityInfo, s: Selection)
    requires
        entity_plain(e),
    ensures
        all_plain(names(e.sel(s))),
{
    crate::entity::lemma_select_members(e.fields@, s);
    assert forall|i: int| 0 <= i < names(e.sel(s)).len() implies no_dollar(#[trigger] names(e.sel(s))[i]) by {
        let j = choose|j: int| 0 <= j < e.fields@.len() && e.fields@[j] == e.sel(s)[i];
        assert(no_dollar(e.fields@[j].ident@));
    }
}

proof fn lemma_excluded_plain(cols: Seq<Seq<char>>)
    requires
        all_plain(cols),
    ensures
        all_plain(excluded_updates(cols)),
{
    reveal_strlit(" = EXCLUDED.");
    assert forall|k: int| 0 <= k < excluded_updates(cols).len() implies no_dollar(#[trigger] excluded_updates(cols)[k]) by {
        assert(no_dollar(cols[k]));
        lemma_plain_concat(cols[k], " = EXCLUDED."@);
        lemma_plain_concat(cols[k] + " = EXCLUDED."@, cols[k]);
    }
}

/// `$from, ..., $(from + n - 1)` joined by `, ` has `from + n - 1` as its
/// largest placeholder.
pub proof fn lemma_placeholder_list(from: nat, n: nat)
    requires
        from >= 1,
        from + n <= usize::MAX + 1,
    ensures
        max_placeholder(join(placeholders(from, n), ", "@)) == last_number(from, n),
    decreases n,
{
    reveal_strlit(", ");
    reveal_strlit("$");
    let ps = placeholders(from, n);
    if n == 0 {
        assert(join(ps, ", "@) =~= Seq::<char>::empty());
        lemma_max_placeholder_plain(Seq::<char>::empty());
    } else if n == 1 {
        lemma_max_placeholder_single(from);
    } else {
        lemma_placeholder_list(from, (n - 1) as nat);
        assert(ps.drop_last() =~= placeholders(from, (n - 1) as nat));
        let prev = join(ps.drop_last(), ", "@);
        let last = ps.last();
        assert(last == "$"@ + decimal((from + n - 1) as nat));
        lemma_max_placeholder_single((from + n - 1) as nat);
        assert(!is_digit(", "@[0]));
        lemma_max_placeholder_concat(prev, ", "@);
        lemma_max_placeholder_plain(", "@);
        assert(last[0] == '$');
        lemma_max_placeholder_concat(prev + ", "@, last);
    }
}

/// `col = $from, ...` joined by `sep` has `from + n - 1` as its largest
/// placeholder, for column names and a separator without `$` where the
/// separator does not start with a digit.
pub proof fn lemma_assignment_list(cols: Seq<Seq<char>>, from: nat, sep: Seq<char>)
    requires
        all_plain(cols),
        no_dollar(sep),
        sep.len() >= 1,
        !is_digit(sep[0]),
        from >= 1,
        from + cols.len() <= usize::MAX + 1,
    ensures
        max_placeholder(join(assignments(cols, from), sep)) == last_number(from, cols.len()),
    decreases cols.len(),
{
    reveal_strlit(" = ");
    reveal_strlit("$");
    let asg = assignments(cols, from);
    let n = cols.len();
    if n == 0 {
        assert(join(asg, sep) =~= Seq::<char>::empty());
        lemma_max_placeholder_plain(Seq::<char>::empty());
    } else {
        let k = n - 1;
        let a = cols[k] + " = "@;
        let p = placeholder((from + k) as nat);
        assert(no_dollar(cols[k]));
        lemma_plain_concat(cols[k], " = "@);
        lemma_max_placeholder_single((from + k) as nat);
        assert(asg[k] == a + p);
        if n == 1 {
            lemma_max_placeholder_after_plain(a, p);
        } else {
            assert(asg.drop_last() =~= assignments(cols.drop_last(), from));
            lemma_assignment_list(cols.drop_last(), from, sep);
            let prev = join(asg.drop_last(), sep);
            assert(join(asg, sep) =~= (prev + (sep + a)) + p);
            lemma_plain_concat(sep, a);
            lemma_max_placeholder_plain(sep + a);
            assert((sep + a)[0] == sep[0]);
            lemma_max_placeholder_concat(prev, sep + a);
            assert(p[0] == '$');
            lemma_max_placeholder_concat(prev + (sep + a), p);
        }
    }
}

/// Every statement over an entity whose table and field names have no `$`
/// numbers its placeholders `$1` up to the number of values it binds:
/// insert and upsert one per stored field; update one per non-key field
/// and then one per key field; lookup, delete and exists one per key field;
/// a page two (limit, offset); count none.
pub proof fn law_placeholders_count_values(e: EntityInfo)
    requires
        entity_plain(e),
        e.fields@.len() <= usize::MAX,
    ensures
        max_placeholder(insert_sql_spec(e)) == e.sel(Selection::Stored).len(),
        max_placeholder(upsert_sql_spec(e)) == e.sel(Selection::Stored).len(),
        max_placeholder(update_sql_spec(e)) == e.sel(Selection::NonKey).len() + e.sel(Selection::PrimaryKey).len(),
        max_placeholder(select_by_id_sql_spec(e)) == e.sel(Selection::PrimaryKey).len(),
        max_placeholder(delete_sql_spec(e)) == e.sel(Selection::PrimaryKey).len(),
        max_placeholder(exists_sql_spec(e)) == e.sel(Selection::PrimaryKey).len(),
        max_placeholder(find_page_sql_spec(e)) == 2,
        max_placeholder(count_sql_spec(e)) == 0,
{
    lemma_key_split_bounded(e.fields@);
    lemma_insert_upsert_numbering(e);
    lemma_update_numbering(e);
    lemma_key_lookup_numbering(e);
}

proof fn lemma_insert_upsert_numbering(e: EntityInfo)
    requires
        entity_plain(e),
        e.fields@.len() <= usize::MAX,
    ensures
        max_placeholder(insert_sql_spec(e)) == e.sel(Selection::Stored).len(),
        max_placeholder(upsert_sql_spec(e)) == e.sel(Selection::Stored).len(),
{
    reveal_strlit("INSERT INTO ");
    reveal_strlit(" (");
    reveal_strlit(") VALUES (");
    reveal_strlit(")");
    reveal_strlit(", ");
    reveal_strlit(") ON CONFLICT (");
    reveal_strlit(") DO NOTHING");
    reveal_strlit(") DO UPDATE SET ");
    lemma_key_split_bounded(e.fields@);
    let cols = columns_of(e);
    let n = cols.len();
    lemma_names_plain(e, Selection::Stored);
    lemma_names_plain(e, Selection::PrimaryKey);
    lemma_names_plain(e, Selection::UpsertUpdate);
    lemma_join_plain(cols, ", "@);
    let head = "INSERT INTO "@ + e.table@ + " ("@ + join(cols, ", "@) + ") VALUES ("@;
    lemma_plain_concat("INSERT INTO "@, e.table@);
    lemma_plain_concat("INSERT INTO "@ + e.table@, " ("@);
    lemma_plain_concat("INSERT INTO "@ + e.table@ + " ("@, join(cols, ", "@));
    lemma_plain_concat("INSERT INTO "@ + e.table@ + " ("@ + join(cols, ", "@), ") VALUES ("@);
    let list = join(placeholders(1, n), ", "@);
    lemma_placeholder_list(1, n);
    lemma_max_placeholder_after_plain(head, list);
    // insert
    assert(insert_sql_spec(e) == (head + list) + ")"@);
    lemma_max_placeholder_plain(")"@);
    lemma_max_placeholder_concat(head + list, ")"@);
    // upsert
    let pk = join(pk_columns_of(e), ", "@);
    lemma_join_plain(pk_columns_of(e), ", "@);
    let updates = excluded_updates(names(e.sel(Selection::UpsertUpdate)));
    lemma_excluded_plain(names(e.sel(Selection::UpsertUpdate)));
    lemma_join_plain(updates, ", "@);
    let tail = if updates.len() == 0 {
        ") ON CONFLICT ("@ + pk + ") DO NOTHING"@
    } else {
        ") ON CONFLICT ("@ + pk + ") DO UPDATE SET "@ + join(updates, ", "@)
    };
    lemma_plain_concat(") ON CONFLICT ("@, pk);
    lemma_plain_concat(") ON CONFLICT ("@ + pk, ") DO NOTHING"@);
    lemma_plain_concat(") ON CONFLICT ("@ + pk, ") DO UPDATE SET "@);
    lemma_plain_concat(") ON CONFLICT ("@ + pk + ") DO UPDATE SET "@, join(updates, ", "@));
    assert(upsert_sql_spec(e) =~= (head + list) + tail);
    assert(tail[0] == ')');
    lemma_max_placeholder_plain(tail);
    lemma_max_placeholder_concat(head + list, tail);
}

proof fn lemma_update_numbering(e: EntityInfo)
    requires
        entity_plain(e),
        e.fields@.len() <= usize::MAX,
    ensures
        max_placeholder(update_sql_spec(e)) == e.sel(Selection::NonKey).len() + e.sel(Selection::PrimaryKey).len(),
{
    reveal_strlit("UPDATE ");
    reveal_strlit(" SET ");
    reveal_strlit(" WHERE ");
    reveal_strlit(", ");
    reveal_strlit(" AND ");
    lemma_key_split_bounded(e.fields@);
    let nk = names(e.sel(Selection::NonKey));
    let pk = pk_columns_of(e);
    let m = nk.len();
    let p = pk.len();
    lemma_names_plain(e, Selection::NonKey);
    lemma_names_plain(e, Selection::PrimaryKey);
    let j1 = join(assignments(nk, 1), ", "@);
    let j2 = join(assignments(pk, (m + 1) as nat), " AND "@);
    lemma_assignment_list(nk, 1, ", "@);
    lemma_assignment_list(pk, (m + 1) as nat, " AND "@);
    let x1 = "UPDATE "@ + e.table@ + " SET "@;
    lemma_plain_concat("UPDATE "@, e.table@);
    lemma_plain_concat("UPDATE "@ + e.table@, " SET "@);
    lemma_max_placeholder_after_plain(x1, j1);
    lemma_max_placeholder_plain(" WHERE "@);
    lemma_max_placeholder_concat(x1 + j1, " WHERE "@);
    let y = x1 + j1 + " WHERE "@;
    assert(y.last() == ' ');
    lemma_max_placeholder_concat(y, j2);
    assert(update_sql_spec(e) == y + j2);
}

proof fn lemma_key_lookup_numbering(e: EntityInfo)
    requires
        entity_plain(e),
        e.fields@.len() <= usize::MAX,
    ensures
        max_placeholder(select_by_id_sql_spec(e)) == e.sel(Selection::PrimaryKey).len(),
        max_placeholder(delete_sql_spec(e)) == e.sel(Selection::PrimaryKey).len(),
        max_placeholder(exists_sql_spec(e)) == e.sel(Selection::PrimaryKey).len(),
        max_placeholder(find_page_sql_spec(e)) == 2,
        max_placeholder(count_sql_spec(e)) == 0,
{
    reveal_strlit("SELECT ");
    reveal_strlit(" FROM ");
    reveal_strlit(" WHERE ");
    reveal_strlit(" AND ");
    reveal_strlit(", ");
    reveal_strlit("DELETE FROM ");
    reveal_strlit("SELECT EXISTS(SELECT 1 FROM ");
    reveal_strlit(")");
    reveal_strlit("SELECT COUNT(*) FROM ");
    reveal_strlit(" ORDER BY ");
    reveal_strlit(" LIMIT $1 OFFSET $2");
    reveal_strlit(" LIMIT ");
    reveal_strlit(" OFFSET ");
    reveal_strlit("$");
    lemma_key_split_bounded(e.fields@);
    let cols = columns_of(e);
    let pk = pk_columns_of(e);
    lemma_names_plain(e, Selection::Stored);
    lemma_names_plain(e, Selection::PrimaryKey);
    lemma_join_plain(cols, ", "@);
    lemma_join_plain(pk, ", "@);
    let j = join(assignments(pk, 1), " AND "@);
    lemma_assignment_list(pk, 1, " AND "@);
    // select by id
    let h1 = "SELECT "@ + join(cols, ", "@) + " FROM "@ + e.table@ + " WHERE "@;
    lemma_plain_concat("SELECT "@, join(cols, ", "@));
    lemma_plain_concat("SELECT "@ + join(cols, ", "@), " FROM "@);
    lemma_plain_concat("SELECT "@ + join(cols, ", "@) + " FROM "@, e.table@);
    lemma_plain_concat("SELECT "@ + join(cols, ", "@) + " FROM "@ + e.table@, " WHERE "@);
    lemma_max_placeholder_after_plain(h1, j);
    // delete
    let h2 = "DELETE FROM "@ + e.table@ + " WHERE "@;
    lemma_plain_concat("DELETE FROM "@, e.table@);
    lemma_plain_concat("DELETE FROM "@ + e.table@, " WHERE "@);
    lemma_max_placeholder_after_plain(h2, j);
    // exists
    let h3 = "SELECT EXISTS(SELECT 1 FROM "@ + e.table@ + " WHERE "@;
    lemma_plain_concat("SELECT EXISTS(SELECT 1 FROM "@, e.table@);
    lemma_plain_concat("SELECT EXISTS(SELECT 1 FROM "@ + e.table@, " WHERE "@);
    lemma_max_placeholder_after_plain(h3, j);
    lemma_max_placeholder_plain(")"@);
    lemma_max_placeholder_concat(h3 + j, ")"@);
    // count
    lemma_plain_concat("SELECT COUNT(*) FROM "@, e.table@);
    lemma_max_placeholder_plain(count_sql_spec(e));
    // page
    let h4 = "SELECT "@ + join(cols, ", "@) + " FROM "@ + e.table@ + " ORDER BY "@ + join(pk, ", "@) + " LIMIT "@;
    lemma_plain_concat("SELECT "@ + join(cols, ", "@) + " FROM "@ + e.table@, " ORDER BY "@);
    lemma_plain_concat("SELECT "@ + join(cols, ", "@) + " FROM "@ + e.table@ + " ORDER BY "@, join(pk, ", "@));
    lemma_plain_concat("SELECT "@ + join(cols, ", "@) + " FROM "@ + e.table@ + " ORDER BY "@ + join(pk, ", "@), " LIMIT "@);
    let one = "$"@ + decimal(1);
    let two = "$"@ + decimal(2);
    assert(decimal(1) == seq!['1']);
    assert(decimal(2) == seq!['2']);
    assert(find_page_sql_spec(e) =~= (((h4 + one) + " OFFSET "@) + two));
    lemma_max_placeholder_after_plain(h4, one);
    lemma_max_placeholder_single(1);
    lemma_max_placeholder_single(2);
    lemma_max_placeholder_plain(" OFFSET "@);
    lemma_max_placeholder_concat(h4 + one, " OFFSET "@);
    assert((h4 + one + " OFFSET "@).last() == ' ');
    lemma_max_placeholder_concat(h4 + one + " OFFSET "@, two);
}

} // verus!
