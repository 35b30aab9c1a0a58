//! The syntax of a `pg_queries!` block: an optional `schema = "name";`
//! line, then queries `fn name(param: Type, ...) -> Type { "SQL" }`, read
//! from the block's tokens. Types are delimited here and parsed by `syn`.

use vstd::prelude::*;
use crate::queries::{
    QueriesPlan, QueryDef, QueryInput, QueryParam, ReturnKind, SchemaHeader, classifies_text, defines,
    max_placeholder, mismatch_message, msg_expected_schema, parse_return_kind, pg_queries, query_error,
    query_ok, trait_name_spec, type_accepted_text,
};
use crate::syntax::{
    ErrorSite, MacroError, TypeInfo, check_type, ident_value, lit_str_value, parse_ident,
    parse_lit_str, result_view, str_eq, type_parses,
};
use crate::text::push_char;

verus! {

/// The delimiter of a group of tokens.
#[derive(PartialEq, Eq, Structural, Clone, Copy, Debug)]
pub enum Delim {
    Paren,
    Brace,
    Bracket,
    Invisible,
}

/// A token of a `pg_queries!` block: an identifier or keyword, a
/// punctuation character (and whether it is joined to the next token), a
/// literal as written, or a delimited group with its text and its tokens.
pub enum BlockToken {
    Ident(String),
    Punct(char, bool),
    Literal(String),
    Group(Delim, String, Vec<BlockToken>),
}

/// The text of a token.
pub open spec fn tok_text(t: BlockToken) -> Seq<char> {
    match t {
        BlockToken::Ident(s) => s@,
        BlockToken::Punct(c, _) => seq![c],
        BlockToken::Literal(s) => s@,
        BlockToken::Group(_, s, _) => s@,
    }
}

/// Whether a token is a punctuation character joined to the next token.
pub open spec fn joint(t: BlockToken) -> bool {
    t matches BlockToken::Punct(_, true)
}

/// The text of a run of tokens: separated by a space, except after a
/// punctuation character joined to the next token.
pub open spec fn render(ts: Seq<BlockToken>) -> Seq<char>
    decreases ts.len(),
{
    if ts.len() == 0 {
        Seq::empty()
    } else if ts.len() == 1 {
        tok_text(ts[0])
    } else if joint(ts[ts.len() - 2]) {
        render(ts.drop_last()) + tok_text(ts.last())
    } else {
        render(ts.drop_last()) + " "@ + tok_text(ts.last())
    }
}

fn append_token(s: &mut String, t: &BlockToken)
    ensures
        final(s)@ == old(s)@ + tok_text(*t),
{
    match t {
        BlockToken::Ident(x) => s.append(x.as_str()),
        BlockToken::Punct(c, _) => push_char(s, *c),
        BlockToken::Literal(x) => s.append(x.as_str()),
        BlockToken::Group(_, x, _) => s.append(x.as_str()),
    }
}

fn is_joint(t: &BlockToken) -> (r: bool)
    ensures
        r == joint(*t),
{
    match t {
        BlockToken::Punct(_, j) => *j,
        _ => false,
    }
}

/// The text of the tokens from `from` up to, not including, `to`.
pub fn render_tokens(ts: &Vec<BlockToken>, from: usize, to: usize) -> (r: String)
    requires
        from <= to <= ts@.len(),
    ensures
        r@ == render(ts@.subrange(from as int, to as int)),
{
    let mut r = String::new();
    let mut i = from;
    while i < to
        invariant
            from <= i <= to <= ts@.len(),
            r@ == render(ts@.subrange(from as int, i as int)),
        decreases to - i,
    {
        let ghost sub = ts@.subrange(from as int, i + 1);
        proof {
            assert(sub.drop_last() =~= ts@.subrange(from as int, i as int));
            assert(sub.last() == ts@[i as int]);
            if i > from {
                assert(sub[sub.len() - 2] == ts@[i - 1]);
            }
        }
        if i > from && !is_joint(&ts[i - 1]) {
            push_char(&mut r, ' ');
        }
        append_token(&mut r, &ts[i]);
        proof {
            reveal_strlit(" ");
            if i == from {
                assert(render(ts@.subrange(from as int, i as int)) =~= Seq::<char>::empty());
                assert(r@ =~= tok_text(sub[0]));
            } else if joint(ts@[i - 1]) {
            } else {
                assert(r@ =~= render(sub.drop_last()) + " "@ + tok_text(sub.last()));
            }
        }
        i = i + 1;
    }
    r
}

/// Whether the token at `k` is the `>` of an arrow `->`.
pub open spec fn arrow_gt(ts: Seq<BlockToken>, k: int) -> bool {
    &&& 0 < k < ts.len()
    &&& ts[k - 1] matches BlockToken::Punct('-', true)
    &&& ts[k] matches BlockToken::Punct('>', _)
}

/// The depth of angle brackets after the token at `k`, from depth `d`
/// before it.
pub open spec fn angle_step(ts: Seq<BlockToken>, k: int, d: int) -> int {
    if ts[k] matches BlockToken::Punct('<', _) {
        d + 1
    } else if ts[k] matches BlockToken::Punct('>', _) && !arrow_gt(ts, k) && d > 0 {
        d - 1
    } else {
        d
    }
}

/// Where a parameter's type that starts at `k` (at angle depth `d`) ends:
/// at the first comma outside angle brackets, or at the end.
pub open spec fn param_type_end(ts: Seq<BlockToken>, k: int, d: int) -> int
    decreases ts.len() - k,
{
    if k >= ts.len() {
        ts.len() as int
    } else if d == 0 && ts[k] matches BlockToken::Punct(',', _) {
        k
    } else {
        param_type_end(ts, k + 1, angle_step(ts, k, d))
    }
}

/// Where a return type that starts at `k` (at angle depth `d`) ends: at the
/// first braced group outside angle brackets, or at the end.
pub open spec fn ret_type_end(ts: Seq<BlockToken>, k: int, d: int) -> int
    decreases ts.len() - k,
{
    if k >= ts.len() {
        ts.len() as int
    } else if d == 0 && ts[k] matches BlockToken::Group(Delim::Brace, _, _) {
        k
    } else {
        ret_type_end(ts, k + 1, angle_step(ts, k, d))
    }
}

fn is_punct(t: &BlockToken, c: char) -> (r: bool)
    ensures
        r == (t matches BlockToken::Punct(d, _) && d == c),
{
    match t {
        BlockToken::Punct(d, _) => *d == c,
        _ => false,
    }
}

fn is_brace(t: &BlockToken) -> (r: bool)
    ensures
        r == (t matches BlockToken::Group(Delim::Brace, _, _)),
{
    match t {
        BlockToken::Group(d, _, _) => *d == Delim::Brace,
        _ => false,
    }
}

fn next_depth(ts: &Vec<BlockToken>, k: usize, d: usize) -> (r: usize)
    requires
        k < ts.len(),
        d <= k,
    ensures
        r == angle_step(ts@, k as int, d as int),
        r <= k + 1,
{
    if is_punct(&ts[k], '<') {
        d + 1
    } else if is_punct(&ts[k], '>') && !(k > 0 && is_joint(&ts[k - 1]) && is_punct(&ts[k - 1], '-')) && d > 0 {
        d - 1
    } else {
        d
    }
}

/// Where the type starting at `from` ends, for a parameter (`brace` false)
/// or a return type (`brace` true).
fn type_end(ts: &Vec<BlockToken>, from: usize, brace: bool) -> (r: usize)
    requires
        from <= ts@.len(),
    ensures
        from <= r <= ts@.len(),
        !brace ==> r == param_type_end(ts@, from as int, 0),
        brace ==> r == ret_type_end(ts@, from as int, 0),
{
    let mut k = from;
    let mut d: usize = 0;
    while k < ts.len()
        invariant
            from <= k <= ts@.len(),
            d <= k,
            !brace ==> param_type_end(ts@, k as int, d as int) == param_type_end(ts@, from as int, 0),
            brace ==> ret_type_end(ts@, k as int, d as int) == ret_type_end(ts@, from as int, 0),
        decreases ts@.len() - k,
    {
        if d == 0 && ((!brace && is_punct(&ts[k], ',')) || (brace && is_brace(&ts[k]))) {
            return k;
        }
        d = next_depth(ts, k, d);
        k = k + 1;
    }
    k
}

// ----- messages -----

pub open spec fn msg_end() -> Seq<char> { "unexpected end of input, "@ }

/// What `syn` says when what it expects at `i` (described by `what`) is
/// missing: at the end of the tokens it adds that the input ended.
pub open spec fn missing(ts: Seq<BlockToken>, i: int, what: Seq<char>) -> Seq<char> {
    if i >= ts.len() { msg_end() + what } else { what }
}

/// Whether the token at `i` is an identifier `syn` accepts as one.
pub open spec fn ident_ok(ts: Seq<BlockToken>, i: int) -> bool {
    &&& 0 <= i < ts.len()
    &&& ts[i] matches BlockToken::Ident(n) && ident_value(n@) is Some
}

/// What `syn` says when the identifier it expects at `i` is missing.
pub open spec fn ident_error(ts: Seq<BlockToken>, i: int) -> Seq<char> {
    if 0 <= i < ts.len() && ts[i] is Ident {
        "expected identifier, found keyword `"@ + ts[i]->Ident_0@ + "`"@
    } else {
        missing(ts, i, "expected identifier"@)
    }
}

fn message_missing(ts: &Vec<BlockToken>, i: usize, what: &str) -> (r: String)
    ensures
        r@ == missing(ts@, i as int, what@),
{
    if i >= ts.len() {
        let mut m = String::from_str("unexpected end of input, ");
        m.append(what);
        m
    } else {
        String::from_str(what)
    }
}

/// The identifier at `i`, or what `syn` says when there is none.
fn ident_token(ts: &Vec<BlockToken>, i: usize) -> (r: Result<String, String>)
    ensures
        ident_ok(ts@, i as int) ==> (r matches Ok(n) && ts@[i as int] == BlockToken::Ident(n)),
        !ident_ok(ts@, i as int) ==> (r matches Err(m) && m@ == ident_error(ts@, i as int)),
{
    if i < ts.len() {
        match &ts[i] {
            BlockToken::Ident(n) => {
                if parse_ident(n.as_str()).is_some() {
                    return Ok(n.clone());
                } else {
                    let mut m = String::from_str("expected identifier, found keyword `");
                    m.append(n.as_str());
                    m.append("`");
                    return Err(m);
                }
            }
            _ => {}
        }
    }
    Err(message_missing(ts, i, "expected identifier"))
}

// ----- parameters -----

/// The parameters `name: Type, ...` of a parameter list from token `i`,
/// after those already read (`acc`): each name with its type's text, or
/// the first error: its message, or `None` where a type fails to parse
/// (the message is then `syn`'s). A trailing comma is allowed.
pub open spec fn params_from(ts: Seq<BlockToken>, i: int, acc: Seq<(Seq<char>, Seq<char>)>)
    -> Result<Seq<(Seq<char>, Seq<char>)>, Option<Seq<char>>>
    decreases ts.len() - i,
{
    if i >= ts.len() {
        Ok(acc)
    } else if !ident_ok(ts, i) {
        Err(Some(ident_error(ts, i)))
    } else if !(i + 1 < ts.len() && ts[i + 1] matches BlockToken::Punct(':', _)) {
        Err(Some("expected `:`"@))
    } else {
        let e = param_type_end(ts, i + 2, 0);
        let t = render(ts.subrange(i + 2, e));
        if !type_parses(t) {
            Err(None)
        } else {
            let acc2 = acc.push((ts[i]->Ident_0@, t));
            if e >= ts.len() {
                Ok(acc2)
            } else {
                proof {
                    lemma_type_end_bounds(ts, i + 2, 0);
                }
                params_from(ts, e + 1, acc2)
            }
        }
    }
}

/// Whether `msg` is the message `m` stands for (any message when `m` is
/// `None`: `syn`'s own).
pub open spec fn message_is(msg: Seq<char>, m: Option<Seq<char>>) -> bool {
    m matches Some(x) ==> msg == x
}

/// A type that starts at `k` ends at or after `k`, and at or before the end.
pub proof fn lemma_type_end_bounds(ts: Seq<BlockToken>, k: int, d: int)
    requires
        0 <= k <= ts.len(),
    ensures
        k <= param_type_end(ts, k, d) <= ts.len(),
        k <= ret_type_end(ts, k, d) <= ts.len(),
    decreases ts.len() - k,
{
    if k < ts.len() {
        lemma_type_end_bounds(ts, k + 1, angle_step(ts, k, d));
    }
}

/// The name and type text of each parameter.
pub open spec fn param_views(ps: Seq<QueryParam>) -> Seq<(Seq<char>, Seq<char>)> {
    Seq::new(ps.len(), |k: int| (ps[k].name@, ps[k].ty.text@))
}

/// Reads a parameter list: each parameter's name and type text, or the
/// first error's message.
pub fn parse_params(ts: &Vec<BlockToken>) -> (r: Result<Vec<QueryParam>, String>)
    ensures
        match params_from(ts@, 0, Seq::empty()) {
            Ok(ps) => r matches Ok(v) && param_views(v@) == ps
                && forall|k: int| 0 <= k < v@.len() ==> (#[trigger] v@[k]).ty.last_segment is None
                    && v@[k].ty.first_type_arg is None,
            Err(m) => r matches Err(e) && message_is(e@, m),
        },
{
    let mut acc: Vec<QueryParam> = Vec::new();
    let mut i: usize = 0;
    assert(param_views(acc@) =~= Seq::<(Seq<char>, Seq<char>)>::empty());
    while i < ts.len()
        invariant
            0 <= i <= ts@.len(),
            params_from(ts@, i as int, param_views(acc@)) == params_from(ts@, 0, Seq::empty()),
            forall|k: int| 0 <= k < acc@.len() ==> (#[trigger] acc@[k]).ty.last_segment is None
                && acc@[k].ty.first_type_arg is None,
        decreases ts@.len() - i,
    {
        let name = match ident_token(ts, i) {
            Ok(n) => n,
            Err(m) => return Err(m),
        };
        if !(i + 1 < ts.len() && is_punct(&ts[i + 1], ':')) {
            return Err(String::from_str("expected `:`"));
        }
        let e = type_end(ts, i + 2, false);
        let text = render_tokens(ts, i + 2, e);
        match check_type(text.as_str()) {
            Ok(()) => {},
            Err(m) => return Err(m),
        }
        let ghost before = acc@;
        acc.push(QueryParam { name, ty: TypeInfo { text, last_segment: None, type_arg_count: 0, first_type_arg: None } });
        proof {
            assert(param_views(acc@) =~= param_views(before).push((ts@[i as int]->Ident_0@, acc@.last().ty.text@)));
        }
        if e >= ts.len() {
            i = e;
        } else {
            i = e + 1;
        }
    }
    Ok(acc)
}

// ----- queries -----

/// A query as read: name, parameters (name and type text), return type
/// text and SQL.
pub struct QueryView {
    pub name: Seq<char>,
    pub params: Seq<(Seq<char>, Seq<char>)>,
    pub ret: Option<Seq<char>>,
    pub sql: Seq<char>,
}

/// The outcome of reading one query: the query, where the next one starts
/// and whether tokens follow the SQL literal in its braces; or the error's
/// message (`None`: `syn`'s, for a type that fails to parse) with the
/// return type read before it, if any.
pub enum QueryStep {
    Parsed(QueryView, int, bool),
    Failed(Option<Seq<char>>, Option<Seq<char>>),
}

/// The value of the string literal token at `i`, when there is one.
pub open spec fn lit_tok(ts: Seq<BlockToken>, i: int) -> Option<Seq<char>> {
    if 0 <= i < ts.len() {
        match ts[i] {
            BlockToken::Literal(l) => lit_str_value(l@),
            _ => None,
        }
    } else {
        None
    }
}

/// Whether the keyword `fn` is at `i`.
pub open spec fn fn_at(ts: Seq<BlockToken>, i: int) -> bool {
    &&& 0 <= i < ts.len()
    &&& ts[i] matches BlockToken::Ident(f) && f@ == "fn"@
}

/// Whether a group delimited by `d` is at `i`.
pub open spec fn group_at(ts: Seq<BlockToken>, i: int, d: Delim) -> bool {
    &&& 0 <= i < ts.len()
    &&& ts[i] matches BlockToken::Group(e, _, _) && e == d
}

/// Whether an arrow `->` starts at `j`.
pub open spec fn arrow_at(ts: Seq<BlockToken>, j: int) -> bool {
    &&& 0 <= j && j + 1 < ts.len()
    &&& ts[j] matches BlockToken::Punct('-', true)
    &&& ts[j + 1] matches BlockToken::Punct('>', _)
}

/// The braced SQL literal at `k` that ends a query.
pub open spec fn body_step(
    ts: Seq<BlockToken>,
    k: int,
    name: Seq<char>,
    ps: Seq<(Seq<char>, Seq<char>)>,
    ret: Option<Seq<char>>,
) -> QueryStep {
    if !group_at(ts, k, Delim::Brace) {
        QueryStep::Failed(Some(missing(ts, k, "expected curly braces"@)), ret)
    } else {
        let inner = ts[k]->Group_2@;
        match lit_tok(inner, 0) {
            None => QueryStep::Failed(Some(missing(inner, 0, "expected string literal"@)), ret),
            Some(sql) => QueryStep::Parsed(QueryView { name, params: ps, ret, sql }, k + 1, inner.len() > 1),
        }
    }
}

/// Reads the query `fn name(params) -> Type { "SQL" }` at `i` (the return
/// type is optional).
pub open spec fn query_step(ts: Seq<BlockToken>, i: int) -> QueryStep {
    if !fn_at(ts, i) {
        QueryStep::Failed(Some(missing(ts, i, "expected `fn`"@)), None)
    } else if !ident_ok(ts, i + 1) {
        QueryStep::Failed(Some(ident_error(ts, i + 1)), None)
    } else if !group_at(ts, i + 2, Delim::Paren) {
        QueryStep::Failed(Some(missing(ts, i + 2, "expected parentheses"@)), None)
    } else {
        let name = ts[i + 1]->Ident_0@;
        match params_from(ts[i + 2]->Group_2@, 0, Seq::empty()) {
            Err(m) => QueryStep::Failed(m, None),
            Ok(ps) => if arrow_at(ts, i + 3) {
                let e = ret_type_end(ts, i + 5, 0);
                let t = render(ts.subrange(i + 5, e));
                if type_parses(t) {
                    body_step(ts, e, name, ps, Some(t))
                } else {
                    QueryStep::Failed(None, None)
                }
            } else {
                body_step(ts, i + 3, name, ps, None)
            },
        }
    }
}

/// The view of a query read into a `QueryInput`.
pub open spec fn query_view(q: QueryInput) -> QueryView {
    QueryView {
        name: q.name@,
        params: param_views(q.params@),
        ret: match q.ret {
            Some(t) => Some(t.text@),
            None => None,
        },
        sql: q.sql@,
    }
}

/// The text of an optional type.
pub open spec fn ret_text(t: Option<TypeInfo>) -> Option<Seq<char>> {
    match t {
        Some(x) => Some(x.text@),
        None => None,
    }
}

/// What reading a query gives: the query, where the next one starts and
/// whether tokens follow its SQL; or the error's message and the return
/// type read before it.
pub enum QueryRead {
    Read(QueryInput, usize, bool),
    Failed(String, Option<TypeInfo>),
}

fn is_group(t: &BlockToken, d: Delim) -> (r: bool)
    ensures
        r == (t matches BlockToken::Group(e, _, _) && e == d),
{
    match t {
        BlockToken::Group(e, _, _) => *e == d,
        _ => false,
    }
}

fn lit_token(ts: &Vec<BlockToken>, i: usize) -> (r: Option<String>)
    ensures
        match lit_tok(ts@, i as int) {
            Some(v) => r matches Some(x) && x@ == v,
            None => r is None,
        },
{
    if i < ts.len() {
        match &ts[i] {
            BlockToken::Literal(l) => parse_lit_str(l.as_str()),
            _ => None,
        }
    } else {
        None
    }
}

fn read_body(ts: &Vec<BlockToken>, k: usize, name: String, params: Vec<QueryParam>, ret: Option<TypeInfo>) -> (r: QueryRead)
    ensures
        match body_step(ts@, k as int, name@, param_views(params@), ret_text(ret)) {
            QueryStep::Parsed(v, next, extra) => r matches QueryRead::Read(q, n, x)
                && query_view(q) == v && n == next && x == extra
                && q.params@ == params@ && q.ret == ret,
            QueryStep::Failed(m, rt) => r matches QueryRead::Failed(msg, t) && message_is(msg@, m) && t == ret,
        },
{
    if !(k < ts.len() && is_group(&ts[k], Delim::Brace)) {
        return QueryRead::Failed(message_missing(ts, k, "expected curly braces"), ret);
    }
    match &ts[k] {
        BlockToken::Group(_, _, inner) => {
            match lit_token(inner, 0) {
                None => QueryRead::Failed(message_missing(inner, 0, "expected string literal"), ret),
                Some(sql) => {
                    let extra = inner.len() > 1;
                    let q = QueryInput { name, params, ret, sql };
                    QueryRead::Read(q, k + 1, extra)
                }
            }
        }
        _ => QueryRead::Failed(message_missing(ts, k, "expected curly braces"), ret),
    }
}

/// Reads the query at `i`.
pub fn read_query(ts: &Vec<BlockToken>, i: usize) -> (r: QueryRead)
    ensures
        match query_step(ts@, i as int) {
            QueryStep::Parsed(v, next, extra) => r matches QueryRead::Read(q, n, x)
                && query_view(q) == v && n == next && x == extra
                && forall|k: int| 0 <= k < q.params@.len() ==> (#[trigger] q.params@[k]).ty.last_segment is None
                    && q.params@[k].ty.first_type_arg is None,
            QueryStep::Failed(m, rt) => r matches QueryRead::Failed(msg, t) && message_is(msg@, m) && ret_text(t) == rt,
        },
{
    let is_fn = if i < ts.len() {
        match &ts[i] {
            BlockToken::Ident(f) => str_eq(f.as_str(), "fn"),
            _ => false,
        }
    } else {
        false
    };
    if !is_fn {
        return QueryRead::Failed(message_missing(ts, i, "expected `fn`"), None);
    }
    let name = match ident_token(ts, i + 1) {
        Ok(n) => n,
        Err(m) => return QueryRead::Failed(m, None),
    };
    if !(i + 2 < ts.len() && is_group(&ts[i + 2], Delim::Paren)) {
        return QueryRead::Failed(message_missing(ts, i + 2, "expected parentheses"), None);
    }
    let params = match &ts[i + 2] {
        BlockToken::Group(_, _, inner) => match parse_params(inner) {
            Ok(ps) => ps,
            Err(m) => return QueryRead::Failed(m, None),
        },
        _ => return QueryRead::Failed(message_missing(ts, i + 2, "expected parentheses"), None),
    };
    let arrow = ts.len() - i > 4 && is_joint(&ts[i + 3]) && is_punct(&ts[i + 3], '-') && is_punct(&ts[i + 4], '>');
    if arrow {
        let e = type_end(ts, i + 5, true);
        let text = render_tokens(ts, i + 5, e);
        match check_type(text.as_str()) {
            Err(m) => QueryRead::Failed(m, None),
            Ok(()) => read_body(ts, e, name, params, Some(TypeInfo { text, last_segment: None, type_arg_count: 0, first_type_arg: None })),
        }
    } else {
        read_body(ts, i + 3, name, params, None)
    }
}

pub proof fn lemma_query_step_advances(ts: Seq<BlockToken>, i: int)
    requires
        0 <= i < ts.len(),
    ensures
        query_step(ts, i) matches QueryStep::Parsed(_, next, _) ==> i < next <= ts.len(),
{
    if arrow_at(ts, i + 3) {
        lemma_type_end_bounds(ts, i + 5, 0);
    }
}

// ----- the block -----

/// The optional `schema = "name";` line: absent, or the leading
/// identifier with what follows it (the name, or the error's message).
pub enum HeaderView {
    Absent,
    Present(Seq<char>, Result<Seq<char>, Seq<char>>),
}

/// What follows a leading identifier: `= "name";`.
pub open spec fn header_rest(ts: Seq<BlockToken>) -> Result<Seq<char>, Seq<char>> {
    if !(1 < ts.len() && ts[1] matches BlockToken::Punct('=', _)) {
        Err("expected `=`"@)
    } else {
        match lit_tok(ts, 2) {
            None => Err(missing(ts, 2, "expected string literal"@)),
            Some(v) => if 3 < ts.len() && ts[3] matches BlockToken::Punct(';', _) {
                Ok(v)
            } else {
                Err("expected `;`"@)
            },
        }
    }
}

/// The header of a block: present when the block starts with an
/// identifier (`fn` is a keyword, not one).
pub open spec fn header_view(ts: Seq<BlockToken>) -> HeaderView {
    if ident_ok(ts, 0) { HeaderView::Present(ts[0]->Ident_0@, header_rest(ts)) } else { HeaderView::Absent }
}

/// Where the queries start.
pub open spec fn queries_start(ts: Seq<BlockToken>) -> int {
    if ident_ok(ts, 0) { 4 } else { 0 }
}

/// The view of a header as read.
pub open spec fn header_of(h: SchemaHeader) -> HeaderView {
    match h {
        SchemaHeader::Absent => HeaderView::Absent,
        SchemaHeader::Present { ident, rest } => HeaderView::Present(ident@, result_view(rest)),
    }
}

/// The queries of a block from `i` on, after those already read (`acc`):
/// read until the tokens end or a query fails to read (`rest`: its
/// message, `None` when it is `syn`'s, and the return type read before
/// the failure); `extra` when
/// tokens follow the SQL literal of some query read.
pub struct QueriesView {
    pub queries: Seq<QueryView>,
    pub rest: Option<(Option<Seq<char>>, Option<Seq<char>>)>,
    pub extra: bool,
}

pub open spec fn queries_from(ts: Seq<BlockToken>, i: int, acc: Seq<QueryView>, extra: bool) -> QueriesView
    decreases ts.len() - i,
{
    if i < 0 || i >= ts.len() {
        QueriesView { queries: acc, rest: None, extra }
    } else {
        match query_step(ts, i) {
            QueryStep::Failed(m, ret) => QueriesView { queries: acc, rest: Some((m, ret)), extra },
            QueryStep::Parsed(q, next, x) => {
                proof {
                    lemma_query_step_advances(ts, i);
                }
                queries_from(ts, next, acc.push(q), extra || x)
            },
        }
    }
}

/// The queries of a block.
pub open spec fn block_queries(ts: Seq<BlockToken>) -> QueriesView {
    queries_from(ts, queries_start(ts), Seq::empty(), false)
}

/// Whether `e` is the error reported for a query that failed to read with
/// message `m` after reading the return type `ret`: the return type's own
/// error when it is not accepted, the syntax error otherwise.
pub open spec fn rest_error(e: MacroError, m: Option<Seq<char>>, ret: Option<Seq<char>>) -> bool {
    &&& e.site == ErrorSite::CallSite
    &&& if ret matches Some(t) && !type_accepted_text(t) {
        classifies_text(Err(e), ret->Some_0)
    } else {
        message_is(e.message@, m)
    }
}

fn read_header(ts: &Vec<BlockToken>) -> (r: (SchemaHeader, usize))
    ensures
        header_of(r.0) == header_view(ts@),
        r.1 == queries_start(ts@),
{
    match ident_token(ts, 0) {
        Err(_) => (SchemaHeader::Absent, 0),
        Ok(ident) => {
            let rest = if !(1 < ts.len() && is_punct(&ts[1], '=')) {
                Err(String::from_str("expected `=`"))
            } else {
                match lit_token(ts, 2) {
                    None => Err(message_missing(ts, 2, "expected string literal")),
                    Some(v) => if 3 < ts.len() && is_punct(&ts[3], ';') {
                        Ok(v)
                    } else {
                        Err(String::from_str("expected `;`"))
                    },
                }
            };
            (SchemaHeader::Present { ident, rest }, 4)
        }
    }
}

fn rest_error_of(m: String, ret: Option<TypeInfo>) -> (e: MacroError)
    ensures
        forall|mv: Option<Seq<char>>| message_is(m@, mv) ==> #[trigger] rest_error(e, mv, ret_text(ret)),
{
    match ret {
        Some(t) => match parse_return_kind(&t) {
            Err(e) => e,
            Ok(_) => MacroError { site: ErrorSite::CallSite, message: m },
        },
        None => MacroError { site: ErrorSite::CallSite, message: m },
    }
}

/// The views of the queries read.
pub open spec fn query_views(qs: Seq<QueryInput>) -> Seq<QueryView> {
    Seq::new(qs.len(), |k: int| query_view(qs[k]))
}

fn read_queries(ts: &Vec<BlockToken>, start: usize) -> (r: (Vec<QueryInput>, Option<MacroError>, bool))
    ensures
        query_views(r.0@) == queries_from(ts@, start as int, Seq::empty(), false).queries,
        r.2 == queries_from(ts@, start as int, Seq::empty(), false).extra,
        match queries_from(ts@, start as int, Seq::empty(), false).rest {
            None => r.1 is None,
            Some((m, ret)) => r.1 matches Some(e) && rest_error(e, m, ret),
        },
{
    let mut qs: Vec<QueryInput> = Vec::new();
    let mut extra = false;
    let mut i = start;
    assert(query_views(qs@) =~= Seq::<QueryView>::empty());
    while i < ts.len()
        invariant
            queries_from(ts@, i as int, query_views(qs@), extra) == queries_from(ts@, start as int, Seq::empty(), false),
        decreases ts@.len() - i,
    {
        proof {
            lemma_query_step_advances(ts@, i as int);
        }
        match read_query(ts, i) {
            QueryRead::Read(q, next, x) => {
                let ghost before = qs@;
                qs.push(q);
                proof {
                    assert(query_views(qs@) =~= query_views(before).push(query_view(qs@.last())));
                }
                extra = extra || x;
                i = next;
            }
            QueryRead::Failed(m, ret) => {
                let e = rest_error_of(m, ret);
                return (qs, Some(e), extra);
            }
        }
    }
    (qs, None, extra)
}

// ----- checking the block -----

/// Whether a return type text is accepted (no return type is).
pub open spec fn ret_ok_text(ret: Option<Seq<char>>) -> bool {
    match ret {
        None => true,
        Some(t) => type_accepted_text(t),
    }
}

/// Whether a query read is accepted: its return type is, and its
/// parameters match the largest `$N` of its SQL.
pub open spec fn query_ok_view(v: QueryView) -> bool {
    ret_ok_text(v.ret) && max_placeholder(v.sql) == v.params.len()
}

/// What a query's return type selects (no return type is `Unit`).
pub open spec fn kind_of_text(r: Result<ReturnKind, MacroError>, ret: Option<Seq<char>>) -> bool {
    match ret {
        None => r matches Ok(ReturnKind::Unit),
        Some(t) => classifies_text(r, t),
    }
}

/// Whether `d` is the checked definition of the query read as `v`.
pub open spec fn defines_view(d: QueryDef, v: QueryView) -> bool {
    &&& d.name@ == v.name
    &&& param_views(d.params@) == v.params
    &&& d.sql@ == v.sql
    &&& kind_of_text(Ok(d.return_kind), v.ret)
}

/// The error of the rejected query read as `v` at `index`: its return
/// type's error first, then the placeholder mismatch.
pub open spec fn query_error_view(e: MacroError, v: QueryView, index: usize) -> bool {
    if !ret_ok_text(v.ret) {
        v.ret matches Some(t) && classifies_text(Err(e), t)
    } else {
        e.site == ErrorSite::Query(index)
            && e.message@ == mismatch_message(v.name, v.params.len(), max_placeholder(v.sql))
    }
}

/// Whether a header is accepted: absent, or `schema = "name";`.
pub open spec fn header_ok_view(h: HeaderView) -> bool {
    match h {
        HeaderView::Absent => true,
        HeaderView::Present(id, rest) => id == "schema"@ && rest is Ok,
    }
}

/// The schema key a header names (`"default"` without one).
pub open spec fn header_schema_view(h: HeaderView) -> Seq<char> {
    match h {
        HeaderView::Present(_, Ok(v)) => v,
        _ => "default"@,
    }
}

/// Whether a block starts with an identifier other than `schema`.
pub open spec fn rejects_header_view(h: HeaderView) -> bool {
    h matches HeaderView::Present(id, _) && id != "schema"@
}

/// The error of a block with an accepted header whose queries read as
/// `b`: the first rejected query's error; else the error that stopped the
/// reading; else the tokens that follow some query's SQL literal.
pub open spec fn block_error(e: MacroError, b: QueriesView) -> bool {
    if exists|i: int| 0 <= i < b.queries.len() && !query_ok_view(#[trigger] b.queries[i]) {
        exists|i: int| 0 <= i < b.queries.len() && !query_ok_view(#[trigger] b.queries[i])
            && (forall|k: int| 0 <= k < i ==> query_ok_view(#[trigger] b.queries[k]))
            && query_error_view(e, b.queries[i], i as usize)
    } else {
        match b.rest {
            Some((m, ret)) => rest_error(e, m, ret),
            None => e.site == ErrorSite::CallSite && e.message@ == "unexpected token"@,
        }
    }
}

proof fn lemma_query_view(q: QueryInput)
    ensures
        query_ok(q) == query_ok_view(query_view(q)),
        forall|d: QueryDef| #[trigger] defines(d, q) ==> defines_view(d, query_view(q)),
{
}

proof fn lemma_query_view_error(q: QueryInput, e: MacroError, index: usize)
    ensures
        query_error(e, q, index) == query_error_view(e, query_view(q), index),
{
}

/// `pg_queries! { .. }` with the block's tokens: reads the header and the
/// queries, checks them in order (stopping at the first error, as the
/// reading does), and names the trait.
pub fn pg_queries_block(ts: &Vec<BlockToken>) -> (r: Result<QueriesPlan, MacroError>)
    ensures
        r is Ok <==> header_ok_view(header_view(ts@))
            && (forall|i: int| 0 <= i < block_queries(ts@).queries.len()
                ==> query_ok_view(#[trigger] block_queries(ts@).queries[i]))
            && block_queries(ts@).rest is None && !block_queries(ts@).extra,
        r matches Ok(p) ==> {
            &&& p.schema@ == header_schema_view(header_view(ts@))
            &&& p.trait_name@ == trait_name_spec(p.schema@)
            &&& p.queries@.len() == block_queries(ts@).queries.len()
            &&& forall|i: int| 0 <= i < p.queries@.len()
                ==> defines_view(#[trigger] p.queries@[i], block_queries(ts@).queries[i])
        },
        rejects_header_view(header_view(ts@)) ==> (r matches Err(e) && e.site == ErrorSite::Header
            && e.message@ == msg_expected_schema()),
        header_view(ts@) matches HeaderView::Present(id, Err(m)) ==> (id == "schema"@ ==> (r matches Err(e)
            && e.site == ErrorSite::CallSite && e.message@ == m)),
        r matches Err(e) ==> (header_ok_view(header_view(ts@)) ==> block_error(e, block_queries(ts@))),
{
    let (header, start) = read_header(ts);
    let (queries, rest, extra) = read_queries(ts, start);
    let ghost qs = queries@;
    let ghost b = block_queries(ts@);
    proof {
        assert forall|i: int| 0 <= i < qs.len() implies #[trigger] query_views(qs)[i] == query_view(qs[i]) by {}
        assert(query_views(qs).len() == qs.len());
        assert forall|i: int| 0 <= i < qs.len() implies query_ok(#[trigger] qs[i]) == query_ok_view(b.queries[i]) by {
            lemma_query_view(qs[i]);
            assert(b.queries[i] == query_views(qs)[i]);
        }
    }
    let result = pg_queries(header, queries, rest);
    match result {
        Err(e) => {
            proof {
                if header_ok_view(header_view(ts@)) {
                    if exists|i: int| 0 <= i < qs.len() && !query_ok(#[trigger] qs[i])
                        && (forall|k: int| 0 <= k < i ==> query_ok(#[trigger] qs[k]))
                        && query_error(e, qs[i], i as usize) {
                        let i = choose|i: int| 0 <= i < qs.len() && !query_ok(#[trigger] qs[i])
                            && (forall|k: int| 0 <= k < i ==> query_ok(#[trigger] qs[k]))
                            && query_error(e, qs[i], i as usize);
                        lemma_query_view(qs[i]);
                        lemma_query_view_error(qs[i], e, i as usize);
                        assert(b.queries[i] == query_views(qs)[i]);
                        assert(!query_ok_view(b.queries[i]));
                        assert forall|k: int| 0 <= k < i implies query_ok_view(#[trigger] b.queries[k]) by {
                            assert(query_ok(qs[k]));
                        }
                        assert(exists|j: int| 0 <= j < b.queries.len() && !query_ok_view(#[trigger] b.queries[j])
                            && (forall|k: int| 0 <= k < j ==> query_ok_view(#[trigger] b.queries[k]))
                            && query_error_view(e, b.queries[j], j as usize));
                    } else {
                        assert forall|k: int| 0 <= k < b.queries.len() implies query_ok_view(#[trigger] b.queries[k]) by {
                            assert(query_ok(qs[k]));
                        }
                    }
                }
            }
            Err(e)
        }
        Ok(p) => {
            if extra {
                Err(MacroError { site: ErrorSite::CallSite, message: String::from_str("unexpected token") })
            } else {
                proof {
                    assert forall|i: int| 0 <= i < p.queries@.len()
                        implies defines_view(#[trigger] p.queries@[i], b.queries[i]) by {
                        lemma_query_view(qs[i]);
                        assert(b.queries[i] == query_views(qs)[i]);
                    }
                }
                Ok(p)
            }
        }
    }
}

} // verus!
