//! The `pg_queries!` macro: how a query's return type selects the way it is
//! run, the check that parameters match the SQL's `$N` placeholders, and
//! the name of the generated trait.

use vstd::prelude::*;
use crate::syntax::{ErrorSite, MacroError, TypeInfo, check_type, str_eq, type_parses};
use crate::text::{char_to_upper, upper_of, push_char, push_decimal, remove_char, starts, str_starts_with, substring, without, decimal, digit_char};

verus! {

// ----- placeholders -----

/// An ASCII decimal digit.
pub open spec fn is_digit(c: char) -> bool {
    '0' <= c && c <= '9'
}

/// The number an ASCII digit stands for.
pub open spec fn digit_value(c: char) -> nat {
    ((c as int) - ('0' as int)) as nat
}

/// The number a run of digits stands for.
pub open spec fn digits_value(d: Seq<char>) -> nat
    decreases d.len(),
{
    if d.len() == 0 {
        0
    } else {
        digits_value(d.drop_last()) * 10 + digit_value(d.last())
    }
}

/// The end of the run of digits that starts at `j`.
pub open spec fn run_end(s: Seq<char>, j: int) -> int
    decreases s.len() - j,
{
    if 0 <= j < s.len() && is_digit(s[j]) {
        run_end(s, j + 1)
    } else {
        j
    }
}

/// The number of the placeholder `$N` at `i`: the digits right after a `$`,
/// when there is at least one and the number fits in a `usize`; 0 otherwise.
pub open spec fn ref_at(s: Seq<char>, i: int) -> nat {
    if 0 <= i < s.len() && s[i] == '$' {
        let e = run_end(s, i + 1);
        let v = digits_value(s.subrange(i + 1, e));
        if e > i + 1 && v <= usize::MAX { v } else { 0 }
    } else {
        0
    }
}

/// The largest placeholder number among the first `n` positions.
pub open spec fn max_ref_upto(s: Seq<char>, n: int) -> nat
    decreases n,
{
    if n <= 0 {
        0
    } else {
        let m = max_ref_upto(s, n - 1);
        let r = ref_at(s, n - 1);
        if r > m { r } else { m }
    }
}

/// The largest `$N` in a SQL text (0 when there is none).
pub open spec fn max_placeholder(s: Seq<char>) -> nat {
    max_ref_upto(s, s.len() as int)
}

proof fn lemma_run_end(s: Seq<char>, start: int, j: int)
    requires
        0 <= start <= j <= s.len(),
        forall|k: int| start <= k < j ==> is_digit(#[trigger] s[k]),
        j == s.len() || !is_digit(s[j]),
    ensures
        run_end(s, start) == j,
    decreases j - start,
{
    if start < j {
        lemma_run_end(s, start + 1, j);
    }
}

/// Whether `s` has no `$`.
pub open spec fn no_dollar(s: Seq<char>) -> bool {
    forall|i: int| 0 <= i < s.len() ==> s[i] != '$'
}

/// Whether no `$N` of `a` can run on into `b` when they are joined: `b`
/// does not start with a digit, or `a` ends in a character that is
/// neither a digit nor `$`.
pub open spec fn clean_cut(a: Seq<char>, b: Seq<char>) -> bool {
    ||| b.len() == 0
    ||| !is_digit(b[0])
    ||| (a.len() > 0 && !is_digit(a.last()) && a.last() != '$')
}

proof fn lemma_run_end_prefix(a: Seq<char>, b: Seq<char>, j: int)
    requires
        0 <= j <= a.len(),
        (b.len() == 0 || !is_digit(b[0])) || (j < a.len() && !is_digit(a.last())),
    ensures
        run_end(a + b, j) == run_end(a, j),
        j <= run_end(a, j) <= a.len(),
    decreases a.len() - j,
{
    if j < a.len() {
        assert((a + b)[j] == a[j]);
        if is_digit(a[j]) {
            if !(b.len() == 0 || !is_digit(b[0])) {
                assert(j != a.len() - 1);
            }
            lemma_run_end_prefix(a, b, j + 1);
        }
    } else if b.len() > 0 {
        assert((a + b)[j] == b[0]);
    }
}

proof fn lemma_run_end_suffix(a: Seq<char>, b: Seq<char>, j: int)
    requires
        0 <= j <= b.len(),
    ensures
        run_end(a + b, a.len() + j) == a.len() + run_end(b, j),
        j <= run_end(b, j) <= b.len(),
    decreases b.len() - j,
{
    if j < b.len() {
        assert((a + b)[a.len() + j] == b[j]);
        if is_digit(b[j]) {
            lemma_run_end_suffix(a, b, j + 1);
        }
    }
}

proof fn lemma_ref_at_prefix(a: Seq<char>, b: Seq<char>, i: int)
    requires
        0 <= i < a.len(),
        clean_cut(a, b),
    ensures
        ref_at(a + b, i) == ref_at(a, i),
{
    let s = a + b;
    assert(s[i] == a[i]);
    if a[i] == '$' {
        if i == a.len() - 1 {
            assert(b.len() == 0 || !is_digit(b[0]));
            lemma_run_end_prefix(a, b, i + 1);
        } else {
            lemma_run_end_prefix(a, b, i + 1);
            let e = run_end(a, i + 1);
            assert(s.subrange(i + 1, e) =~= a.subrange(i + 1, e));
        }
    }
}

proof fn lemma_ref_at_suffix(a: Seq<char>, b: Seq<char>, k: int)
    requires
        0 <= k < b.len(),
    ensures
        ref_at(a + b, a.len() + k) == ref_at(b, k),
{
    let s = a + b;
    assert(s[a.len() + k] == b[k]);
    if b[k] == '$' {
        lemma_run_end_suffix(a, b, k + 1);
        let e = run_end(b, k + 1);
        assert(s.subrange(a.len() + k + 1, a.len() + e) =~= b.subrange(k + 1, e));
    }
}

proof fn lemma_max_ref_prefix(a: Seq<char>, b: Seq<char>, n: int)
    requires
        0 <= n <= a.len(),
        clean_cut(a, b),
    ensures
        max_ref_upto(a + b, n) == max_ref_upto(a, n),
    decreases n,
{
    if n > 0 {
        lemma_max_ref_prefix(a, b, n - 1);
        lemma_ref_at_prefix(a, b, n - 1);
    }
}

proof fn lemma_max_ref_suffix(a: Seq<char>, b: Seq<char>, m: int)
    requires
        0 <= m <= b.len(),
    ensures
        max_ref_upto(a + b, a.len() + m) == (if max_ref_upto(b, m) > max_ref_upto(a + b, a.len() as int) {
            max_ref_upto(b, m)
        } else {
            max_ref_upto(a + b, a.len() as int)
        }),
    decreases m,
{
    if m > 0 {
        lemma_max_ref_suffix(a, b, m - 1);
        lemma_ref_at_suffix(a, b, m - 1);
    }
}

/// The larger of two numbers.
pub open spec fn larger(x: nat, y: nat) -> nat {
    if x >= y { x } else { y }
}

/// Joining two texts at a clean cut gives the larger of their largest
/// placeholders.
pub proof fn lemma_max_placeholder_concat(a: Seq<char>, b: Seq<char>)
    requires
        clean_cut(a, b),
    ensures
        max_placeholder(a + b) == larger(max_placeholder(a), max_placeholder(b)),
{
    lemma_max_ref_prefix(a, b, a.len() as int);
    lemma_max_ref_suffix(a, b, b.len() as int);
}

/// A text without `$` in front of another adds no placeholder.
pub proof fn lemma_max_placeholder_after_plain(a: Seq<char>, b: Seq<char>)
    requires
        no_dollar(a),
    ensures
        max_placeholder(a + b) == max_placeholder(b),
{
    lemma_max_ref_plain(a + b, a.len() as int);
    lemma_max_ref_suffix(a, b, b.len() as int);
}

proof fn lemma_max_ref_plain(s: Seq<char>, n: int)
    requires
        0 <= n <= s.len(),
        forall|i: int| 0 <= i < n ==> s[i] != '$',
    ensures
        max_ref_upto(s, n) == 0,
    decreases n,
{
    if n > 0 {
        lemma_max_ref_plain(s, n - 1);
    }
}

/// A text without `$` has no placeholder.
pub proof fn lemma_max_placeholder_plain(s: Seq<char>)
    requires
        no_dollar(s),
    ensures
        max_placeholder(s) == 0,
{
    lemma_max_ref_plain(s, s.len() as int);
}

/// The decimal rendering of `n` is a non-empty run of digits standing for `n`.
pub proof fn lemma_decimal_digits(n: nat)
    ensures
        decimal(n).len() >= 1,
        forall|i: int| 0 <= i < decimal(n).len() ==> is_digit(#[trigger] decimal(n)[i]),
        digits_value(decimal(n)) == n,
    decreases n,
{
    if n < 10 {
        lemma_digit_char(n);
        assert(seq![digit_char(n)].drop_last() =~= Seq::<char>::empty());
        assert(digits_value(Seq::<char>::empty()) == 0);
    } else {
        lemma_decimal_digits(n / 10);
        let d = decimal(n / 10);
        let c = digit_char(n % 10);
        lemma_digit_char(n % 10);
        assert(d.push(c).drop_last() =~= d);
        assert((n / 10) * 10 + n % 10 == n);
    }
}

proof fn lemma_digit_char(d: nat)
    requires
        d < 10,
    ensures
        is_digit(digit_char(d)),
        digit_value(digit_char(d)) == d,
{
    if d == 0 { assert(('0' as int) - ('0' as int) == 0); }
    else if d == 1 { assert(('1' as int) - ('0' as int) == 1); }
    else if d == 2 { assert(('2' as int) - ('0' as int) == 2); }
    else if d == 3 { assert(('3' as int) - ('0' as int) == 3); }
    else if d == 4 { assert(('4' as int) - ('0' as int) == 4); }
    else if d == 5 { assert(('5' as int) - ('0' as int) == 5); }
    else if d == 6 { assert(('6' as int) - ('0' as int) == 6); }
    else if d == 7 { assert(('7' as int) - ('0' as int) == 7); }
    else if d == 8 { assert(('8' as int) - ('0' as int) == 8); }
    else { assert(('9' as int) - ('0' as int) == 9); }
}

/// The largest placeholder of `$n` is `n`.
pub proof fn lemma_max_placeholder_single(n: nat)
    requires
        n <= usize::MAX,
    ensures
        max_placeholder("$"@ + decimal(n)) == n,
{
    reveal_strlit("$");
    let d = decimal(n);
    let s = "$"@ + d;
    lemma_decimal_digits(n);
    assert(s[0] == '$');
    assert forall|k: int| 1 <= k < s.len() implies is_digit(#[trigger] s[k]) by {
        assert(s[k] == d[k - 1]);
    }
    lemma_run_end(s, 1, s.len() as int);
    assert(s.subrange(1, s.len() as int) =~= d);
    assert(ref_at(s, 0) == n);
    assert(max_ref_upto(s, 0) == 0);
    assert(max_ref_upto(s, 1) == n);
    lemma_max_ref_digits_after(s, s.len() as int);
}

proof fn lemma_max_ref_digits_after(s: Seq<char>, m: int)
    requires
        1 <= m <= s.len(),
        forall|k: int| 1 <= k < s.len() ==> is_digit(#[trigger] s[k]),
    ensures
        max_ref_upto(s, m) == max_ref_upto(s, 1),
    decreases m,
{
    if m > 1 {
        lemma_max_ref_digits_after(s, m - 1);
        assert(is_digit(s[m - 1]));
    }
}

/// A parameter of a query.
pub struct QueryParam {
    pub name: String,
    pub ty: TypeInfo,
}

/// The message for a parameter count that differs from the placeholders.
pub open spec fn mismatch_message(name: Seq<char>, count: nat, max: nat) -> Seq<char> {
    "Parameter count mismatch in query '"@ + name + "': found "@ + decimal(count)
        + " parameters but SQL has "@ + decimal(max) + " placeholders"@
}

/// Checks that the number of parameters equals the largest `$N` of the SQL.
pub fn validate_placeholders(name: &str, params: &Vec<QueryParam>, sql: &str, site: ErrorSite) -> (r: Result<(), MacroError>)
    ensures
        r is Ok <==> max_placeholder(sql@) == params@.len(),
        r matches Err(e) ==> e.site == site
            && e.message@ == mismatch_message(name@, params@.len(), max_placeholder(sql@)),
{
    let n = sql.unicode_len();
    let mut mx: usize = 0;
    let mut i: usize = 0;
    while i < n
        invariant
            n == sql@.len(),
            0 <= i <= n,
            mx == max_ref_upto(sql@, i as int),
        decreases n - i,
    {
        if sql.get_char(i) == '$' {
            let start = i + 1;
            let mut j = start;
            let mut val: usize = 0;
            let mut over = false;
            assert(sql@.subrange(start as int, start as int) =~= Seq::<char>::empty());
            loop
                invariant
                    n == sql@.len(),
                    start == i + 1,
                    i < n,
                    sql@[i as int] == '$',
                    mx == max_ref_upto(sql@, i as int),
                    start <= j <= n,
                    forall|k: int| start <= k < j ==> is_digit(#[trigger] sql@[k]),
                    !over ==> val == digits_value(sql@.subrange(start as int, j as int)),
                    over ==> digits_value(sql@.subrange(start as int, j as int)) > usize::MAX,
                    max_ref_upto(sql@, j as int) == max_ref_upto(sql@, start as int),
                ensures
                    j == n || !is_digit(sql@[j as int]),
                decreases n - j,
            {
                if j >= n {
                    break;
                }
                let c = sql.get_char(j);
                if !('0' <= c && c <= '9') {
                    break;
                }
                let d = ((c as u32) - ('0' as u32)) as usize;
                proof {
                    assert(sql@.subrange(start as int, j + 1).drop_last()
                        =~= sql@.subrange(start as int, j as int));
                    assert(sql@.subrange(start as int, j + 1).last() == c);
                }
                if !over {
                    match val.checked_mul(10) {
                        Some(t) => match t.checked_add(d) {
                            Some(u) => { val = u; }
                            None => { over = true; }
                        },
                        None => { over = true; }
                    }
                }
                j = j + 1;
            }
            proof {
                lemma_run_end(sql@, start as int, j as int);
            }
            if j > start && !over && val > mx {
                mx = val;
            }
            i = j;
        } else {
            i = i + 1;
        }
    }
    if mx == params.len() {
        Ok(())
    } else {
        let mut m = String::from_str("Parameter count mismatch in query '");
        m.append(name);
        m.append("': found ");
        push_decimal(&mut m, params.len());
        m.append(" parameters but SQL has ");
        push_decimal(&mut m, mx);
        m.append(" placeholders");
        Err(MacroError { site, message: m })
    }
}

// ----- return kinds -----

/// How a query is run and what it returns, chosen by its return type.
pub enum ReturnKind {
    /// `Option<T>`: `query_as` with `fetch_optional`.
    Option(String),
    /// `Vec<T>`: `query_as` with `fetch_all`.
    Vec(String),
    /// A struct `T`: `query_as` with `fetch_one`.
    Single(String),
    /// A scalar (`i64`, `String`, ...): `query_scalar` with `fetch_one`.
    Scalar(String),
    /// No return type or `()`: `execute`, returning `()`.
    Unit,
    /// `bool`: `execute`, returning whether a row was affected.
    Bool,
    /// `u64`: `execute`, returning the number of rows affected.
    RowsAffected,
}

/// The text inside `wrapper<...>` when `s` is exactly that.
pub open spec fn generic_inner(s: Seq<char>, wrapper: Seq<char>) -> Option<Seq<char>> {
    let p = wrapper.push('<');
    if starts(s, p) && s.len() > 0 && s.last() == '>' && p.len() < s.len() {
        Some(s.subrange(p.len() as int, s.len() - 1))
    } else {
        None
    }
}

/// Extracts the inner type text from a generic like `Option<Foo>` -> `Foo`.
pub fn extract_generic(ty_str: &str, wrapper: &str) -> (r: Option<String>)
    ensures
        r matches Some(v) ==> generic_inner(ty_str@, wrapper@) == Some(v@),
        r is None ==> generic_inner(ty_str@, wrapper@) is None,
{
    let mut prefix = String::from_str(wrapper);
    push_char(&mut prefix, '<');
    let n = ty_str.unicode_len();
    let p = prefix.unicode_len();
    if str_starts_with(ty_str, prefix.as_str()) && n > 0 && ty_str.get_char(n - 1) == '>' {
        if p < n {
            Some(substring(ty_str, p, n - 1))
        } else {
            proof {
                assert(ty_str@.subrange(0, p as int)[p - 1] == prefix@[p - 1]);
            }
            None
        }
    } else {
        None
    }
}

/// The scalar type names read with `query_scalar`.
pub open spec fn is_scalar_spec(s: Seq<char>) -> bool {
    ||| s == "i8"@ ||| s == "i16"@ ||| s == "i32"@ ||| s == "i64"@ ||| s == "i128"@
    ||| s == "u8"@ ||| s == "u16"@ ||| s == "u32"@ ||| s == "u128"@
    ||| s == "f32"@ ||| s == "f64"@ ||| s == "String"@ ||| s == "&str"@
    ||| s == "isize"@ ||| s == "usize"@
}

/// Whether the (space-free) type text names a scalar type.
pub fn is_scalar_type(ty_str: &str) -> (r: bool)
    ensures
        r == is_scalar_spec(ty_str@),
{
    str_eq(ty_str, "i8") || str_eq(ty_str, "i16") || str_eq(ty_str, "i32")
        || str_eq(ty_str, "i64") || str_eq(ty_str, "i128") || str_eq(ty_str, "u8")
        || str_eq(ty_str, "u16") || str_eq(ty_str, "u32") || str_eq(ty_str, "u128")
        || str_eq(ty_str, "f32") || str_eq(ty_str, "f64") || str_eq(ty_str, "String")
        || str_eq(ty_str, "&str") || str_eq(ty_str, "isize") || str_eq(ty_str, "usize")
}

/// Whether `r` is what a return type with text `text` selects: the
/// wrappers `Option<..>` and `Vec<..>` (their inner text, which must parse
/// as a type; else the error is `syn`'s), then `()`, `bool`, `u64`, the
/// scalars, and otherwise a struct; all judged on the text without spaces.
pub open spec fn classifies_text(r: Result<ReturnKind, MacroError>, text: Seq<char>) -> bool {
    let t = without(text, ' ');
    if generic_inner(t, "Option"@) is Some {
        let x = generic_inner(t, "Option"@)->Some_0;
        if type_parses(x) {
            r matches Ok(ReturnKind::Option(v)) && v@ == x
        } else {
            r matches Err(e) && e.site == ErrorSite::CallSite
        }
    } else if generic_inner(t, "Vec"@) is Some {
        let x = generic_inner(t, "Vec"@)->Some_0;
        if type_parses(x) {
            r matches Ok(ReturnKind::Vec(v)) && v@ == x
        } else {
            r matches Err(e) && e.site == ErrorSite::CallSite
        }
    } else if t == "()"@ {
        r matches Ok(ReturnKind::Unit)
    } else if t == "bool"@ {
        r matches Ok(ReturnKind::Bool)
    } else if t == "u64"@ {
        r matches Ok(ReturnKind::RowsAffected)
    } else if is_scalar_spec(t) {
        r matches Ok(ReturnKind::Scalar(v)) && v@ == text
    } else {
        r matches Ok(ReturnKind::Single(v)) && v@ == text
    }
}

/// Whether `r` is what the return type `ty` selects (judged on its text).
pub open spec fn classifies(r: Result<ReturnKind, MacroError>, ty: TypeInfo) -> bool {
    classifies_text(r, ty.text@)
}

/// Whether `ty` is accepted as a return type: the text inside `Option<..>`
/// or `Vec<..>` must parse as a type; every other type is accepted.
pub open spec fn type_accepted(ty: TypeInfo) -> bool {
    type_accepted_text(ty.text@)
}

/// Whether a return type with text `text` is accepted.
pub open spec fn type_accepted_text(text: Seq<char>) -> bool {
    let t = without(text, ' ');
    if generic_inner(t, "Option"@) is Some {
        type_parses(generic_inner(t, "Option"@)->Some_0)
    } else if generic_inner(t, "Vec"@) is Some {
        type_parses(generic_inner(t, "Vec"@)->Some_0)
    } else {
        true
    }
}

fn parse_inner(inner: String) -> (r: Result<String, MacroError>)
    ensures
        r is Ok <==> type_parses(inner@),
        r matches Ok(v) ==> v@ == inner@,
        r matches Err(e) ==> e.site == ErrorSite::CallSite,
{
    match check_type(inner.as_str()) {
        Ok(()) => Ok(inner),
        Err(m) => Err(MacroError { site: ErrorSite::CallSite, message: m }),
    }
}

/// Categorises a query's return type.
pub fn parse_return_kind(ty: &TypeInfo) -> (r: Result<ReturnKind, MacroError>)
    ensures
        classifies(r, *ty),
        r is Ok <==> type_accepted(*ty),
{
    let ty_str = remove_char(ty.text.as_str(), ' ');
    if let Some(inner) = extract_generic(ty_str.as_str(), "Option") {
        return match parse_inner(inner) {
            Ok(t) => Ok(ReturnKind::Option(t)),
            Err(e) => Err(e),
        };
    }
    if let Some(inner) = extract_generic(ty_str.as_str(), "Vec") {
        return match parse_inner(inner) {
            Ok(t) => Ok(ReturnKind::Vec(t)),
            Err(e) => Err(e),
        };
    }
    if str_eq(ty_str.as_str(), "()") {
        return Ok(ReturnKind::Unit);
    }
    if str_eq(ty_str.as_str(), "bool") {
        return Ok(ReturnKind::Bool);
    }
    if str_eq(ty_str.as_str(), "u64") {
        return Ok(ReturnKind::RowsAffected);
    }
    if is_scalar_type(ty_str.as_str()) {
        return Ok(ReturnKind::Scalar(ty.text.clone()));
    }
    Ok(ReturnKind::Single(ty.text.clone()))
}

// ----- trait names -----

/// A separator between the words of a schema name.
pub open spec fn is_separator(c: char) -> bool {
    c == '_' || c == '-'
}

/// Whether the next character of a schema name starts a word.
pub open spec fn at_word_start(prefix: Seq<char>) -> bool {
    prefix.len() == 0 || is_separator(prefix.last())
}

/// PascalCase of a schema name: the words between `_` and `-` joined, the
/// first character of each upper-cased.
pub open spec fn pascal(s: Seq<char>) -> Seq<char>
    decreases s.len(),
{
    if s.len() == 0 {
        s
    } else if is_separator(s.last()) {
        pascal(s.drop_last())
    } else if at_word_start(s.drop_last()) {
        pascal(s.drop_last()) + upper_of(s.last())
    } else {
        pascal(s.drop_last()).push(s.last())
    }
}

/// The name of the trait generated for a schema key.
pub open spec fn trait_name_spec(schema: Seq<char>) -> Seq<char> {
    if schema == "default"@ {
        "PgQueries"@
    } else {
        "PgQueries"@ + pascal(schema)
    }
}

/// The PascalCase form of a schema name.
pub fn pascal_case(schema: &str) -> (r: String)
    ensures
        r@ == pascal(schema@),
{
    let n = schema.unicode_len();
    let mut r = String::new();
    let mut i: usize = 0;
    while i < n
        invariant
            n == schema@.len(),
            0 <= i <= n,
            r@ == pascal(schema@.take(i as int)),
        decreases n - i,
    {
        let c = schema.get_char(i);
        proof {
            assert(schema@.take(i + 1).drop_last() =~= schema@.take(i as int));
        }
        if c == '_' || c == '-' {
        } else if i == 0 || schema.get_char(i - 1) == '_' || schema.get_char(i - 1) == '-' {
            let u = char_to_upper(c);
            r.append(u.as_str());
        } else {
            push_char(&mut r, c);
        }
        i = i + 1;
    }
    assert(schema@.take(n as int) =~= schema@);
    r
}

/// The trait `pg_queries!` generates: `PgQueries` for the default schema,
/// `PgQueries` followed by the PascalCase schema name otherwise.
pub fn trait_name(schema: &str) -> (r: String)
    ensures
        r@ == trait_name_spec(schema@),
{
    if str_eq(schema, "default") {
        String::from_str("PgQueries")
    } else {
        let mut r = String::from_str("PgQueries");
        r.append(pascal_case(schema).as_str());
        r
    }
}

// ----- generated methods -----

/// How a generated method runs its SQL.
#[derive(PartialEq, Eq, Structural, Clone, Copy, Debug)]
pub enum RunMode {
    /// `query_as` and `fetch_optional`.
    FetchOptional,
    /// `query_as` and `fetch_all`.
    FetchAll,
    /// `query_as` and `fetch_one`.
    FetchOne,
    /// `query_scalar` and `fetch_one`.
    FetchScalar,
    /// `execute`, returning `()`.
    Execute,
    /// `execute`, returning whether `rows_affected() > 0`.
    ExecuteAny,
    /// `execute`, returning `rows_affected()`.
    ExecuteCount,
}

/// The run mode of each return kind.
pub open spec fn mode_of(k: ReturnKind) -> RunMode {
    match k {
        ReturnKind::Option(_) => RunMode::FetchOptional,
        ReturnKind::Vec(_) => RunMode::FetchAll,
        ReturnKind::Single(_) => RunMode::FetchOne,
        ReturnKind::Scalar(_) => RunMode::FetchScalar,
        ReturnKind::Unit => RunMode::Execute,
        ReturnKind::Bool => RunMode::ExecuteAny,
        ReturnKind::RowsAffected => RunMode::ExecuteCount,
    }
}

/// The type a generated method yields inside `Result<_, PgError>`.
pub open spec fn value_type_of(k: ReturnKind) -> Seq<char> {
    match k {
        ReturnKind::Option(t) => "Option<"@ + t@ + ">"@,
        ReturnKind::Vec(t) => "Vec<"@ + t@ + ">"@,
        ReturnKind::Single(t) => t@,
        ReturnKind::Scalar(t) => t@,
        ReturnKind::Unit => "()"@,
        ReturnKind::Bool => "bool"@,
        ReturnKind::RowsAffected => "u64"@,
    }
}

impl ReturnKind {
    /// How the generated method runs its SQL.
    pub fn run_mode(&self) -> (r: RunMode)
        ensures
            r == mode_of(*self),
    {
        match self {
            ReturnKind::Option(_) => RunMode::FetchOptional,
            ReturnKind::Vec(_) => RunMode::FetchAll,
            ReturnKind::Single(_) => RunMode::FetchOne,
            ReturnKind::Scalar(_) => RunMode::FetchScalar,
            ReturnKind::Unit => RunMode::Execute,
            ReturnKind::Bool => RunMode::ExecuteAny,
            ReturnKind::RowsAffected => RunMode::ExecuteCount,
        }
    }

    /// The row type `query_as`/`query_scalar` decode into, for the fetching kinds.
    pub fn row_type(&self) -> (r: Option<String>)
        ensures
            match *self {
                ReturnKind::Option(t) | ReturnKind::Vec(t) | ReturnKind::Single(t)
                    | ReturnKind::Scalar(t) => r matches Some(v) && v@ == t@,
                _ => r is None,
            },
    {
        match self {
            ReturnKind::Option(t) | ReturnKind::Vec(t) | ReturnKind::Single(t)
                | ReturnKind::Scalar(t) => Some(t.clone()),
            _ => None,
        }
    }
}

/// The type a generated method yields inside `Result<_, PgError>`.
pub fn generate_return_type(kind: &ReturnKind) -> (r: String)
    ensures
        r@ == value_type_of(*kind),
{
    match kind {
        ReturnKind::Option(t) => {
            let mut s = String::from_str("Option<");
            s.append(t.as_str());
            s.append(">");
            s
        }
        ReturnKind::Vec(t) => {
            let mut s = String::from_str("Vec<");
            s.append(t.as_str());
            s.append(">");
            s
        }
        ReturnKind::Single(t) => t.clone(),
        ReturnKind::Scalar(t) => t.clone(),
        ReturnKind::Unit => String::from_str("()"),
        ReturnKind::Bool => String::from_str("bool"),
        ReturnKind::RowsAffected => String::from_str("u64"),
    }
}

/// A method of the generated trait and its implementation on `PgClient`:
/// name, parameters (name and type text), the value type, the values bound
/// in order, the SQL, the schema whose pool runs it and how it is run.
pub struct MethodPlan {
    pub name: String,
    pub params: Vec<(String, String)>,
    pub value_type: String,
    pub binds: Vec<String>,
    pub sql: String,
    pub schema: String,
    pub mode: RunMode,
    pub row_type: Option<String>,
}

/// The trait method of a query and its implementation on `PgClient`,
/// binding the parameters in their order.
pub fn generate_impl_method(query: &QueryDef, schema: &str) -> (r: MethodPlan)
    ensures
        r.name@ == query.name@,
        r.params@.len() == query.params@.len(),
        r.binds@.len() == query.params@.len(),
        forall|i: int| 0 <= i < query.params@.len() ==> (#[trigger] r.params@[i]).0@ == query.params@[i].name@
            && r.params@[i].1@ == query.params@[i].ty.text@ && r.binds@[i]@ == query.params@[i].name@,
        r.value_type@ == value_type_of(query.return_kind),
        r.sql@ == query.sql@,
        r.schema@ == schema@,
        r.mode == mode_of(query.return_kind),
        match query.return_kind {
            ReturnKind::Option(t) | ReturnKind::Vec(t) | ReturnKind::Single(t)
                | ReturnKind::Scalar(t) => r.row_type matches Some(v) && v@ == t@,
            _ => r.row_type is None,
        },
{
    let mut params: Vec<(String, String)> = Vec::new();
    let mut binds: Vec<String> = Vec::new();
    let mut i: usize = 0;
    while i < query.params.len()
        invariant
            0 <= i <= query.params@.len(),
            params@.len() == i,
            binds@.len() == i,
            forall|k: int| 0 <= k < i ==> (#[trigger] params@[k]).0@ == query.params@[k].name@
                && params@[k].1@ == query.params@[k].ty.text@ && binds@[k]@ == query.params@[k].name@,
        decreases query.params@.len() - i,
    {
        params.push((query.params[i].name.clone(), query.params[i].ty.text.clone()));
        binds.push(query.params[i].name.clone());
        i = i + 1;
    }
    MethodPlan {
        name: query.name.clone(),
        params,
        value_type: generate_return_type(&query.return_kind),
        binds,
        sql: query.sql.clone(),
        schema: String::from_str(schema),
        mode: query.return_kind.run_mode(),
        row_type: query.return_kind.row_type(),
    }
}

// ----- query definitions -----

/// A query as written in the block: name, parameters, optional return type
/// and SQL text.
pub struct QueryInput {
    pub name: String,
    pub params: Vec<QueryParam>,
    pub ret: Option<TypeInfo>,
    pub sql: String,
}

/// A checked query definition.
pub struct QueryDef {
    pub name: String,
    pub params: Vec<QueryParam>,
    pub return_kind: ReturnKind,
    pub sql: String,
}

/// What a query's return type selects, before the placeholder check.
pub open spec fn kind_of(r: Result<ReturnKind, MacroError>, ret: Option<TypeInfo>) -> bool {
    match ret {
        None => r matches Ok(ReturnKind::Unit),
        Some(t) => classifies(r, t),
    }
}

/// Whether a query's return type is accepted (no return type is).
pub open spec fn ret_accepted(ret: Option<TypeInfo>) -> bool {
    match ret {
        None => true,
        Some(t) => type_accepted(t),
    }
}

/// Whether a query is accepted: its return type is, and its parameters
/// match the largest `$N` of its SQL.
pub open spec fn query_ok(q: QueryInput) -> bool {
    ret_accepted(q.ret) && max_placeholder(q.sql@) == q.params@.len()
}

/// The error reported for a rejected query at `index`: the return type's
/// error first, then the placeholder mismatch.
pub open spec fn query_error(e: MacroError, q: QueryInput, index: usize) -> bool {
    if !ret_accepted(q.ret) {
        q.ret matches Some(t) && classifies(Err(e), t)
    } else {
        e.site == ErrorSite::Query(index)
            && e.message@ == mismatch_message(q.name@, q.params@.len(), max_placeholder(q.sql@))
    }
}

/// Whether `d` is the checked definition of the accepted query `q`.
pub open spec fn defines(d: QueryDef, q: QueryInput) -> bool {
    &&& d.name@ == q.name@
    &&& d.params@ == q.params@
    &&& d.sql@ == q.sql@
    &&& kind_of(Ok(d.return_kind), q.ret)
}

/// `parse_query_def` after the syntax: categorises the return type (no
/// return type is `Unit`), then checks the placeholder count.
pub fn parse_query_def(q: QueryInput, index: usize) -> (r: Result<QueryDef, MacroError>)
    ensures
        r is Ok <==> query_ok(q),
        r matches Ok(d) ==> defines(d, q),
        r matches Err(e) ==> query_error(e, q, index),
{
    let return_kind = match &q.ret {
        Some(t) => match parse_return_kind(t) {
            Ok(k) => k,
            Err(e) => return Err(e),
        },
        None => ReturnKind::Unit,
    };
    assert(kind_of(Ok(return_kind), q.ret));
    match validate_placeholders(q.name.as_str(), &q.params, q.sql.as_str(), ErrorSite::Query(index)) {
        Ok(()) => {}
        Err(e) => return Err(e),
    }
    Ok(QueryDef { name: q.name, params: q.params, return_kind, sql: q.sql })
}

/// The optional `schema = "name";` line of a `pg_queries!` block: absent
/// when the block starts with `fn`; otherwise the leading identifier and
/// what `syn` made of `= "name";` after it (the name, or the parse error).
pub enum SchemaHeader {
    Absent,
    Present { ident: String, rest: Result<String, String> },
}

/// Whether the block starts with an identifier other than `schema`.
pub open spec fn rejects_header(h: SchemaHeader) -> bool {
    h matches SchemaHeader::Present { ident, rest } && ident@ != "schema"@
}

/// The message for a block that starts with neither `schema` nor `fn`.
pub open spec fn msg_expected_schema() -> Seq<char> {
    "Expected 'schema' or 'fn'"@
}

/// Reads the schema key: `"default"` without a header, the declared name
/// with `schema = "name";`, an error for any other leading identifier.
pub fn parse_schema_header(h: SchemaHeader) -> (r: Result<String, MacroError>)
    ensures
        h is Absent ==> (r matches Ok(v) && v@ == "default"@),
        h matches SchemaHeader::Present { ident, rest } ==> {
            if ident@ == "schema"@ {
                match rest {
                    Ok(v) => r matches Ok(w) && w@ == v@,
                    Err(m) => r matches Err(e) && e.site == ErrorSite::CallSite && e.message@ == m@,
                }
            } else {
                r matches Err(e) && e.site == ErrorSite::Header && e.message@ == msg_expected_schema()
            }
        },
        rejects_header(h) ==> (r matches Err(e) && e.site == ErrorSite::Header
            && e.message@ == msg_expected_schema()),
{
    match h {
        SchemaHeader::Absent => Ok(String::from_str("default")),
        SchemaHeader::Present { ident, rest } => {
            if str_eq(ident.as_str(), "schema") {
                match rest {
                    Ok(v) => Ok(v),
                    Err(m) => Err(MacroError { site: ErrorSite::CallSite, message: m }),
                }
            } else {
                Err(MacroError {
                    site: ErrorSite::Header,
                    message: String::from_str("Expected 'schema' or 'fn'"),
                })
            }
        }
    }
}

/// Everything `pg_queries!` emits: the schema key the queries run
/// against, the trait's name and the checked queries in order.
pub struct QueriesPlan {
    pub schema: String,
    pub trait_name: String,
    pub queries: Vec<QueryDef>,
}

/// Whether the schema header is accepted: absent, or `schema = "name";`.
pub open spec fn header_ok(h: SchemaHeader) -> bool {
    match h {
        SchemaHeader::Absent => true,
        SchemaHeader::Present { ident, rest } => ident@ == "schema"@ && rest is Ok,
    }
}

/// The schema key an accepted header names.
pub open spec fn header_schema(h: SchemaHeader) -> Seq<char> {
    match h {
        SchemaHeader::Present { ident, rest: Ok(v) } => v@,
        _ => "default"@,
    }
}

/// `pg_queries!`: reads the schema header, checks every query in order
/// (stopping at the first error), and names the trait. `queries` are the
/// queries read before `rest`, the syntax error that ended the block, if
/// any; that error is reported when every query before it is accepted.
pub fn pg_queries(header: SchemaHeader, queries: Vec<QueryInput>, rest: Option<MacroError>) -> (r: Result<QueriesPlan, MacroError>)
    ensures
        r is Ok <==> header_ok(header) && (forall|i: int| 0 <= i < queries@.len() ==> query_ok(#[trigger] queries@[i]))
            && rest is None,
        header_ok(header) && (forall|i: int| 0 <= i < queries@.len() ==> query_ok(#[trigger] queries@[i]))
            && rest is Some ==> r == Err::<QueriesPlan, MacroError>(rest->Some_0),
        r matches Ok(p) ==> {
            &&& p.schema@ == header_schema(header)
            &&& p.trait_name@ == trait_name_spec(p.schema@)
            &&& p.queries@.len() == queries@.len()
            &&& forall|i: int| 0 <= i < queries@.len() ==> defines(#[trigger] p.queries@[i], queries@[i])
        },
        rejects_header(header) ==> (r matches Err(e)
            && e.site == ErrorSite::Header && e.message@ == msg_expected_schema()),
        header matches SchemaHeader::Present { ident, rest: Err(m) } ==> (ident@ == "schema"@
            ==> (r matches Err(e) && e.site == ErrorSite::CallSite && e.message@ == m@)),
        r matches Err(e) ==> (header_ok(header) ==> (exists|i: int| 0 <= i < queries@.len()
            && !query_ok(#[trigger] queries@[i]) && (forall|k: int| 0 <= k < i ==> query_ok(#[trigger] queries@[k]))
            && query_error(e, queries@[i], i as usize))
            || ((forall|i: int| 0 <= i < queries@.len() ==> query_ok(#[trigger] queries@[i]))
                && rest == Some(e))),
{
    let schema = match parse_schema_header(header) {
        Ok(s) => s,
        Err(e) => return Err(e),
    };
    let ghost qs = queries@;
    let total = queries.len();
    let mut defs: Vec<QueryDef> = Vec::new();
    let mut remaining = queries;
    let mut i: usize = 0;
    assert(remaining@ =~= qs.skip(0));
    while i < total
        invariant
            total == qs.len(),
            qs == queries@,
            0 <= i <= qs.len(),
            header_ok(header),
            schema@ == header_schema(header),
            remaining@ == qs.skip(i as int),
            defs@.len() == i,
            forall|k: int| 0 <= k < i ==> query_ok(#[trigger] qs[k]),
            forall|k: int| 0 <= k < i ==> defines(#[trigger] defs@[k], qs[k]),
        decreases qs.len() - i,
    {
        let q = remaining.remove(0);
        assert(q == qs[i as int]);
        assert(remaining@ =~= qs.skip(i + 1));
        match parse_query_def(q, i) {
            Ok(d) => defs.push(d),
            Err(e) => {
                assert(!query_ok(qs[i as int]) && query_error(e, qs[i as int], i));
                assert(exists|j: int| 0 <= j < qs.len() && !query_ok(#[trigger] qs[j])
                    && (forall|k: int| 0 <= k < j ==> query_ok(#[trigger] qs[k]))
                    && query_error(e, qs[j], j as usize));
                return Err(e);
            }
        }
        i = i + 1;
    }
    if let Some(e) = rest {
        return Err(e);
    }
    let name = trait_name(schema.as_str());
    Ok(QueriesPlan { schema, trait_name: name, queries: defs })
}

// ----- laws -----

/// The generated trait is `PgQueries` for the default schema and
/// `PgQueries` followed by the schema's PascalCase name otherwise.
pub proof fn law_trait_name(schema: Seq<char>)
    ensures
        starts(trait_name_spec(schema), "PgQueries"@),
        schema == "default"@ ==> trait_name_spec(schema) == "PgQueries"@,
        schema != "default"@ ==> trait_name_spec(schema).subrange(9, trait_name_spec(schema).len() as int)
            == pascal(schema),
{
    reveal_strlit("PgQueries");
    let t = trait_name_spec(schema);
    assert(t.subrange(0, 9) =~= "PgQueries"@);
    if schema != "default"@ {
        assert(t.subrange(9, t.len() as int) =~= pascal(schema));
    }
}

/// A query whose SQL has no `$` is accepted exactly when it takes no
/// parameters, whatever its return type.
pub proof fn law_plain_sql_takes_no_parameters(q: QueryInput)
    requires
        no_dollar(q.sql@),
    ensures
        max_placeholder(q.sql@) == 0,
        query_ok(q) <==> ret_accepted(q.ret) && q.params@.len() == 0,
{
    lemma_max_placeholder_plain(q.sql@);
}

/// Placeholder numbers are those written: `$1`, then `$1` and `$2` joined
/// by text that neither ends in a digit or `$` nor has a `$`, have 2 as
/// their largest placeholder; repeating a placeholder changes nothing.
pub proof fn law_placeholders_take_the_largest(a: nat, b: nat, mid: Seq<char>)
    requires
        a <= usize::MAX,
        b <= usize::MAX,
        no_dollar(mid),
        mid.len() >= 1,
        !is_digit(mid[0]),
        !is_digit(mid.last()),
    ensures
        max_placeholder(("$"@ + decimal(a)) + mid + ("$"@ + decimal(b))) == larger(a, b),
{
    reveal_strlit("$");
    let pa = "$"@ + decimal(a);
    let pb = "$"@ + decimal(b);
    lemma_max_placeholder_single(a);
    lemma_max_placeholder_single(b);
    lemma_max_placeholder_plain(mid);
    lemma_max_placeholder_concat(pa, mid);
    assert((pa + mid).last() == mid.last());
    lemma_max_placeholder_concat(pa + mid, pb);
}

/// `s` is unchanged by removing `c` when `c` does not occur in it.
proof fn lemma_without_absent(s: Seq<char>, c: char)
    requires
        forall|i: int| 0 <= i < s.len() ==> s[i] != c,
    ensures
        without(s, c) == s,
    decreases s.len(),
{
    if s.len() > 0 {
        lemma_without_absent(s.drop_last(), c);
        assert(s.drop_last().push(s.last()) =~= s);
    }
}

/// A query returning a primitive scalar (`i8` to `i128`, `u8` to `u128`,
/// `f32`, `f64`, `isize`, `usize`, `String` or `&str`) reads that very
/// type with `query_scalar` and `fetch_one`, never as a row struct.
pub proof fn law_scalar_return_types(r: Result<ReturnKind, MacroError>, ty: TypeInfo)
    requires
        classifies(r, ty),
        ty.text@ == "i8"@
            || ty.text@ == "i16"@
            || ty.text@ == "i32"@
            || ty.text@ == "i64"@
            || ty.text@ == "i128"@
            || ty.text@ == "u8"@
            || ty.text@ == "u16"@
            || ty.text@ == "u32"@
            || ty.text@ == "u128"@
            || ty.text@ == "f32"@
            || ty.text@ == "f64"@
            || ty.text@ == "isize"@
            || ty.text@ == "usize"@
            || ty.text@ == "String"@
            || ty.text@ == "&str"@,
    ensures
        r matches Ok(k) && k matches ReturnKind::Scalar(v) && v@ == ty.text@,
        r matches Ok(k) && mode_of(k) == RunMode::FetchScalar && value_type_of(k) == ty.text@,
{
    reveal_strlit("i8");
    reveal_strlit("i16");
    reveal_strlit("i32");
    reveal_strlit("i64");
    reveal_strlit("i128");
    reveal_strlit("u8");
    reveal_strlit("u16");
    reveal_strlit("u32");
    reveal_strlit("u128");
    reveal_strlit("f32");
    reveal_strlit("f64");
    reveal_strlit("isize");
    reveal_strlit("usize");
    reveal_strlit("String");
    reveal_strlit("&str");
    reveal_strlit("()");
    reveal_strlit("bool");
    reveal_strlit("u64");
    let t = ty.text@;
    assert(forall|i: int| 0 <= i < t.len() ==> t[i] != ' ');
    lemma_without_absent(t, ' ');
    assert(t.last() != '>');
    assert(generic_inner(without(t, ' '), "Option"@) is None);
    assert(generic_inner(without(t, ' '), "Vec"@) is None);
    assert(t.len() != 2 || t[0] != '(');
    assert(t != "()"@);
    assert(t.len() != 4 || t[0] != 'b');
    assert(t != "bool"@);
    assert(t.len() != 3 || t[0] != 'u' || t[1] != '6');
    assert(t != "u64"@);
    assert(is_scalar_spec(t));
}

} // verus!
