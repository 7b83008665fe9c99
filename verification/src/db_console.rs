//! The administrators' database console: identifier checks, the read-only guard of
//! the SQL runner, and the SQL text of the table browser.

use vstd::prelude::*;
use vstd::string::StringExecFns;
use crate::dto::user::UserRole;
use crate::error::{AppError, ErrorKind};
use crate::text::{
    char_vec, extend_chars, extend_str, is_ascii_alnum, ascii_alnum, spec_starts_with, spec_trim,
    starts_with_str, string_from_chars, trim_chars, to_uppercase, spec_to_uppercase, spec_decimal,
};

verus! {

/// Refusal text of the database console for non-administrators.
pub const CONSOLE_ADMIN_ONLY: &'static str = "Yalnızca yöneticiler veritabanı konsoluna erişebilir.";
/// Refusal text of the dish catalogue tools for non-administrators.
pub const CATALOGUE_ADMIN_ONLY: &'static str = "Bu işlem için yetkiniz yok.";
/// Refusal text of the moderation and system tools for non-administrators.
pub const MODERATION_ADMIN_ONLY: &'static str = "Bu işlem yalnızca yöneticilere açıktır";

/// Lets administrators through; anyone else gets `Forbidden` with the given refusal.
pub fn require_admin(role: &UserRole, refusal: &str) -> (r: Result<(), AppError>)
    ensures
        match r {
            Ok(()) => *role == UserRole::Admin,
            Err(e) => *role != UserRole::Admin && e@ == (ErrorKind::Forbidden, refusal@),
        },
{
    if *role != UserRole::Admin {
        return Err(AppError::with_text(ErrorKind::Forbidden, refusal));
    }
    Ok(())
}

/// Bytes of a character in UTF-8.
pub open spec fn utf8_width(c: char) -> nat {
    if (c as u32) < 0x80 {
        1
    } else if (c as u32) < 0x800 {
        2
    } else if (c as u32) < 0x10000 {
        3
    } else {
        4
    }
}

/// Bytes of a text in UTF-8 (`str::len`).
pub open spec fn utf8_len(s: Seq<char>) -> nat
    decreases s.len(),
{
    if s.len() == 0 {
        0
    } else {
        utf8_len(s.drop_last()) + utf8_width(s.last())
    }
}

/// Number of bytes of the UTF-8 encoding of `s`.
pub fn utf8_len_of(s: &[char]) -> (n: u128)
    ensures
        n == utf8_len(s@),
{
    let mut n: u128 = 0;
    let mut i: usize = 0;
    assert(s@.take(0) =~= Seq::<char>::empty());
    while i < s.len()
        invariant
            i <= s@.len(),
            n == utf8_len(s@.take(i as int)),
            n <= 4 * i,
        decreases s@.len() - i,
    {
        let c = s[i];
        let w: u128 = if (c as u32) < 0x80 {
            1
        } else if (c as u32) < 0x800 {
            2
        } else if (c as u32) < 0x10000 {
            3
        } else {
            4
        };
        proof {
            let t = s@.take(i + 1);
            assert(t.drop_last() =~= s@.take(i as int));
            assert(t.last() == c);
        }
        n = n + w;
        i = i + 1;
    }
    assert(s@.take(s@.len() as int) =~= s@);
    n
}

/// Longest identifier accepted, in bytes (PostgreSQL's limit).
pub const MAX_IDENT_BYTES: u128 = 63;

/// An identifier character: an ASCII letter or digit, or `_`.
pub open spec fn is_ident_char(c: char) -> bool {
    is_ascii_alnum(c) || c == '_'
}

/// The verdict on a table or column name: trimmed, it must be 1 to 63 bytes long and
/// made of ASCII letters, digits and underscores only.
pub open spec fn spec_sanitize_ident(name: Seq<char>) -> Result<Seq<char>, (ErrorKind, Seq<char>)> {
    let t = spec_trim(name);
    if t.len() == 0 || utf8_len(t) > MAX_IDENT_BYTES {
        Err((ErrorKind::BadRequest, "Geçersiz tablo veya sütun adı."@))
    } else if !(forall|i: int| 0 <= i < t.len() ==> is_ident_char(#[trigger] t[i])) {
        Err((ErrorKind::BadRequest, "Tanımlayıcı yalnızca harf, rakam ve alt çizgi içerebilir."@))
    } else {
        Ok(t)
    }
}

/// Checks a table or column name before it is put, in double quotes, into SQL text.
pub fn sanitize_ident(name: &str) -> (r: Result<String, AppError>)
    ensures
        match r {
            Ok(s) => spec_sanitize_ident(name@) == Ok::<Seq<char>, (ErrorKind, Seq<char>)>(s@),
            Err(e) => spec_sanitize_ident(name@) == Err::<Seq<char>, (ErrorKind, Seq<char>)>(e@),
        },
{
    let t = trim_chars(char_vec(name).as_slice());
    if t.len() == 0 || utf8_len_of(t.as_slice()) > MAX_IDENT_BYTES {
        return Err(AppError::with_text(ErrorKind::BadRequest, "Geçersiz tablo veya sütun adı."));
    }
    let mut i: usize = 0;
    while i < t.len()
        invariant
            i <= t@.len(),
            t@ == spec_trim(name@),
            t@.len() > 0 && utf8_len(t@) <= MAX_IDENT_BYTES,
            forall|j: int| 0 <= j < i ==> is_ident_char(#[trigger] t@[j]),
        decreases t@.len() - i,
    {
        let c = t[i];
        if !(ascii_alnum(c) || c == '_') {
            assert(!is_ident_char(t@[i as int]));
            return Err(AppError::with_text(
                ErrorKind::BadRequest,
                "Tanımlayıcı yalnızca harf, rakam ve alt çizgi içerebilir.",
            ));
        }
        i = i + 1;
    }
    Ok(string_from_chars(t.as_slice()))
}

/// An accepted identifier is accepted again, as itself: checking a checked name
/// changes nothing.
pub proof fn lemma_sanitize_idempotent(name: Seq<char>)
    requires
        spec_sanitize_ident(name) is Ok,
    ensures
        spec_sanitize_ident(spec_sanitize_ident(name)->Ok_0) == spec_sanitize_ident(name),
{
    crate::text::lemma_trim_idempotent(name);
}

/// An accepted identifier holds no double quote, so inside `"..."` it cannot end the
/// quoted name early: it can only ever name a table or column.
pub proof fn lemma_sanitized_ident_is_inert(name: Seq<char>)
    requires
        spec_sanitize_ident(name) is Ok,
    ensures
        forall|i: int| 0 <= i < spec_sanitize_ident(name)->Ok_0.len() ==> {
            let c = #[trigger] spec_sanitize_ident(name)->Ok_0[i];
            c != '"' && c != ';' && c != '\'' && c != '-' && c != ' '
        },
{
    let t = spec_sanitize_ident(name)->Ok_0;
    assert forall|i: int| 0 <= i < t.len() implies {
        let c = #[trigger] t[i];
        c != '"' && c != ';' && c != '\'' && c != '-' && c != ' '
    } by {
        assert(is_ident_char(t[i]));
    }
}

/// The statements the read-only mode refuses, in the order they are looked for.
pub open spec fn forbidden_keywords() -> Seq<Seq<char>> {
    seq![
        "INSERT"@,
        "UPDATE"@,
        "DELETE"@,
        "DROP"@,
        "ALTER"@,
        "TRUNCATE"@,
        "CREATE"@,
        "GRANT"@,
        "REVOKE"@
    ]
}

fn forbidden_keyword(i: usize) -> (k: &'static str)
    requires
        i < 9,
    ensures
        k@ == forbidden_keywords()[i as int],
{
    if i == 0 { "INSERT" }
    else if i == 1 { "UPDATE" }
    else if i == 2 { "DELETE" }
    else if i == 3 { "DROP" }
    else if i == 4 { "ALTER" }
    else if i == 5 { "TRUNCATE" }
    else if i == 6 { "CREATE" }
    else if i == 7 { "GRANT" }
    else { "REVOKE" }
}

/// What `regex::Regex::new(pattern)` then `is_match(text)` gives: `None` when the
/// pattern does not compile, otherwise whether the pattern matches somewhere in the text.
pub uninterp spec fn spec_regex_is_match(pattern: Seq<char>, text: Seq<char>) -> Option<bool>;

/// `regex::Regex::new` and `Regex::is_match`; the answer is named by `spec_regex_is_match`.
#[verifier::external_body]
fn regex_is_match(pattern: &str, text: &str) -> (r: Option<bool>)
    ensures
        r == spec_regex_is_match(pattern@, text@),
{
    match regex::Regex::new(pattern) {
        Ok(re) => Some(re.is_match(text)),
        Err(_) => None,
    }
}

/// The pattern that finds a keyword as a whole word: `\b`, the keyword, `\b`.
pub open spec fn word_pattern(keyword: Seq<char>) -> Seq<char> {
    seq!['\\', 'b'] + keyword + seq!['\\', 'b']
}

/// A keyword occurs in the text as a whole word (a pattern that fails to compile
/// counts as no match).
pub open spec fn keyword_found(keyword: Seq<char>, text: Seq<char>) -> bool {
    spec_regex_is_match(word_pattern(keyword), text) == Some(true)
}

/// The first forbidden keyword that occurs as a whole word in the text, if any.
pub open spec fn first_forbidden_from(text: Seq<char>, i: int) -> Option<Seq<char>>
    decreases 9 - i,
{
    if i < 0 || i >= 9 {
        None
    } else if keyword_found(forbidden_keywords()[i], text) {
        Some(forbidden_keywords()[i])
    } else {
        first_forbidden_from(text, i + 1)
    }
}

/// The verdict on a console query, before it runs: an empty query is refused; in
/// read-only mode a query whose upper-cased text holds a forbidden keyword as a whole
/// word is refused naming that keyword; otherwise the trimmed query is accepted.
pub open spec fn spec_check_console_query(query: Seq<char>, write_mode: bool) -> Result<Seq<char>, (ErrorKind, Seq<char>)> {
    let t = spec_trim(query);
    if t.len() == 0 {
        Err((ErrorKind::BadRequest, "Sorgu boş olamaz."@))
    } else if !write_mode && first_forbidden_from(spec_to_uppercase(t), 0) is Some {
        Err((
            ErrorKind::BadRequest,
            "Salt okunur mod devrede. '"@ + first_forbidden_from(spec_to_uppercase(t), 0)->Some_0
                + "' içeren veri değiştiren sorguları çalıştırmak için 'Yazma İzni' anahtarını açınız."@,
        ))
    } else {
        Ok(t)
    }
}

/// Checks a console query; gives the trimmed query to run.
pub fn check_console_query(query: &str, write_mode: bool) -> (r: Result<String, AppError>)
    ensures
        match r {
            Ok(s) => spec_check_console_query(query@, write_mode) == Ok::<Seq<char>, (ErrorKind, Seq<char>)>(s@),
            Err(e) => spec_check_console_query(query@, write_mode) == Err::<Seq<char>, (ErrorKind, Seq<char>)>(e@),
        },
{
    let t = trim_chars(char_vec(query).as_slice());
    if t.len() == 0 {
        return Err(AppError::with_text(ErrorKind::BadRequest, "Sorgu boş olamaz."));
    }
    let ts = string_from_chars(t.as_slice());
    if !write_mode {
        let upper = to_uppercase(ts.as_str());
        let mut i: usize = 0;
        while i < 9
            invariant
                i <= 9,
                !write_mode,
                t@ == spec_trim(query@),
                t@.len() > 0,
                upper@ == spec_to_uppercase(spec_trim(query@)),
                first_forbidden_from(upper@, 0) == first_forbidden_from(upper@, i as int),
            decreases 9 - i,
        {
            let kw = forbidden_keyword(i);
            let mut pattern: Vec<char> = Vec::new();
            pattern.push('\\');
            pattern.push('b');
            extend_str(&mut pattern, kw);
            pattern.push('\\');
            pattern.push('b');
            assert(pattern@ =~= word_pattern(kw@));
            let p = string_from_chars(pattern.as_slice());
            let found = match regex_is_match(p.as_str(), upper.as_str()) {
                Some(b) => b,
                None => false,
            };
            if found {
                assert(first_forbidden_from(upper@, i as int) == Some(kw@));
                assert(upper@ == spec_to_uppercase(spec_trim(query@)));
                let msg = String::from_str("Salt okunur mod devrede. '").concat(kw).concat(
                    "' içeren veri değiştiren sorguları çalıştırmak için 'Yazma İzni' anahtarını açınız.",
                );
                return Err(AppError::new(ErrorKind::BadRequest, msg));
            }
            i = i + 1;
        }
    }
    Ok(ts)
}

/// A query that only reads: its upper-cased text starts with SELECT, WITH or EXPLAIN.
pub open spec fn spec_is_read_query(query: Seq<char>) -> bool {
    let u = spec_to_uppercase(query);
    spec_starts_with(u, "SELECT"@) || spec_starts_with(u, "WITH"@) || spec_starts_with(u, "EXPLAIN"@)
}

pub fn is_read_query(query: &str) -> (b: bool)
    ensures
        b == spec_is_read_query(query@),
{
    let u = char_vec(to_uppercase(query).as_str());
    starts_with_str(&u, "SELECT") || starts_with_str(&u, "WITH") || starts_with_str(&u, "EXPLAIN")
}

/// `str::trim_end_matches(';')`: the text without its trailing semicolons.
pub open spec fn strip_trailing_semicolons(s: Seq<char>) -> Seq<char>
    decreases s.len(),
{
    if s.len() > 0 && s.last() == ';' {
        strip_trailing_semicolons(s.drop_last())
    } else {
        s
    }
}

/// The SQL that runs a read query as rows of JSON, at most 500 of them.
pub open spec fn spec_wrapped_read_sql(query: Seq<char>) -> Seq<char> {
    "SELECT to_jsonb(t) AS row_data FROM ("@ + strip_trailing_semicolons(query) + ") t LIMIT 500;"@
}

pub fn wrapped_read_sql(query: &str) -> (r: String)
    ensures
        r@ == spec_wrapped_read_sql(query@),
{
    let q = char_vec(query);
    let mut n = q.len();
    assert(q@.take(n as int) =~= q@);
    while n > 0 && q[n - 1] == ';'
        invariant
            n <= q@.len(),
            strip_trailing_semicolons(q@) == strip_trailing_semicolons(q@.take(n as int)),
        decreases n,
    {
        proof {
            assert(q@.take(n as int).drop_last() =~= q@.take(n - 1));
        }
        n = n - 1;
    }
    let mut out: Vec<char> = Vec::new();
    extend_str(&mut out, "SELECT to_jsonb(t) AS row_data FROM (");
    extend_chars(&mut out, crate::text::slice_chars(q.as_slice(), 0, n).as_slice());
    extend_str(&mut out, ") t LIMIT 500;");
    proof {
        assert(q@.take(q@.len() as int) =~= q@);
        assert(q@.subrange(0, n as int) =~= q@.take(n as int));
        assert(strip_trailing_semicolons(q@.take(n as int)) == q@.take(n as int));
    }
    assert(out@ =~= spec_wrapped_read_sql(query@));
    string_from_chars(out.as_slice())
}

/// A table of the public schema, with its estimated size.
pub struct TableSummaryDto {
    pub name: String,
    pub estimated_rows: i64,
    pub column_count: i32,
}

/// The planner's row estimate as shown: never negative.
pub fn estimated_rows(reltuples: i64) -> (r: i64)
    ensures
        r == (if reltuples < 0 { 0 } else { reltuples }),
{
    if reltuples < 0 { 0 } else { reltuples }
}

/// Query string of the table browser.
pub struct TableDataQuery {
    pub page: Option<u64>,
    pub limit: Option<u64>,
    pub search: Option<String>,
    pub sort_by: Option<String>,
    pub sort_dir: Option<String>,
}

/// A column of a table, as the table browser describes it.
pub struct ColumnInfoDto {
    pub name: String,
    pub data_type: String,
    pub is_nullable: bool,
    pub column_default: Option<String>,
    pub is_primary_key: bool,
}

/// A statement for the SQL console; writes are refused unless `write_mode` is on.
pub struct DatabaseQueryRequestDto {
    pub query: String,
    pub write_mode: Option<bool>,
}

/// The names of the primary-key columns, in column order.
pub open spec fn primary_key_names(cols: Seq<ColumnInfoDto>) -> Seq<Seq<char>>
    decreases cols.len(),
{
    if cols.len() == 0 {
        Seq::empty()
    } else {
        let prev = primary_key_names(cols.drop_last());
        if cols.last().is_primary_key { prev.push(cols.last().name@) } else { prev }
    }
}

/// Lists the primary-key columns.
pub fn primary_keys(cols: &Vec<ColumnInfoDto>) -> (r: Vec<String>)
    ensures
        r@.map_values(|s: String| s@) == primary_key_names(cols@),
{
    let mut out: Vec<String> = Vec::new();
    let mut i: usize = 0;
    assert(cols@.take(0) =~= Seq::<ColumnInfoDto>::empty());
    while i < cols.len()
        invariant
            i <= cols@.len(),
            out@.map_values(|s: String| s@) == primary_key_names(cols@.take(i as int)),
        decreases cols@.len() - i,
    {
        proof {
            assert(cols@.take(i + 1).drop_last() =~= cols@.take(i as int));
            assert(cols@.take(i + 1).last() == cols@[i as int]);
        }
        if cols[i].is_primary_key {
            let ghost before = out@.map_values(|s: String| s@);
            out.push(cols[i].name.clone());
            assert(out@.map_values(|s: String| s@) =~= before.push(cols@[i as int].name@));
        }
        i = i + 1;
    }
    assert(cols@.take(cols@.len() as int) =~= cols@);
    out
}

/// The page of the table browser: the requested page, at least 1.
pub open spec fn browser_page(q: TableDataQuery) -> u64 {
    match q.page {
        Some(p) => if p < 1 { 1 } else { p },
        None => 1,
    }
}

/// The page size of the table browser: the requested size (25 by default) clamped into
/// `5..=100`.
pub open spec fn browser_limit(q: TableDataQuery) -> u64 {
    let l = match q.limit {
        Some(l) => l,
        None => 25,
    };
    if l < 5 { 5 } else if l > 100 { 100 } else { l }
}

/// The column the table browser orders by: the requested column when the table has it,
/// else the first primary-key column, else the first column (`1`).
pub open spec fn spec_order_column(sort_by: Option<Seq<char>>, cols: Seq<ColumnInfoDto>) -> Result<Seq<char>, (ErrorKind, Seq<char>)> {
    let pks = primary_key_names(cols);
    let fallback = if pks.len() > 0 { pks[0] } else { "1"@ };
    match sort_by {
        Some(sc) => if exists|i: int| 0 <= i < cols.len() && (#[trigger] cols[i]).name@ == sc {
            spec_sanitize_ident(sc)
        } else {
            Ok(fallback)
        },
        None => Ok(fallback),
    }
}

/// The statements that read one page of a table: its row count and its rows as JSON.
pub open spec fn spec_page_sql(table: Seq<char>, order: Seq<char>, ascending: bool, limit: u64, offset: u64) -> (Seq<char>, Seq<char>) {
    (
        "SELECT count(*)::bigint FROM \""@ + table + "\";"@,
        "SELECT to_jsonb(t) AS row_data FROM (SELECT * FROM \""@ + table + "\" ORDER BY \""@ + order + "\" "@
            + (if ascending { "ASC"@ } else { "DESC"@ }) + " LIMIT "@ + spec_decimal(limit as nat) + " OFFSET "@
            + spec_decimal(offset as nat) + ") t;"@,
    )
}

/// What the table browser runs for a page: the page, its size, and the count and row
/// statements.
pub struct TablePagePlan {
    pub page: u64,
    pub limit: u64,
    pub count_sql: String,
    pub select_sql: String,
}

fn has_column(cols: &Vec<ColumnInfoDto>, name: &str) -> (r: bool)
    ensures
        r == exists|i: int| 0 <= i < cols@.len() && (#[trigger] cols@[i]).name@ == name@,
{
    let mut i: usize = 0;
    while i < cols.len()
        invariant
            i <= cols@.len(),
            forall|j: int| 0 <= j < i ==> (#[trigger] cols@[j]).name@ != name@,
        decreases cols@.len() - i,
    {
        if crate::assistant::str_is(cols[i].name.as_str(), name) {
            return true;
        }
        i = i + 1;
    }
    false
}

/// Plans one page of the table browser for a sanitized table name and its columns.
pub fn table_page_plan(table: &str, q: &TableDataQuery, cols: &Vec<ColumnInfoDto>) -> (r: Result<TablePagePlan, AppError>)
    requires
        (browser_page(*q) - 1) * browser_limit(*q) <= u64::MAX,
    ensures
        match r {
            Ok(p) => {
                &&& p.page == browser_page(*q)
                &&& p.limit == browser_limit(*q)
                &&& spec_order_column(crate::validation::opt_string_view(&q.sort_by), cols@) matches Ok(order)
                &&& (p.count_sql@, p.select_sql@) == spec_page_sql(
                    table@,
                    order,
                    crate::validation::opt_string_view(&q.sort_dir) == Some("asc"@),
                    p.limit,
                    ((p.page - 1) * p.limit) as u64,
                )
            },
            Err(e) => spec_order_column(crate::validation::opt_string_view(&q.sort_by), cols@) == Err::<Seq<char>, (ErrorKind, Seq<char>)>(e@),
        },
{
    let page: u64 = match q.page {
        Some(p) => if p < 1 { 1 } else { p },
        None => 1,
    };
    let l0: u64 = match q.limit {
        Some(l) => l,
        None => 25,
    };
    let limit: u64 = if l0 < 5 { 5 } else if l0 > 100 { 100 } else { l0 };
    let offset: u64 = (page - 1) * limit;
    let pks = primary_keys(cols);
    let fallback: String = if pks.len() > 0 {
        pks[0].clone()
    } else {
        String::from_str("1")
    };
    proof {
        if pks@.len() > 0 {
            assert(pks@.map_values(|s: String| s@)[0] == pks@[0]@);
        }
    }
    let order: String = match &q.sort_by {
        Some(sc) => {
            if has_column(cols, sc.as_str()) {
                match sanitize_ident(sc.as_str()) {
                    Ok(o) => o,
                    Err(e) => return Err(e),
                }
            } else {
                fallback
            }
        },
        None => fallback,
    };
    let ascending = match &q.sort_dir {
        Some(d) => crate::assistant::str_is(d.as_str(), "asc"),
        None => false,
    };
    let mut c: Vec<char> = Vec::new();
    extend_str(&mut c, "SELECT count(*)::bigint FROM \"");
    extend_str(&mut c, table);
    extend_str(&mut c, "\";");
    let mut s: Vec<char> = Vec::new();
    extend_str(&mut s, "SELECT to_jsonb(t) AS row_data FROM (SELECT * FROM \"");
    extend_str(&mut s, table);
    extend_str(&mut s, "\" ORDER BY \"");
    extend_str(&mut s, order.as_str());
    extend_str(&mut s, "\" ");
    extend_str(&mut s, if ascending { "ASC" } else { "DESC" });
    extend_str(&mut s, " LIMIT ");
    let lv = crate::text::decimal_u128(limit as u128);
    extend_chars(&mut s, lv.as_slice());
    extend_str(&mut s, " OFFSET ");
    let ov = crate::text::decimal_u128(offset as u128);
    extend_chars(&mut s, ov.as_slice());
    extend_str(&mut s, ") t;");
    Ok(TablePagePlan { page, limit, count_sql: string_from_chars(c.as_slice()), select_sql: string_from_chars(s.as_slice()) })
}

/// A primary-key or cell value sent by the table editor, by its JSON kind: a number (its
/// JSON text), a string, a boolean, null, or anything else (its JSON text).
pub enum CellValue {
    Number(String),
    Text(String),
    Bool(bool),
    Null,
    Other(String),
}

/// The text a primary-key value is compared as: numbers and strings only.
pub fn pk_text(v: &CellValue) -> (r: Result<String, AppError>)
    ensures
        match r {
            Ok(t) => match v {
                CellValue::Number(n) => t@ == n@,
                CellValue::Text(s) => t@ == s@,
                _ => false,
            },
            Err(e) => !(v is Number || v is Text) && e@ == (ErrorKind::BadRequest, "Geçersiz birincil anahtar değeri."@),
        },
{
    match v {
        CellValue::Number(n) => Ok(n.clone()),
        CellValue::Text(s) => Ok(s.clone()),
        _ => Err(AppError::with_text(ErrorKind::BadRequest, "Geçersiz birincil anahtar değeri.")),
    }
}

/// The statement that deletes the row with the given primary key (bound as `$1`).
pub open spec fn spec_delete_sql(table: Seq<char>, pk: Seq<char>) -> Seq<char> {
    "DELETE FROM \""@ + table + "\" WHERE \""@ + pk + "\"::text = $1;"@
}

/// Builds the row-deletion statement for sanitized names.
pub fn delete_row_sql(table: &str, pk: &str) -> (r: String)
    ensures
        r@ == spec_delete_sql(table@, pk@),
{
    let mut s: Vec<char> = Vec::new();
    extend_str(&mut s, "DELETE FROM \"");
    extend_str(&mut s, table);
    extend_str(&mut s, "\" WHERE \"");
    extend_str(&mut s, pk);
    extend_str(&mut s, "\"::text = $1;");
    string_from_chars(s.as_slice())
}

/// The statement that updates one cell and the text bound to it: setting null binds only
/// the key (`$1`); any other value is bound as `$1` as text (booleans as `true`/`false`)
/// and the key as `$2`.
pub open spec fn spec_update_sql(table: Seq<char>, column: Seq<char>, pk: Seq<char>, value: CellValue) -> (Seq<char>, Option<Seq<char>>) {
    match value {
        CellValue::Null => (
            "UPDATE \""@ + table + "\" SET \""@ + column + "\" = NULL WHERE \""@ + pk + "\"::text = $1;"@,
            None,
        ),
        _ => (
            "UPDATE \""@ + table + "\" SET \""@ + column + "\" = $1 WHERE \""@ + pk + "\"::text = $2;"@,
            Some(match value {
                CellValue::Number(n) => n@,
                CellValue::Text(s) => s@,
                CellValue::Bool(b) => if b { "true"@ } else { "false"@ },
                CellValue::Other(o) => o@,
                CellValue::Null => Seq::empty(),
            }),
        ),
    }
}

/// Builds the cell-update statement for sanitized names, and the value text to bind.
pub fn update_row_sql(table: &str, column: &str, pk: &str, value: &CellValue) -> (r: (String, Option<String>))
    ensures
        (r.0@, crate::validation::opt_string_view(&r.1)) == spec_update_sql(table@, column@, pk@, *value),
{
    let mut s: Vec<char> = Vec::new();
    extend_str(&mut s, "UPDATE \"");
    extend_str(&mut s, table);
    extend_str(&mut s, "\" SET \"");
    extend_str(&mut s, column);
    match value {
        CellValue::Null => {
            extend_str(&mut s, "\" = NULL WHERE \"");
            extend_str(&mut s, pk);
            extend_str(&mut s, "\"::text = $1;");
            (string_from_chars(s.as_slice()), None)
        },
        _ => {
            extend_str(&mut s, "\" = $1 WHERE \"");
            extend_str(&mut s, pk);
            extend_str(&mut s, "\"::text = $2;");
            let v = match value {
                CellValue::Number(n) => n.clone(),
                CellValue::Text(t) => t.clone(),
                CellValue::Bool(b) => String::from_str(if *b { "true" } else { "false" }),
                CellValue::Other(o) => o.clone(),
                CellValue::Null => String::new(),
            };
            (string_from_chars(s.as_slice()), Some(v))
        },
    }
}

} // verus!
