//! Schema migrations: how a SQL file is cut into the statements that are sent to the
//! database one at a time, and which files of the migrations directory run, in which
//! order.

use vstd::prelude::*;
use crate::menu::{by_lex, char_views, sort_keys};
use crate::oauth::{split_chars, split_on};
use crate::ordering::sort_by;
use crate::text::{char_vec, extend_chars, extend_str, spec_starts_with, spec_trim, starts_with_str, string_from_chars, trim_chars};

verus! {

/// A line without the carriage return of a `\r\n` ending.
pub open spec fn strip_cr(l: Seq<char>) -> Seq<char> {
    if l.len() > 0 && l.last() == '\r' {
        l.drop_last()
    } else {
        l
    }
}

/// `str::lines`: the pieces between line feeds, each that ended in `\r\n` without its
/// `\r`; a final line break opens no further line, and a last line without a break is
/// kept as it is.
pub open spec fn lines_of(s: Seq<char>) -> Seq<Seq<char>> {
    let p = split_on(s, '\n');
    let ended = p.drop_last().map_values(|l: Seq<char>| strip_cr(l));
    if p.last().len() == 0 {
        ended
    } else {
        ended.push(p.last())
    }
}

/// The number of `$$` in a line, counted from the left without overlaps (what
/// `str::matches("$$").count()` gives).
pub open spec fn dollar_pairs(s: Seq<char>) -> nat
    decreases s.len(),
{
    if s.len() < 2 {
        0
    } else if s[0] == '$' && s[1] == '$' {
        1 + dollar_pairs(s.skip(2))
    } else {
        dollar_pairs(s.drop_first())
    }
}

/// The state of the cutter: the statement being collected, whether a `$$` block is open,
/// and the statements finished so far.
pub type CutState = (Seq<char>, bool, Seq<Seq<char>>);

/// Reads one line. Outside a `$$` block, blank lines and `--` comment lines are skipped.
/// Any other line is added, with a line feed, to the statement being collected; an odd
/// number of `$$` on it opens or closes a block; outside a block, a line whose trimmed
/// text ends in `;` finishes the statement, which is kept trimmed unless it is empty.
pub open spec fn cut_step(st: CutState, line: Seq<char>) -> CutState {
    let t = spec_trim(line);
    if !st.1 && (spec_starts_with(t, "--"@) || t.len() == 0) {
        st
    } else {
        let in_block = if dollar_pairs(line) % 2 == 1 { !st.1 } else { st.1 };
        let cur = st.0 + line + seq!['\n'];
        if !in_block && t.len() > 0 && t.last() == ';' {
            let stmt = spec_trim(cur);
            (Seq::empty(), in_block, if stmt.len() > 0 { st.2.push(stmt) } else { st.2 })
        } else {
            (cur, in_block, st.2)
        }
    }
}

/// The cutter's state after reading `lines` in order.
pub open spec fn cut_lines(lines: Seq<Seq<char>>) -> CutState
    decreases lines.len(),
{
    if lines.len() == 0 {
        (Seq::empty(), false, Seq::empty())
    } else {
        cut_step(cut_lines(lines.drop_last()), lines.last())
    }
}

/// The statements of a SQL file, in order: those the cutter finished, then what was left
/// over at the end (trimmed) when it is not empty.
pub open spec fn spec_sql_statements(content: Seq<char>) -> Seq<Seq<char>> {
    let st = cut_lines(lines_of(content));
    let rest = spec_trim(st.0);
    if rest.len() > 0 {
        st.2.push(rest)
    } else {
        st.2
    }
}

/// A line with an even number of `$$` (none, or a `$$ ... $$` body opened and closed on
/// the line) neither opens nor closes a dollar block.
pub proof fn lemma_balanced_dollars_keep_block(st: CutState, line: Seq<char>)
    requires
        dollar_pairs(line) % 2 == 0,
    ensures
        cut_step(st, line).1 == st.1,
{
}

/// A line that is read (inside a block, or outside one a line that is neither blank nor
/// a `--` comment) with an odd number of `$$` opens a closed block or closes an open one.
pub proof fn lemma_odd_dollars_toggle_block(st: CutState, line: Seq<char>)
    requires
        dollar_pairs(line) % 2 == 1,
        st.1 || (spec_trim(line).len() > 0 && !spec_starts_with(spec_trim(line), "--"@)),
    ensures
        cut_step(st, line).1 == !st.1,
{
}

/// Inside an open dollar block, a line that does not close it finishes no statement,
/// whatever semicolons it holds: it is kept, with its line feed, in the statement being
/// collected.
pub proof fn lemma_block_keeps_semicolons(st: CutState, line: Seq<char>)
    requires
        st.1,
        dollar_pairs(line) % 2 == 0,
    ensures
        cut_step(st, line) == (st.0 + line + seq!['\n'], true, st.2),
{
}

/// Outside a dollar block, blank lines and `--` comment lines change nothing.
pub proof fn lemma_comments_skipped(st: CutState, line: Seq<char>)
    requires
        !st.1,
        spec_trim(line).len() == 0 || spec_starts_with(spec_trim(line), "--"@),
    ensures
        cut_step(st, line) == st,
{
}

/// A line without `$` holds no `$$`.
pub proof fn lemma_no_dollar_no_pairs(line: Seq<char>)
    requires
        forall|i: int| 0 <= i < line.len() ==> line[i] != '$',
    ensures
        dollar_pairs(line) == 0,
    decreases line.len(),
{
    if line.len() >= 2 {
        assert(line[0] != '$');
        let rest = line.drop_first();
        assert forall|i: int| 0 <= i < rest.len() implies rest[i] != '$' by {
            assert(rest[i] == line[i + 1]);
        }
        lemma_no_dollar_no_pairs(rest);
    }
}

/// Text without `$` before a line changes none of its `$$`.
pub proof fn lemma_dollar_pairs_plain_prefix(a: Seq<char>, s: Seq<char>)
    requires
        forall|i: int| 0 <= i < a.len() ==> a[i] != '$',
    ensures
        dollar_pairs(a + s) == dollar_pairs(s),
    decreases a.len(),
{
    if a.len() > 0 {
        let t = a + s;
        assert(t[0] == a[0]);
        if t.len() >= 2 {
            assert(t.drop_first() =~= a.drop_first() + s);
        }
        let rest = a.drop_first();
        assert forall|i: int| 0 <= i < rest.len() implies rest[i] != '$' by {
            assert(rest[i] == a[i + 1]);
        }
        lemma_dollar_pairs_plain_prefix(rest, s);
        if t.len() < 2 {
            assert(rest.len() == 0 && s.len() == 0);
            assert(rest + s =~= Seq::<char>::empty());
        }
    }
}

/// Pairs of `$` are counted from the left without overlap: a lone `$$` between texts
/// without `$` counts once, and so does a run of three `$`; two separate `$$` count twice.
pub proof fn lemma_dollar_pairs_examples(a: Seq<char>, b: Seq<char>, c: Seq<char>)
    requires
        forall|i: int| 0 <= i < a.len() ==> a[i] != '$',
        forall|i: int| 0 <= i < b.len() ==> b[i] != '$',
        forall|i: int| 0 <= i < c.len() ==> c[i] != '$',
    ensures
        dollar_pairs(a + seq!['$', '$'] + b) == 1,
        dollar_pairs(a + seq!['$', '$', '$'] + b) == 1,
        dollar_pairs(a + seq!['$', '$'] + b + seq!['$', '$'] + c) == 2,
{
    let dd = seq!['$', '$'];
    lemma_no_dollar_no_pairs(b);
    lemma_no_dollar_no_pairs(c);
    // a + "$$" + b
    assert(a + dd + b =~= a + (dd + b));
    lemma_dollar_pairs_plain_prefix(a, dd + b);
    assert((dd + b).skip(2) =~= b);
    // a + "$$$" + b
    let ddd = seq!['$', '$', '$'];
    assert(a + ddd + b =~= a + (ddd + b));
    lemma_dollar_pairs_plain_prefix(a, ddd + b);
    assert((ddd + b).skip(2) =~= seq!['$'] + b);
    assert((ddd + b)[0] == '$' && (ddd + b)[1] == '$');
    assert(dollar_pairs(ddd + b) == 1 + dollar_pairs((ddd + b).skip(2)));
    let one = seq!['$'] + b;
    if one.len() >= 2 {
        assert(one[0] == '$');
        assert(one[1] == b[0]);
        assert(b[0] != '$');
        assert(one.drop_first() =~= b);
        assert(dollar_pairs(one) == dollar_pairs(one.drop_first()));
    } else {
        assert(dollar_pairs(one) == 0);
    }
    // a + "$$" + b + "$$" + c
    let tail = b + dd + c;
    assert(a + dd + b + dd + c =~= a + (dd + tail));
    lemma_dollar_pairs_plain_prefix(a, dd + tail);
    assert((dd + tail).skip(2) =~= tail);
    assert(tail =~= b + (dd + c));
    lemma_dollar_pairs_plain_prefix(b, dd + c);
    assert((dd + c).skip(2) =~= c);
}

/// A statement that stands on one line: outside a block and with nothing pending, a line
/// that is not a comment, whose `$$` are balanced and whose trimmed text ends in `;`,
/// becomes a statement of its own (the line, trimmed), leaves no block open and nothing
/// pending, and keeps the statements already finished.
pub proof fn lemma_one_line_statement(done: Seq<Seq<char>>, line: Seq<char>)
    requires
        dollar_pairs(line) % 2 == 0,
        spec_trim(line).len() > 0,
        spec_trim(line).last() == ';',
        !spec_starts_with(spec_trim(line), "--"@),
    ensures
        ({
            let next = cut_step((Seq::empty(), false, done), line);
            &&& next.0.len() == 0
            &&& !next.1
            &&& next.2.len() == done.len() + 1
            &&& next.2.take(done.len() as int) == done
            &&& next.2.last() == spec_trim(line + seq!['\n'])
        }),
{
    let cur = Seq::<char>::empty() + line + seq!['\n'];
    assert(cur =~= line + seq!['\n']);
    let stmt = spec_trim(cur);
    if stmt.len() > 0 {
        assert(done.push(stmt).take(done.len() as int) =~= done);
    } else {
        lemma_trim_keeps_semicolon(line);
    }
}

proof fn lemma_trim_keeps_semicolon(line: Seq<char>)
    requires
        spec_trim(line).len() > 0,
    ensures
        spec_trim(line + seq!['\n']).len() > 0,
{
    crate::text::lemma_trim_nonempty_extend(line, seq!['\n']);
}

/// Every statement the cutter finishes is non-empty.
proof fn lemma_cut_nonempty(lines: Seq<Seq<char>>)
    ensures
        forall|i: int| 0 <= i < cut_lines(lines).2.len() ==> (#[trigger] cut_lines(lines).2[i]).len() > 0,
    decreases lines.len(),
{
    if lines.len() > 0 {
        let prev = cut_lines(lines.drop_last());
        lemma_cut_nonempty(lines.drop_last());
        let next = cut_step(prev, lines.last());
        assert(cut_lines(lines) == next);
        assert forall|i: int| 0 <= i < next.2.len() implies (#[trigger] next.2[i]).len() > 0 by {
            if i < prev.2.len() {
                assert(prev.2[i].len() > 0);
            }
        }
    }
}

/// No statement sent to the database is empty: a file of comments and blank lines sends
/// nothing.
pub proof fn lemma_statements_nonempty(content: Seq<char>)
    ensures
        forall|i: int| 0 <= i < spec_sql_statements(content).len() ==> (#[trigger] spec_sql_statements(content)[i]).len() > 0,
{
    lemma_cut_nonempty(lines_of(content));
}

pub open spec fn string_views(v: Seq<String>) -> Seq<Seq<char>> {
    v.map_values(|w: String| w@)
}

fn without_cr(l: &Vec<char>) -> (r: Vec<char>)
    ensures
        r@ == strip_cr(l@),
{
    if l.len() > 0 && l[l.len() - 1] == '\r' {
        crate::text::slice_chars(l.as_slice(), 0, l.len() - 1)
    } else {
        proof {
            assert(l@.subrange(0, l@.len() as int) =~= l@);
        }
        crate::text::slice_chars(l.as_slice(), 0, l.len())
    }
}

/// The lines of a text, as `str::lines` gives them.
pub fn text_lines(s: &str) -> (r: Vec<Vec<char>>)
    ensures
        char_views(r@) == lines_of(s@),
{
    let sv = char_vec(s);
    let pieces = split_chars(sv.as_slice(), '\n');
    let ghost p = split_on(s@, '\n');
    proof {
        crate::oauth::lemma_split_nonempty(s@, '\n');
        assert(char_views(pieces@) == p);
    }
    let n = pieces.len();
    let mut out: Vec<Vec<char>> = Vec::new();
    let mut i: usize = 0;
    while i + 1 < n
        invariant
            n == pieces@.len(),
            n >= 1,
            char_views(pieces@) == p,
            i <= n - 1,
            char_views(out@) == p.drop_last().take(i as int).map_values(|l: Seq<char>| strip_cr(l)),
        decreases n - i,
    {
        let l = without_cr(&pieces[i]);
        let ghost before = char_views(out@);
        proof {
            assert(pieces@[i as int]@ == p[i as int]);
            assert(p.drop_last()[i as int] == p[i as int]);
        }
        out.push(l);
        proof {
            assert(char_views(out@) =~= before.push(l@));
            assert(p.drop_last().take(i + 1) =~= p.drop_last().take(i as int).push(p[i as int]));
            assert(char_views(out@) =~= p.drop_last().take(i + 1).map_values(|l: Seq<char>| strip_cr(l)));
        }
        i = i + 1;
    }
    proof {
        assert(p.drop_last().take(i as int) =~= p.drop_last());
    }
    let last = &pieces[n - 1];
    proof {
        assert(last@ == p.last());
    }
    if last.len() > 0 {
        out.push(crate::text::slice_chars(last.as_slice(), 0, last.len()));
        proof {
            assert(last@.subrange(0, last@.len() as int) =~= last@);
            assert(char_views(out@) =~= p.drop_last().map_values(|l: Seq<char>| strip_cr(l)).push(p.last()));
        }
    }
    out
}

/// Counts the `$$` of a line.
fn count_dollar_pairs(s: &Vec<char>) -> (r: usize)
    ensures
        r == dollar_pairs(s@),
{
    let mut i: usize = 0;
    let mut count: usize = 0;
    assert(s@.skip(0) =~= s@);
    while i < s.len() && i + 1 < s.len()
        invariant
            i <= s@.len(),
            count <= i,
            count + dollar_pairs(s@.skip(i as int)) == dollar_pairs(s@),
        decreases s@.len() - i,
    {
        let ghost rest = s@.skip(i as int);
        assert(rest[0] == s@[i as int]);
        assert(rest[1] == s@[i + 1]);
        if s[i] == '$' && s[i + 1] == '$' {
            assert(rest.skip(2) =~= s@.skip(i + 2));
            count = count + 1;
            i = i + 2;
        } else {
            assert(rest.drop_first() =~= s@.skip(i + 1));
            i = i + 1;
        }
    }
    assert(s@.skip(i as int).len() < 2);
    count
}

/// Cuts the text of a SQL file into the statements that are run one by one: comment
/// and blank lines outside `$$` blocks are dropped, a statement ends at a line ending in
/// `;` outside a block, and a dollar-quoted body (`$$ ... $$`) stays in one statement
/// whatever semicolons it holds.
pub fn sql_statements(content: &str) -> (r: Vec<String>)
    ensures
        string_views(r@) == spec_sql_statements(content@),
{
    let lines = text_lines(content);
    let ghost lv = char_views(lines@);
    let mut cur: Vec<char> = Vec::new();
    let mut in_block = false;
    let mut out: Vec<String> = Vec::new();
    let mut i: usize = 0;
    assert(lv.take(0) =~= Seq::<Seq<char>>::empty());
    assert(string_views(out@) =~= Seq::<Seq<char>>::empty());
    while i < lines.len()
        invariant
            i <= lines@.len(),
            lv == char_views(lines@),
            cut_lines(lv.take(i as int)) == (cur@, in_block, string_views(out@)),
        decreases lines@.len() - i,
    {
        let line = &lines[i];
        let ghost prev: CutState = (cur@, in_block, string_views(out@));
        proof {
            assert(lv[i as int] == line@);
            assert(lv.take(i + 1).drop_last() =~= lv.take(i as int));
            assert(lv.take(i + 1).last() == line@);
        }
        let t = trim_chars(line.as_slice());
        let skip = !in_block && (starts_with_str(t.as_slice(), "--") || t.len() == 0);
        if !skip {
            if count_dollar_pairs(line) % 2 == 1 {
                in_block = !in_block;
            }
            extend_chars(&mut cur, line.as_slice());
            cur.push('\n');
            proof {
                assert(cur@ =~= prev.0 + line@ + seq!['\n']);
                assert(t@ == spec_trim(line@));
                if t@.len() > 0 {
                    assert(t@.last() == t@[t@.len() - 1]);
                }
            }
            if !in_block && t.len() > 0 && t[t.len() - 1] == ';' {
                let stmt = trim_chars(cur.as_slice());
                if stmt.len() > 0 {
                    let ghost before = string_views(out@);
                    out.push(string_from_chars(stmt.as_slice()));
                    proof {
                        assert(string_views(out@) =~= before.push(stmt@));
                    }
                }
                cur = Vec::new();
            }
        }
        proof {
            assert(cut_lines(lv.take(i + 1)) == cut_step(prev, line@));
            assert(cut_step(prev, line@) == (cur@, in_block, string_views(out@)));
        }
        i = i + 1;
    }
    proof {
        assert(lv.take(i as int) =~= lv);
    }
    let rest = trim_chars(cur.as_slice());
    if rest.len() > 0 {
        let ghost before = string_views(out@);
        out.push(string_from_chars(rest.as_slice()));
        proof {
            assert(string_views(out@) =~= before.push(rest@));
        }
    }
    out
}

/// A migration file by its name: its extension (`Path::extension`) is `sql`, that is,
/// the name ends in `.sql` with something before the dot.
pub open spec fn is_sql_name(n: Seq<char>) -> bool {
    n.len() > 4 && n.skip(n.len() - 4) == ".sql"@
}

/// The names of `ns` that are migration files, in their order.
pub open spec fn sql_names(ns: Seq<Seq<char>>) -> Seq<Seq<char>>
    decreases ns.len(),
{
    if ns.len() == 0 {
        ns
    } else {
        let r = sql_names(ns.drop_last());
        if is_sql_name(ns.last()) {
            r.push(ns.last())
        } else {
            r
        }
    }
}

fn sql_name(v: &Vec<char>) -> (b: bool)
    ensures
        b == is_sql_name(v@),
{
    proof {
        reveal_strlit(".sql");
    }
    let n = v.len();
    if n <= 4 {
        return false;
    }
    let b = v[n - 4] == '.' && v[n - 3] == 's' && v[n - 2] == 'q' && v[n - 1] == 'l';
    proof {
        let tail = v@.skip(n - 4);
        assert(tail.len() == 4);
        assert(tail[0] == v@[n - 4] && tail[1] == v@[n - 3] && tail[2] == v@[n - 2] && tail[3] == v@[n - 1]);
        if b {
            assert(tail =~= ".sql"@);
        }
    }
    b
}

/// The files of the migrations directory that run, in the order they run: those whose
/// extension is `sql`, sorted by name.
pub fn migration_order(names: Vec<String>) -> (r: Vec<String>)
    ensures
        string_views(r@) == sort_by(sql_names(string_views(names@)), by_lex()),
{
    let ghost nv = string_views(names@);
    let mut kept: Vec<Vec<char>> = Vec::new();
    let mut i: usize = 0;
    assert(nv.take(0) =~= Seq::<Seq<char>>::empty());
    while i < names.len()
        invariant
            i <= names@.len(),
            nv == string_views(names@),
            char_views(kept@) == sql_names(nv.take(i as int)),
        decreases names@.len() - i,
    {
        let v = char_vec(names[i].as_str());
        proof {
            assert(nv[i as int] == v@);
            assert(nv.take(i + 1).drop_last() =~= nv.take(i as int));
            assert(nv.take(i + 1).last() == v@);
        }
        if sql_name(&v) {
            let ghost before = char_views(kept@);
            kept.push(v);
            proof {
                assert(char_views(kept@) =~= before.push(nv[i as int]));
            }
        }
        i = i + 1;
    }
    proof {
        assert(nv.take(i as int) =~= nv);
    }
    let sorted = sort_keys(kept);
    let mut out: Vec<String> = Vec::new();
    let mut j: usize = 0;
    while j < sorted.len()
        invariant
            j <= sorted@.len(),
            string_views(out@) == char_views(sorted@).take(j as int),
        decreases sorted@.len() - j,
    {
        let ghost before = string_views(out@);
        out.push(string_from_chars(sorted[j].as_slice()));
        proof {
            assert(string_views(out@) =~= before.push(sorted@[j as int]@));
            assert(char_views(sorted@).take(j + 1) =~= char_views(sorted@).take(j as int).push(sorted@[j as int]@));
        }
        j = j + 1;
    }
    assert(char_views(sorted@).take(j as int) =~= char_views(sorted@));
    out
}

/// The directories searched for migrations, in order.
pub const MIGRATION_DIRS: [&'static str; 4] = ["db/migrations", "./db/migrations", "../db/migrations", "/app/db/migrations"];

/// The directories searched for the production seeds, in order.
pub const SEED_DIRS: [&'static str; 4] = ["db/seeds/prod", "./db/seeds/prod", "../db/seeds/prod", "/app/db/seeds/prod"];

/// The first of the candidate directories that exists (`exists[i]` for the `i`-th).
pub fn first_directory(exists: &Vec<bool>) -> (r: Option<usize>)
    ensures
        match r {
            Some(i) => i < exists@.len() && exists@[i as int] && forall|j: int| 0 <= j < i ==> !exists@[j],
            None => forall|j: int| 0 <= j < exists@.len() ==> !exists@[j],
        },
{
    let mut i: usize = 0;
    while i < exists.len()
        invariant
            i <= exists@.len(),
            forall|j: int| 0 <= j < i ==> !exists@[j],
        decreases exists@.len() - i,
    {
        if exists[i] {
            return Some(i);
        }
        i = i + 1;
    }
    None
}

/// The query that asks whether the migration `version` has been applied.
pub open spec fn spec_applied_query(version: Seq<char>) -> Seq<char> {
    "SELECT EXISTS (SELECT 1 FROM schema_migrations WHERE version = '"@ + version + "');"@
}

/// Writes the query that asks whether a migration has been applied.
pub fn applied_query(version: &str) -> (r: String)
    ensures
        r@ == spec_applied_query(version@),
{
    let mut v: Vec<char> = Vec::new();
    extend_str(&mut v, "SELECT EXISTS (SELECT 1 FROM schema_migrations WHERE version = '");
    extend_str(&mut v, version);
    extend_str(&mut v, "');");
    string_from_chars(v.as_slice())
}

/// The statement that records the migration `version` as applied.
pub open spec fn spec_record_statement(version: Seq<char>) -> Seq<char> {
    "INSERT INTO schema_migrations (version) VALUES ('"@ + version + "');"@
}

/// Writes the statement that records a migration as applied.
pub fn record_statement(version: &str) -> (r: String)
    ensures
        r@ == spec_record_statement(version@),
{
    let mut v: Vec<char> = Vec::new();
    extend_str(&mut v, "INSERT INTO schema_migrations (version) VALUES ('");
    extend_str(&mut v, version);
    extend_str(&mut v, "');");
    string_from_chars(v.as_slice())
}

/// Whether the answer to `applied_query` says the migration ran: only a row whose value
/// reads as `true` does (`None`: the query failed or gave no row; `Some(None)`: the value
/// did not read as a boolean); a migration of any other answer runs.
pub fn is_applied(answer: Option<Option<bool>>) -> (b: bool)
    ensures
        b == (answer == Some(Some(true))),
{
    match answer {
        Some(Some(v)) => v,
        _ => false,
    }
}

/// Whether the cities have been seeded, from the answer to counting them (`None`: the
/// count failed or did not read): only a positive count says so, and the production
/// seeds run otherwise.
pub fn cities_seeded(count: Option<i64>) -> (b: bool)
    ensures
        b == (count matches Some(n) && n > 0),
{
    match count {
        Some(n) => n > 0,
        None => false,
    }
}

} // verus!
