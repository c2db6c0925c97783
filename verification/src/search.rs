//! Turning search filters into one SQL query with bound parameters.
use vstd::prelude::*;
use crate::db::{args_of, decodes_to, row_to_repo, RepoRow, SqlArg, SqlValue};
use crate::json::{json_escape, json_escape_char, json_quote, json_string_array};
use crate::models::Repo;
use crate::text::{
    copy_string, int_decimal, law_parse_decimal_roundtrip, nat_decimal, occurs_in, parse_i64,
    parse_i64_spec, push_i64_decimal, push_str, push_u64_decimal, push_usize_decimal, seq_join,
    str_eq, views,
};

verus! {

/// Filters for a search; every present filter must match.
pub struct SearchParams {
    /// Full-text query, matched as a prefix against name, path, README summary,
    /// frameworks and languages.
    pub query: Option<String>,
    pub lang: Option<String>,
    pub framework: Option<String>,
    /// Activity window on the last commit: `7d`, `1m` or `1y`; anything else means 30 days.
    pub recent: Option<String>,
    /// Substring of the repository path.
    pub path_filter: Option<String>,
    /// `+N` (at least N bytes) or `-N` (at most N bytes).
    pub size_filter: Option<String>,
    pub limit: i64,
}

/// A statement and the values for its numbered parameters `?1, ?2, ...`.
pub struct SqlQuery {
    pub sql: String,
    pub params: Vec<SqlValue>,
}

/// `?n`
pub open spec fn param_ref(n: nat) -> Seq<char> {
    "?"@ + nat_decimal(n)
}

/// Conditions so far and the values bound so far.
pub type Plan = (Seq<Seq<char>>, Seq<SqlArg>);

/// Adds a condition `head ?n tail` whose parameter `n` is the next free one, bound to `arg`.
pub open spec fn bind_condition(p: Plan, head: Seq<char>, tail: Seq<char>, arg: SqlArg) -> Plan {
    (p.0.push(head + param_ref(p.1.len() + 1) + tail), p.1.push(arg))
}

/// Adds a condition with no parameter.
pub open spec fn plain_condition(p: Plan, cond: Seq<char>) -> Plan {
    (p.0.push(cond), p.1)
}

pub open spec fn fts_head() -> Seq<char> {
    "r.id IN (SELECT rowid FROM repos_fts WHERE repos_fts MATCH "@
}

/// Days in a recency window.
pub open spec fn recent_days(r: Seq<char>) -> nat {
    if r == "7d"@ {
        7
    } else if r == "1m"@ {
        30
    } else if r == "1y"@ {
        365
    } else {
        30
    }
}

pub open spec fn recent_condition(days: nat) -> Seq<char> {
    "r.last_commit_date >= datetime('now', '-"@ + nat_decimal(days) + " days')"@
}

/// Bytes per unit of a size suffix: `k`, `m`, `g` (either case) for powers of 1024;
/// 0 for a character that is no suffix.
pub open spec fn size_unit(c: char) -> int {
    if c == 'k' || c == 'K' {
        1024
    } else if c == 'm' || c == 'M' {
        1048576
    } else if c == 'g' || c == 'G' {
        1073741824
    } else {
        0
    }
}

/// The byte count a size amount stands for: a decimal `i64`, optionally followed by a
/// unit suffix; `None` when it is not one or the count does not fit an `i64`.
pub open spec fn size_amount(t: Seq<char>) -> Option<int> {
    let (num, unit) = if t.len() > 0 && size_unit(t.last()) > 0 {
        (t.drop_last(), size_unit(t.last()))
    } else {
        (t, 1int)
    };
    match parse_i64_spec(num) {
        Some(b) => if i64::MIN <= b * unit <= i64::MAX {
            Some(b * unit)
        } else {
            None
        },
        None => None,
    }
}

/// The size condition, when the filter is `+N` (at least) or `-N` (at most), `N` a byte
/// count with an optional `k`/`m`/`g` suffix (`+100m`: more than 100 MB).
pub open spec fn size_condition(sf: Seq<char>) -> Option<Seq<char>> {
    if sf.len() > 0 && sf[0] == '+' {
        match size_amount(sf.drop_first()) {
            Some(b) => Some("r.size_bytes >= "@ + int_decimal(b)),
            None => None,
        }
    } else if sf.len() > 0 && sf[0] == '-' {
        match size_amount(sf.drop_first()) {
            Some(b) => Some("r.size_bytes <= "@ + int_decimal(b)),
            None => None,
        }
    } else {
        None
    }
}

/// `%"x"%`: matches `x` as an element of a stored JSON array of strings.
pub open spec fn json_element_pattern(x: Seq<char>) -> Seq<char> {
    "%\""@ + x + "\"%"@
}

/// The conditions and bound values of a search, filters taken in a fixed order:
/// query, language, framework, recency, path, size.
pub open spec fn search_plan(p: SearchParams) -> Plan {
    let p0: Plan = (Seq::empty(), Seq::empty());
    let p1 = match p.query {
        Some(q) => bind_condition(p0, fts_head(), ")"@, SqlArg::Text(q@ + "*"@)),
        None => p0,
    };
    let p2 = match p.lang {
        Some(l) => bind_condition(p1, "r.languages LIKE "@, Seq::empty(), SqlArg::Text(json_element_pattern(l@))),
        None => p1,
    };
    let p3 = match p.framework {
        Some(f) => bind_condition(p2, "r.frameworks LIKE "@, Seq::empty(), SqlArg::Text(json_element_pattern(f@))),
        None => p2,
    };
    let p4 = match p.recent {
        Some(r) => plain_condition(p3, recent_condition(recent_days(r@))),
        None => p3,
    };
    let p5 = match p.path_filter {
        Some(pf) => bind_condition(p4, "r.path LIKE "@, Seq::empty(), SqlArg::Text("%"@ + pf@ + "%"@)),
        None => p4,
    };
    match p.size_filter {
        Some(sf) => match size_condition(sf@) {
            Some(c) => plain_condition(p5, c),
            None => p5,
        },
        None => p5,
    }
}

pub open spec fn search_head() -> Seq<char> {
    "SELECT r.id, r.name, r.path, r.parent_path, r.languages, r.frameworks, r.branch,\n                r.last_commit_hash, r.last_commit_date, r.last_commit_msg, r.file_count, r.size_bytes,\n                r.readme_hash, r.readme_summary, r.scanned_at, r.created_at, r.updated_at\n         FROM repos r "@
}

pub open spec fn where_clause(conds: Seq<Seq<char>>) -> Seq<char> {
    if conds.len() == 0 {
        Seq::empty()
    } else {
        "WHERE "@ + seq_join(conds, " AND "@)
    }
}

/// The statement for a plan: all columns, the conditions joined with `AND`, newest first,
/// and the row limit bound to the parameter after the filters' ones.
pub open spec fn search_sql(p: Plan) -> Seq<char> {
    search_head() + "\n         "@ + where_clause(p.0) + " ORDER BY r.updated_at DESC LIMIT "@
        + param_ref(p.1.len() + 1)
}

/// A plan under construction: the conditions as strings and the bound values.
struct PlanBuilder {
    conds: Vec<String>,
    params: Vec<SqlValue>,
}

impl PlanBuilder {
    spec fn plan(&self) -> Plan {
        (crate::text::views(self.conds@), args_of(self.params@))
    }

    fn bind(&mut self, head: &str, tail: &str, arg: SqlValue)
        requires
            old(self).params@.len() < usize::MAX,
        ensures
            final(self).plan() == bind_condition(old(self).plan(), head@, tail@, arg@),
            final(self).params@.len() == old(self).params@.len() + 1,
    {
        let mut c = String::new();
        push_str(&mut c, head);
        push_str(&mut c, "?");
        push_usize_decimal(&mut c, self.params.len() + 1);
        push_str(&mut c, tail);
        assert(c@ =~= head@ + param_ref(old(self).params@.len() + 1) + tail@);
        self.conds.push(c);
        self.params.push(arg);
        assert(self.plan().0 =~= old(self).plan().0.push(head@ + param_ref(old(self).params@.len() + 1) + tail@));
        assert(self.plan().1 =~= old(self).plan().1.push(arg@));
    }

    fn add(&mut self, cond: String)
        ensures
            final(self).plan() == plain_condition(old(self).plan(), cond@),
            final(self).params@ == old(self).params@,
    {
        self.conds.push(cond);
        assert(self.plan().0 =~= old(self).plan().0.push(cond@));
    }
}

fn like_element(x: &str) -> (v: SqlValue)
    ensures
        v@ == SqlArg::Text(json_element_pattern(x@)),
{
    let mut s = String::new();
    push_str(&mut s, "%\"");
    push_str(&mut s, x);
    push_str(&mut s, "\"%");
    assert(s@ =~= json_element_pattern(x@));
    SqlValue::Text(s)
}

fn recent_days_of(r: &str) -> (d: u64)
    ensures
        d == recent_days(r@),
{
    if str_eq(r, "7d") {
        7
    } else if str_eq(r, "1m") {
        30
    } else if str_eq(r, "1y") {
        365
    } else {
        30
    }
}

/// The size condition for a `+N` / `-N` filter, if it is one.
pub fn size_condition_of(sf: &str) -> (c: Option<String>)
    ensures
        match size_condition(sf@) {
            Some(t) => c matches Some(s) && s@ == t,
            None => c is None,
        },
{
    let cs = crate::text::chars_of(sf);
    if cs.len() == 0 {
        return None;
    }
    let first = cs[0];
    if first != '+' && first != '-' {
        return None;
    }
    let n = cs.len();
    let ghost t = sf@.drop_first();
    let last = cs[n - 1];
    let unit: i128 = if n > 1 && (last == 'k' || last == 'K') {
        1024
    } else if n > 1 && (last == 'm' || last == 'M') {
        1048576
    } else if n > 1 && (last == 'g' || last == 'G') {
        1073741824
    } else {
        1
    };
    let end = if unit > 1 { n - 1 } else { n };
    let num = crate::text::string_from_range(&cs, 1, end);
    proof {
        if n > 1 {
            assert(t.last() == last);
        }
        if unit > 1 {
            assert(num@ =~= t.drop_last());
            assert(unit == size_unit(t.last()));
        } else {
            assert(num@ =~= t);
        }
    }
    match parse_i64(num.as_str()) {
        Some(b) => {
            let v: i128 = (b as i128) * unit;
            if v < i64::MIN as i128 || v > i64::MAX as i128 {
                return None;
            }
            let mut s = String::new();
            if first == '+' {
                push_str(&mut s, "r.size_bytes >= ");
            } else {
                push_str(&mut s, "r.size_bytes <= ");
            }
            push_i64_decimal(&mut s, v as i64);
            Some(s)
        },
        None => None,
    }
}

proof fn lemma_int_decimal_ends_in_digit(n: int)
    ensures
        int_decimal(n).len() > 0,
        size_unit(int_decimal(n).last()) == 0,
{
    let m: nat = if n < 0 { (-n) as nat } else { n as nat };
    let d = nat_decimal(m);
    assert(d.len() > 0);
    assert(d.last() == crate::text::digit_char(m % 10));
    assert((crate::text::digit_char(m % 10) as int) == m % 10 + 48);
    if n < 0 {
        assert(int_decimal(n).last() == d.last());
    }
}

/// A size filter written as `+N` or `-N` from a byte count `N` filters by exactly that count.
pub proof fn law_size_filter_text(n: int)
    requires
        i64::MIN <= n <= i64::MAX,
    ensures
        size_condition(seq!['+'] + int_decimal(n)) == Some("r.size_bytes >= "@ + int_decimal(n)),
        size_condition(seq!['-'] + int_decimal(n)) == Some("r.size_bytes <= "@ + int_decimal(n)),
{
    law_parse_decimal_roundtrip(n);
    lemma_int_decimal_ends_in_digit(n);
    assert(n * 1 == n);
    assert(size_amount(int_decimal(n)) == Some(n));
    assert((seq!['+'] + int_decimal(n)).drop_first() =~= int_decimal(n));
    assert((seq!['-'] + int_decimal(n)).drop_first() =~= int_decimal(n));
}

/// A size filter `+Nm` means at least `N` MB (powers of 1024), when that count fits an `i64`.
pub proof fn law_size_filter_megabytes(n: int)
    requires
        i64::MIN <= n <= i64::MAX,
        i64::MIN <= n * 1048576 <= i64::MAX,
    ensures
        size_condition(seq!['+'] + int_decimal(n) + seq!['m']) == Some(
            "r.size_bytes >= "@ + int_decimal(n * 1048576),
        ),
{
    law_parse_decimal_roundtrip(n);
    let t = int_decimal(n) + seq!['m'];
    assert(t.drop_last() =~= int_decimal(n));
    assert(size_amount(t) == Some(n * 1048576));
    assert((seq!['+'] + int_decimal(n) + seq!['m']).drop_first() =~= t);
}

/// A size filter `+N` or `-N` whose count ends in a unit letter counts in powers of 1024:
/// `k` or `K` kilobytes, `m` or `M` megabytes, `g` or `G` gigabytes, when the byte count
/// fits an `i64`.
pub proof fn law_size_filter_units(n: int, c: char, unit: int)
    requires
        i64::MIN <= n <= i64::MAX,
        ((c == 'k' || c == 'K') && unit == 1024) || ((c == 'm' || c == 'M') && unit == 1048576) || ((c == 'g'
            || c == 'G') && unit == 1073741824),
        i64::MIN <= n * unit <= i64::MAX,
    ensures
        size_condition(seq!['+'] + int_decimal(n) + seq![c]) == Some("r.size_bytes >= "@ + int_decimal(n * unit)),
        size_condition(seq!['-'] + int_decimal(n) + seq![c]) == Some("r.size_bytes <= "@ + int_decimal(n * unit)),
{
    law_parse_decimal_roundtrip(n);
    let t = int_decimal(n) + seq![c];
    assert(t.drop_last() =~= int_decimal(n));
    assert(t.last() == c);
    assert(size_unit(c) == unit);
    assert(size_amount(t) == Some(n * unit));
    assert((seq!['+'] + int_decimal(n) + seq![c]).drop_first() =~= t);
    assert((seq!['-'] + int_decimal(n) + seq![c]).drop_first() =~= t);
}

fn plan_search(params: &SearchParams) -> (b: PlanBuilder)
    ensures
        b.plan() == search_plan(*params),
        b.params@.len() <= 4,
{
    proof {
        reveal_strlit("");
    }
    let mut b = PlanBuilder { conds: Vec::new(), params: Vec::new() };
    assert(b.plan().0 =~= Seq::<Seq<char>>::empty());
    assert(b.plan().1 =~= Seq::<SqlArg>::empty());
    if let Some(q) = &params.query {
        let mut t = copy_string(q.as_str());
        push_str(&mut t, "*");
        b.bind("r.id IN (SELECT rowid FROM repos_fts WHERE repos_fts MATCH ", ")", SqlValue::Text(t));
    }
    if let Some(l) = &params.lang {
        b.bind("r.languages LIKE ", "", like_element(l.as_str()));
    }
    if let Some(f) = &params.framework {
        b.bind("r.frameworks LIKE ", "", like_element(f.as_str()));
    }
    if let Some(r) = &params.recent {
        let mut c = String::new();
        push_str(&mut c, "r.last_commit_date >= datetime('now', '-");
        push_u64_decimal(&mut c, recent_days_of(r.as_str()));
        push_str(&mut c, " days')");
        assert(c@ =~= recent_condition(recent_days(r@)));
        b.add(c);
    }
    if let Some(pf) = &params.path_filter {
        let mut t = String::new();
        push_str(&mut t, "%");
        push_str(&mut t, pf.as_str());
        push_str(&mut t, "%");
        assert(t@ =~= "%"@ + pf@ + "%"@);
        b.bind("r.path LIKE ", "", SqlValue::Text(t));
    }
    if let Some(sf) = &params.size_filter {
        if let Some(c) = size_condition_of(sf.as_str()) {
            b.add(c);
        }
    }
    b
}

/// Builds the search statement and its bound values. The row limit is the last value.
pub fn build_search_query(params: &SearchParams) -> (q: SqlQuery)
    ensures
        q.sql@ == search_sql(search_plan(*params)),
        args_of(q.params@) == search_plan(*params).1.push(SqlArg::Integer(params.limit as int)),
{
    let mut b = plan_search(params);
    let ghost plan = search_plan(*params);
    let mut sql = String::new();
    push_str(
        &mut sql,
        "SELECT r.id, r.name, r.path, r.parent_path, r.languages, r.frameworks, r.branch,\n                r.last_commit_hash, r.last_commit_date, r.last_commit_msg, r.file_count, r.size_bytes,\n                r.readme_hash, r.readme_summary, r.scanned_at, r.created_at, r.updated_at\n         FROM repos r ",
    );
    push_str(&mut sql, "\n         ");
    let ghost mid = sql@;
    if b.conds.len() > 0 {
        push_str(&mut sql, "WHERE ");
        let joined = crate::text::join_strings(&b.conds, " AND ");
        push_str(&mut sql, joined.as_str());
        assert(sql@ =~= mid + where_clause(plan.0));
    } else {
        assert(sql@ =~= mid + where_clause(plan.0));
    }
    push_str(&mut sql, " ORDER BY r.updated_at DESC LIMIT ");
    push_str(&mut sql, "?");
    push_usize_decimal(&mut sql, b.params.len() + 1);
    assert(sql@ =~= search_sql(plan));
    let ghost before = args_of(b.params@);
    b.params.push(SqlValue::Integer(params.limit));
    assert(args_of(b.params@) =~= before.push(SqlArg::Integer(params.limit as int)));
    SqlQuery { sql, params: b.params }
}

/// The rows that were read successfully, in order.
pub open spec fn ok_rows(rows: Seq<Result<RepoRow, String>>) -> Seq<RepoRow>
    decreases rows.len(),
{
    if rows.len() == 0 {
        Seq::empty()
    } else {
        let rest = ok_rows(rows.drop_last());
        match rows.last() {
            Ok(r) => rest.push(r),
            Err(_) => rest,
        }
    }
}

/// The errors of the rows that could not be read, in order.
pub open spec fn row_errors(rows: Seq<Result<RepoRow, String>>) -> Seq<Seq<char>>
    decreases rows.len(),
{
    if rows.len() == 0 {
        Seq::empty()
    } else {
        let rest = row_errors(rows.drop_last());
        match rows.last() {
            Ok(_) => rest,
            Err(e) => rest.push(e@),
        }
    }
}

/// The search results from the result rows: every readable row decoded, in order;
/// the errors of unreadable rows are returned for warnings, and those rows skipped.
pub fn collect_search_rows(rows: &Vec<Result<RepoRow, String>>) -> (r: (Vec<Repo>, Vec<String>))
    ensures
        r.0@.len() == ok_rows(rows@).len(),
        forall|k: int| 0 <= k < r.0@.len() ==> decodes_to(ok_rows(rows@)[k], #[trigger] r.0@[k]),
        views(r.1@) == row_errors(rows@),
{
    let mut repos: Vec<Repo> = Vec::new();
    let mut errors: Vec<String> = Vec::new();
    let mut i: usize = 0;
    while i < rows.len()
        invariant
            i <= rows@.len(),
            repos@.len() == ok_rows(rows@.take(i as int)).len(),
            forall|k: int|
                0 <= k < repos@.len() ==> decodes_to(
                    ok_rows(rows@.take(i as int))[k],
                    #[trigger] repos@[k],
                ),
            views(errors@) == row_errors(rows@.take(i as int)),
        decreases rows@.len() - i,
    {
        assert(rows@.take(i + 1).drop_last() =~= rows@.take(i as int));
        assert(rows@.take(i + 1).last() == rows@[i as int]);
        match &rows[i] {
            Ok(row) => {
                let repo = row_to_repo(row);
                repos.push(repo);
            },
            Err(e) => {
                let ghost prev = views(errors@);
                errors.push(copy_string(e.as_str()));
                assert(views(errors@) =~= prev.push(e@));
            },
        }
        i += 1;
    }
    assert(rows@.take(rows@.len() as int) =~= rows@);
    (repos, errors)
}

/// Decodes every row of a listing, in order.
pub fn rows_to_repos(rows: &Vec<RepoRow>) -> (r: Vec<Repo>)
    ensures
        r@.len() == rows@.len(),
        forall|k: int| 0 <= k < r@.len() ==> decodes_to(rows@[k], #[trigger] r@[k]),
{
    let mut repos: Vec<Repo> = Vec::new();
    let mut i: usize = 0;
    while i < rows.len()
        invariant
            i <= rows@.len(),
            repos@.len() == i,
            forall|k: int| 0 <= k < i ==> decodes_to(rows@[k], #[trigger] repos@[k]),
        decreases rows@.len() - i,
    {
        repos.push(row_to_repo(&rows[i]));
        i += 1;
    }
    repos
}

/// A listing filtered by language or framework goes through search (no query);
/// an unfiltered listing does not.
pub fn list_search_params(lang: Option<String>, framework: Option<String>, limit: i64) -> (p: Option<
    SearchParams,
>)
    ensures
        (lang is None && framework is None) <==> p is None,
        p matches Some(q) ==> q.query is None && q.lang == lang && q.framework == framework
            && q.recent is None && q.path_filter is None && q.size_filter is None && q.limit == limit,
{
    if lang.is_none() && framework.is_none() {
        None
    } else {
        Some(
            SearchParams {
                query: None,
                lang,
                framework,
                recent: None,
                path_filter: None,
                size_filter: None,
                limit,
            },
        )
    }
}

/// The fallback search of the detail view: the text as query, first result only.
pub fn show_search_params(text: &str) -> (p: SearchParams)
    ensures
        p.query matches Some(q) && q@ == text@,
        p.lang is None && p.framework is None && p.recent is None && p.path_filter is None
            && p.size_filter is None,
        p.limit == 1,
{
    SearchParams {
        query: Some(copy_string(text)),
        lang: None,
        framework: None,
        recent: None,
        path_filter: None,
        size_filter: None,
        limit: 1,
    }
}

/// Text that JSON writes unescaped: no `"`, no backslash, no control characters.
pub open spec fn json_plain(x: Seq<char>) -> bool {
    forall|i: int| 0 <= i < x.len() ==> x[i] != '"' && x[i] != '\\' && (x[i] as u32) >= 0x20
}

proof fn lemma_json_escape_plain(x: Seq<char>)
    requires
        json_plain(x),
    ensures
        json_escape(x) == x,
    decreases x.len(),
{
    if x.len() > 0 {
        let c = x.last();
        assert(c == x[x.len() - 1]);
        assert(json_plain(x.drop_last()));
        lemma_json_escape_plain(x.drop_last());
        assert(c != '\x08' && c != '\t' && c != '\n' && c != '\x0C' && c != '\r') by {
            assert(('\x08' as u32) == 8);
            assert(('\t' as u32) == 9);
            assert(('\n' as u32) == 10);
            assert(('\x0C' as u32) == 12);
            assert(('\r' as u32) == 13);
        }
        assert(json_escape_char(c) == seq![c]);
        assert(x.drop_last() + seq![c] =~= x);
    }
}

proof fn lemma_join_contains(ws: Seq<Seq<char>>, sep: Seq<char>, k: int)
    requires
        0 <= k < ws.len(),
    ensures
        occurs_in(ws[k], seq_join(ws, sep)),
    decreases ws.len(),
{
    let j = seq_join(ws, sep);
    if ws.len() == 1 {
        let i: int = 0;
        assert(j.subrange(i, i + ws[k].len()) =~= ws[k]);
        assert(occurs_in(ws[k], j));
    } else {
        let front = seq_join(ws.drop_last(), sep);
        assert(j == front + sep + ws.last());
        if k == ws.len() - 1 {
            let i: int = (front.len() + sep.len()) as int;
            assert(j.subrange(i, i + ws[k].len()) =~= ws[k]);
            assert(occurs_in(ws[k], j));
        } else {
            lemma_join_contains(ws.drop_last(), sep, k);
            assert(ws.drop_last()[k] == ws[k]);
            let i = choose|i: int|
                0 <= i && i + ws[k].len() <= front.len() && #[trigger] front.subrange(i, i + ws[k].len())
                    == ws[k];
            assert(j.subrange(i, i + ws[k].len()) =~= front.subrange(i, i + ws[k].len()));
            assert(occurs_in(ws[k], j));
        }
    }
}

/// A language or framework that was stored is found by its filter: written without
/// escapes, it occurs quoted in the stored JSON list, and the filter's `LIKE` pattern is
/// that quoted text between `%` wildcards.
pub proof fn law_stored_name_is_matched(names: Seq<Seq<char>>, x: Seq<char>)
    requires
        names.contains(x),
        json_plain(x),
    ensures
        occurs_in(json_quote(x), json_string_array(names)),
        json_element_pattern(x) == seq!['%'] + json_quote(x) + seq!['%'],
{
    lemma_json_escape_plain(x);
    let k = choose|k: int| 0 <= k < names.len() && names[k] == x;
    let qs = names.map_values(|s: Seq<char>| json_quote(s));
    assert(qs[k] == json_quote(x));
    lemma_join_contains(qs, seq![','], k);
    let j = seq_join(qs, seq![',']);
    let i = choose|i: int|
        0 <= i && i + json_quote(x).len() <= j.len() && #[trigger] j.subrange(i, i + json_quote(x).len())
            == json_quote(x);
    let a = json_string_array(names);
    assert(a == seq!['['] + j + seq![']']);
    assert(a.subrange(i + 1, i + 1 + json_quote(x).len()) =~= j.subrange(i, i + json_quote(x).len()));
    reveal_strlit("%\"");
    reveal_strlit("\"%");
    assert(json_element_pattern(x) =~= seq!['%'] + json_quote(x) + seq!['%']);
}

proof fn lemma_occurs_within(t: Seq<char>, a: Seq<char>, m: Seq<char>, b: Seq<char>)
    requires
        occurs_in(t, m),
    ensures
        occurs_in(t, a + m + b),
{
    let i = choose|i: int| 0 <= i && i + t.len() <= m.len() && #[trigger] m.subrange(i, i + t.len()) == t;
    let s = a + m + b;
    assert(s.subrange(a.len() + i, a.len() + i + t.len()) =~= m.subrange(i, i + t.len()));
}

/// A condition of the plan is part of the statement's `WHERE` clause.
proof fn lemma_plan_condition_in_sql(p: Plan, k: int)
    requires
        0 <= k < p.0.len(),
    ensures
        occurs_in(p.0[k], search_sql(p)),
{
    lemma_join_contains(p.0, " AND "@, k);
    lemma_occurs_within(p.0[k], "WHERE "@, seq_join(p.0, " AND "@), Seq::empty());
    assert("WHERE "@ + seq_join(p.0, " AND "@) + Seq::<char>::empty() =~= where_clause(p.0));
    lemma_occurs_within(
        p.0[k],
        search_head() + "\n         "@,
        where_clause(p.0),
        " ORDER BY r.updated_at DESC LIMIT "@ + param_ref(p.1.len() + 1),
    );
    assert(search_head() + "\n         "@ + where_clause(p.0) + (" ORDER BY r.updated_at DESC LIMIT "@
        + param_ref(p.1.len() + 1)) =~= search_sql(p));
}

/// The recency window of `--recent`: `7d` keeps the repositories whose last commit is at
/// most 7 days old, `1m` at most 30, `1y` at most 365, and any other text at most 30. The
/// statement holds that condition on the last commit date.
pub proof fn law_recent_window(p: SearchParams)
    requires
        p.recent is Some,
    ensures
        p.recent->0@ == "7d"@ ==> occurs_in(
            "r.last_commit_date >= datetime('now', '-7 days')"@,
            search_sql(search_plan(p)),
        ),
        p.recent->0@ == "1m"@ ==> occurs_in(
            "r.last_commit_date >= datetime('now', '-30 days')"@,
            search_sql(search_plan(p)),
        ),
        p.recent->0@ == "1y"@ ==> occurs_in(
            "r.last_commit_date >= datetime('now', '-365 days')"@,
            search_sql(search_plan(p)),
        ),
        p.recent->0@ != "7d"@ && p.recent->0@ != "1m"@ && p.recent->0@ != "1y"@ ==> occurs_in(
            "r.last_commit_date >= datetime('now', '-30 days')"@,
            search_sql(search_plan(p)),
        ),
{
    let r = p.recent->0@;
    let p0: Plan = (Seq::empty(), Seq::empty());
    let p1 = match p.query {
        Some(q) => bind_condition(p0, fts_head(), ")"@, SqlArg::Text(q@ + "*"@)),
        None => p0,
    };
    let p2 = match p.lang {
        Some(l) => bind_condition(p1, "r.languages LIKE "@, Seq::empty(), SqlArg::Text(json_element_pattern(l@))),
        None => p1,
    };
    let p3 = match p.framework {
        Some(f) => bind_condition(p2, "r.frameworks LIKE "@, Seq::empty(), SqlArg::Text(json_element_pattern(f@))),
        None => p2,
    };
    let cond = recent_condition(recent_days(r));
    let k = p3.0.len() as int;
    let plan = search_plan(p);
    assert(plan.0.len() > k && plan.0[k] == cond);
    lemma_plan_condition_in_sql(plan, k);
    reveal_strlit("r.last_commit_date >= datetime('now', '-");
    reveal_strlit(" days')");
    reveal_strlit("7d");
    reveal_strlit("1m");
    reveal_strlit("1y");
    assert("1m"@[0] != "7d"@[0] && "1y"@[0] != "7d"@[0] && "1y"@[1] != "1m"@[1]);
    assert(recent_days("1m"@) == 30);
    assert(recent_days("1y"@) == 365);
    reveal_strlit("r.last_commit_date >= datetime('now', '-7 days')");
    reveal_strlit("r.last_commit_date >= datetime('now', '-30 days')");
    reveal_strlit("r.last_commit_date >= datetime('now', '-365 days')");
    assert(nat_decimal(7) =~= seq!['7']);
    assert(nat_decimal(3) =~= seq!['3']);
    assert(nat_decimal(30) =~= seq!['3', '0']);
    assert(nat_decimal(36) =~= seq!['3', '6']);
    assert(nat_decimal(365) =~= seq!['3', '6', '5']);
    assert(recent_condition(7) =~= "r.last_commit_date >= datetime('now', '-7 days')"@);
    assert(recent_condition(30) =~= "r.last_commit_date >= datetime('now', '-30 days')"@);
    assert(recent_condition(365) =~= "r.last_commit_date >= datetime('now', '-365 days')"@);
}

} // verus!
