//! Human-readable renderings of repositories and scan results.
use vstd::prelude::*;
use crate::datetime::{datetime_minutes_text, push_datetime_minutes, DateTime};
use crate::models::{Repo, ScanResult};
use crate::text::{
    byte_count, byte_len, copy_string, int_decimal, join_strings, nat_decimal, pad_right,
    push_i64_decimal, push_padded, push_repeat, push_str, push_u64_decimal, push_usize_decimal,
    repeat_char, seq_concat, seq_join, views,
};

verus! {

/// `n / d` rounded to the nearest integer, ties to the even neighbour.
pub open spec fn div_round_half_even(n: nat, d: nat) -> nat
    recommends
        d > 0,
{
    let q = n / d;
    let r = n % d;
    if 2 * r > d || (2 * r == d && q % 2 == 1) {
        q + 1
    } else {
        q
    }
}

/// The value `b as f64` holds: `b` rounded to 53 significant bits, ties to even.
pub open spec fn f64_value(b: nat) -> nat {
    if b < 0x20000000000000 {
        b
    } else if b < 0x40000000000000 {
        div_round_half_even(b, 2) * 2
    } else if b < 0x80000000000000 {
        div_round_half_even(b, 4) * 4
    } else if b < 0x100000000000000 {
        div_round_half_even(b, 8) * 8
    } else if b < 0x200000000000000 {
        div_round_half_even(b, 16) * 16
    } else if b < 0x400000000000000 {
        div_round_half_even(b, 32) * 32
    } else if b < 0x800000000000000 {
        div_round_half_even(b, 64) * 64
    } else if b < 0x1000000000000000 {
        div_round_half_even(b, 128) * 128
    } else if b < 0x2000000000000000 {
        div_round_half_even(b, 256) * 256
    } else if b < 0x4000000000000000 {
        div_round_half_even(b, 512) * 512
    } else {
        div_round_half_even(b, 1024) * 1024
    }
}

/// A count of tenths written with one decimal: `t / 10` `.` `t % 10`.
pub open spec fn tenths_text(t: nat) -> Seq<char> {
    nat_decimal(t / 10) + seq!['.'] + nat_decimal(t % 10)
}

/// `v / unit` with one decimal, as `{:.1}` writes the quotient of two `f64`s
/// (round half to even on the exact quotient).
pub open spec fn scaled_text(v: nat, unit: nat) -> Seq<char> {
    tenths_text(div_round_half_even(10 * v, unit))
}

/// A byte count in B, KB, MB or GB (powers of 1024), one decimal above bytes.
pub open spec fn size_text(bytes: int) -> Seq<char> {
    if bytes >= 0x40000000 {
        scaled_text(f64_value(bytes as nat), 0x40000000) + " GB"@
    } else if bytes >= 0x100000 {
        scaled_text(bytes as nat, 0x100000) + " MB"@
    } else if bytes >= 0x400 {
        scaled_text(bytes as nat, 0x400) + " KB"@
    } else {
        int_decimal(bytes) + " B"@
    }
}

fn round_half_even(n: u128, d: u128) -> (q: u128)
    requires
        0 < d <= 0x40000000,
        n < 0x1000000000000000000000000,
    ensures
        q == div_round_half_even(n as nat, d as nat),
{
    let q = n / d;
    let r = n % d;
    if 2 * r > d || (2 * r == d && q % 2 == 1) {
        q + 1
    } else {
        q
    }
}

fn round_to_multiple(b: u128, unit: u128) -> (v: u128)
    requires
        unit > 0,
        b < 0x10000000000000000,
        unit <= 1024,
    ensures
        v == div_round_half_even(b as nat, unit as nat) * unit,
        v <= b + unit,
{
    let q = b / unit;
    let r = b % unit;
    proof {
        vstd::arithmetic::div_mod::lemma_fundamental_div_mod(b as int, unit as int);
        vstd::arithmetic::mul::lemma_mul_is_commutative(q as int, unit as int);
    }
    let down = b - r;
    assert(down == q * unit);
    if 2 * r > unit || (2 * r == unit && q % 2 == 1) {
        assert((q + 1) * unit == q * unit + unit) by (nonlinear_arith);
        down + unit
    } else {
        down
    }
}

fn f64_value_of(b: u128) -> (v: u128)
    requires
        b < 0x8000000000000000,
    ensures
        v == f64_value(b as nat),
        v < 0x10000000000000000,
{
    if b < 0x20000000000000 {
        b
    } else if b < 0x40000000000000 {
        round_to_multiple(b, 2)
    } else if b < 0x80000000000000 {
        round_to_multiple(b, 4)
    } else if b < 0x100000000000000 {
        round_to_multiple(b, 8)
    } else if b < 0x200000000000000 {
        round_to_multiple(b, 16)
    } else if b < 0x400000000000000 {
        round_to_multiple(b, 32)
    } else if b < 0x800000000000000 {
        round_to_multiple(b, 64)
    } else if b < 0x1000000000000000 {
        round_to_multiple(b, 128)
    } else if b < 0x2000000000000000 {
        round_to_multiple(b, 256)
    } else if b < 0x4000000000000000 {
        round_to_multiple(b, 512)
    } else {
        round_to_multiple(b, 1024)
    }
}

fn push_scaled(s: &mut String, v: u128, unit: u128)
    requires
        1024 <= unit <= 0x40000000,
        v < 0x10000000000000000,
    ensures
        final(s)@ == old(s)@ + scaled_text(v as nat, unit as nat),
{
    let t = round_half_even(10 * v, unit);
    proof {
        vstd::arithmetic::div_mod::lemma_div_is_ordered_by_denominator(10 * v as int, 1024, unit as int);
    }
    assert(t <= (10 * v) as int / 1024 + 1);
    push_u64_decimal(s, (t / 10) as u64);
    push_str(s, ".");
    proof {
        reveal_strlit(".");
    }
    push_u64_decimal(s, (t % 10) as u64);
    assert(final(s)@ =~= old(s)@ + scaled_text(v as nat, unit as nat));
}

/// Renders a byte count: `500 B`, `1.0 KB`, `3.0 MB`, `2.0 GB`.
pub fn format_size(bytes: i64) -> (r: String)
    ensures
        r@ == size_text(bytes as int),
{
    let mut s = String::new();
    if bytes >= 0x40000000 {
        let v = f64_value_of(bytes as u128);
        push_scaled(&mut s, v, 0x40000000);
        push_str(&mut s, " GB");
    } else if bytes >= 0x100000 {
        push_scaled(&mut s, bytes as u128, 0x100000);
        push_str(&mut s, " MB");
    } else if bytes >= 0x400 {
        push_scaled(&mut s, bytes as u128, 0x400);
        push_str(&mut s, " KB");
    } else {
        push_i64_decimal(&mut s, bytes);
        push_str(&mut s, " B");
    }
    assert(s@ =~= size_text(bytes as int));
    s
}

/// Each error as a `  - ` bullet.
pub open spec fn bullets(errors: Seq<Seq<char>>) -> Seq<Seq<char>> {
    errors.map_values(|e: Seq<char>| "  - "@ + e)
}

/// The error list of a scan report, one `  - ` bullet per line after an `Errors:` heading.
pub open spec fn errors_text(errors: Seq<Seq<char>>) -> Seq<char> {
    if errors.len() == 0 {
        Seq::empty()
    } else {
        "\nErrors:\n"@ + seq_join(bullets(errors), "\n"@)
    }
}

/// The one-line scan report, followed by the errors if there were any.
pub open spec fn scan_report_text(r: ScanResult) -> Seq<char> {
    "Scan complete: "@ + nat_decimal(r.total_found as nat) + " repos found ("@ + nat_decimal(
        r.new as nat,
    ) + " new, "@ + nat_decimal(r.updated as nat) + " updated, "@ + nat_decimal(
        r.unchanged as nat,
    ) + " unchanged)"@ + errors_text(views(r.errors@))
}

/// The scan statistics as a JSON object, for quiet mode.
pub open spec fn scan_stats_json(r: ScanResult) -> Seq<char> {
    "{\n  \"roots_scanned\": "@ + nat_decimal(r.roots_scanned as nat) + ",\n  \"repos_total\": "@
        + nat_decimal(r.total_found as nat) + ",\n  \"repos_new\": "@ + nat_decimal(r.new as nat)
        + ",\n  \"repos_removed\": "@ + nat_decimal(r.removed as nat) + ",\n  \"repos_unchanged\": "@
        + nat_decimal(r.unchanged as nat) + ",\n  \"duration_ms\": "@ + nat_decimal(r.duration_ms as nat)
        + "\n}"@
}

/// The scan report: a summary line and the errors, or in quiet mode only the statistics as JSON.
pub fn format_scan_result(result: &ScanResult, quiet: bool) -> (r: String)
    ensures
        quiet ==> r@ == scan_stats_json(*result),
        !quiet ==> r@ == scan_report_text(*result),
{
    if quiet {
        let mut s = String::new();
        push_str(&mut s, "{\n  \"roots_scanned\": ");
        push_usize_decimal(&mut s, result.roots_scanned);
        push_str(&mut s, ",\n  \"repos_total\": ");
        push_usize_decimal(&mut s, result.total_found);
        push_str(&mut s, ",\n  \"repos_new\": ");
        push_usize_decimal(&mut s, result.new);
        push_str(&mut s, ",\n  \"repos_removed\": ");
        push_usize_decimal(&mut s, result.removed);
        push_str(&mut s, ",\n  \"repos_unchanged\": ");
        push_usize_decimal(&mut s, result.unchanged);
        push_str(&mut s, ",\n  \"duration_ms\": ");
        push_u64_decimal(&mut s, result.duration_ms);
        push_str(&mut s, "\n}");
        assert(s@ =~= scan_stats_json(*result));
        return s;
    }
    let mut s = String::new();
    push_str(&mut s, "Scan complete: ");
    push_usize_decimal(&mut s, result.total_found);
    push_str(&mut s, " repos found (");
    push_usize_decimal(&mut s, result.new);
    push_str(&mut s, " new, ");
    push_usize_decimal(&mut s, result.updated);
    push_str(&mut s, " updated, ");
    push_usize_decimal(&mut s, result.unchanged);
    push_str(&mut s, " unchanged)");
    let ghost head = s@;
    let ghost es = views(result.errors@);
    if result.errors.len() > 0 {
        let mut lines: Vec<String> = Vec::new();
        let mut i: usize = 0;
        while i < result.errors.len()
            invariant
                i <= result.errors@.len(),
                es == views(result.errors@),
                views(lines@) == bullets(es.take(i as int)),
            decreases result.errors@.len() - i,
        {
            let mut b = String::new();
            push_str(&mut b, "  - ");
            push_str(&mut b, result.errors[i].as_str());
            assert(b@ =~= "  - "@ + es[i as int]);
            let ghost prev = views(lines@);
            lines.push(b);
            assert(views(lines@) =~= prev.push(b@));
            assert(bullets(es.take(i + 1)) =~= bullets(es.take(i as int)).push("  - "@ + es[i as int]));
            i += 1;
        }
        assert(es.take(es.len() as int) =~= es);
        push_str(&mut s, "\nErrors:\n");
        let joined = join_strings(&lines, "\n");
        push_str(&mut s, joined.as_str());
        assert(s@ =~= head + errors_text(es));
    } else {
        assert(s@ =~= head + errors_text(es));
    }
    s
}

/// Languages as the table and the detail view write them.
pub open spec fn langs_text(r: Repo) -> Seq<char> {
    seq_join(views(r.languages@), ", "@)
}

/// Frameworks as the detail view writes them.
pub open spec fn frameworks_text(r: Repo) -> Seq<char> {
    seq_join(views(r.frameworks@), ", "@)
}

/// The larger of the two.
pub open spec fn max_nat(a: nat, b: nat) -> nat {
    if a >= b {
        a
    } else {
        b
    }
}

/// Width of the name column: the longest name in bytes, at least 4.
pub open spec fn name_width(repos: Seq<Repo>) -> nat
    decreases repos.len(),
{
    if repos.len() == 0 {
        4
    } else {
        max_nat(name_width(repos.drop_last()), byte_count(repos.last().name@) as nat)
    }
}

/// Width of the language column: the longest language list in bytes, at least 4.
pub open spec fn lang_width(repos: Seq<Repo>) -> nat
    decreases repos.len(),
{
    if repos.len() == 0 {
        4
    } else {
        max_nat(lang_width(repos.drop_last()), byte_count(langs_text(repos.last())) as nat)
    }
}

/// Width of the branch column: the longest branch in bytes, at least 6.
pub open spec fn branch_width(repos: Seq<Repo>) -> nat
    decreases repos.len(),
{
    if repos.len() == 0 {
        6
    } else {
        max_nat(branch_width(repos.drop_last()), byte_count(repos.last().branch@) as nat)
    }
}

/// One line of the table: three padded columns and the path, two spaces apart.
pub open spec fn table_line(
    a: Seq<char>,
    b: Seq<char>,
    c: Seq<char>,
    d: Seq<char>,
    nw: nat,
    lw: nat,
    bw: nat,
) -> Seq<char> {
    pad_right(a, nw) + "  "@ + pad_right(b, lw) + "  "@ + pad_right(c, bw) + "  "@ + d + "\n"@
}

/// The rule under the header.
pub open spec fn rule_line(nw: nat, lw: nat, bw: nat) -> Seq<char> {
    repeat_char('-', nw) + "  "@ + repeat_char('-', lw) + "  "@ + repeat_char('-', bw) + "  "@
        + repeat_char('-', 40) + "\n"@
}

/// The table row of one repository.
pub open spec fn repo_line(r: Repo, nw: nat, lw: nat, bw: nat) -> Seq<char> {
    table_line(r.name@, langs_text(r), r.branch@, r.path@, nw, lw, bw)
}

/// The repository table: header, rule and one row per repository, columns sized to fit.
pub open spec fn table_text(repos: Seq<Repo>) -> Seq<char> {
    if repos.len() == 0 {
        "No repositories found."@
    } else {
        let nw = name_width(repos);
        let lw = lang_width(repos);
        let bw = branch_width(repos);
        table_line("NAME"@, "LANG"@, "BRANCH"@, "PATH"@, nw, lw, bw) + rule_line(nw, lw, bw)
            + seq_concat(Seq::new(repos.len(), |i: int| repo_line(repos[i], nw, lw, bw)))
    }
}

fn push_line(
    s: &mut String,
    a: &str,
    b: &str,
    c: &str,
    d: &str,
    nw: usize,
    lw: usize,
    bw: usize,
)
    ensures
        final(s)@ == old(s)@ + table_line(a@, b@, c@, d@, nw as nat, lw as nat, bw as nat),
{
    push_padded(s, a, nw);
    push_str(s, "  ");
    push_padded(s, b, lw);
    push_str(s, "  ");
    push_padded(s, c, bw);
    push_str(s, "  ");
    push_str(s, d);
    push_str(s, "\n");
    assert(final(s)@ =~= old(s)@ + table_line(a@, b@, c@, d@, nw as nat, lw as nat, bw as nat));
}

fn column_widths(repos: &[Repo]) -> (w: (usize, usize, usize))
    ensures
        w.0 == name_width(repos@),
        w.1 == lang_width(repos@),
        w.2 == branch_width(repos@),
{
    let mut nw: usize = 4;
    let mut lw: usize = 4;
    let mut bw: usize = 6;
    let mut i: usize = 0;
    while i < repos.len()
        invariant
            i <= repos@.len(),
            nw == name_width(repos@.take(i as int)),
            lw == lang_width(repos@.take(i as int)),
            bw == branch_width(repos@.take(i as int)),
        decreases repos@.len() - i,
    {
        assert(repos@.take(i + 1).drop_last() =~= repos@.take(i as int));
        assert(repos@.take(i + 1).last() == repos@[i as int]);
        let n = byte_len(repos[i].name.as_str());
        if n > nw {
            nw = n;
        }
        let langs = join_strings(&repos[i].languages, ", ");
        let l = byte_len(langs.as_str());
        if l > lw {
            lw = l;
        }
        let b = byte_len(repos[i].branch.as_str());
        if b > bw {
            bw = b;
        }
        i += 1;
    }
    assert(repos@.take(repos@.len() as int) =~= repos@);
    (nw, lw, bw)
}

/// Renders repositories as an aligned table, or a notice when there are none.
pub fn format_repos_table(repos: &[Repo]) -> (r: String)
    ensures
        r@ == table_text(repos@),
{
    if repos.len() == 0 {
        return copy_string("No repositories found.");
    }
    let (nw, lw, bw) = column_widths(repos);
    let ghost rows = Seq::new(repos@.len(), |i: int| repo_line(repos@[i], nw as nat, lw as nat, bw as nat));
    let mut s = String::new();
    push_line(&mut s, "NAME", "LANG", "BRANCH", "PATH", nw, lw, bw);
    push_repeat(&mut s, '-', nw);
    push_str(&mut s, "  ");
    push_repeat(&mut s, '-', lw);
    push_str(&mut s, "  ");
    push_repeat(&mut s, '-', bw);
    push_str(&mut s, "  ");
    push_repeat(&mut s, '-', 40);
    push_str(&mut s, "\n");
    let ghost head = s@;
    assert(head =~= table_line("NAME"@, "LANG"@, "BRANCH"@, "PATH"@, nw as nat, lw as nat, bw as nat)
        + rule_line(nw as nat, lw as nat, bw as nat));
    let mut i: usize = 0;
    while i < repos.len()
        invariant
            i <= repos@.len(),
            rows == Seq::new(repos@.len(), |i: int| repo_line(repos@[i], nw as nat, lw as nat, bw as nat)),
            s@ == head + seq_concat(rows.take(i as int)),
        decreases repos@.len() - i,
    {
        assert(rows.take(i + 1).drop_last() =~= rows.take(i as int));
        let langs = join_strings(&repos[i].languages, ", ");
        push_line(
            &mut s,
            repos[i].name.as_str(),
            langs.as_str(),
            repos[i].branch.as_str(),
            repos[i].path.as_str(),
            nw,
            lw,
            bw,
        );
        i += 1;
    }
    assert(rows.take(repos@.len() as int) =~= rows);
    s
}

/// `N/A` in place of an empty list.
pub open spec fn or_na(s: Seq<char>) -> Seq<char> {
    if s.len() == 0 {
        "N/A"@
    } else {
        s
    }
}

/// The commit date to the minute, empty when unknown.
pub open spec fn commit_date_text(d: Option<DateTime>) -> Seq<char> {
    match d {
        Some(x) => datetime_minutes_text(x),
        None => Seq::empty(),
    }
}

/// The largest byte index at or below `k` at which a character starts.
pub open spec fn boundary_at_or_below(b: Seq<u8>, k: int) -> int
    decreases k,
{
    if k <= 0 {
        0
    } else if vstd::utf8::is_char_boundary(b, k) {
        k
    } else {
        boundary_at_or_below(b, k - 1)
    }
}

/// The summary cut to at most 200 bytes: all of it when it fits, otherwise up to the last
/// character boundary at or below byte 200.
pub open spec fn summary_head(s: Seq<char>) -> Seq<char> {
    if byte_count(s) <= 200 {
        s
    } else {
        let b = vstd::utf8::encode_utf8(s);
        vstd::utf8::decode_utf8(b.subrange(0, boundary_at_or_below(b, 200)))
    }
}

pub open spec fn readme_line(s: Seq<char>) -> Seq<char> {
    if s.len() == 0 {
        Seq::empty()
    } else {
        "README Summary:  "@ + summary_head(s) + "\n"@
    }
}

pub open spec fn id_line(id: Option<i64>) -> Seq<char> {
    match id {
        Some(i) => "ID:              "@ + int_decimal(i as int) + "\n"@,
        None => Seq::empty(),
    }
}

/// The detail view: one labelled line per field, then the README summary and the id when present.
pub open spec fn detail_text(r: Repo) -> Seq<char> {
    "Name:            "@ + r.name@ + "\n"@ + "Path:            "@ + r.path@ + "\n"@
        + "Languages:       "@ + or_na(langs_text(r)) + "\n"@ + "Frameworks:      "@ + or_na(
        frameworks_text(r),
    ) + "\n"@ + "Branch:          "@ + r.branch@ + "\n"@ + "Last Commit:     "@
        + commit_date_text(r.last_commit_date) + "\n"@ + "Commit Message:  "@ + r.last_commit_msg@
        + "\n"@ + "File Count:      "@ + int_decimal(r.file_count as int) + "\n"@
        + "Size:            "@ + size_text(r.size_bytes as int) + "\n"@ + readme_line(
        r.readme_summary@,
    ) + id_line(r.id)
}

fn push_or_na(s: &mut String, t: &str)
    ensures
        final(s)@ == old(s)@ + or_na(t@),
{
    if crate::text::chars_of(t).len() == 0 {
        push_str(s, "N/A");
    } else {
        push_str(s, t);
    }
}

fn push_summary_head(s: &mut String, summary: &str)
    ensures
        final(s)@ == old(s)@ + summary_head(summary@),
{
    if byte_len(summary) <= 200 {
        push_str(s, summary);
    } else {
        let ghost b = vstd::utf8::encode_utf8(summary@);
        let mut k: usize = 200;
        while k > 0 && !summary.is_char_boundary(k)
            invariant
                k <= 200,
                200 < b.len(),
                b == vstd::utf8::encode_utf8(summary@),
                boundary_at_or_below(b, 200) == boundary_at_or_below(b, k as int),
            decreases k,
        {
            k -= 1;
        }
        proof {
            vstd::utf8::encode_utf8_valid_utf8(summary@);
            vstd::utf8::is_char_boundary_start_end_of_seq(b);
        }
        let (head, _rest) = summary.split_at(k);
        proof {
            vstd::utf8::encode_utf8_decode_utf8(head@);
        }
        push_str(s, head);
    }
}

/// Renders every field of a repository, one per line. The README summary is cut to at
/// most 200 bytes, at a character boundary.
pub fn format_repo_detail(repo: &Repo) -> (r: String)
    ensures
        r@ == detail_text(*repo),
{
    let mut s = String::new();
    push_str(&mut s, "Name:            ");
    push_str(&mut s, repo.name.as_str());
    push_str(&mut s, "\n");
    push_str(&mut s, "Path:            ");
    push_str(&mut s, repo.path.as_str());
    push_str(&mut s, "\n");
    push_str(&mut s, "Languages:       ");
    let langs = join_strings(&repo.languages, ", ");
    push_or_na(&mut s, langs.as_str());
    push_str(&mut s, "\n");
    push_str(&mut s, "Frameworks:      ");
    let fws = join_strings(&repo.frameworks, ", ");
    push_or_na(&mut s, fws.as_str());
    push_str(&mut s, "\n");
    push_str(&mut s, "Branch:          ");
    push_str(&mut s, repo.branch.as_str());
    push_str(&mut s, "\n");
    push_str(&mut s, "Last Commit:     ");
    if let Some(d) = &repo.last_commit_date {
        push_datetime_minutes(&mut s, d);
    }
    push_str(&mut s, "\n");
    push_str(&mut s, "Commit Message:  ");
    push_str(&mut s, repo.last_commit_msg.as_str());
    push_str(&mut s, "\n");
    push_str(&mut s, "File Count:      ");
    push_i64_decimal(&mut s, repo.file_count);
    push_str(&mut s, "\n");
    push_str(&mut s, "Size:            ");
    let size = format_size(repo.size_bytes);
    push_str(&mut s, size.as_str());
    push_str(&mut s, "\n");
    let ghost mid = s@;
    if crate::text::chars_of(repo.readme_summary.as_str()).len() > 0 {
        push_str(&mut s, "README Summary:  ");
        push_summary_head(&mut s, repo.readme_summary.as_str());
        push_str(&mut s, "\n");
    }
    assert(s@ =~= mid + readme_line(repo.readme_summary@));
    let ghost mid2 = s@;
    if let Some(id) = repo.id {
        push_str(&mut s, "ID:              ");
        push_i64_decimal(&mut s, id);
        push_str(&mut s, "\n");
    }
    assert(s@ =~= mid2 + id_line(repo.id));
    assert(s@ =~= detail_text(*repo));
    s
}

} // verus!
