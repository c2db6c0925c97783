//! Configuration paths, scan-root bookkeeping and `key=value` settings.
use vstd::prelude::*;
use crate::models::{home_base, push_home_base, Config};
use crate::text::{chars_of, copy_string, push_str, str_eq, string_from_range};

verus! {

/// The configuration directory under the home directory (`$HOME` given as `home`).
pub fn config_dir(home: Option<&str>) -> (p: String)
    ensures
        p@ == home_base(home) + "/.config/repolens"@,
{
    let mut p = String::new();
    push_home_base(&mut p, home);
    push_str(&mut p, "/.config/repolens");
    p
}

/// The configuration file: `config.toml` inside [`config_dir`].
pub fn config_path(home: Option<&str>) -> (p: String)
    ensures
        p@ == home_base(home) + "/.config/repolens"@ + "/config.toml"@,
{
    let mut p = config_dir(home);
    push_str(&mut p, "/config.toml");
    p
}

/// The scan roots after removing every entry equal to `p`, order kept.
pub open spec fn without_root(roots: Seq<Seq<char>>, p: Seq<char>) -> Seq<Seq<char>>
    decreases roots.len(),
{
    if roots.len() == 0 {
        roots
    } else {
        let rest = without_root(roots.drop_last(), p);
        if roots.last() == p {
            rest
        } else {
            rest.push(roots.last())
        }
    }
}

/// The scan roots after adding `p`: unchanged when it is already there, else `p` appended.
pub open spec fn with_root(roots: Seq<Seq<char>>, p: Seq<char>) -> Seq<Seq<char>> {
    if roots.contains(p) {
        roots
    } else {
        roots.push(p)
    }
}

/// Whether some scan root equals `p`.
pub fn has_scan_root(config: &Config, p: &str) -> (r: bool)
    ensures
        r == crate::text::views(config.scan_roots@).contains(p@),
{
    let ghost vs = crate::text::views(config.scan_roots@);
    let mut i: usize = 0;
    while i < config.scan_roots.len()
        invariant
            i <= config.scan_roots@.len(),
            vs == crate::text::views(config.scan_roots@),
            forall|j: int| 0 <= j < i ==> vs[j] != p@,
        decreases config.scan_roots@.len() - i,
    {
        if str_eq(config.scan_roots[i].as_str(), p) {
            assert(vs[i as int] == p@);
            return true;
        }
        i += 1;
    }
    false
}

/// Adds a scan root, given as the resolved absolute path (the caller canonicalizes it).
/// Returns `false`, changing nothing, when the root is already present.
pub fn add_scan_root(config: &mut Config, abs: &str) -> (added: bool)
    ensures
        added == !crate::text::views(old(config).scan_roots@).contains(abs@),
        crate::text::views(final(config).scan_roots@) == with_root(
            crate::text::views(old(config).scan_roots@),
            abs@,
        ),
        final(config).db_path == old(config).db_path,
        final(config).default_sort == old(config).default_sort,
{
    if has_scan_root(config, abs) {
        return false;
    }
    let s = copy_string(abs);
    config.scan_roots.push(s);
    assert(crate::text::views(config.scan_roots@) =~= crate::text::views(
        old(config).scan_roots@,
    ).push(abs@));
    true
}

proof fn lemma_without_root_absent(roots: Seq<Seq<char>>, p: Seq<char>)
    ensures
        !without_root(roots, p).contains(p),
        without_root(roots, p).len() <= roots.len(),
        roots.contains(p) ==> without_root(roots, p).len() < roots.len(),
        !roots.contains(p) ==> without_root(roots, p) == roots,
    decreases roots.len(),
{
    if roots.len() > 0 {
        let front = roots.drop_last();
        lemma_without_root_absent(front, p);
        assert(roots =~= front.push(roots.last()));
        if roots.last() != p {
            if without_root(roots, p).contains(p) {
                let k = choose|k: int|
                    0 <= k < without_root(roots, p).len() && without_root(roots, p)[k] == p;
                if k < without_root(front, p).len() {
                    assert(without_root(front, p)[k] == p);
                }
            }
            if roots.contains(p) {
                let k = choose|k: int| 0 <= k < roots.len() && roots[k] == p;
                assert(front[k] == p);
            }
        }
        if !roots.contains(p) {
            assert(!front.contains(p)) by {
                if front.contains(p) {
                    let k = choose|k: int| 0 <= k < front.len() && front[k] == p;
                    assert(roots[k] == p);
                }
            }
            assert(roots.last() != p) by {
                assert(roots[roots.len() - 1] == roots.last());
            }
        }
    }
}

/// Removes every scan root equal to the resolved absolute path `abs`.
/// Returns whether anything was removed.
pub fn remove_scan_root(config: &mut Config, abs: &str) -> (removed: bool)
    ensures
        removed == crate::text::views(old(config).scan_roots@).contains(abs@),
        crate::text::views(final(config).scan_roots@) == without_root(
            crate::text::views(old(config).scan_roots@),
            abs@,
        ),
        final(config).db_path == old(config).db_path,
        final(config).default_sort == old(config).default_sort,
{
    let ghost all = crate::text::views(config.scan_roots@);
    let before = config.scan_roots.len();
    let mut kept: Vec<String> = Vec::new();
    let mut i: usize = 0;
    while i < config.scan_roots.len()
        invariant
            i <= config.scan_roots@.len(),
            all == crate::text::views(config.scan_roots@),
            crate::text::views(kept@) == without_root(all.take(i as int), abs@),
        decreases config.scan_roots@.len() - i,
    {
        assert(all.take(i + 1).drop_last() =~= all.take(i as int));
        assert(all.take(i + 1).last() == all[i as int]);
        if !str_eq(config.scan_roots[i].as_str(), abs) {
            let s = copy_string(config.scan_roots[i].as_str());
            kept.push(s);
            assert(crate::text::views(kept@) =~= without_root(all.take(i + 1), abs@));
        } else {
            assert(crate::text::views(kept@) =~= without_root(all.take(i + 1), abs@));
        }
        i += 1;
    }
    assert(all.take(before as int) =~= all);
    proof {
        lemma_without_root_absent(all, abs@);
    }
    let removed = kept.len() != before;
    config.scan_roots = kept;
    removed
}

/// What a `key=value` setting did to the configuration.
#[derive(Debug)]
pub enum SettingOutcome {
    /// A known key was set.
    Changed,
    /// The text before `=` names no setting; it is given back.
    UnknownKey(String),
    /// The text holds no `=`.
    InvalidFormat,
}

/// Index of the first `=`, if any.
pub open spec fn first_eq(s: Seq<char>) -> Option<int> {
    if exists|i: int| 0 <= i < s.len() && s[i] == '=' {
        Some(choose|i: int| 0 <= i < s.len() && s[i] == '=' && forall|j: int| 0 <= j < i ==> s[j] != '=')
    } else {
        None
    }
}

/// The database path and default sort after a `key=value` setting: `db_path` and
/// `default_sort` are the keys; anything else changes nothing.
pub open spec fn setting_effect(kv: Seq<char>, db: Seq<char>, sort: Seq<char>) -> (Seq<char>, Seq<char>) {
    match first_eq(kv) {
        Some(i) => if kv.take(i) == "db_path"@ {
            (kv.skip(i + 1), sort)
        } else if kv.take(i) == "default_sort"@ {
            (db, kv.skip(i + 1))
        } else {
            (db, sort)
        },
        None => (db, sort),
    }
}

/// Whether the key of a setting is a known one.
pub open spec fn known_key(k: Seq<char>) -> bool {
    k == "db_path"@ || k == "default_sort"@
}

/// Applies a `key=value` setting, split at the first `=`. The keys are `db_path` and
/// `default_sort`.
pub fn apply_setting(config: &mut Config, kv: &str) -> (out: SettingOutcome)
    ensures
        final(config).scan_roots == old(config).scan_roots,
        (final(config).db_path@, final(config).default_sort@) == setting_effect(
            kv@,
            old(config).db_path@,
            old(config).default_sort@,
        ),
        match first_eq(kv@) {
            None => out is InvalidFormat,
            Some(i) => if known_key(kv@.take(i)) {
                out is Changed
            } else {
                out matches SettingOutcome::UnknownKey(k) && k@ == kv@.take(i)
            },
        },
{
    let cs = chars_of(kv);
    let mut i: usize = 0;
    while i < cs.len() && cs[i] != '='
        invariant
            cs@ == kv@,
            i <= cs@.len(),
            forall|j: int| 0 <= j < i ==> cs@[j] != '=',
        decreases cs@.len() - i,
    {
        i += 1;
    }
    if i == cs.len() {
        assert(first_eq(kv@) is None);
        return SettingOutcome::InvalidFormat;
    }
    assert(kv@[i as int] == '=');
    assert(exists|k: int|
        0 <= k < kv@.len() && kv@[k] == '=' && forall|j: int| 0 <= j < k ==> kv@[j] != '=') by {
        assert(forall|j: int| 0 <= j < i ==> kv@[j] != '=');
    }
    let ghost f = first_eq(kv@)->0;
    assert(f == i as int) by {
        if f < i {
            assert(kv@[f] != '=');
        } else if f > i {
            assert(kv@[i as int] != '=');
        }
    }
    let key = string_from_range(&cs, 0, i);
    let value = string_from_range(&cs, i + 1, cs.len());
    assert(key@ =~= kv@.take(i as int));
    assert(value@ =~= kv@.skip(i + 1));
    if str_eq(key.as_str(), "db_path") {
        config.db_path = value;
        SettingOutcome::Changed
    } else if str_eq(key.as_str(), "default_sort") {
        config.default_sort = value;
        SettingOutcome::Changed
    } else {
        SettingOutcome::UnknownKey(key)
    }
}

/// A path argument: as the user gave it, and resolved to an absolute path.
pub struct PathArg {
    pub given: String,
    pub resolved: String,
}

/// What a configuration command did: the notes to print, a warning about the setting,
/// and whether the configuration changed and must be saved.
pub struct ConfigReport {
    pub notes: Vec<String>,
    pub warning: Option<String>,
    pub changed: bool,
}

/// The scan roots after the optional addition.
pub open spec fn roots_after_add(roots: Seq<Seq<char>>, add: Option<&PathArg>) -> Seq<Seq<char>> {
    match add {
        Some(a) => with_root(roots, a.resolved@),
        None => roots,
    }
}

/// The note for an addition.
pub open spec fn add_note(roots: Seq<Seq<char>>, a: PathArg) -> Seq<char> {
    if roots.contains(a.resolved@) {
        "Scan root already exists: "@ + a.given@
    } else {
        "Added scan root: "@ + a.given@
    }
}

/// The note for a removal.
pub open spec fn remove_note(roots: Seq<Seq<char>>, p: PathArg) -> Seq<char> {
    if roots.contains(p.resolved@) {
        "Removed scan root: "@ + p.given@
    } else {
        "Scan root not found: "@ + p.given@
    }
}

/// Whether the setting `kv` changes the configuration.
pub open spec fn setting_changes(kv: Seq<char>) -> bool {
    first_eq(kv) matches Some(i) && known_key(kv.take(i))
}

/// The warning for a setting that changes nothing.
pub open spec fn setting_warning(kv: Seq<char>) -> Option<Seq<char>> {
    match first_eq(kv) {
        None => Some("Invalid format. Use: --set key=value"@),
        Some(i) => if known_key(kv.take(i)) {
            None
        } else {
            Some("Unknown config key: "@ + kv.take(i))
        },
    }
}

/// Applies a configuration command: add a scan root, then remove one, then a `key=value`
/// setting, each when given.
pub fn configure(
    config: &mut Config,
    add: Option<&PathArg>,
    remove: Option<&PathArg>,
    set: Option<&str>,
) -> (rep: ConfigReport)
    ensures
        ({
            let r0 = crate::text::views(old(config).scan_roots@);
            let r1 = roots_after_add(r0, add);
            &&& crate::text::views(final(config).scan_roots@) == match remove {
                Some(p) => without_root(r1, p.resolved@),
                None => r1,
            }
            &&& crate::text::views(rep.notes@) == (match add {
                Some(a) => seq![add_note(r0, *a)],
                None => Seq::empty(),
            }) + (match remove {
                Some(p) => seq![remove_note(r1, *p)],
                None => Seq::empty(),
            })
            &&& match set {
                Some(kv) => {
                    &&& (final(config).db_path@, final(config).default_sort@) == setting_effect(
                        kv@,
                        old(config).db_path@,
                        old(config).default_sort@,
                    )
                    &&& match setting_warning(kv@) {
                        Some(w) => rep.warning matches Some(x) && x@ == w,
                        None => rep.warning is None,
                    }
                },
                None => final(config).db_path == old(config).db_path && final(config).default_sort
                    == old(config).default_sort && rep.warning is None,
            }
            &&& rep.changed == ((add matches Some(a) && !r0.contains(a.resolved@)) || (remove matches Some(p)
                && r1.contains(p.resolved@)) || (set matches Some(kv) && setting_changes(kv@)))
        }),
{
    let ghost r0 = crate::text::views(config.scan_roots@);
    let mut notes: Vec<String> = Vec::new();
    let mut changed = false;
    if let Some(a) = add {
        let mut note = String::new();
        if add_scan_root(config, a.resolved.as_str()) {
            push_str(&mut note, "Added scan root: ");
            changed = true;
        } else {
            push_str(&mut note, "Scan root already exists: ");
        }
        push_str(&mut note, a.given.as_str());
        assert(note@ == add_note(r0, *a));
        notes.push(note);
    }
    let ghost r1 = crate::text::views(config.scan_roots@);
    let ghost n1 = crate::text::views(notes@);
    if let Some(p) = remove {
        let mut note = String::new();
        if remove_scan_root(config, p.resolved.as_str()) {
            push_str(&mut note, "Removed scan root: ");
            changed = true;
        } else {
            push_str(&mut note, "Scan root not found: ");
        }
        push_str(&mut note, p.given.as_str());
        assert(note@ == remove_note(r1, *p));
        notes.push(note);
        assert(crate::text::views(notes@) =~= n1.push(note@));
    }
    let mut warning: Option<String> = None;
    if let Some(kv) = set {
        match apply_setting(config, kv) {
            SettingOutcome::Changed => {
                changed = true;
            },
            SettingOutcome::UnknownKey(k) => {
                let mut w = String::new();
                push_str(&mut w, "Unknown config key: ");
                push_str(&mut w, k.as_str());
                warning = Some(w);
            },
            SettingOutcome::InvalidFormat => {
                warning = Some(copy_string("Invalid format. Use: --set key=value"));
            },
        }
    }
    proof {
        assert(crate::text::views(notes@) =~= (match add {
            Some(a) => seq![add_note(r0, *a)],
            None => Seq::<Seq<char>>::empty(),
        }) + (match remove {
            Some(p) => seq![remove_note(r1, *p)],
            None => Seq::<Seq<char>>::empty(),
        }));
    }
    ConfigReport { notes, warning, changed }
}

/// The lines that show a configuration: the scan roots, then the database path.
pub open spec fn listing(config: Config) -> Seq<Seq<char>> {
    seq!["Scan roots:"@] + crate::text::views(config.scan_roots@).map_values(|r: Seq<char>| "  "@ + r)
        + seq!["Database: "@ + config.db_path@]
}

/// The lines that show a configuration.
pub fn config_listing(config: &Config) -> (lines: Vec<String>)
    ensures
        crate::text::views(lines@) == listing(*config),
{
    let ghost roots = crate::text::views(config.scan_roots@);
    let mut lines: Vec<String> = Vec::new();
    lines.push(copy_string("Scan roots:"));
    let mut i: usize = 0;
    while i < config.scan_roots.len()
        invariant
            i <= config.scan_roots@.len(),
            roots == crate::text::views(config.scan_roots@),
            crate::text::views(lines@) == seq!["Scan roots:"@] + roots.take(i as int).map_values(
                |r: Seq<char>| "  "@ + r,
            ),
        decreases config.scan_roots@.len() - i,
    {
        let mut l = String::new();
        push_str(&mut l, "  ");
        push_str(&mut l, config.scan_roots[i].as_str());
        let ghost prev = crate::text::views(lines@);
        lines.push(l);
        assert(crate::text::views(lines@) =~= prev.push(l@));
        assert(roots.take(i + 1).map_values(|r: Seq<char>| "  "@ + r) =~= roots.take(i as int).map_values(
            |r: Seq<char>| "  "@ + r,
        ).push("  "@ + roots[i as int]));
        i += 1;
    }
    assert(roots.take(roots.len() as int) =~= roots);
    let mut d = String::new();
    push_str(&mut d, "Database: ");
    push_str(&mut d, config.db_path.as_str());
    let ghost prev = crate::text::views(lines@);
    lines.push(d);
    assert(crate::text::views(lines@) =~= prev.push(d@));
    assert(crate::text::views(lines@) =~= listing(*config));
    lines
}

/// Adding a root that is absent and then removing it restores the roots it started from.
pub proof fn law_add_then_remove_restores(roots: Seq<Seq<char>>, p: Seq<char>)
    requires
        !roots.contains(p),
    ensures
        without_root(with_root(roots, p), p) == roots,
{
    lemma_without_root_absent(roots, p);
    assert(with_root(roots, p) == roots.push(p));
    assert(roots.push(p).drop_last() =~= roots);
}

/// Adding a root twice is the same as adding it once.
pub proof fn law_add_idempotent(roots: Seq<Seq<char>>, p: Seq<char>)
    ensures
        with_root(with_root(roots, p), p) == with_root(roots, p),
        with_root(roots, p).contains(p),
{
    if !roots.contains(p) {
        assert(roots.push(p)[roots.len() as int] == p);
    }
}

/// After a removal the root is gone, and removing again changes nothing.
pub proof fn law_remove_idempotent(roots: Seq<Seq<char>>, p: Seq<char>)
    ensures
        !without_root(roots, p).contains(p),
        without_root(without_root(roots, p), p) == without_root(roots, p),
{
    lemma_without_root_absent(roots, p);
    lemma_without_root_absent(without_root(roots, p), p);
}

} // verus!
