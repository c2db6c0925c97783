//! Slash-separated paths as the directory walker reports them, read by the component
//! rules of `std::path` on Unix: repeated `/` and `.` components are skipped (a leading
//! `.` of a relative path excepted), and a trailing `/` is ignored.
use vstd::prelude::*;
use crate::text::{chars_of, string_from_range};

verus! {

/// Index of the last occurrence of `c`, or -1.
pub open spec fn last_index_of(s: Seq<char>, c: char) -> int
    decreases s.len(),
{
    if s.len() == 0 {
        -1
    } else if s.last() == c {
        s.len() - 1
    } else {
        last_index_of(s.drop_last(), c)
    }
}

/// The text between separators at `[s, e)` is a component: it is not empty, and it is not
/// `.` except at the start of the path.
pub open spec fn keeps_segment(p: Seq<char>, s: int, e: int) -> bool {
    e > s && !(s > 0 && e == s + 1 && p[s] == '.')
}

/// The components found so far, as bounds, with the segment ending at `e` added when it is one.
pub open spec fn close_segment(p: Seq<char>, s: int, e: int, acc: Seq<(int, int)>) -> Seq<(int, int)> {
    if keeps_segment(p, s, e) {
        acc.push((s, e))
    } else {
        acc
    }
}

/// After reading `p[..i]`: the components completed so far and where the current segment starts.
pub open spec fn scan_state(p: Seq<char>, i: nat) -> (Seq<(int, int)>, int)
    decreases i,
{
    if i == 0 || i > p.len() {
        (Seq::empty(), 0)
    } else {
        let st = scan_state(p, (i - 1) as nat);
        if p[i - 1] == '/' {
            (close_segment(p, st.1, i - 1, st.0), i as int)
        } else {
            st
        }
    }
}

/// The components of a path (the root excluded), as bounds into the text.
pub open spec fn path_components(p: Seq<char>) -> Seq<(int, int)> {
    let st = scan_state(p, p.len());
    close_segment(p, st.1, p.len() as int, st.0)
}

/// The final component, when it is a name (not `.` or `..`).
pub open spec fn path_file_name(p: Seq<char>) -> Option<Seq<char>> {
    let c = path_components(p);
    if c.len() == 0 {
        None
    } else {
        let name = p.subrange(c.last().0, c.last().1);
        if name == seq!['.'] || name == seq!['.', '.'] {
            None
        } else {
            Some(name)
        }
    }
}

/// The path without its final component: up to the end of the component before it, or
/// `/` or the empty path when there is none; no parent without components.
pub open spec fn path_parent(p: Seq<char>) -> Option<Seq<char>> {
    let c = path_components(p);
    if c.len() == 0 {
        None
    } else if c.len() == 1 {
        if p.len() > 0 && p[0] == '/' {
            Some(seq!['/'])
        } else {
            Some(Seq::empty())
        }
    } else {
        Some(p.take(c[c.len() - 2].1))
    }
}

/// The extension: the text after the last `.` of the file name, when that dot is not its first character.
pub open spec fn path_extension(p: Seq<char>) -> Option<Seq<char>> {
    match path_file_name(p) {
        Some(name) => {
            let k = last_index_of(name, '.');
            if k <= 0 {
                None
            } else {
                Some(name.skip(k + 1))
            }
        },
        None => None,
    }
}

/// `a` joined with the relative component `b`.
pub open spec fn path_join(a: Seq<char>, b: Seq<char>) -> Seq<char> {
    if a.len() == 0 || a.last() == '/' {
        a + b
    } else {
        a + seq!['/'] + b
    }
}

proof fn lemma_last_index_bounds(s: Seq<char>, c: char)
    ensures
        -1 <= last_index_of(s, c) < s.len(),
        last_index_of(s, c) >= 0 ==> s[last_index_of(s, c)] == c,
        forall|j: int| last_index_of(s, c) < j < s.len() ==> s[j] != c,
    decreases s.len(),
{
    if s.len() > 0 && s.last() != c {
        lemma_last_index_bounds(s.drop_last(), c);
        assert forall|j: int| last_index_of(s, c) < j < s.len() implies s[j] != c by {
            if j < s.len() - 1 {
                assert(s[j] == s.drop_last()[j]);
            }
        }
    }
}

fn last_index(v: &Vec<char>, c: char) -> (k: Option<usize>)
    ensures
        match k {
            Some(i) => i == last_index_of(v@, c),
            None => last_index_of(v@, c) == -1,
        },
{
    let mut i: usize = v.len();
    assert(v@.take(i as int) =~= v@);
    while i > 0
        invariant
            i <= v@.len(),
            last_index_of(v@, c) == last_index_of(v@.take(i as int), c),
        decreases i,
    {
        let ghost t = v@.take(i as int);
        assert(t.drop_last() =~= v@.take(i - 1));
        assert(t.last() == v@[i - 1]);
        if v[i - 1] == c {
            return Some(i - 1);
        }
        i -= 1;
    }
    assert(v@.take(0) =~= Seq::<char>::empty());
    None
}

/// Bounds of components lie within the text read.
pub open spec fn bounded(acc: Seq<(int, int)>, n: int) -> bool {
    forall|k: int| 0 <= k < acc.len() ==> 0 <= #[trigger] acc[k].0 <= acc[k].1 <= n
}

proof fn lemma_scan_bounded(p: Seq<char>, i: nat)
    requires
        i <= p.len(),
    ensures
        bounded(scan_state(p, i).0, i as int),
        0 <= scan_state(p, i).1 <= i,
    decreases i,
{
    if i > 0 {
        lemma_scan_bounded(p, (i - 1) as nat);
    }
}

fn components(cs: &Vec<char>) -> (r: Vec<(usize, usize)>)
    ensures
        r@.len() == path_components(cs@).len(),
        forall|k: int|
            0 <= k < r@.len() ==> (#[trigger] r@[k]).0 as int == path_components(cs@)[k].0 && r@[k].1
                as int == path_components(cs@)[k].1,
        bounded(path_components(cs@), cs@.len() as int),
{
    let ghost p = cs@;
    let mut acc: Vec<(usize, usize)> = Vec::new();
    let mut s: usize = 0;
    let mut i: usize = 0;
    while i < cs.len()
        invariant
            p == cs@,
            i <= p.len(),
            s as int == scan_state(p, i as nat).1,
            acc@.len() == scan_state(p, i as nat).0.len(),
            forall|k: int|
                0 <= k < acc@.len() ==> (#[trigger] acc@[k]).0 as int == scan_state(p, i as nat).0[k].0
                    && acc@[k].1 as int == scan_state(p, i as nat).0[k].1,
        decreases p.len() - i,
    {
        proof {
            lemma_scan_bounded(p, i as nat);
        }
        if cs[i] == '/' {
            if i > s && !(s > 0 && i == s + 1 && cs[s] == '.') {
                acc.push((s, i));
            }
            s = i + 1;
        }
        i += 1;
    }
    proof {
        lemma_scan_bounded(p, p.len());
    }
    if cs.len() > s && !(s > 0 && cs.len() == s + 1 && cs[s] == '.') {
        acc.push((s, cs.len()));
    }
    acc
}

/// The final component of a path, when it is a name.
pub fn file_name(p: &str) -> (r: Option<String>)
    ensures
        match path_file_name(p@) {
            Some(n) => r matches Some(s) && s@ == n,
            None => r is None,
        },
{
    let cs = chars_of(p);
    let c = components(&cs);
    if c.len() == 0 {
        return None;
    }
    let (s, e) = c[c.len() - 1];
    let ghost pc = path_components(p@);
    assert(pc.last() == pc[pc.len() - 1]);
    let name = string_from_range(&cs, s, e);
    let n = e - s;
    if (n == 1 && cs[s] == '.') || (n == 2 && cs[s] == '.' && cs[s + 1] == '.') {
        assert(n == 1 ==> name@ =~= seq!['.']);
        assert(n == 2 ==> name@ =~= seq!['.', '.']);
        return None;
    }
    if n == 1 {
        assert(name@[0] == cs@[s as int]);
    }
    if n == 2 {
        assert(name@[0] == cs@[s as int]);
        assert(name@[1] == cs@[s + 1]);
    }
    Some(name)
}

/// The path without its final component.
pub fn parent(p: &str) -> (r: Option<String>)
    ensures
        match path_parent(p@) {
            Some(n) => r matches Some(s) && s@ == n,
            None => r is None,
        },
{
    let cs = chars_of(p);
    let c = components(&cs);
    if c.len() == 0 {
        None
    } else if c.len() == 1 {
        if cs.len() > 0 && cs[0] == '/' {
            let s = string_from_range(&cs, 0, 1);
            assert(s@ =~= seq!['/']);
            Some(s)
        } else {
            Some(String::new())
        }
    } else {
        let (_, e) = c[c.len() - 2];
        let s = string_from_range(&cs, 0, e);
        assert(s@ =~= p@.take(e as int));
        Some(s)
    }
}

/// The extension of the final component, without its dot.
pub fn extension(p: &str) -> (r: Option<String>)
    ensures
        match path_extension(p@) {
            Some(n) => r matches Some(s) && s@ == n,
            None => r is None,
        },
{
    match file_name(p) {
        None => None,
        Some(name) => {
            let cs = chars_of(name.as_str());
            proof {
                lemma_last_index_bounds(name@, '.');
            }
            match last_index(&cs, '.') {
                None => None,
                Some(k) => {
                    if k == 0 {
                        None
                    } else {
                        let s = string_from_range(&cs, k + 1, cs.len());
                        assert(s@ =~= name@.skip(k + 1));
                        Some(s)
                    }
                },
            }
        },
    }
}

} // verus!
