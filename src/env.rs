//! Locating the project from a directory, and merging environment files.
use vstd::prelude::*;

verus! {

/// Which marker files one directory holds.
#[derive(Debug, Clone, Copy, PartialEq, Eq, Structural)]
pub struct Marker {
    pub package_file: bool,
    pub project_file: bool,
}

/// Where the project root and the caller's package are, as indices into a list of
/// directories from the starting one outward.
#[derive(Debug, Clone, Copy, PartialEq, Eq, Structural)]
pub struct Location {
    pub root: usize,
    pub local: Option<usize>,
}

pub open spec fn marked(m: Marker, project: bool) -> bool {
    if project {
        m.project_file
    } else {
        m.package_file
    }
}

/// The first of the first `n` directories that holds the project file (`project`) or
/// a package file (otherwise).
pub open spec fn first_marked(m: Seq<Marker>, project: bool, n: int) -> Option<int>
    decreases n,
{
    if n <= 0 {
        None
    } else {
        match first_marked(m, project, n - 1) {
            Some(i) => Some(i),
            None => if marked(m[n - 1], project) {
                Some(n - 1)
            } else {
                None
            },
        }
    }
}

proof fn lemma_first_marked_stable(m: Seq<Marker>, project: bool, k: int, n: int)
    requires
        0 <= k <= n,
        first_marked(m, project, k) is Some,
    ensures
        first_marked(m, project, n) == first_marked(m, project, k),
    decreases n - k,
{
    if n > k {
        lemma_first_marked_stable(m, project, k, n - 1);
    }
}

/// The project root is the nearest directory with the project file; the caller's
/// package is the nearest directory with a package file, no farther out than the root.
pub open spec fn location_of(m: Seq<Marker>) -> Option<Location> {
    match first_marked(m, true, m.len() as int) {
        None => None,
        Some(root) => Some(
            Location {
                root: root as usize,
                local: match first_marked(m, false, root + 1) {
                    Some(l) => Some(l as usize),
                    None => None,
                },
            },
        ),
    }
}

/// Finds the project root and the caller's package among `markers`, which describe
/// a directory and its ancestors, nearest first.
pub fn locate(markers: &[Marker]) -> (r: Option<Location>)
    ensures
        r == location_of(markers@),
{
    let n = markers.len();
    let mut local: Option<usize> = None;
    let mut i: usize = 0;
    while i < n
        invariant
            i <= n,
            n == markers@.len(),
            first_marked(markers@, true, i as int) is None,
            local == match first_marked(markers@, false, i as int) {
                Some(l) => Some(l as usize),
                None => None::<usize>,
            },
            local matches Some(l) ==> l < i,
        decreases n - i,
    {
        let m = markers[i];
        if m.package_file && local.is_none() {
            local = Some(i);
        }
        if m.project_file {
            proof {
                assert(first_marked(markers@, true, i as int + 1) == Some(i as int));
                lemma_first_marked_stable(markers@, true, i as int + 1, n as int);
                if first_marked(markers@, false, i as int) is Some {
                    lemma_first_marked_stable(markers@, false, i as int, i as int + 1);
                }
            }
            return Some(Location { root: i, local });
        }
        proof {
            if first_marked(markers@, false, i as int) is Some {
                lemma_first_marked_stable(markers@, false, i as int, i as int + 1);
            }
        }
        i = i + 1;
    }
    None
}

/// The variables that a list of assignments sets, later ones overriding earlier ones.
pub open spec fn assign(m: Map<Seq<char>, Seq<char>>, pairs: Seq<(Seq<char>, Seq<char>)>) -> Map<Seq<char>, Seq<char>>
    decreases pairs.len(),
{
    if pairs.len() == 0 {
        m
    } else {
        assign(m, pairs.drop_last()).insert(pairs.last().0, pairs.last().1)
    }
}

/// The variables that environment files set, read in order: a later file overrides
/// an earlier one for the same name.
pub open spec fn env_of(files: Seq<Seq<(Seq<char>, Seq<char>)>>) -> Map<Seq<char>, Seq<char>>
    decreases files.len(),
{
    if files.len() == 0 {
        Map::empty()
    } else {
        assign(env_of(files.drop_last()), files.last())
    }
}

pub open spec fn pairs_view(s: Seq<(String, String)>) -> Seq<(Seq<char>, Seq<char>)> {
    s.map_values(|p: (String, String)| (p.0@, p.1@))
}

/// A list of assignments with distinct names that sets exactly the variables of `m`.
pub open spec fn lists_map(s: Seq<(Seq<char>, Seq<char>)>, m: Map<Seq<char>, Seq<char>>) -> bool {
    &&& forall|i: int, j: int| 0 <= i < j < s.len() ==> s[i].0 != s[j].0
    &&& forall|i: int| 0 <= i < s.len() ==> m.contains_key(#[trigger] s[i].0) && m[s[i].0] == s[i].1
    &&& forall|k: Seq<char>| m.contains_key(k) ==> exists|i: int| 0 <= i < s.len() && #[trigger] s[i].0 == k
}

/// Sets `name` to `value` in `out`, replacing an earlier assignment of `name`.
fn set_var(out: &mut Vec<(String, String)>, name: String, value: String)
    ensures
        forall|m: Map<Seq<char>, Seq<char>>| lists_map(pairs_view(old(out)@), m) ==> lists_map(
            pairs_view(final(out)@),
            m.insert(name@, value@),
        ),
{
    let ghost before = pairs_view(out@);
    let mut i: usize = 0;
    while i < out.len()
        invariant
            i <= out@.len(),
            out@ == old(out)@,
            before == pairs_view(out@),
            forall|j: int| 0 <= j < i ==> before[j].0 != name@,
        decreases out@.len() - i,
    {
        if out[i].0 == name {
            let ghost k = name@;
            let ghost v = value@;
            assert(before[i as int].0 == k);
            out[i] = (name, value);
            proof {
                assert(pairs_view(out@) =~= before.update(i as int, (k, v)));
                assert forall|m: Map<Seq<char>, Seq<char>>| lists_map(before, m) implies lists_map(
                    pairs_view(out@),
                    m.insert(k, v),
                ) by {
                    let after = pairs_view(out@);
                    let m2 = m.insert(k, v);
                    assert forall|j: int| 0 <= j < after.len() && j != i implies #[trigger] after[j].0 != k by {
                        assert(before[j].0 != before[i as int].0);
                    }
                    assert forall|j: int| 0 <= j < after.len() implies m2.contains_key(#[trigger] after[j].0)
                        && m2[after[j].0] == after[j].1 by {
                        if j != i {
                            assert(after[j] == before[j]);
                        }
                    }
                    assert forall|k2: Seq<char>| m2.contains_key(k2) implies exists|j: int|
                        0 <= j < after.len() && #[trigger] after[j].0 == k2 by {
                        if k2 == k {
                            assert(after[i as int].0 == k2);
                        } else {
                            let j = choose|j: int| 0 <= j < before.len() && #[trigger] before[j].0 == k2;
                            assert(after[j].0 == k2);
                        }
                    }
                }
            }
            return;
        }
        i = i + 1;
    }
    let ghost k = name@;
    let ghost v = value@;
    out.push((name, value));
    proof {
        assert(pairs_view(out@) =~= before.push((k, v)));
        assert forall|m: Map<Seq<char>, Seq<char>>| lists_map(before, m) implies lists_map(
            pairs_view(out@),
            m.insert(k, v),
        ) by {
            let after = pairs_view(out@);
            let m2 = m.insert(k, v);
            assert forall|k2: Seq<char>| m2.contains_key(k2) implies exists|j: int|
                0 <= j < after.len() && #[trigger] after[j].0 == k2 by {
                if k2 == k {
                    assert(after[before.len() as int].0 == k2);
                } else {
                    let j = choose|j: int| 0 <= j < before.len() && #[trigger] before[j].0 == k2;
                    assert(after[j].0 == k2);
                }
            }
        }
    }
}

/// Merges the assignments of environment files, read in order: each variable once,
/// with the value of its last assignment.
pub fn merge_env(files: Vec<Vec<(String, String)>>) -> (r: Vec<(String, String)>)
    ensures
        lists_map(pairs_view(r@), env_of(files@.map_values(|f: Vec<(String, String)>| pairs_view(f@)))),
{
    let ghost fv = files@.map_values(|f: Vec<(String, String)>| pairs_view(f@));
    let mut out: Vec<(String, String)> = Vec::new();
    assert(env_of(fv.take(0)) == Map::<Seq<char>, Seq<char>>::empty());
    assert(pairs_view(out@) =~= Seq::<(Seq<char>, Seq<char>)>::empty());
    let mut f: usize = 0;
    while f < files.len()
        invariant
            f <= files@.len(),
            fv == files@.map_values(|f: Vec<(String, String)>| pairs_view(f@)),
            lists_map(pairs_view(out@), env_of(fv.take(f as int))),
        decreases files@.len() - f,
    {
        let file = &files[f];
        let ghost start = env_of(fv.take(f as int));
        let ghost pv = pairs_view(file@);
        assert(pv.take(0) =~= Seq::<(Seq<char>, Seq<char>)>::empty());
        let mut j: usize = 0;
        while j < file.len()
            invariant
                j <= file@.len(),
                pv == pairs_view(file@),
                lists_map(pairs_view(out@), assign(start, pv.take(j as int))),
            decreases file@.len() - j,
        {
            let name = file[j].0.clone();
            let value = file[j].1.clone();
            set_var(&mut out, name, value);
            assert(pv.take(j as int + 1).drop_last() =~= pv.take(j as int));
            j = j + 1;
        }
        assert(pv.take(j as int) =~= pv);
        assert(fv.take(f as int + 1).drop_last() =~= fv.take(f as int));
        assert(fv.take(f as int + 1).last() == pv);
        f = f + 1;
    }
    assert(fv.take(f as int) =~= fv);
    out
}

} // verus!
