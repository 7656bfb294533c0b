//! The batch update of a package manifest: a resolve phase that records the
//! latest version of each package (or why it could not be had), and an apply
//! phase that commits exactly the packages whose install succeeded.
use vstd::prelude::*;

verus! {

/// Why the package index gave no version for a package.
#[derive(Clone, Debug, PartialEq, Eq)]
pub enum IndexError {
    Network(String),
    Parse(String),
    MissingField,
}

/// Why an install did not happen or did not succeed.
#[derive(Clone, Debug, PartialEq, Eq)]
pub enum InstallError {
    EnvMissing,
    InvalidSpec(String),
    ProcessFailure(String),
}

/// A name/value table as pairs of character sequences.
pub open spec fn entries(s: Seq<(String, String)>) -> Seq<(Seq<char>, Seq<char>)> {
    s.map_values(|p: (String, String)| (p.0@, p.1@))
}

pub open spec fn names(s: Seq<String>) -> Seq<Seq<char>> {
    s.map_values(|n: String| n@)
}

/// No name occurs twice.
pub open spec fn keys_unique(m: Seq<(Seq<char>, Seq<char>)>) -> bool {
    forall|i: int, j: int|
        0 <= i < m.len() && 0 <= j < m.len() && i != j ==> #[trigger] m[i].0 != #[trigger] m[j].0
}

pub open spec fn has_key(m: Seq<(Seq<char>, Seq<char>)>, k: Seq<char>) -> bool {
    exists|i: int| 0 <= i < m.len() && #[trigger] m[i].0 == k
}

/// Inserts `k` with value `v`: every entry named `k` takes the value `v`,
/// and where there is none the pair is appended.
pub open spec fn set_entry(m: Seq<(Seq<char>, Seq<char>)>, k: Seq<char>, v: Seq<char>) -> Seq<
    (Seq<char>, Seq<char>),
> {
    if has_key(m, k) {
        Seq::new(m.len(), |i: int| if m[i].0 == k { (k, v) } else { m[i] })
    } else {
        m.push((k, v))
    }
}

/// The (name, latest version) pairs of the packages whose lookup succeeded,
/// in manifest order; `l[i]` is the lookup of `m[i]`.
pub open spec fn resolved(m: Seq<(Seq<char>, Seq<char>)>, l: Seq<Result<String, IndexError>>) -> Seq<
    (Seq<char>, Seq<char>),
>
    decreases m.len(),
{
    if m.len() == 0 || l.len() == 0 {
        seq![]
    } else {
        let prev = resolved(m.drop_last(), l.drop_last());
        match l.last() {
            Ok(v) => prev.push((m.last().0, v@)),
            Err(_) => prev,
        }
    }
}

/// The names of the packages whose lookup failed, in manifest order.
pub open spec fn unresolved(m: Seq<(Seq<char>, Seq<char>)>, l: Seq<Result<String, IndexError>>) -> Seq<
    Seq<char>,
>
    decreases m.len(),
{
    if m.len() == 0 || l.len() == 0 {
        seq![]
    } else {
        let prev = unresolved(m.drop_last(), l.drop_last());
        match l.last() {
            Ok(_) => prev,
            Err(_) => prev.push(m.last().0),
        }
    }
}

/// The manifest after committing, in order, each update whose install
/// succeeded; `inst[j]` is the install outcome of `ups[j]`.
pub open spec fn committed(
    m: Seq<(Seq<char>, Seq<char>)>,
    ups: Seq<(Seq<char>, Seq<char>)>,
    inst: Seq<Result<(), InstallError>>,
) -> Seq<(Seq<char>, Seq<char>)>
    decreases ups.len(),
{
    if ups.len() == 0 || inst.len() == 0 {
        m
    } else {
        let prev = committed(m, ups.drop_last(), inst.drop_last());
        if inst.last() is Ok {
            set_entry(prev, ups.last().0, ups.last().1)
        } else {
            prev
        }
    }
}

/// The names of the updates whose install failed, in order.
pub open spec fn install_failures(
    ups: Seq<(Seq<char>, Seq<char>)>,
    inst: Seq<Result<(), InstallError>>,
) -> Seq<Seq<char>>
    decreases ups.len(),
{
    if ups.len() == 0 || inst.len() == 0 {
        seq![]
    } else {
        let prev = install_failures(ups.drop_last(), inst.drop_last());
        if inst.last() is Ok {
            prev
        } else {
            prev.push(ups.last().0)
        }
    }
}

/// Setting a value keeps the names unique.
pub proof fn lemma_set_entry_unique(m: Seq<(Seq<char>, Seq<char>)>, k: Seq<char>, v: Seq<char>)
    requires
        keys_unique(m),
    ensures
        keys_unique(set_entry(m, k, v)),
{
    let r = set_entry(m, k, v);
    if has_key(m, k) {
        assert forall|a: int, b: int| 0 <= a < r.len() && 0 <= b < r.len() && a != b implies #[trigger] r[a].0
            != #[trigger] r[b].0 by {
            assert(r[a].0 == m[a].0 && r[b].0 == m[b].0);
        }
    } else {
        assert forall|a: int, b: int| 0 <= a < r.len() && 0 <= b < r.len() && a != b implies #[trigger] r[a].0
            != #[trigger] r[b].0 by {
            if a < m.len() {
                assert(r[a] == m[a]);
            }
            if b < m.len() {
                assert(r[b] == m[b]);
            }
        }
    }
}

/// What resolving a manifest yields.
pub struct Resolution {
    /// (name, latest version) of each package the index answered for.
    pub updates: Vec<(String, String)>,
    /// The names of the packages the index did not answer for.
    pub failed: Vec<String>,
}

/// Splits the lookups of the manifest's packages (`lookups[i]` belongs to
/// `packages[i]`) into the updates to attempt and the failed names.
pub fn resolve_phase(packages: &Vec<(String, String)>, lookups: &Vec<Result<String, IndexError>>) -> (r:
    Resolution)
    requires
        packages.len() == lookups.len(),
    ensures
        entries(r.updates@) == resolved(entries(packages@), lookups@),
        names(r.failed@) == unresolved(entries(packages@), lookups@),
{
    let ghost m = entries(packages@);
    let mut updates: Vec<(String, String)> = Vec::new();
    let mut failed: Vec<String> = Vec::new();
    let mut i: usize = 0;
    while i < packages.len()
        invariant
            packages.len() == lookups.len(),
            m == entries(packages@),
            0 <= i <= packages.len(),
            entries(updates@) == resolved(m.take(i as int), lookups@.take(i as int)),
            names(failed@) == unresolved(m.take(i as int), lookups@.take(i as int)),
        decreases packages.len() - i,
    {
        proof {
            assert(m.take(i + 1).drop_last() =~= m.take(i as int));
            assert(lookups@.take(i + 1).drop_last() =~= lookups@.take(i as int));
        }
        let name = packages[i].0.clone();
        match &lookups[i] {
            Ok(v) => {
                updates.push((name, v.clone()));
                proof {
                    assert(entries(updates@) =~= resolved(m.take(i + 1), lookups@.take(i + 1)));
                    assert(names(failed@) =~= unresolved(m.take(i + 1), lookups@.take(i + 1)));
                }
            },
            Err(_) => {
                failed.push(name);
                proof {
                    assert(entries(updates@) =~= resolved(m.take(i + 1), lookups@.take(i + 1)));
                    assert(names(failed@) =~= unresolved(m.take(i + 1), lookups@.take(i + 1)));
                }
            },
        }
        i = i + 1;
    }
    proof {
        assert(m.take(i as int) =~= m);
        assert(lookups@.take(i as int) =~= lookups@);
    }
    Resolution { updates, failed }
}

/// Sets the value of `name` in the table: overwrites every entry of that
/// name, or appends one where there is none.
pub fn set_package(packages: &mut Vec<(String, String)>, name: &String, version: &String)
    ensures
        entries(final(packages)@) == set_entry(entries(old(packages)@), name@, version@),
        keys_unique(entries(old(packages)@)) ==> keys_unique(entries(final(packages)@)),
{
    let ghost m = entries(old(packages)@);
    let mut found = false;
    let mut i: usize = 0;
    while i < packages.len()
        invariant
            m == entries(old(packages)@),
            packages.len() == m.len(),
            0 <= i <= packages.len(),
            forall|j: int|
                0 <= j < i ==> #[trigger] entries(packages@)[j] == (if m[j].0 == name@ {
                    (name@, version@)
                } else {
                    m[j]
                }),
            forall|j: int| i <= j < m.len() ==> #[trigger] entries(packages@)[j] == m[j],
            found == (exists|j: int| 0 <= j < i && #[trigger] m[j].0 == name@),
        decreases packages.len() - i,
    {
        assert(entries(packages@)[i as int] == m[i as int]);
        if packages[i].0 == *name {
            let ghost prev = entries(packages@);
            packages[i] = (name.clone(), version.clone());
            assert(entries(packages@) =~= prev.update(i as int, (name@, version@)));
            found = true;
            assert(m[i as int].0 == name@);
        }
        i = i + 1;
    }
    if !found {
        assert(entries(packages@) =~= m);
        packages.push((name.clone(), version.clone()));
        assert(entries(packages@) =~= m.push((name@, version@)));
    } else {
        assert(has_key(m, name@));
        assert(entries(packages@) =~= set_entry(m, name@, version@));
    }
    proof {
        if keys_unique(m) {
            lemma_set_entry_unique(m, name@, version@);
        }
    }
}

/// Commits each update whose install succeeded (`installs[j]` belongs to
/// `updates[j]`) and adds the name of each one that failed to `failed`.
pub fn apply_phase(
    packages: &mut Vec<(String, String)>,
    updates: &Vec<(String, String)>,
    installs: &Vec<Result<(), InstallError>>,
    failed: &mut Vec<String>,
)
    requires
        updates.len() == installs.len(),
    ensures
        entries(final(packages)@) == committed(entries(old(packages)@), entries(updates@), installs@),
        names(final(failed)@) == names(old(failed)@) + install_failures(entries(updates@), installs@),
        keys_unique(entries(old(packages)@)) ==> keys_unique(entries(final(packages)@)),
{
    let ghost m = entries(old(packages)@);
    let ghost f = names(old(failed)@);
    let ghost u = entries(updates@);
    let mut j: usize = 0;
    while j < updates.len()
        invariant
            updates.len() == installs.len(),
            m == entries(old(packages)@),
            f == names(old(failed)@),
            u == entries(updates@),
            0 <= j <= updates.len(),
            entries(packages@) == committed(m, u.take(j as int), installs@.take(j as int)),
            names(failed@) == f + install_failures(u.take(j as int), installs@.take(j as int)),
            keys_unique(m) ==> keys_unique(entries(packages@)),
        decreases updates.len() - j,
    {
        proof {
            assert(u.take(j + 1).drop_last() =~= u.take(j as int));
            assert(installs@.take(j + 1).drop_last() =~= installs@.take(j as int));
        }
        if installs[j].is_ok() {
            set_package(packages, &updates[j].0, &updates[j].1);
            proof {
                assert(entries(packages@) == committed(m, u.take(j + 1), installs@.take(j + 1)));
                assert(install_failures(u.take(j + 1), installs@.take(j + 1)) == install_failures(
                    u.take(j as int),
                    installs@.take(j as int),
                ));
            }
        } else {
            let ghost prev_failed = names(failed@);
            failed.push(updates[j].0.clone());
            proof {
                assert(u.take(j + 1).last() == u[j as int]);
                assert(installs@.take(j + 1).last() == installs@[j as int]);
                assert(names(failed@) =~= prev_failed.push(u[j as int].0));
                assert(names(failed@) =~= f + install_failures(u.take(j + 1), installs@.take(j + 1)));
            }
        }
        j = j + 1;
    }
    proof {
        assert(u.take(j as int) =~= u);
        assert(installs@.take(j as int) =~= installs@);
    }
}

/// How an update of all packages begins.
#[derive(Clone, Copy, Debug, PartialEq, Eq, Structural)]
pub enum UpdateStart {
    /// The manifest is empty: no lookup, no install, no write.
    NothingToDo,
    /// The environment is missing: it must be created before anything else.
    NeedEnvironment,
    /// Look up every package.
    Resolve,
}

/// Decides how an update begins, from the manifest and whether the
/// environment exists.
pub fn update_start(packages: &Vec<(String, String)>, env_exists: bool) -> (r: UpdateStart)
    ensures
        packages.len() == 0 <==> r == UpdateStart::NothingToDo,
        packages.len() > 0 && !env_exists <==> r == UpdateStart::NeedEnvironment,
        packages.len() > 0 && env_exists <==> r == UpdateStart::Resolve,
{
    if packages.len() == 0 {
        UpdateStart::NothingToDo
    } else if !env_exists {
        UpdateStart::NeedEnvironment
    } else {
        UpdateStart::Resolve
    }
}

} // verus!
