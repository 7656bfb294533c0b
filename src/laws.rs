//! What an update of all packages guarantees, stated over the models of
//! the resolve and apply phases.
use vstd::prelude::*;
use crate::reconcile::{
    committed, has_key, install_failures, keys_unique, resolved, unresolved,
    IndexError, InstallError,
};

verus! {

/// The manifest after an update in which `l[i]` is the lookup of `m[i]` and
/// `inst[j]` the install of the j-th resolved package.
pub open spec fn updated_manifest(
    m: Seq<(Seq<char>, Seq<char>)>,
    l: Seq<Result<String, IndexError>>,
    inst: Seq<Result<(), InstallError>>,
) -> Seq<(Seq<char>, Seq<char>)> {
    committed(m, resolved(m, l), inst)
}

/// The names reported as failed by the same update: lookup failures, then
/// install failures.
pub open spec fn failed_names(
    m: Seq<(Seq<char>, Seq<char>)>,
    l: Seq<Result<String, IndexError>>,
    inst: Seq<Result<(), InstallError>>,
) -> Seq<Seq<char>> {
    unresolved(m, l) + install_failures(resolved(m, l), inst)
}

/// The version of the last update named `k` whose install succeeded.
pub open spec fn last_installed(
    ups: Seq<(Seq<char>, Seq<char>)>,
    inst: Seq<Result<(), InstallError>>,
    k: Seq<char>,
) -> Option<Seq<char>>
    decreases ups.len(),
{
    if ups.len() == 0 || inst.len() == 0 {
        None
    } else if ups.last().0 == k && inst.last() is Ok {
        Some(ups.last().1)
    } else {
        last_installed(ups.drop_last(), inst.drop_last(), k)
    }
}

pub open spec fn value_after(
    e: (Seq<char>, Seq<char>),
    ups: Seq<(Seq<char>, Seq<char>)>,
    inst: Seq<Result<(), InstallError>>,
) -> (Seq<char>, Seq<char>) {
    match last_installed(ups, inst, e.0) {
        Some(v) => (e.0, v),
        None => e,
    }
}

proof fn lemma_committed_value(
    m: Seq<(Seq<char>, Seq<char>)>,
    ups: Seq<(Seq<char>, Seq<char>)>,
    inst: Seq<Result<(), InstallError>>,
)
    requires
        ups.len() == inst.len(),
        forall|j: int| 0 <= j < ups.len() ==> has_key(m, #[trigger] ups[j].0),
    ensures
        committed(m, ups, inst).len() == m.len(),
        forall|i: int|
            0 <= i < m.len() ==> #[trigger] committed(m, ups, inst)[i] == value_after(m[i], ups, inst),
    decreases ups.len(),
{
    if ups.len() > 0 {
        let u2 = ups.drop_last();
        let i2 = inst.drop_last();
        assert forall|j: int| 0 <= j < u2.len() implies has_key(m, #[trigger] u2[j].0) by {
            assert(u2[j] == ups[j]);
        }
        lemma_committed_value(m, u2, i2);
        let prev = committed(m, u2, i2);
        if inst.last() is Ok {
            let k = ups.last().0;
            assert(has_key(m, k)) by {
                assert(ups.last() == ups[ups.len() - 1]);
            }
            let w = choose|w: int| 0 <= w < m.len() && #[trigger] m[w].0 == k;
            assert(prev[w] == value_after(m[w], u2, i2));
            assert(prev[w].0 == k);
            assert(has_key(prev, k));
        }
    }
}

proof fn lemma_last_absent(
    ups: Seq<(Seq<char>, Seq<char>)>,
    inst: Seq<Result<(), InstallError>>,
    k: Seq<char>,
)
    requires
        !has_key(ups, k),
    ensures
        last_installed(ups, inst, k) is None,
    decreases ups.len(),
{
    if ups.len() > 0 && inst.len() > 0 {
        let u2 = ups.drop_last();
        assert(ups.last() == ups[ups.len() - 1]);
        assert(!has_key(u2, k)) by {
            if has_key(u2, k) {
                let w = choose|w: int| 0 <= w < u2.len() && #[trigger] u2[w].0 == k;
                assert(ups[w] == u2[w]);
            }
        }
        lemma_last_absent(u2, inst.drop_last(), k);
    }
}

proof fn lemma_last_unique(
    ups: Seq<(Seq<char>, Seq<char>)>,
    inst: Seq<Result<(), InstallError>>,
    j: int,
)
    requires
        keys_unique(ups),
        ups.len() == inst.len(),
        0 <= j < ups.len(),
    ensures
        last_installed(ups, inst, ups[j].0) == (if inst[j] is Ok {
            Some(ups[j].1)
        } else {
            None
        }),
    decreases ups.len(),
{
    let n = ups.len() - 1;
    let u2 = ups.drop_last();
    let i2 = inst.drop_last();
    assert(ups.last() == ups[n]);
    assert(inst.last() == inst[n]);
    if j == n {
        assert(!has_key(u2, ups[j].0)) by {
            if has_key(u2, ups[j].0) {
                let w = choose|w: int| 0 <= w < u2.len() && #[trigger] u2[w].0 == ups[j].0;
                assert(ups[w] == u2[w]);
            }
        }
        lemma_last_absent(u2, i2, ups[j].0);
    } else {
        assert(ups[j].0 != ups[n].0);
        assert(keys_unique(u2)) by {
            assert forall|a: int, b: int| 0 <= a < u2.len() && 0 <= b < u2.len() && a != b implies #[trigger] u2[a].0
                != #[trigger] u2[b].0 by {
                assert(u2[a] == ups[a] && u2[b] == ups[b]);
            }
        }
        lemma_last_unique(u2, i2, j);
        assert(u2[j] == ups[j] && i2[j] == inst[j]);
    }
}

proof fn lemma_resolved_members(m: Seq<(Seq<char>, Seq<char>)>, l: Seq<Result<String, IndexError>>)
    requires
        l.len() == m.len(),
    ensures
        forall|j: int| 0 <= j < resolved(m, l).len() ==> has_key(m, #[trigger] resolved(m, l)[j].0),
        forall|i: int|
            0 <= i < m.len() && l[i] is Ok ==> resolved(m, l).contains(
                (#[trigger] m[i].0, l[i]->Ok_0@),
            ),
        forall|i: int| 0 <= i < m.len() && l[i] is Err ==> unresolved(m, l).contains(#[trigger] m[i].0),
        keys_unique(m) ==> keys_unique(resolved(m, l)),
        keys_unique(m) ==> forall|i: int|
            0 <= i < m.len() && l[i] is Err ==> !has_key(resolved(m, l), #[trigger] m[i].0),
        (forall|i: int| 0 <= i < l.len() ==> l[i] is Ok) ==> unresolved(m, l).len() == 0,
    decreases m.len(),
{
    if m.len() > 0 {
        let n = m.len() - 1;
        let m2 = m.drop_last();
        let l2 = l.drop_last();
        lemma_resolved_members(m2, l2);
        let r2 = resolved(m2, l2);
        let r = resolved(m, l);
        let u2 = unresolved(m2, l2);
        let u = unresolved(m, l);
        assert(m.last() == m[n] && l.last() == l[n]);
        assert forall|x: Seq<char>| has_key(m2, x) implies has_key(m, x) by {
            let w = choose|w: int| 0 <= w < m2.len() && #[trigger] m2[w].0 == x;
            assert(m[w] == m2[w]);
        }
        assert forall|j: int| 0 <= j < r.len() implies has_key(m, #[trigger] r[j].0) by {
            if j < r2.len() {
                assert(r[j] == r2[j]);
                assert(has_key(m2, r2[j].0));
            } else {
                assert(m[n].0 == r[j].0);
            }
        }
        assert forall|i: int| 0 <= i < m.len() && l[i] is Ok implies r.contains(
            (#[trigger] m[i].0, l[i]->Ok_0@),
        ) by {
            if i < n {
                assert(m2[i] == m[i] && l2[i] == l[i]);
                let w = choose|w: int| 0 <= w < r2.len() && r2[w] == (m2[i].0, l2[i]->Ok_0@);
                assert(r[w] == r2[w]);
            } else {
                assert(r[r.len() - 1] == (m[i].0, l[i]->Ok_0@));
            }
        }
        assert forall|i: int| 0 <= i < m.len() && l[i] is Err implies u.contains(#[trigger] m[i].0) by {
            if i < n {
                assert(m2[i] == m[i] && l2[i] == l[i]);
                let w = choose|w: int| 0 <= w < u2.len() && u2[w] == m2[i].0;
                assert(u[w] == u2[w]);
            } else {
                assert(u[u.len() - 1] == m[i].0);
            }
        }
        if keys_unique(m) {
            assert(keys_unique(m2)) by {
                assert forall|a: int, b: int| 0 <= a < m2.len() && 0 <= b < m2.len() && a != b implies #[trigger] m2[a].0
                    != #[trigger] m2[b].0 by {
                    assert(m2[a] == m[a] && m2[b] == m[b]);
                }
            }
            assert(!has_key(r2, m[n].0)) by {
                if has_key(r2, m[n].0) {
                    let w = choose|w: int| 0 <= w < r2.len() && #[trigger] r2[w].0 == m[n].0;
                    assert(has_key(m2, r2[w].0));
                    let v = choose|v: int| 0 <= v < m2.len() && #[trigger] m2[v].0 == r2[w].0;
                    assert(m2[v] == m[v]);
                }
            }
            assert forall|a: int, b: int| 0 <= a < r.len() && 0 <= b < r.len() && a != b implies #[trigger] r[a].0
                != #[trigger] r[b].0 by {
                if a < r2.len() {
                    assert(r[a] == r2[a]);
                }
                if b < r2.len() {
                    assert(r[b] == r2[b]);
                }
            }
            assert forall|i: int| 0 <= i < m.len() && l[i] is Err implies !has_key(r, #[trigger] m[i].0) by {
                if i < n {
                    assert(m2[i] == m[i] && l2[i] == l[i]);
                    assert(!has_key(r2, m2[i].0));
                    assert(m[i].0 != m[n].0);
                    if has_key(r, m[i].0) {
                        let w = choose|w: int| 0 <= w < r.len() && #[trigger] r[w].0 == m[i].0;
                        if w < r2.len() {
                            assert(r[w] == r2[w]);
                        }
                    }
                } else {
                    assert(r == r2);
                }
            }
        }
        if forall|i: int| 0 <= i < l.len() ==> l[i] is Ok {
            assert forall|i: int| 0 <= i < l2.len() implies l2[i] is Ok by {
                assert(l2[i] == l[i]);
            }
        }
    }
}

proof fn lemma_no_install_failures(ups: Seq<(Seq<char>, Seq<char>)>, inst: Seq<Result<(), InstallError>>)
    requires
        forall|j: int| 0 <= j < inst.len() ==> inst[j] is Ok,
    ensures
        install_failures(ups, inst).len() == 0,
    decreases ups.len(),
{
    if ups.len() > 0 && inst.len() > 0 {
        let i2 = inst.drop_last();
        assert(inst.last() == inst[inst.len() - 1]);
        assert forall|j: int| 0 <= j < i2.len() implies i2[j] is Ok by {
            assert(i2[j] == inst[j]);
        }
        lemma_no_install_failures(ups.drop_last(), i2);
    }
}

proof fn lemma_install_failure_listed(
    ups: Seq<(Seq<char>, Seq<char>)>,
    inst: Seq<Result<(), InstallError>>,
    j: int,
)
    requires
        ups.len() == inst.len(),
        0 <= j < ups.len(),
        inst[j] is Err,
    ensures
        install_failures(ups, inst).contains(ups[j].0),
    decreases ups.len(),
{
    let n = ups.len() - 1;
    let f = install_failures(ups, inst);
    assert(ups.last() == ups[n] && inst.last() == inst[n]);
    if j == n {
        assert(f[f.len() - 1] == ups[j].0);
    } else {
        let u2 = ups.drop_last();
        let i2 = inst.drop_last();
        assert(u2[j] == ups[j] && i2[j] == inst[j]);
        lemma_install_failure_listed(u2, i2, j);
        let f2 = install_failures(u2, i2);
        let w = choose|w: int| 0 <= w < f2.len() && f2[w] == ups[j].0;
        assert(f[w] == f2[w]);
    }
}

/// When every lookup and every install succeeds, the manifest afterwards
/// holds exactly the resolved version of each of its packages, and no
/// package is reported as failed.
pub proof fn law_all_succeed(
    m: Seq<(Seq<char>, Seq<char>)>,
    l: Seq<Result<String, IndexError>>,
    inst: Seq<Result<(), InstallError>>,
)
    requires
        keys_unique(m),
        l.len() == m.len(),
        inst.len() == resolved(m, l).len(),
        forall|i: int| 0 <= i < l.len() ==> l[i] is Ok,
        forall|j: int| 0 <= j < inst.len() ==> inst[j] is Ok,
    ensures
        updated_manifest(m, l, inst) == Seq::new(m.len(), |i: int| (m[i].0, l[i]->Ok_0@)),
        failed_names(m, l, inst).len() == 0,
{
    let r = resolved(m, l);
    lemma_resolved_members(m, l);
    lemma_committed_value(m, r, inst);
    lemma_no_install_failures(r, inst);
    let after = updated_manifest(m, l, inst);
    assert forall|i: int| 0 <= i < m.len() implies after[i] == (m[i].0, l[i]->Ok_0@) by {
        assert(l[i] is Ok);
        assert(r.contains((m[i].0, l[i]->Ok_0@)));
        let j = choose|j: int| 0 <= j < r.len() && r[j] == (m[i].0, l[i]->Ok_0@);
        lemma_last_unique(r, inst, j);
    }
    assert(after =~= Seq::new(m.len(), |i: int| (m[i].0, l[i]->Ok_0@)));
}

/// An empty manifest resolves to nothing, fails nothing and stays empty.
pub proof fn law_empty_manifest(
    m: Seq<(Seq<char>, Seq<char>)>,
    l: Seq<Result<String, IndexError>>,
    inst: Seq<Result<(), InstallError>>,
)
    requires
        m.len() == 0,
    ensures
        resolved(m, l).len() == 0,
        failed_names(m, l, inst).len() == 0,
        updated_manifest(m, l, inst) == m,
{
    assert(install_failures(resolved(m, l), inst) =~= seq![]);
}

/// A package whose lookup failed keeps its entry and is reported as failed;
/// where every install succeeds, each package whose lookup succeeded takes
/// its resolved version.
pub proof fn law_lookup_failure(
    m: Seq<(Seq<char>, Seq<char>)>,
    l: Seq<Result<String, IndexError>>,
    inst: Seq<Result<(), InstallError>>,
    p: int,
)
    requires
        keys_unique(m),
        l.len() == m.len(),
        inst.len() == resolved(m, l).len(),
        0 <= p < m.len(),
        l[p] is Err,
    ensures
        updated_manifest(m, l, inst).len() == m.len(),
        updated_manifest(m, l, inst)[p] == m[p],
        failed_names(m, l, inst).contains(m[p].0),
        (forall|j: int| 0 <= j < inst.len() ==> inst[j] is Ok) ==> forall|i: int|
            0 <= i < m.len() && l[i] is Ok ==> #[trigger] updated_manifest(m, l, inst)[i] == (
                m[i].0,
                l[i]->Ok_0@,
            ),
{
    let r = resolved(m, l);
    lemma_resolved_members(m, l);
    lemma_committed_value(m, r, inst);
    assert(!has_key(r, m[p].0));
    lemma_last_absent(r, inst, m[p].0);
    let u = unresolved(m, l);
    let f = failed_names(m, l, inst);
    let w = choose|w: int| 0 <= w < u.len() && u[w] == m[p].0;
    assert(f[w] == u[w]);
    if forall|j: int| 0 <= j < inst.len() ==> inst[j] is Ok {
        assert forall|i: int| 0 <= i < m.len() && l[i] is Ok implies #[trigger] updated_manifest(
            m,
            l,
            inst,
        )[i] == (m[i].0, l[i]->Ok_0@) by {
            assert(r.contains((m[i].0, l[i]->Ok_0@)));
            let j = choose|j: int| 0 <= j < r.len() && r[j] == (m[i].0, l[i]->Ok_0@);
            lemma_last_unique(r, inst, j);
        }
    }
}

/// A resolved package whose install failed keeps its manifest entry and is
/// reported as failed, while each resolved package whose install succeeded
/// takes its resolved version.
pub proof fn law_install_failure(
    m: Seq<(Seq<char>, Seq<char>)>,
    l: Seq<Result<String, IndexError>>,
    inst: Seq<Result<(), InstallError>>,
    q: int,
)
    requires
        keys_unique(m),
        l.len() == m.len(),
        inst.len() == resolved(m, l).len(),
        0 <= q < inst.len(),
        inst[q] is Err,
    ensures
        updated_manifest(m, l, inst).len() == m.len(),
        forall|i: int|
            0 <= i < m.len() && m[i].0 == resolved(m, l)[q].0 ==> #[trigger] updated_manifest(
                m,
                l,
                inst,
            )[i] == m[i],
        failed_names(m, l, inst).contains(resolved(m, l)[q].0),
        forall|i: int, j: int|
            0 <= i < m.len() && 0 <= j < inst.len() && inst[j] is Ok && m[i].0 == resolved(m, l)[j].0
                ==> #[trigger] updated_manifest(m, l, inst)[i] == (m[i].0, #[trigger] resolved(m, l)[j].1),
{
    let r = resolved(m, l);
    lemma_resolved_members(m, l);
    lemma_committed_value(m, r, inst);
    lemma_last_unique(r, inst, q);
    lemma_install_failure_listed(r, inst, q);
    let g = install_failures(r, inst);
    let f = failed_names(m, l, inst);
    let w = choose|w: int| 0 <= w < g.len() && g[w] == r[q].0;
    assert(f[unresolved(m, l).len() + w] == g[w]);
    assert forall|i: int, j: int|
        0 <= i < m.len() && 0 <= j < inst.len() && inst[j] is Ok && m[i].0 == r[j].0 implies #[trigger] updated_manifest(
        m,
        l,
        inst,
    )[i] == (m[i].0, #[trigger] r[j].1) by {
        lemma_last_unique(r, inst, j);
    }
}

} // verus!
