//! The pnpm lockfile: the resolved versions of each package.

use vstd::prelude::*;
use crate::kv::{get, kv_index, unique_keys, upsert};

verus! {

/// How a package of the lockfile was resolved.
#[derive(Clone, Debug, Default, PartialEq, Eq)]
pub struct PnpmLockResolution {
    pub commit: Option<String>,
    pub integrity: Option<String>,
    pub tarball: Option<String>,
}

pub open spec fn opt_seq(o: Option<String>) -> Seq<Seq<char>> {
    match o {
        Some(s) => seq![s@],
        None => Seq::empty(),
    }
}

/// The versions a resolution gives: its integrity, its tarball and its
/// commit, those it has, in that order.
pub open spec fn spec_resolution_versions(r: PnpmLockResolution) -> Seq<Seq<char>> {
    opt_seq(r.integrity) + opt_seq(r.tarball) + opt_seq(r.commit)
}

/// The name a package is listed under: its parsed name, or empty.
pub open spec fn spec_package_name(name: Option<String>) -> Seq<char> {
    match name {
        Some(n) => n@,
        None => Seq::empty(),
    }
}

/// The versions of each package name after the first `n` packages: each
/// package adds its versions to those of its name.
pub open spec fn spec_lock_versions(packages: Seq<(Option<String>, PnpmLockResolution)>, n: nat) -> Seq<
    (Seq<char>, Seq<Seq<char>>),
>
    decreases n,
{
    if n == 0 {
        Seq::empty()
    } else {
        let acc = spec_lock_versions(packages, (n - 1) as nat);
        let name = spec_package_name(packages[n - 1].0);
        let prev = match get(acc, name) {
            Some(v) => v,
            None => Seq::empty(),
        };
        upsert(acc, name, prev + spec_resolution_versions(packages[n - 1].1))
    }
}

fn push_opt(v: &mut Vec<String>, o: &Option<String>)
    ensures
        final(v).deep_view() == old(v).deep_view() + opt_seq(*o),
{
    let ghost before = v.deep_view();
    if let Some(s) = o {
        v.push(s.clone());
        assert(v.deep_view() =~= before + seq![s@]);
    } else {
        assert(v.deep_view() =~= before + Seq::<Seq<char>>::empty());
    }
}

/// The resolved versions of each package, by name, from the packages of a
/// lockfile (each with the name parsed from its key, if any).
pub fn lockfile_dependencies(packages: &Vec<(Option<String>, PnpmLockResolution)>) -> (r: Vec<(String, Vec<String>)>)
    ensures
        r.deep_view() == spec_lock_versions(packages@, packages@.len()),
        unique_keys(r.deep_view()),
{
    let mut deps: Vec<(String, Vec<String>)> = Vec::new();
    assert(deps.deep_view() =~= Seq::<(Seq<char>, Seq<Seq<char>>)>::empty());
    let mut i: usize = 0;
    while i < packages.len()
        invariant
            i <= packages.len(),
            unique_keys(deps.deep_view()),
            deps.deep_view() == spec_lock_versions(packages@, i as nat),
        decreases packages.len() - i,
    {
        let name = match &packages[i].0 {
            Some(n) => n.clone(),
            None => String::new(),
        };
        let res = &packages[i].1;
        let ghost before = deps.deep_view();
        match kv_index(&deps, name.as_str()) {
            Some(k) => {
                let (key, mut versions) = deps.remove(k);
                assert(versions.deep_view() == before[k as int].1);
                push_opt(&mut versions, &res.integrity);
                push_opt(&mut versions, &res.tarball);
                push_opt(&mut versions, &res.commit);
                let ghost vv = versions.deep_view();
                deps.insert(k, (key, versions));
                assert(deps.deep_view() =~= before.update(k as int, (name@, vv)));
                assert(vv =~= before[k as int].1 + spec_resolution_versions(packages@[i as int].1));
            },
            None => {
                let mut versions: Vec<String> = Vec::new();
                assert(versions.deep_view() =~= Seq::<Seq<char>>::empty());
                push_opt(&mut versions, &res.integrity);
                push_opt(&mut versions, &res.tarball);
                push_opt(&mut versions, &res.commit);
                let ghost vv = versions.deep_view();
                assert(vv =~= Seq::<Seq<char>>::empty() + spec_resolution_versions(packages@[i as int].1));
                deps.push((name, versions));
                assert(deps.deep_view() =~= before.push((name@, vv)));
            },
        }
        proof {
            assert forall|a: int, b: int| 0 <= a < deps.deep_view().len() && 0 <= b < deps.deep_view().len() && a != b implies #[trigger] deps.deep_view()[a].0 != #[trigger] deps.deep_view()[b].0 by {
                if a < before.len() && b < before.len() {
                    assert(deps.deep_view()[a].0 == before[a].0);
                    assert(deps.deep_view()[b].0 == before[b].0);
                }
            }
        }
        i = i + 1;
    }
    deps
}

} // verus!
