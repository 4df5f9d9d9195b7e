//! The shared execution context of one agent run: the single source of truth
//! that every step reads and mutates.

use vstd::prelude::*;
use vstd::string::*;

use crate::errors::AgentError;
use crate::events::{send_event, Event, Sender};
use crate::history::{spec_window, Execution, History, Message};
use crate::invocation::Invocation;
use crate::metrics::{step_allowed, Metrics};
use crate::namespaces::{
    descriptor_model, spec_default_models, spec_lookup_model, Action, DescriptorModel, Namespace,
    NamespaceModel, Registry,
};
use crate::rag::RagQuery;
use crate::storage::{Storage, StorageDescriptor};
use crate::task::{RagConfig, Task};

verus! {

/// The requested namespace names of a task, as sequences.
pub open spec fn spec_using(task: Task) -> Option<Seq<String>> {
    match task.using {
        Some(v) => Some(v@),
        None => None,
    }
}

/// Resolving a list of explicit namespace names against the registry, in
/// order: the shapes of the found namespaces, or the first name that is not
/// defined.
pub open spec fn spec_resolve_named(names: Seq<String>, reg: Seq<(String, Namespace)>) -> Result<
    Seq<NamespaceModel>,
    Seq<char>,
>
    decreases names.len(),
{
    if names.len() == 0 {
        Ok(Seq::<NamespaceModel>::empty())
    } else {
        match spec_resolve_named(names.drop_last(), reg) {
            Ok(models) => match spec_lookup_model(reg, names.last()@) {
                Some(m) => Ok(models.push(m)),
                None => Err(names.last()@),
            },
            Err(e) => Err(e),
        }
    }
}

/// Position `i` holds the first wildcard of the requested name list.
pub open spec fn wildcard_first_at(names: Seq<String>, i: int) -> bool {
    &&& 0 <= i < names.len()
    &&& names[i]@ == "*"@
    &&& forall|j: int| 0 <= j < i ==> names[j]@ != "*"@
}

/// The shapes of the active namespaces a task request resolves to: no list
/// at all means every default namespace; a list with `"*"` means every
/// default namespace followed by the other requested names; any other list
/// means exactly the requested names, in order. An undefined requested name
/// is the error.
pub open spec fn spec_active_models(
    using: Option<Seq<String>>,
    reg: Seq<(String, Namespace)>,
) -> Result<Seq<NamespaceModel>, Seq<char>> {
    match using {
        Some(names) => {
            if exists|i: int| 0 <= i < names.len() && names[i]@ == "*"@ {
                let wi = choose|i: int| wildcard_first_at(names, i);
                match spec_resolve_named(names.remove(wi), reg) {
                    Ok(ms) => Ok(spec_default_models(reg) + ms),
                    Err(e) => Err(e),
                }
            } else {
                spec_resolve_named(names, reg)
            }
        },
        None => Ok(spec_default_models(reg)),
    }
}

/// The full active namespace list of a run: the resolved request, then the
/// retrieval namespace when the task configures retrieval, then the task's
/// own extra namespaces.
pub open spec fn spec_full_active(task: Task, reg: Seq<(String, Namespace)>) -> Result<
    Seq<NamespaceModel>,
    Seq<char>,
> {
    match spec_active_models(spec_using(task), reg) {
        Ok(base) => {
            let with_rag = if task.rag is Some {
                base.push(spec_lookup_model(reg, "rag"@)->0)
            } else {
                base
            };
            Ok(with_rag + task.functions@.map_values(|ns: Namespace| ns.model()))
        },
        Err(e) => Err(e),
    }
}

/// A resolution that failed on a prefix of the name list fails the same way
/// on the whole list.
pub proof fn lemma_resolve_err_extends(names: Seq<String>, k: int, reg: Seq<(String, Namespace)>)
    requires
        0 <= k <= names.len(),
        spec_resolve_named(names.take(k), reg) is Err,
    ensures
        spec_resolve_named(names, reg) == spec_resolve_named(names.take(k), reg),
    decreases names.len() - k,
{
    if k == names.len() {
        assert(names.take(k) =~= names);
    } else {
        assert(names.take(k + 1).drop_last() =~= names.take(k));
        assert(names.take(k + 1).last() == names[k]);
        lemma_resolve_err_extends(names, k + 1, reg);
    }
}

/// With a wildcard at its first position `w`, the resolution of a request
/// is the default namespaces followed by the rest of the request.
pub proof fn lemma_active_with_wildcard(names: Seq<String>, w: int, reg: Seq<(String, Namespace)>)
    requires
        wildcard_first_at(names, w),
    ensures
        spec_active_models(Some(names), reg) == (match spec_resolve_named(names.remove(w), reg) {
            Ok(ms) => Ok::<_, Seq<char>>(spec_default_models(reg) + ms),
            Err(e) => Err::<Seq<NamespaceModel>, _>(e),
        }),
{
    assert(0 <= w < names.len() && names[w]@ == "*"@);
    let wspec = choose|i: int| wildcard_first_at(names, i);
    assert(wildcard_first_at(names, wspec));
    assert(wspec == w) by {
        if wspec < w {
            assert(names[wspec]@ == "*"@);
        }
        if wspec > w {
            assert(names[w]@ == "*"@);
        }
    }
}

/// Without a wildcard, the resolution of a request is the plain name
/// resolution.
pub proof fn lemma_active_without_wildcard(names: Seq<String>, reg: Seq<(String, Namespace)>)
    requires
        forall|q: int| 0 <= q < names.len() ==> names[q]@ != "*"@,
    ensures
        spec_active_models(Some(names), reg) == spec_resolve_named(names, reg),
{
    assert(!(exists|i: int| 0 <= i < names.len() && names[i]@ == "*"@)) by {
        if exists|i: int| 0 <= i < names.len() && names[i]@ == "*"@ {
            let i = choose|i: int| 0 <= i < names.len() && names[i]@ == "*"@;
            assert(names[i]@ != "*"@);
        }
    }
}

/// The storage requirements of one namespace shape.
pub open spec fn spec_ns_descriptors(m: NamespaceModel) -> Seq<DescriptorModel> {
    match m.storages {
        Some(ds) => ds,
        None => Seq::<DescriptorModel>::empty(),
    }
}

/// Every storage requirement of a namespace list, in declaration order.
pub open spec fn spec_flat_descriptors(models: Seq<NamespaceModel>) -> Seq<DescriptorModel>
    decreases models.len(),
{
    if models.len() == 0 {
        Seq::<DescriptorModel>::empty()
    } else {
        spec_flat_descriptors(models.drop_last()) + spec_ns_descriptors(models.last())
    }
}

/// Some requirement in `ds` asks for the storage name `n`.
pub open spec fn desc_has_name(ds: Seq<DescriptorModel>, n: Seq<char>) -> bool {
    exists|i: int| 0 <= i < ds.len() && ds[i].name@ == n
}

/// Position `i` holds the first requirement of the storage name `n`.
pub open spec fn desc_first_at(ds: Seq<DescriptorModel>, n: Seq<char>, i: int) -> bool {
    &&& 0 <= i < ds.len()
    &&& ds[i].name@ == n
    &&& forall|j: int| 0 <= j < i ==> ds[j].name@ != n
}

/// Some storage of `ss` is named `n`.
pub open spec fn storages_has_name(ss: Seq<Storage>, n: Seq<char>) -> bool {
    exists|i: int| 0 <= i < ss.len() && ss[i].spec_name() == n
}

/// Position `i` holds the first storage named `n`.
pub open spec fn storage_first_at(ss: Seq<Storage>, n: Seq<char>, i: int) -> bool {
    &&& 0 <= i < ss.len()
    &&& ss[i].spec_name() == n
    &&& forall|j: int| 0 <= j < i ==> ss[j].spec_name() != n
}

/// The storage `st` is the one the requirement `d` creates: same name, same
/// shape, and exactly the pre-seeded entries.
pub open spec fn storage_from(st: Storage, d: DescriptorModel) -> bool {
    &&& st.spec_name() == d.name@
    &&& st.spec_type() == d.type_
    &&& st.spec_entries() == (match d.predefined {
        Some(p) => p,
        None => Seq::<(String, String)>::empty(),
    })
}

/// The storage at position `i` of `ss` comes from the first requirement
/// under its name in `flat`.
pub open spec fn storage_covered(ss: Seq<Storage>, flat: Seq<DescriptorModel>, i: int) -> bool {
    exists|j: int|
        #[trigger] desc_first_at(flat, ss[i].spec_name(), j) && storage_from(ss[i], flat[j])
}

/// The storages `ss` are exactly the ones the requirements `flat` create:
/// a storage exists if and only if its name is required, each storage comes
/// from the first requirement under its name (later duplicates are no-ops),
/// and no name is created twice.
pub open spec fn storages_cover(ss: Seq<Storage>, flat: Seq<DescriptorModel>) -> bool {
    &&& forall|j: int| 0 <= j < flat.len() ==> storages_has_name(ss, (#[trigger] flat[j]).name@)
    &&& forall|i: int| 0 <= i < ss.len() ==> #[trigger] storage_covered(ss, flat, i)
    &&& forall|i: int, j: int|
        0 <= i < j < ss.len() ==> (#[trigger] ss[i]).spec_name() != (#[trigger] ss[j]).spec_name()
}

/// Every single-slot value is unset, except that a storage named `goal`
/// holds the run's prompt.
pub open spec fn storages_seeded(ss: Seq<Storage>, prompt: Seq<char>) -> bool {
    forall|i: int|
        0 <= i < ss.len() ==> (if (#[trigger] ss[i]).spec_name() == "goal"@ {
            ss[i].spec_current() matches Some(p) && p@ == prompt
        } else {
            ss[i].spec_current() is None
        })
}

/// Of a freshly constructed run, a storage exists under a name exactly when
/// some active namespace declares that name: storages are never created on
/// read, and a declared one is never missing.
pub proof fn lemma_storage_exists_iff_declared(
    ss: Seq<Storage>,
    flat: Seq<DescriptorModel>,
    n: Seq<char>,
)
    requires
        storages_cover(ss, flat),
    ensures
        storages_has_name(ss, n) <==> desc_has_name(flat, n),
{
    if storages_has_name(ss, n) {
        let i = choose|i: int| 0 <= i < ss.len() && ss[i].spec_name() == n;
        assert(storage_covered(ss, flat, i));
        let j = choose|j: int|
            #[trigger] desc_first_at(flat, ss[i].spec_name(), j) && storage_from(ss[i], flat[j]);
        assert(0 <= j < flat.len() && flat[j].name@ == n);
        assert(desc_has_name(flat, n));
    }
    if desc_has_name(flat, n) {
        let j = choose|j: int| 0 <= j < flat.len() && flat[j].name@ == n;
        assert(storages_has_name(ss, flat[j].name@));
    }
}

/// A requirement of an already-created name is a no-op.
proof fn lemma_cover_extend(ss: Seq<Storage>, flat: Seq<DescriptorModel>, d: DescriptorModel)
    requires
        storages_cover(ss, flat),
        storages_has_name(ss, d.name@),
    ensures
        storages_cover(ss, flat.push(d)),
{
    let flat2 = flat.push(d);
    assert forall|j: int| 0 <= j < flat2.len() implies storages_has_name(
        ss,
        (#[trigger] flat2[j]).name@,
    ) by {
        if j < flat.len() {
            assert(flat2[j] == flat[j]);
        } else {
            assert(flat2[j] == d);
        }
    }
    assert forall|i: int| 0 <= i < ss.len() implies #[trigger] storage_covered(
        ss,
        flat2,
        i,
    ) by {
        assert(storage_covered(ss, flat, i));
        let j = choose|j: int|
            #[trigger] desc_first_at(flat, ss[i].spec_name(), j) && storage_from(ss[i], flat[j]);
        assert(flat2[j] == flat[j]);
        assert(desc_first_at(flat2, ss[i].spec_name(), j) && storage_from(ss[i], flat2[j]));
    }
}

/// A requirement of a new name creates exactly that storage.
proof fn lemma_cover_push(
    ss: Seq<Storage>,
    flat: Seq<DescriptorModel>,
    d: DescriptorModel,
    st: Storage,
)
    requires
        storages_cover(ss, flat),
        !storages_has_name(ss, d.name@),
        storage_from(st, d),
    ensures
        storages_cover(ss.push(st), flat.push(d)),
{
    let ss2 = ss.push(st);
    let flat2 = flat.push(d);
    assert forall|j: int| 0 <= j < flat2.len() implies storages_has_name(
        ss2,
        (#[trigger] flat2[j]).name@,
    ) by {
        if j < flat.len() {
            assert(flat2[j] == flat[j]);
            let i = choose|i: int| 0 <= i < ss.len() && ss[i].spec_name() == flat[j].name@;
            assert(ss2[i] == ss[i]);
            assert(storages_has_name(ss2, flat2[j].name@));
        } else {
            assert(flat2[j] == d);
            assert(ss2[ss.len() as int] == st);
            assert(storages_has_name(ss2, d.name@));
        }
    }
    assert forall|i: int| 0 <= i < ss2.len() implies #[trigger] storage_covered(
        ss2,
        flat2,
        i,
    ) by {
        if i < ss.len() {
            assert(ss2[i] == ss[i]);
            assert(storage_covered(ss, flat, i));
            let j = choose|j: int|
                #[trigger] desc_first_at(flat, ss[i].spec_name(), j) && storage_from(ss[i], flat[j]);
            assert(flat2[j] == flat[j]);
            assert(desc_first_at(flat2, ss2[i].spec_name(), j) && storage_from(ss2[i], flat2[j]));
        } else {
            assert(ss2[i] == st);
            let p = flat.len() as int;
            assert forall|j: int| 0 <= j < p implies (#[trigger] flat2[j]).name@ != d.name@ by {
                assert(flat2[j] == flat[j]);
                if flat[j].name@ == d.name@ {
                    assert(storages_has_name(ss, flat[j].name@));
                }
            }
            assert(flat2[p] == d);
            assert(desc_first_at(flat2, st.spec_name(), p) && storage_from(st, flat2[p]));
        }
    }
    assert forall|i: int, j: int| 0 <= i < j < ss2.len() implies (#[trigger] ss2[i]).spec_name()
        != (#[trigger] ss2[j]).spec_name() by {
        if j < ss.len() {
            assert(ss2[i] == ss[i] && ss2[j] == ss[j]);
        } else {
            assert(ss2[i] == ss[i] && ss2[j] == st);
            if ss[i].spec_name() == d.name@ {
                assert(storages_has_name(ss, d.name@));
            }
        }
    }
}

/// Finds the first storage with the given name.
fn storages_index(ss: &Vec<Storage>, name: &String) -> (r: Option<usize>)
    ensures
        match r {
            Some(i) => storage_first_at(ss@, name@, i as int),
            None => !storages_has_name(ss@, name@),
        },
{
    let mut i: usize = 0;
    while i < ss.len()
        invariant
            i <= ss@.len(),
            forall|j: int| 0 <= j < i ==> ss@[j].spec_name() != name@,
        decreases ss@.len() - i,
    {
        if ss[i].name().eq(name) {
            return Some(i);
        }
        i = i + 1;
    }
    None
}

/// Creates one storage per first declaration across the active namespaces.
fn create_storages(namespaces: &Vec<Namespace>) -> (r: Vec<Storage>)
    ensures
        storages_cover(
            r@,
            spec_flat_descriptors(namespaces@.map_values(|ns: Namespace| ns.model())),
        ),
        forall|i: int| 0 <= i < r@.len() ==> (#[trigger] r@[i]).spec_current() is None,
{
    let ghost models = namespaces@.map_values(|ns: Namespace| ns.model());
    let mut storages: Vec<Storage> = Vec::new();
    let mut a: usize = 0;
    while a < namespaces.len()
        invariant
            a <= namespaces@.len(),
            models == namespaces@.map_values(|ns: Namespace| ns.model()),
            storages_cover(storages@, spec_flat_descriptors(models.take(a as int))),
            forall|i: int|
                0 <= i < storages@.len() ==> (#[trigger] storages@[i]).spec_current() is None,
        decreases namespaces@.len() - a,
    {
        let ghost base = spec_flat_descriptors(models.take(a as int));
        match &namespaces[a].storages {
            Some(descs) => {
                let ghost dm = descs@.map_values(|d: StorageDescriptor| descriptor_model(d));
                let mut b: usize = 0;
                while b < descs.len()
                    invariant
                        b <= descs@.len(),
                        dm == descs@.map_values(|d: StorageDescriptor| descriptor_model(d)),
                        storages_cover(storages@, base + dm.take(b as int)),
                        forall|i: int|
                            0 <= i < storages@.len() ==> (#[trigger] storages@[i]).spec_current()
                                is None,
                    decreases descs@.len() - b,
                {
                    let d = &descs[b];
                    proof {
                        assert(dm.take(b + 1) =~= dm.take(b as int).push(dm[b as int]));
                        assert((base + dm.take(b + 1)) =~= (base + dm.take(b as int)).push(
                            dm[b as int],
                        ));
                        assert(dm[b as int] == descriptor_model(descs@[b as int]));
                    }
                    match storages_index(&storages, &d.name) {
                        Some(_) => {
                            proof {
                                lemma_cover_extend(
                                    storages@,
                                    base + dm.take(b as int),
                                    dm[b as int],
                                );
                            }
                        },
                        None => {
                            let st = Storage::new(d);
                            proof {
                                lemma_cover_push(
                                    storages@,
                                    base + dm.take(b as int),
                                    dm[b as int],
                                    st,
                                );
                            }
                            storages.push(st);
                        },
                    }
                    b = b + 1;
                }
                proof {
                    assert(dm.take(dm.len() as int) =~= dm);
                    assert(models.take(a + 1).drop_last() =~= models.take(a as int));
                    assert(models.take(a + 1).last() == models[a as int]);
                    assert(models[a as int] == namespaces@[a as int].model());
                    assert(spec_ns_descriptors(models[a as int]) == dm);
                    assert(spec_flat_descriptors(models.take(a + 1)) == base + dm);
                }
            },
            None => {
                proof {
                    assert(models.take(a + 1).drop_last() =~= models.take(a as int));
                    assert(models.take(a + 1).last() == models[a as int]);
                    assert(models[a as int] == namespaces@[a as int].model());
                    assert(spec_ns_descriptors(models[a as int]) =~= Seq::<
                        DescriptorModel,
                    >::empty());
                    assert((base + spec_ns_descriptors(models[a as int])) =~= base);
                    assert(spec_flat_descriptors(models.take(a + 1)) == base);
                }
            },
        }
        a = a + 1;
    }
    proof {
        assert(models.take(models.len() as int) =~= models);
    }
    storages
}

/// Resolves the task's namespace request against the registry.
fn resolve_active(task: &Task, registry: &Registry) -> (r: Result<Vec<Namespace>, AgentError>)
    ensures
        match r {
            Ok(nss) => spec_active_models(spec_using(*task), registry.entries()) == Ok::<
                _,
                Seq<char>,
            >(nss@.map_values(|ns: Namespace| ns.model())),
            Err(e) => e matches AgentError::NamespaceNotFound(n) && spec_active_models(
                spec_using(*task),
                registry.entries(),
            ) == Err::<Seq<NamespaceModel>, _>(n@),
        },
{
    let ghost reg = registry.entries();
    match &task.using {
        Some(names) => {
            // find the first wildcard, if any
            let mut wi: Option<usize> = None;
            let mut i: usize = 0;
            let star = String::from_str("*");
            while i < names.len() && wi.is_none()
                invariant
                    i <= names@.len(),
                    star@ == "*"@,
                    match wi {
                        Some(w) => wildcard_first_at(names@, w as int) && i == w + 1,
                        None => forall|j: int| 0 <= j < i ==> names@[j]@ != "*"@,
                    },
                decreases names@.len() - i,
            {
                if names[i].eq(&star) {
                    wi = Some(i);
                }
                i = i + 1;
            }
            let total = names.len();
            let skip_at: usize = match wi {
                Some(w) => w,
                None => total,
            };
            let mut out: Vec<Namespace> = match wi {
                Some(_) => registry.defaults(),
                None => Vec::new(),
            };
            let ghost base: Seq<NamespaceModel> = if wi is Some {
                spec_default_models(reg)
            } else {
                Seq::<NamespaceModel>::empty()
            };
            let ghost remaining: Seq<String> = if wi is Some {
                names@.remove(skip_at as int)
            } else {
                names@
            };
            proof {
                if wi is Some {
                    let w = skip_at as int;
                    assert(wildcard_first_at(names@, w));
                    let wspec = choose|q: int| wildcard_first_at(names@, q);
                    assert(wspec == w) by {
                        assert(wildcard_first_at(names@, wspec));
                        if wspec < w {
                            assert(names@[wspec]@ == "*"@);
                        }
                        if wspec > w {
                            assert(names@[w]@ == "*"@);
                        }
                    }
                    names@.remove_ensures(w);
                } else {
                    assert(!(exists|q: int| 0 <= q < names@.len() && names@[q]@ == "*"@));
                }
            }
            proof {
                assert(remaining.take(0) =~= Seq::<String>::empty());
                let f = |ns: Namespace| ns.model();
                assert(out@.map_values(f) == base);
                assert(out@.map_values(f).skip(base.len() as int) =~= Seq::<
                    NamespaceModel,
                >::empty());
                assert(out@.map_values(f).take(base.len() as int) =~= base);
            }
            // resolve each remaining name in order
            let mut k: usize = 0;
            let mut n: usize = 0;
            while n < total
                invariant
                    n <= total,
                    total == names@.len(),
                    k == (if n <= skip_at {
                        n as int
                    } else {
                        n - 1
                    }),
                    skip_at as int == (if wi is Some {
                        wi->0 as int
                    } else {
                        names@.len() as int
                    }),
                    (wi is Some ==> remaining == names@.remove(skip_at as int) && (skip_at as int)
                        < names@.len()),
                    (wi is None ==> remaining == names@),
                    k <= remaining.len(),
                    spec_resolve_named(remaining.take(k as int), reg) == Ok::<_, Seq<char>>(
                        out@.map_values(|ns: Namespace| ns.model()).skip(base.len() as int),
                    ),
                    out@.map_values(|ns: Namespace| ns.model()).take(base.len() as int) == base,
                    base.len() <= out@.len(),
                    base == (if wi is Some {
                        spec_default_models(reg)
                    } else {
                        Seq::<NamespaceModel>::empty()
                    }),
                    reg == registry.entries(),
                    spec_using(*task) == Some(names@),
                    match wi {
                        Some(w) => wildcard_first_at(names@, w as int),
                        None => forall|q: int| 0 <= q < names@.len() ==> names@[q]@ != "*"@,
                    },
                decreases total - n,
            {
                if n != skip_at {
                    let ghost out_models_pre = out@.map_values(|ns: Namespace| ns.model());
                    proof {
                        if wi is Some {
                            names@.remove_ensures(skip_at as int);
                        }
                        assert(remaining[k as int] == names@[n as int]);
                        assert(remaining.take(k + 1).drop_last() =~= remaining.take(k as int));
                        assert(remaining.take(k + 1).last() == remaining[k as int]);
                    }
                    match registry.build(&names[n]) {
                        Some(ns) => {
                            out.push(ns);
                            proof {
                                let f = |ns: Namespace| ns.model();
                                assert(out@.map_values(f) =~= out_models_pre.push(
                                    out@.last().model(),
                                ));
                                assert(out@.map_values(f).skip(base.len() as int)
                                    =~= out_models_pre.skip(base.len() as int).push(
                                    out@.last().model(),
                                ));
                                assert(out@.map_values(f).take(base.len() as int) =~= base);
                            }
                            k = k + 1;
                        },
                        None => {
                            proof {
                                assert(spec_resolve_named(remaining.take(k + 1), reg)
                                    == Err::<Seq<NamespaceModel>, _>(names@[n as int]@));
                                lemma_resolve_err_extends(remaining, k + 1, reg);
                                match wi {
                                    Some(w) => {
                                        lemma_active_with_wildcard(names@, w as int, reg);
                                    },
                                    None => {
                                        lemma_active_without_wildcard(names@, reg);
                                    },
                                }
                            }
                            return Err(AgentError::NamespaceNotFound(names[n].clone()));
                        },
                    }
                }
                n = n + 1;
            }
            proof {
                assert(remaining.take(k as int) =~= remaining);
                let f = |ns: Namespace| ns.model();
                assert(out@.map_values(f) =~= out@.map_values(f).take(base.len() as int)
                    + out@.map_values(f).skip(base.len() as int));
                match wi {
                    Some(w) => {
                        lemma_active_with_wildcard(names@, w as int, reg);
                    },
                    None => {
                        lemma_active_without_wildcard(names@, reg);
                    },
                }
            }
            Ok(out)
        },
        None => {
            let out = registry.defaults();
            Ok(out)
        },
    }
}

/// The shared execution context of one run. All mutation of a running agent
/// goes through one value of this type; the embedding application serializes
/// access to it around each step.
#[derive(Debug)]
pub struct State {
    task: Task,
    storages: Vec<Storage>,
    namespaces: Vec<Namespace>,
    history: History,
    rag: Option<RagConfig>,
    complete: bool,
    events_tx: Sender,
    /// The run's step counters.
    pub metrics: Metrics,
}

impl State {
    /// The task of this run.
    pub closed spec fn spec_task(&self) -> Task {
        self.task
    }

    /// The run's storages.
    pub closed spec fn spec_storages(&self) -> Seq<Storage> {
        self.storages@
    }

    /// The active namespaces, in resolution order.
    pub closed spec fn spec_namespaces(&self) -> Seq<Namespace> {
        self.namespaces@
    }

    /// The recorded history.
    pub closed spec fn spec_history(&self) -> Seq<Execution> {
        self.history.executions()
    }

    /// The retrieval configuration, when the task supplied one.
    pub closed spec fn spec_rag(&self) -> Option<RagConfig> {
        self.rag
    }

    /// Whether the terminal completion signal was processed.
    pub closed spec fn spec_complete(&self) -> bool {
        self.complete
    }

    /// The run's step counters.
    pub closed spec fn spec_metrics(&self) -> Metrics {
        self.metrics
    }

    /// Everything except the history, the metrics and the completion flag is
    /// the same in both states.
    pub open spec fn same_static_parts(&self, other: &State) -> bool {
        &&& self.spec_task() == other.spec_task()
        &&& self.spec_storages() == other.spec_storages()
        &&& self.spec_namespaces() == other.spec_namespaces()
        &&& self.spec_rag() == other.spec_rag()
    }

    /// Builds the state of a fresh run: resolves the active namespace set
    /// from the task's request (failing on an undefined name), appends the
    /// retrieval namespace when retrieval is configured, appends the task's
    /// own namespaces, creates each declared storage once (first declaration
    /// wins), seeds a `goal` storage with the task prompt, and starts the
    /// step counter at zero against the given budget.
    pub fn new(
        events_tx: Sender,
        task: Task,
        registry: &Registry,
        max_iterations: usize,
    ) -> (r: Result<State, AgentError>)
        requires
            task.rag is Some ==> spec_lookup_model(registry.entries(), "rag"@) is Some,
        ensures
            match spec_full_active(task, registry.entries()) {
                Ok(models) => r matches Ok(s) && {
                    &&& s.spec_namespaces().map_values(|ns: Namespace| ns.model()) == models
                    &&& storages_cover(s.spec_storages(), spec_flat_descriptors(models))
                    &&& storages_seeded(s.spec_storages(), task.prompt@)
                    &&& s.spec_task() == task
                    &&& s.spec_rag() == task.rag
                    &&& s.spec_complete() == false
                    &&& s.spec_history().len() == 0
                    &&& s.spec_metrics() == (Metrics { current_step: 0, max_steps: max_iterations })
                },
                Err(name) => r matches Err(e) && e matches AgentError::NamespaceNotFound(n) && n@
                    == name,
            },
    {
        let ghost reg = registry.entries();
        let mut namespaces = match resolve_active(&task, registry) {
            Ok(nss) => nss,
            Err(e) => {
                return Err(e);
            },
        };
        let ghost f = |ns: Namespace| ns.model();
        let ghost base_models = namespaces@.map_values(f);

        // the retrieval namespace comes with a configured retrieval store
        if task.rag.is_some() {
            match registry.build(&String::from_str("rag")) {
                Some(ns) => {
                    namespaces.push(ns);
                    proof {
                        assert(namespaces@.map_values(f) =~= base_models.push(
                            namespaces@.last().model(),
                        ));
                    }
                },
                None => {
                    proof {
                        assert(false);
                    }
                    return Err(AgentError::NoRetrievalConfigured);
                },
            }
        }
        let ghost with_rag_models = namespaces@.map_values(f);

        // the task's own namespaces come last
        let mut fi: usize = 0;
        while fi < task.functions.len()
            invariant
                fi <= task.functions@.len(),
                namespaces@.map_values(f) == with_rag_models + task.functions@.map_values(f).take(
                    fi as int,
                ),
                f == (|ns: Namespace| ns.model()),
            decreases task.functions@.len() - fi,
        {
            let ghost pre = namespaces@.map_values(f);
            namespaces.push(task.functions[fi].duplicate());
            proof {
                assert(namespaces@.map_values(f) =~= pre.push(namespaces@.last().model()));
                assert(task.functions@.map_values(f).take(fi + 1) =~= task.functions@.map_values(
                    f,
                ).take(fi as int).push(task.functions@[fi as int].model()));
                assert(namespaces@.map_values(f) =~= with_rag_models + task.functions@.map_values(
                    f,
                ).take(fi + 1));
            }
            fi = fi + 1;
        }
        proof {
            assert(task.functions@.map_values(f).take(task.functions@.len() as int)
                =~= task.functions@.map_values(f));
        }
        let ghost models = namespaces@.map_values(f);

        // create every declared storage once
        let mut storages = create_storages(&namespaces);

        // seed the goal storage with the task prompt
        let ghost before_seed = storages@;
        match storages_index(&storages, &String::from_str("goal")) {
            Some(gi) => {
                let prompt = task.to_prompt();
                storages[gi].set_current(&prompt);
                proof {
                    assert forall|j: int| 0 <= j < flatlen(models) implies storages_has_name(
                        storages@,
                        (#[trigger] spec_flat_descriptors(models)[j]).name@,
                    ) by {
                        let flat = spec_flat_descriptors(models);
                        assert(storages_has_name(before_seed, flat[j].name@));
                        let i = choose|i: int|
                            0 <= i < before_seed.len() && before_seed[i].spec_name()
                                == flat[j].name@;
                        assert(storages@[i].spec_name() == before_seed[i].spec_name());
                    }
                    assert forall|i: int| 0 <= i < storages@.len() implies #[trigger] storage_covered(
                        storages@,
                        spec_flat_descriptors(models),
                        i,
                    ) by {
                        let flat = spec_flat_descriptors(models);
                        assert(storage_covered(before_seed, flat, i));
                        let j = choose|j: int|
                            #[trigger] desc_first_at(flat, before_seed[i].spec_name(), j)
                                && storage_from(before_seed[i], flat[j]);
                        if i == gi as int {
                            assert(storages@[i].spec_name() == before_seed[i].spec_name()
                                && storages@[i].spec_type() == before_seed[i].spec_type()
                                && storages@[i].spec_entries() == before_seed[i].spec_entries());
                        } else {
                            assert(storages@[i] == before_seed[i]);
                        }
                        assert(desc_first_at(flat, storages@[i].spec_name(), j) && storage_from(
                            storages@[i],
                            flat[j],
                        ));
                    }
                    assert forall|i: int, j: int| 0 <= i < j < storages@.len() implies (
                    #[trigger] storages@[i]).spec_name() != (#[trigger] storages@[j]).spec_name() by {
                        assert(storages@[i].spec_name() == before_seed[i].spec_name());
                        assert(storages@[j].spec_name() == before_seed[j].spec_name());
                    }
                    assert forall|i: int| 0 <= i < storages@.len() implies (if (
                    #[trigger] storages@[i]).spec_name() == "goal"@ {
                        storages@[i].spec_current() matches Some(p) && p@ == task.prompt@
                    } else {
                        storages@[i].spec_current() is None
                    }) by {
                        if i != gi as int && storages@[i].spec_name() == "goal"@ {
                            assert(before_seed[i].spec_name() == "goal"@);
                            assert(before_seed[gi as int].spec_name() == "goal"@);
                        }
                    }
                }
            },
            None => {
                proof {
                    assert forall|i: int| 0 <= i < storages@.len() implies (if (
                    #[trigger] storages@[i]).spec_name() == "goal"@ {
                        storages@[i].spec_current() matches Some(p) && p@ == task.prompt@
                    } else {
                        storages@[i].spec_current() is None
                    }) by {
                        if storages@[i].spec_name() == "goal"@ {
                            assert(storages_has_name(storages@, "goal"@));
                        }
                    }
                }
            },
        }

        let rag: Option<RagConfig> = match &task.rag {
            Some(c) => Some(
                RagConfig {
                    source_path: c.source_path.clone(),
                    data_path: c.data_path.clone(),
                    chunk_size: c.chunk_size,
                },
            ),
            None => None,
        };

        Ok(
            State {
                task,
                storages,
                namespaces,
                history: History::new(),
                rag,
                complete: false,
                events_tx,
                metrics: Metrics::new(max_iterations),
            },
        )
    }
}

/// One action's line of the system prompt.
pub open spec fn spec_action_line(a: Action) -> Seq<char> {
    "- "@ + a.spec_name() + ": "@ + crate::namespaces::spec_description(a.model()) + "\n"@
}

/// The action lines of one namespace, in declaration order.
pub open spec fn spec_actions_text(actions: Seq<Action>) -> Seq<char>
    decreases actions.len(),
{
    if actions.len() == 0 {
        Seq::<char>::empty()
    } else {
        spec_actions_text(actions.drop_last()) + spec_action_line(actions.last())
    }
}

/// One namespace's section of the system prompt: its name, its description,
/// and one line per action.
pub open spec fn spec_namespace_text(ns: Namespace) -> Seq<char> {
    "\n# "@ + ns.name@ + "\n"@ + ns.description@ + "\n"@ + spec_actions_text(ns.actions@)
}

/// The namespace sections of the system prompt, in resolution order.
pub open spec fn spec_namespaces_text(nss: Seq<Namespace>) -> Seq<char>
    decreases nss.len(),
{
    if nss.len() == 0 {
        Seq::<char>::empty()
    } else {
        spec_namespaces_text(nss.drop_last()) + spec_namespace_text(nss.last())
    }
}

/// The length of the flattened requirement list; a helper for triggers.
pub open spec fn flatlen(models: Seq<NamespaceModel>) -> int {
    spec_flat_descriptors(models).len() as int
}

/// Position `(ni, ai)` holds the first action named `name`, scanning
/// namespaces in resolution order and actions in declaration order.
pub open spec fn action_first_at(nss: Seq<Namespace>, name: Seq<char>, ni: int, ai: int) -> bool {
    &&& 0 <= ni < nss.len()
    &&& 0 <= ai < nss[ni].actions@.len()
    &&& nss[ni].actions@[ai].spec_name() == name
    &&& forall|p: int, q: int|
        0 <= p < ni && 0 <= q < nss[p].actions@.len() ==> (
        #[trigger] nss[p].actions@[q]).spec_name() != name
    &&& forall|q: int| 0 <= q < ai ==> (#[trigger] nss[ni].actions@[q]).spec_name() != name
}

/// Only one pair of positions holds the first action of a name.
pub proof fn lemma_action_first_unique(
    nss: Seq<Namespace>,
    name: Seq<char>,
    n1: int,
    a1: int,
    n2: int,
    a2: int,
)
    requires
        action_first_at(nss, name, n1, a1),
        action_first_at(nss, name, n2, a2),
    ensures
        n1 == n2 && a1 == a2,
{
    if n1 < n2 {
        assert(nss[n1].actions@[a1].spec_name() == name);
    }
    if n2 < n1 {
        assert(nss[n2].actions@[a2].spec_name() == name);
    }
    if n1 == n2 && a1 < a2 {
        assert(nss[n1].actions@[a1].spec_name() == name);
    }
    if n1 == n2 && a2 < a1 {
        assert(nss[n2].actions@[a2].spec_name() == name);
    }
}

/// Some action of some namespace is named `name`.
pub open spec fn has_action(nss: Seq<Namespace>, name: Seq<char>) -> bool {
    exists|p: int, q: int|
        0 <= p < nss.len() && 0 <= q < nss[p].actions@.len() && (
        #[trigger] nss[p].actions@[q]).spec_name() == name
}

impl State {
    /// Advances the step counter; the step is refused with the budget error
    /// once the counter reaches a positive budget. A budget of zero never
    /// refuses. Nothing but the counter changes.
    pub fn on_step(&mut self) -> (r: Result<(), AgentError>)
        requires
            old(self).spec_metrics().current_step < usize::MAX,
        ensures
            final(self).spec_metrics().current_step == old(self).spec_metrics().current_step + 1,
            final(self).spec_metrics().max_steps == old(self).spec_metrics().max_steps,
            final(self).same_static_parts(old(self)),
            final(self).spec_history() == old(self).spec_history(),
            final(self).spec_complete() == old(self).spec_complete(),
            r is Ok <==> step_allowed(
                final(self).spec_metrics().current_step as nat,
                final(self).spec_metrics().max_steps as nat,
            ),
            r matches Err(e) ==> e == AgentError::BudgetExhausted,
    {
        let ok = self.metrics.advance();
        if ok {
            Ok(())
        } else {
            Err(AgentError::BudgetExhausted)
        }
    }

    /// A retrieval request for the configured store, or the configuration
    /// error: the request is granted if and only if the task supplied a
    /// retrieval configuration.
    pub fn rag_query(&self, query: &str, top_k: usize) -> (r: Result<RagQuery, AgentError>)
        ensures
            match r {
                Ok(q) => self.spec_rag() is Some && q.query@ == query@ && q.top_k == top_k,
                Err(e) => self.spec_rag() is None && e == AgentError::NoRetrievalConfigured,
            },
    {
        if self.rag.is_some() {
            Ok(RagQuery { query: query.to_owned(), top_k })
        } else {
            Err(AgentError::NoRetrievalConfigured)
        }
    }

    /// The most recent `max` history records as chat message pairs, oldest
    /// first.
    pub fn to_chat_history(&self, max: usize) -> (r: Vec<Message>)
        ensures
            ({
                let w = spec_window(self.spec_history(), max as int);
                &&& r@.len() == 2 * w.len()
                &&& forall|i: int|
                    0 <= i < w.len() ==> crate::history::is_agent_message(
                        r@[2 * i],
                        #[trigger] w[i],
                    )
                &&& forall|i: int|
                    0 <= i < w.len() ==> crate::history::is_feedback_message(
                        r@[2 * i + 1],
                        #[trigger] w[i],
                    )
            }),
    {
        self.history.to_chat_history(max)
    }

    /// The task of this run.
    pub fn get_task(&self) -> (r: &Task)
        ensures
            *r == self.spec_task(),
    {
        &self.task
    }

    /// Every storage of the run.
    pub fn get_storages(&self) -> (r: &Vec<Storage>)
        ensures
            r@ == self.spec_storages(),
    {
        &self.storages
    }

    /// The storage named `name` for reading; the storage-not-found error if
    /// and only if no active namespace declared it. Storages are never
    /// created on read.
    pub fn get_storage(&self, name: &str) -> (r: Result<&Storage, AgentError>)
        ensures
            match r {
                Ok(st) => exists|i: int|
                    #[trigger] storage_first_at(self.spec_storages(), name@, i) && *st
                        == self.spec_storages()[i],
                Err(e) => !storages_has_name(self.spec_storages(), name@) && (e matches AgentError::StorageNotFound(m)
                    && m@ == name@),
            },
    {
        let key = name.to_owned();
        match storages_index(&self.storages, &key) {
            Some(i) => {
                proof {
                    assert(storage_first_at(self.spec_storages(), name@, i as int)
                        && self.spec_storages()[i as int] == self.spec_storages()[i as int]);
                }
                Ok(&self.storages[i])
            },
            None => Err(AgentError::StorageNotFound(key)),
        }
    }

    /// The position of the storage named `name`, for mutation through the
    /// storage mutators; the storage-not-found error if and only if no
    /// active namespace declared it. Nothing changes.
    pub fn get_storage_mut(&mut self, name: &str) -> (r: Result<usize, AgentError>)
        ensures
            *final(self) == *old(self),
            match r {
                Ok(i) => storage_first_at(old(self).spec_storages(), name@, i as int),
                Err(e) => !storages_has_name(old(self).spec_storages(), name@) && (e matches AgentError::StorageNotFound(m)
                    && m@ == name@),
            },
    {
        let key = name.to_owned();
        match storages_index(&self.storages, &key) {
            Some(i) => Ok(i),
            None => Err(AgentError::StorageNotFound(key)),
        }
    }

    /// Empties the storage at position `i`; its name and shape stay, and no
    /// other part of the state changes.
    pub fn storage_clear(&mut self, i: usize)
        requires
            i < old(self).spec_storages().len(),
        ensures
            final(self).spec_storages().len() == old(self).spec_storages().len(),
            final(self).spec_storages()[i as int].spec_name() == old(self).spec_storages()[
                i as int].spec_name(),
            final(self).spec_storages()[i as int].spec_type() == old(self).spec_storages()[
                i as int].spec_type(),
            final(self).spec_storages()[i as int].spec_entries().len() == 0,
            final(self).spec_storages()[i as int].spec_current() is None,
            forall|j: int|
                0 <= j < old(self).spec_storages().len() && j != i ==> final(self).spec_storages()[j]
                    == old(self).spec_storages()[j],
            final(self).spec_task() == old(self).spec_task(),
            final(self).spec_namespaces() == old(self).spec_namespaces(),
            final(self).spec_rag() == old(self).spec_rag(),
            final(self).spec_history() == old(self).spec_history(),
            final(self).spec_complete() == old(self).spec_complete(),
            final(self).spec_metrics() == old(self).spec_metrics(),
    {
        self.storages[i].clear();
    }

    /// Sets `key` to `value` in the tagged storage at position `i`; no other
    /// part of the state changes.
    pub fn storage_add_tagged(&mut self, i: usize, key: &String, value: &String)
        requires
            i < old(self).spec_storages().len(),
        ensures
            final(self).spec_storages().len() == old(self).spec_storages().len(),
            ({
                let st_old = old(self).spec_storages()[i as int];
                let st = final(self).spec_storages()[i as int];
                &&& st.spec_name() == st_old.spec_name()
                &&& st.spec_type() == st_old.spec_type()
                &&& st.spec_current() == st_old.spec_current()
                &&& (crate::storage::kv_has_key(st_old.spec_entries(), key@) ==> exists|n: int|
                    #[trigger] crate::storage::kv_first_at(st_old.spec_entries(), key@, n)
                        && st.spec_entries() == st_old.spec_entries().update(n, (*key, *value)))
                &&& (!crate::storage::kv_has_key(st_old.spec_entries(), key@)
                    ==> st.spec_entries() == st_old.spec_entries().push((*key, *value)))
            }),
            forall|j: int|
                0 <= j < old(self).spec_storages().len() && j != i ==> final(self).spec_storages()[j]
                    == old(self).spec_storages()[j],
            final(self).spec_task() == old(self).spec_task(),
            final(self).spec_namespaces() == old(self).spec_namespaces(),
            final(self).spec_rag() == old(self).spec_rag(),
            final(self).spec_history() == old(self).spec_history(),
            final(self).spec_complete() == old(self).spec_complete(),
            final(self).spec_metrics() == old(self).spec_metrics(),
    {
        self.storages[i].add_tagged(key, value);
    }

    /// The run's initial prompt.
    pub fn to_prompt(&self) -> (r: String)
        ensures
            r@ == self.spec_task().prompt@,
    {
        self.task.to_prompt()
    }

    /// Whether the terminal completion signal was processed.
    pub fn is_complete(&self) -> (r: bool)
        ensures
            r == self.spec_complete(),
    {
        self.complete
    }

    /// The active namespaces, in resolution order.
    pub fn get_namespaces(&self) -> (r: &Vec<Namespace>)
        ensures
            r@ == self.spec_namespaces(),
    {
        &self.namespaces
    }

    /// The value of the task variable `name`, if the task defines it.
    pub fn get_variable(&self, name: &String) -> (r: Option<String>)
        ensures
            match r {
                Some(v) => exists|i: int|
                    #[trigger] crate::storage::kv_first_at(self.spec_task().variables@, name@, i)
                        && v == self.spec_task().variables@[i].1,
                None => !crate::storage::kv_has_key(self.spec_task().variables@, name@),
            },
    {
        match crate::storage::kv_find(&self.task.variables, name) {
            Some(i) => {
                let v = self.task.variables[i].1.clone();
                proof {
                    assert(crate::storage::kv_first_at(self.spec_task().variables@, name@, i as int)
                        && v == self.spec_task().variables@[i as int].1);
                }
                Some(v)
            },
            None => None,
        }
    }

    /// Records one successful step; exactly one record is appended and
    /// nothing else changes.
    pub fn add_success_to_history(&mut self, invocation: Invocation, result: Option<String>)
        ensures
            final(self).spec_history() == old(self).spec_history().push(
                Execution::Success { invocation, result },
            ),
            final(self).same_static_parts(old(self)),
            final(self).spec_complete() == old(self).spec_complete(),
            final(self).spec_metrics() == old(self).spec_metrics(),
    {
        self.history.push(Execution::Success { invocation, result });
    }

    /// Records one failed step; exactly one record is appended and nothing
    /// else changes.
    pub fn add_error_to_history(&mut self, invocation: Invocation, error: String)
        ensures
            final(self).spec_history() == old(self).spec_history().push(
                Execution::Failure { invocation, error },
            ),
            final(self).same_static_parts(old(self)),
            final(self).spec_complete() == old(self).spec_complete(),
            final(self).spec_metrics() == old(self).spec_metrics(),
    {
        self.history.push(Execution::Failure { invocation, error });
    }

    /// Records one model reply that could not be parsed, together with the
    /// parse error; exactly one record is appended and nothing else changes.
    pub fn add_unparsed_response_to_history(&mut self, response: &str, error: String)
        ensures
            final(self).spec_history().len() == old(self).spec_history().len() + 1,
            final(self).spec_history().take(old(self).spec_history().len() as int) == old(
                self,
            ).spec_history(),
            final(self).spec_history().last() matches Execution::Unparsed { response: re, error: er }
                && re@ == response@ && er == error,
            final(self).same_static_parts(old(self)),
            final(self).spec_complete() == old(self).spec_complete(),
            final(self).spec_metrics() == old(self).spec_metrics(),
    {
        let e = Execution::Unparsed { response: response.to_owned(), error };
        self.history.push(e);
        proof {
            assert(final(self).spec_history().take(old(self).spec_history().len() as int)
                =~= old(self).spec_history());
        }
    }

    /// The first action named `name`, scanning namespaces in resolution
    /// order and actions in declaration order; nothing when no action has
    /// the name. A later action of the same name elsewhere is shadowed.
    pub fn get_action(&self, name: &str) -> (r: Option<&Action>)
        ensures
            match r {
                Some(a) => exists|ni: int, ai: int|
                    #[trigger] action_first_at(self.spec_namespaces(), name@, ni, ai) && *a
                        == self.spec_namespaces()[ni].actions@[ai],
                None => !has_action(self.spec_namespaces(), name@),
            },
    {
        let key = name.to_owned();
        let mut ni: usize = 0;
        while ni < self.namespaces.len()
            invariant
                ni <= self.spec_namespaces().len(),
                key@ == name@,
                forall|p: int, q: int|
                    0 <= p < ni && 0 <= q < self.spec_namespaces()[p].actions@.len() ==> (
                    #[trigger] self.spec_namespaces()[p].actions@[q]).spec_name() != name@,
            decreases self.spec_namespaces().len() - ni,
        {
            let actions = &self.namespaces[ni].actions;
            let mut ai: usize = 0;
            while ai < actions.len()
                invariant
                    ni < self.spec_namespaces().len(),
                    actions@ == self.spec_namespaces()[ni as int].actions@,
                    ai <= actions@.len(),
                    key@ == name@,
                    forall|p: int, q: int|
                        0 <= p < ni && 0 <= q < self.spec_namespaces()[p].actions@.len() ==> (
                        #[trigger] self.spec_namespaces()[p].actions@[q]).spec_name() != name@,
                    forall|q: int|
                        0 <= q < ai ==> (#[trigger] actions@[q]).spec_name() != name@,
                decreases actions@.len() - ai,
            {
                if actions[ai].name().eq(&key) {
                    proof {
                        assert(action_first_at(
                            self.spec_namespaces(),
                            name@,
                            ni as int,
                            ai as int,
                        ));
                    }
                    return Some(&actions[ai]);
                }
                ai = ai + 1;
            }
            ni = ni + 1;
        }
        proof {
            assert(!has_action(self.spec_namespaces(), name@));
        }
        None
    }

    /// Marks the task complete — irreversibly — and emits the terminal
    /// event. The flag is set even when the event sink is gone; only the
    /// send failure is reported.
    pub fn on_complete(&mut self, impossible: bool, reason: Option<String>) -> (r: Result<
        (),
        AgentError,
    >)
        ensures
            final(self).spec_complete() == true,
            final(self).same_static_parts(old(self)),
            final(self).spec_history() == old(self).spec_history(),
            final(self).spec_metrics() == old(self).spec_metrics(),
            r matches Err(e) ==> e == AgentError::EventSinkClosed,
    {
        self.complete = true;
        self.on_event(Event::TaskComplete { impossible, reason })
    }

    /// The system prompt of the run: the task text, then one section per
    /// active namespace naming and describing each of its actions.
    pub fn build_prompt(&self) -> (r: String)
        ensures
            r@ == self.spec_task().prompt@ + "\n"@ + spec_namespaces_text(self.spec_namespaces()),
    {
        let mut s = self.task.to_prompt();
        s.append("\n");
        let mut a: usize = 0;
        while a < self.namespaces.len()
            invariant
                a <= self.spec_namespaces().len(),
                s@ == self.spec_task().prompt@ + "\n"@ + spec_namespaces_text(
                    self.spec_namespaces().take(a as int),
                ),
            decreases self.spec_namespaces().len() - a,
        {
            let ns = &self.namespaces[a];
            s.append("\n# ");
            s.append(ns.name.as_str());
            s.append("\n");
            s.append(ns.description.as_str());
            s.append("\n");
            let ghost base = s@;
            let mut b: usize = 0;
            while b < ns.actions.len()
                invariant
                    b <= ns.actions@.len(),
                    s@ == base + spec_actions_text(ns.actions@.take(b as int)),
                decreases ns.actions@.len() - b,
            {
                let act = &ns.actions[b];
                s.append("- ");
                let name = act.name();
                s.append(name.as_str());
                s.append(": ");
                let description = act.description();
                s.append(description.as_str());
                s.append("\n");
                proof {
                    assert(ns.actions@.take(b + 1).drop_last() =~= ns.actions@.take(b as int));
                    assert(ns.actions@.take(b + 1).last() == ns.actions@[b as int]);
                    assert(s@ =~= base + spec_actions_text(ns.actions@.take(b + 1)));
                }
                b = b + 1;
            }
            proof {
                assert(ns.actions@.take(ns.actions@.len() as int) =~= ns.actions@);
                assert(self.spec_namespaces().take(a + 1).drop_last() =~= self.spec_namespaces(
                ).take(a as int));
                assert(self.spec_namespaces().take(a + 1).last() == self.spec_namespaces()[
                    a as int]);
                assert(s@ =~= self.spec_task().prompt@ + "\n"@ + spec_namespaces_text(
                    self.spec_namespaces().take(a + 1),
                ));
            }
            a = a + 1;
        }
        proof {
            assert(self.spec_namespaces().take(self.spec_namespaces().len() as int)
                =~= self.spec_namespaces());
        }
        s
    }

    /// Forwards one event to the outbound sink; fails exactly when the sink
    /// has no receiver any more. The state itself never changes.
    pub fn on_event(&self, event: Event) -> (r: Result<(), AgentError>)
        ensures
            r matches Err(e) ==> e == AgentError::EventSinkClosed,
    {
        match send_event(&self.events_tx, event) {
            Ok(()) => Ok(()),
            Err(_) => Err(AgentError::EventSinkClosed),
        }
    }
}

} // verus!
