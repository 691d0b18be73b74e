use vstd::prelude::*;

verus! {

use crate::classify::contains_string;
use crate::classify::distinct_seqs;
use crate::manifest::ModuleDescriptor;

/// The set of modules to compile this cycle: either the distinguished
/// unrestricted sentinel — every module, with no filtering downstream — or an
/// explicit set of module identifiers.
pub enum BuildClosure {
    Unrestricted,
    Restricted(Vec<String>),
}

/// Whether one module is picked up by a non-empty seed: it changed itself, or
/// it declares a direct dependency on a changed module. This is a single-hop
/// expansion: a module that depends only transitively on a changed one is not
/// picked up.
pub open spec fn module_selected(m: ModuleDescriptor, seed: Seq<Seq<char>>) -> bool {
    seed.contains(m.id@) || exists|j: int|
        0 <= j < m.deps.deep_view().len() && seed.contains(m.deps.deep_view()[j])
}

/// Whether `id` belongs to the closure of `seed` over `modules`: it is the
/// identifier of a known module that the seed selects. An identifier the seed
/// holds that names no known module belongs to no closure.
pub open spec fn closure_contains(
    id: Seq<char>,
    seed: Seq<Seq<char>>,
    modules: Seq<ModuleDescriptor>,
) -> bool {
    exists|i: int| 0 <= i < modules.len() && modules[i].id@ == id && module_selected(
        modules[i],
        seed,
    )
}

fn deps_hit(seed: &Vec<String>, deps: &Vec<String>) -> (b: bool)
    ensures
        b == exists|j: int| 0 <= j < deps.deep_view().len() && seed.deep_view().contains(
            deps.deep_view()[j],
        ),
{
    let mut j: usize = 0;
    while j < deps.len()
        invariant
            j <= deps.len(),
            forall|k: int| 0 <= k < j ==> !seed.deep_view().contains(deps.deep_view()[k]),
        decreases deps.len() - j,
    {
        if contains_string(seed, &deps[j]) {
            assert(deps.deep_view()[j as int] == deps@[j as int]@);
            return true;
        }
        j = j + 1;
    }
    false
}

/// Expands a seed change set into the closure of modules to build. An empty
/// seed means a full rebuild was asked for and yields the unrestricted
/// sentinel; otherwise the closure holds, without duplicates, exactly the
/// identifiers of the known modules that changed or directly depend on a
/// changed module.
pub fn resolve(seed: &Vec<String>, modules: &Vec<ModuleDescriptor>) -> (c: BuildClosure)
    ensures
        c is Unrestricted <==> seed.deep_view().len() == 0,
        c matches BuildClosure::Restricted(v) ==> distinct_seqs(v.deep_view()) && forall|
            id: Seq<char>,
        |
            #[trigger] v.deep_view().contains(id) <==> closure_contains(
                id,
                seed.deep_view(),
                modules@,
            ),
{
    let ghost sdv = seed.deep_view();
    if seed.len() == 0 {
        return BuildClosure::Unrestricted;
    }
    let mut out: Vec<String> = Vec::new();
    let mut i: usize = 0;
    while i < modules.len()
        invariant
            i <= modules.len(),
            sdv == seed.deep_view(),
            distinct_seqs(out.deep_view()),
            forall|id: Seq<char>| #[trigger] out.deep_view().contains(id) <==> exists|w: int|
                0 <= w < i && modules@[w].id@ == id && module_selected(modules@[w], sdv),
        decreases modules.len() - i,
    {
        let ghost prev = out.deep_view();
        let m = &modules[i];
        let selected = contains_string(seed, &m.id) || deps_hit(seed, &m.deps);
        if selected && !contains_string(&out, &m.id) {
            let ghost idv = m.id@;
            out.push(m.id.clone());
            proof {
                assert(out.deep_view() =~= prev.push(idv));
                assert(out.deep_view()[prev.len() as int] == idv);
                assert forall|a: int, b: int|
                    0 <= a < b < out.deep_view().len() implies out.deep_view()[a]
                    != out.deep_view()[b] by {
                    if b == prev.len() {
                        assert(prev[a] == out.deep_view()[a]);
                        if prev[a] == idv {
                            assert(prev.contains(idv));
                        }
                    }
                }
            }
        }
        proof {
            assert forall|id: Seq<char>| #[trigger] out.deep_view().contains(id) <==> exists|
                w: int,
            | 0 <= w < i + 1 && modules@[w].id@ == id && module_selected(modules@[w], sdv) by {
                if out.deep_view().contains(id) {
                    if prev.contains(id) {
                        let w = choose|w: int|
                            0 <= w < i && modules@[w].id@ == id && module_selected(
                                modules@[w],
                                sdv,
                            );
                        assert(0 <= w < i + 1 && modules@[w].id@ == id && module_selected(
                            modules@[w],
                            sdv,
                        ));
                    } else {
                        assert(out.deep_view().last() == id);
                        assert(modules@[i as int].id@ == id && module_selected(
                            modules@[i as int],
                            sdv,
                        ));
                    }
                }
                if exists|w: int|
                    0 <= w < i + 1 && modules@[w].id@ == id && module_selected(
                        modules@[w],
                        sdv,
                    ) {
                    let w = choose|w: int|
                        0 <= w < i + 1 && modules@[w].id@ == id && module_selected(
                            modules@[w],
                            sdv,
                        );
                    if w < i {
                        assert(prev.contains(id));
                        let wi = choose|wi: int| 0 <= wi < prev.len() && prev[wi] == id;
                        assert(out.deep_view()[wi] == id);
                        assert(out.deep_view().contains(id));
                    } else {
                        assert(modules@[i as int].id@ == id && module_selected(
                            modules@[i as int],
                            sdv,
                        ));
                        if prev.contains(id) {
                            let wi = choose|wi: int| 0 <= wi < prev.len() && prev[wi] == id;
                            assert(out.deep_view()[wi] == id);
                        } else {
                            assert(out.deep_view().contains(id));
                        }
                    }
                }
            }
        }
        i = i + 1;
    }
    BuildClosure::Restricted(out)
}

} // verus!
