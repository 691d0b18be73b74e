use vstd::prelude::*;

verus! {

use crate::ids::module_id;
use crate::ids::module_id_of;

/// The directory name a classified change must lie under: only edits below a
/// module's source directory count, never the build outputs the orchestrator
/// writes back into the workspace tree.
pub open spec fn src_component() -> Seq<char> {
    "src"@
}

/// No two entries are the same identifier.
pub open spec fn distinct_seqs(s: Seq<Seq<char>>) -> bool {
    forall|i: int, j: int| 0 <= i < j < s.len() ==> s[i] != s[j]
}

/// Whether the components below the workspace root contain a directory named
/// `src` strictly between the terminal (module) directory and the changed
/// entry itself.
pub open spec fn under_src(rest: Seq<Seq<char>>) -> bool {
    exists|i: int| 1 <= i < rest.len() - 1 && rest[i] == src_component()
}

/// Classification of one canonical absolute path, given the canonical
/// workspace root, both as component sequences: the identifier of the module
/// whose source tree the path lies in, or `None`.
pub open spec fn classify_spec(path: Seq<Seq<char>>, root: Seq<Seq<char>>) -> Option<Seq<char>> {
    if root.len() < path.len() && root.is_prefix_of(path) && under_src(
        path.skip(root.len() as int),
    ) {
        module_id_of(path[root.len() as int])
    } else {
        None
    }
}

/// The kind of one raw filesystem event, as the watch loop sees it.
#[derive(Clone, Copy, Debug)]
pub enum FsEventKind {
    /// An entry was created.
    Create,
    /// An entry was removed.
    Remove,
    /// An entry's data changed.
    ModifyData,
    /// Only metadata changed: permissions, timestamps.
    ModifyMetadata,
    /// An entry was renamed.
    ModifyName,
    /// Any other modification or event.
    Other,
}

/// Which events may reach classification: creation and removal always, and of
/// the modifications only data changes — metadata-only edits must never start
/// a build cycle.
pub open spec fn relevant_spec(k: FsEventKind) -> bool {
    k is Create || k is Remove || k is ModifyData
}

/// Filters one event by kind before any path is classified.
pub fn event_relevant(k: &FsEventKind) -> (b: bool)
    ensures
        b == relevant_spec(*k),
{
    match k {
        FsEventKind::Create => true,
        FsEventKind::Remove => true,
        FsEventKind::ModifyData => true,
        FsEventKind::ModifyMetadata => false,
        FsEventKind::ModifyName => false,
        FsEventKind::Other => false,
    }
}

/// Whether some path of the batch classifies to `id`.
pub open spec fn classified_in_prefix(
    paths: Seq<Seq<Seq<char>>>,
    root: Seq<Seq<char>>,
    n: int,
    id: Seq<char>,
) -> bool {
    exists|i: int| 0 <= i < n && classify_spec(paths[i], root) == Some(id)
}

/// The seed change set of one event batch: every affected path classified,
/// the resulting identifiers collected without duplicates.
pub fn seed_of_paths(paths: &Vec<Vec<String>>, root: &Vec<String>) -> (seed: Vec<String>)
    ensures
        distinct_seqs(seed.deep_view()),
        forall|id: Seq<char>| #[trigger] seed.deep_view().contains(id) <==> classified_in_prefix(
            paths.deep_view(),
            root.deep_view(),
            paths.deep_view().len() as int,
            id,
        ),
{
    let ghost pdv = paths.deep_view();
    let ghost rdv = root.deep_view();
    let mut seed: Vec<String> = Vec::new();
    let mut i: usize = 0;
    while i < paths.len()
        invariant
            i <= paths.len(),
            pdv == paths.deep_view(),
            rdv == root.deep_view(),
            distinct_seqs(seed.deep_view()),
            forall|id: Seq<char>| #[trigger] seed.deep_view().contains(id)
                <==> classified_in_prefix(pdv, rdv, i as int, id),
        decreases paths.len() - i,
    {
        let ghost prev = seed.deep_view();
        let r = classify(&paths[i], root);
        proof {
            assert(pdv[i as int] == paths@[i as int].deep_view());
        }
        match r {
            Some(id) => {
                let ghost idv = id@;
                if !contains_string(&seed, &id) {
                    seed.push(id);
                    proof {
                        assert(seed.deep_view() =~= prev.push(idv));
                        assert(seed.deep_view()[prev.len() as int] == idv);
                        assert(seed.deep_view().contains(idv));
                        assert forall|a: int, b: int|
                            0 <= a < b < seed.deep_view().len() implies seed.deep_view()[a]
                            != seed.deep_view()[b] by {
                            if b == prev.len() {
                                assert(prev[a] == seed.deep_view()[a]);
                                if prev[a] == idv {
                                    assert(prev.contains(idv));
                                }
                            }
                        }
                    }
                }
                proof {
                    assert(classify_spec(pdv[i as int], rdv) == Some(idv));
                    assert(seed.deep_view().contains(idv) || prev.contains(idv));
                }
            },
            None => {},
        }
        proof {
            assert forall|id: Seq<char>| #[trigger] seed.deep_view().contains(id)
                <==> classified_in_prefix(pdv, rdv, i + 1, id) by {
                if seed.deep_view().contains(id) {
                    let wi = choose|wi: int|
                        0 <= wi < seed.deep_view().len() && seed.deep_view()[wi] == id;
                    if wi < prev.len() {
                        assert(prev[wi] == id);
                        assert(prev.contains(id));
                        assert(classified_in_prefix(pdv, rdv, i as int, id));
                        let w = choose|w: int|
                            0 <= w < i && classify_spec(pdv[w], rdv) == Some(id);
                        assert(0 <= w < i + 1 && classify_spec(pdv[w], rdv) == Some(id));
                    } else {
                        assert(classify_spec(pdv[i as int], rdv) == Some(id));
                        assert(0 <= i < i + 1 && classify_spec(pdv[i as int], rdv) == Some(id));
                    }
                }
                if classified_in_prefix(pdv, rdv, i + 1, id) {
                    let w = choose|w: int|
                        0 <= w < i + 1 && classify_spec(pdv[w], rdv) == Some(id);
                    if w < i {
                        assert(classified_in_prefix(pdv, rdv, i as int, id));
                        assert(prev.contains(id));
                        let wi = choose|wi: int| 0 <= wi < prev.len() && prev[wi] == id;
                        assert(seed.deep_view()[wi] == id);
                        assert(seed.deep_view().contains(id));
                    } else {
                        assert(classify_spec(pdv[i as int], rdv) == Some(id));
                        if prev.contains(id) {
                            let wi = choose|wi: int| 0 <= wi < prev.len() && prev[wi] == id;
                            assert(seed.deep_view()[wi] == id);
                        }
                        assert(seed.deep_view().contains(id));
                    }
                }
            }
        }
        i = i + 1;
    }
    seed
}

/// Whether `v` holds a string whose characters are `x`'s.
pub fn contains_string(v: &Vec<String>, x: &String) -> (b: bool)
    ensures
        b == v.deep_view().contains(x@),
{
    let mut i: usize = 0;
    while i < v.len()
        invariant
            i <= v.len(),
            forall|j: int| 0 <= j < i ==> v.deep_view()[j] != x@,
        decreases v.len() - i,
    {
        if v[i] == *x {
            assert(v.deep_view()[i as int] == x@);
            return true;
        }
        i = i + 1;
    }
    assert(forall|j: int| 0 <= j < v.deep_view().len() ==> v.deep_view()[j] != x@);
    false
}

fn string_eq_lit(s: &String, lit: &str) -> (b: bool)
    ensures
        b == (s@ == lit@),
{
    let o: String = lit.to_owned();
    *s == o
}

/// The first index at or after `from` (and strictly before the final
/// component) whose component is named `src`.
fn find_src_component(path: &Vec<String>, from: usize) -> (r: Option<usize>)
    ensures
        r matches Some(k) ==> from <= k < path.deep_view().len() - 1 && path.deep_view()[k as int]
            == src_component(),
        r is None ==> forall|j: int| from <= j < path.deep_view().len() - 1
            ==> path.deep_view()[j] != src_component(),
{
    if path.len() == 0 {
        return None;
    }
    let mut k: usize = from;
    while k < path.len() - 1
        invariant
            path.len() >= 1,
            from <= k,
            forall|j: int| from <= j < k ==> path.deep_view()[j] != src_component(),
        decreases path.len() - k,
    {
        if string_eq_lit(&path[k], "src") {
            assert(path.deep_view()[k as int] == path@[k as int]@);
            return Some(k);
        }
        k = k + 1;
    }
    None
}

/// Maps one changed path to the module it belongs to. The path and the root
/// must already be canonical absolute component sequences; the caller
/// resolves symlinks and `.`/`..` before classification, so distinct textual
/// forms of one file classify identically.
pub fn classify(path: &Vec<String>, root: &Vec<String>) -> (r: Option<String>)
    ensures
        r is Some <==> classify_spec(path.deep_view(), root.deep_view()) is Some,
        r matches Some(id) ==> classify_spec(path.deep_view(), root.deep_view()) == Some(id@),
{
    let ghost pdv = path.deep_view();
    let ghost rdv = root.deep_view();
    if path.len() <= root.len() {
        return None;
    }
    let rl = root.len();
    let mut i: usize = 0;
    while i < rl
        invariant
            i <= rl,
            rl == rdv.len() < pdv.len(),
            pdv == path.deep_view(),
            rdv == root.deep_view(),
            forall|j: int| 0 <= j < i ==> pdv[j] == rdv[j],
        decreases rl - i,
    {
        if !(path[i] == root[i]) {
            assert(pdv[i as int] != rdv[i as int]);
            assert(!rdv.is_prefix_of(pdv));
            return None;
        }
        i = i + 1;
    }
    proof {
        assert(rdv =~= pdv.subrange(0, rl as int));
    }
    let ghost rest = pdv.skip(rl as int);
    let k = match find_src_component(path, rl + 1) {
        Some(k) => k,
        None => {
            proof {
                assert forall|ri: int| 1 <= ri < rest.len() - 1 implies rest[ri]
                    != src_component() by {
                    assert(rest[ri] == pdv[rl + ri]);
                }
                assert(!under_src(rest));
            }
            return None;
        },
    };
    proof {
        let ri = k - rl;
        assert(rest[ri as int] == pdv[k as int]);
        assert(under_src(rest));
    }
    let r = module_id(&path[rl]);
    proof {
        assert(pdv[rl as int] == path@[rl as int]@);
    }
    r
}

} // verus!
