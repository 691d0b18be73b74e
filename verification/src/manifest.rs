use vstd::prelude::*;

verus! {

use crate::ids::normalize_name;
use crate::ids::normalized;
use crate::ids::module_id;
use crate::ids::module_id_of;

/// One module of the workspace, freshly enumerated for a build cycle: the
/// directory name of its terminal directory, the identifier derived from it,
/// and the declared dependency names from its manifest, each reduced to an
/// identifier the same way.
#[derive(Clone, Debug)]
pub struct ModuleDescriptor {
    pub name: String,
    pub id: String,
    pub deps: Vec<String>,
}

/// A descriptor is consistent when its identifier is the one its directory
/// name derives to.
pub open spec fn descriptor_wf(d: ModuleDescriptor) -> bool {
    module_id_of(d.name@) == Some(d.id@)
}

/// The key names of one named sub-table of a parsed manifest text, or `None`
/// when the text does not parse or holds no such table. The result depends on
/// the two texts alone.
pub uninterp spec fn toml_table_key_names(text: Seq<char>, key: Seq<char>) -> Option<
    Seq<Seq<char>>,
>;

/// Relies on `toml::Table`'s `FromStr` (`str::parse`), `toml::map::Map::get`,
/// `toml::Value::as_table` and `toml::map::Map::keys`: parses `text` as a TOML
/// document and hands back the keys of the table named `key`, in the
/// deterministic order the parsed map yields them.
#[verifier::external_body]
fn parse_table_keys(text: &str, key: &str) -> (r: Option<Vec<String>>)
    ensures
        r is Some <==> toml_table_key_names(text@, key@) is Some,
        r matches Some(v) ==> toml_table_key_names(text@, key@) == Some(v.deep_view()),
{
    let table: toml::Table = match text.parse() {
        Ok(t) => t,
        Err(_) => return None,
    };
    let section = match table.get(key) {
        Some(v) => v,
        None => return None,
    };
    let section = match section.as_table() {
        Some(t) => t,
        None => return None,
    };
    Some(section.keys().cloned().collect())
}

/// Each name reduced to its identifier: the suffix after the last separator.
pub open spec fn normalized_all(names: Seq<Seq<char>>) -> Seq<Seq<char>> {
    names.map(|i: int, n: Seq<char>| normalized(n))
}

/// Reduces every declared dependency name to a module identifier.
pub fn normalize_names(names: &Vec<String>) -> (r: Vec<String>)
    ensures
        r.deep_view() == normalized_all(names.deep_view()),
{
    let ghost ndv = names.deep_view();
    let mut out: Vec<String> = Vec::new();
    let mut i: usize = 0;
    while i < names.len()
        invariant
            i <= names.len(),
            ndv == names.deep_view(),
            out.deep_view().len() == i,
            forall|j: int| 0 <= j < i ==> out.deep_view()[j] == normalized(ndv[j]),
        decreases names.len() - i,
    {
        let n = normalize_name(&names[i]);
        let ghost prev = out.deep_view();
        let ghost nv = n@;
        proof {
            assert(names@[i as int]@ == ndv[i as int]);
        }
        out.push(n);
        proof {
            assert(out.deep_view() =~= prev.push(nv));
        }
        i = i + 1;
    }
    proof {
        assert(out.deep_view() =~= normalized_all(ndv));
    }
    out
}

/// The declared dependencies a manifest text yields: the keys of its
/// dependency table, each reduced to an identifier; none when the text cannot
/// be read as a manifest — such a module is simply treated as declaring no
/// dependencies, never as an error.
pub open spec fn manifest_deps_of(text: Seq<char>) -> Seq<Seq<char>> {
    match toml_table_key_names(text, "dependencies"@) {
        Some(keys) => normalized_all(keys),
        None => Seq::empty(),
    }
}

/// Builds the descriptor of one immediate child of the workspace root from
/// its directory name and its manifest text, or `None` when the name does not
/// carry the workspace prefix and so denotes no module.
pub fn descriptor_of(name: &String, manifest: &str) -> (r: Option<ModuleDescriptor>)
    ensures
        r is Some <==> module_id_of(name@) is Some,
        r matches Some(d) ==> descriptor_wf(d) && d.name@ == name@ && d.deps.deep_view()
            == manifest_deps_of(manifest@),
{
    let id = match module_id(name) {
        Some(id) => id,
        None => {
            return None;
        },
    };
    let deps = match parse_table_keys(manifest, "dependencies") {
        Some(keys) => normalize_names(&keys),
        None => {
            let empty: Vec<String> = Vec::new();
            proof {
                assert(empty.deep_view() =~= Seq::<Seq<char>>::empty());
            }
            empty
        },
    };
    Some(ModuleDescriptor { name: name.clone(), id, deps })
}

} // verus!
