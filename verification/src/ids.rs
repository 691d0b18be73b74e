use vstd::prelude::*;

verus! {

use vstd::string::*;

/// The directory-name prefix (ending in the separator) that marks an
/// immediate child of the workspace root as a module.
pub open spec fn workspace_prefix() -> Seq<char> {
    "beacon_dao-"@
}

/// The suffix of `name` after its last `'-'`; `name` itself when it holds no
/// `'-'`. This is how both module directory names and declared dependency
/// names are reduced to module identifiers.
pub open spec fn normalized(name: Seq<char>) -> Seq<char>
    decreases name.len(),
{
    if name.len() == 0 {
        name
    } else if name.last() == '-' {
        Seq::empty()
    } else {
        normalized(name.drop_last()).push(name.last())
    }
}

/// The module identifier a directory name denotes: the suffix after the last
/// separator, provided the name carries the workspace prefix.
pub open spec fn module_id_of(name: Seq<char>) -> Option<Seq<char>> {
    if workspace_prefix().is_prefix_of(name) {
        Some(normalized(name))
    } else {
        None
    }
}

proof fn lemma_normalized_no_dash(name: Seq<char>)
    requires
        forall|i: int| 0 <= i < name.len() ==> name[i] != '-',
    ensures
        normalized(name) == name,
    decreases name.len(),
{
    if name.len() == 0 {
        assert(normalized(name) =~= name);
    } else {
        lemma_normalized_no_dash(name.drop_last());
        assert(normalized(name) =~= name);
    }
}

proof fn lemma_normalized_after_dash(name: Seq<char>, d: int)
    requires
        0 <= d < name.len(),
        name[d] == '-',
        forall|i: int| d < i < name.len() ==> name[i] != '-',
    ensures
        normalized(name) == name.skip(d + 1),
    decreases name.len(),
{
    if d == name.len() - 1 {
        assert(normalized(name) =~= name.skip(d + 1));
    } else {
        lemma_normalized_after_dash(name.drop_last(), d);
        assert(normalized(name) =~= name.skip(d + 1));
    }
}

/// The position of the last `'-'` in `name`, if any.
fn last_dash_index(name: &String) -> (r: Option<usize>)
    ensures
        r matches Some(d) ==> d < name@.len() && name@[d as int] == '-' && forall|j: int|
            d < j < name@.len() ==> name@[j] != '-',
        r is None ==> forall|j: int| 0 <= j < name@.len() ==> name@[j] != '-',
{
    let n = name.as_str().unicode_len();
    let mut i: usize = n;
    while i > 0
        invariant
            i <= n,
            n == name@.len(),
            forall|j: int| i <= j < n ==> name@[j] != '-',
        decreases i,
    {
        if name.as_str().get_char(i - 1) == '-' {
            return Some(i - 1);
        }
        i = i - 1;
    }
    None
}

/// Reduces a module or dependency name to its identifier: the suffix after
/// the last separator, or the whole name when no separator occurs.
pub fn normalize_name(name: &String) -> (r: String)
    ensures
        r@ == normalized(name@),
{
    match last_dash_index(name) {
        Some(d) => {
            let n = name.as_str().unicode_len();
            proof {
                lemma_normalized_after_dash(name@, d as int);
            }
            let suffix = name.as_str().substring_char(d + 1, n);
            suffix.to_owned()
        },
        None => {
            proof {
                lemma_normalized_no_dash(name@);
            }
            name.clone()
        },
    }
}

/// Whether `name` starts with the workspace prefix.
fn has_workspace_prefix(name: &String) -> (b: bool)
    ensures
        b == workspace_prefix().is_prefix_of(name@),
{
    proof {
        reveal_strlit("beacon_dao-");
    }
    let p = "beacon_dao-";
    let plen = p.unicode_len();
    if name.as_str().unicode_len() < plen {
        return false;
    }
    let mut i: usize = 0;
    while i < plen
        invariant
            0 <= i <= plen,
            plen == workspace_prefix().len(),
            p@ == workspace_prefix(),
            name@.len() >= plen,
            forall|j: int| 0 <= j < i ==> name@[j] == workspace_prefix()[j],
        decreases plen - i,
    {
        if name.as_str().get_char(i) != p.get_char(i) {
            return false;
        }
        i = i + 1;
    }
    proof {
        assert(workspace_prefix() =~= name@.subrange(0, plen as int));
    }
    true
}

/// The module identifier a directory name denotes, or `None` when the name
/// does not carry the workspace prefix.
pub fn module_id(name: &String) -> (r: Option<String>)
    ensures
        r is Some <==> module_id_of(name@) is Some,
        r matches Some(id) ==> module_id_of(name@) == Some(id@),
{
    if has_workspace_prefix(name) {
        Some(normalize_name(name))
    } else {
        None
    }
}

} // verus!
