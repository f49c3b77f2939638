//! Names of structure templates as the template cache keys them.

use vstd::prelude::*;
use crate::structures::jigsaw::{structure_template_groups, template_pool_groups};

verus! {

/// The namespace a template name may carry: `minecraft:`.
pub open spec fn namespace_prefix() -> Seq<char> {
    seq!['m', 'i', 'n', 'e', 'c', 'r', 'a', 'f', 't', ':']
}

/// A template name without its `minecraft:` namespace, if it has one.
pub open spec fn strip_namespace(name: Seq<char>) -> Seq<char> {
    if name.len() >= 10 && name.subrange(0, 10) == namespace_prefix() {
        name.skip(10)
    } else {
        name
    }
}

/// The key the template cache files a template name under: the name
/// without a leading `minecraft:`.
pub fn template_cache_key(name: &str) -> (key: &str)
    ensures
        key@ == strip_namespace(name@),
{
    let n = name.unicode_len();
    if n < 10 {
        return name;
    }
    let prefix: [char; 10] = ['m', 'i', 'n', 'e', 'c', 'r', 'a', 'f', 't', ':'];
    assert(prefix@ == namespace_prefix());
    let mut i: usize = 0;
    while i < 10
        invariant
            i <= 10,
            n == name@.len(),
            n >= 10,
            prefix@ == namespace_prefix(),
            forall|j: int| 0 <= j < i ==> name@[j] == namespace_prefix()[j],
        decreases 10 - i,
    {
        if name.get_char(i) != prefix[i] {
            assert(name@.subrange(0, 10)[i as int] != namespace_prefix()[i as int]);
            return name;
        }
        i = i + 1;
    }
    assert(name@.subrange(0, 10) =~= namespace_prefix());
    name.substring_char(10, n)
}

/// A template name and the same name with the `minecraft:` namespace in
/// front are filed under the same key, the name itself, whenever the name
/// does not itself start with the namespace.
pub proof fn lemma_namespaced_names_share_key(name: Seq<char>)
    requires
        !(name.len() >= 10 && name.subrange(0, 10) == namespace_prefix()),
    ensures
        strip_namespace(namespace_prefix() + name) == strip_namespace(name),
        strip_namespace(name) == name,
{
    let full = namespace_prefix() + name;
    assert(full.subrange(0, 10) =~= namespace_prefix());
    assert(full.skip(10) =~= name);
}


/// Preload the template pools whose ids make up `group`, handing each id,
/// in order, to `preload_pool` (which finds the pool and loads its
/// templates).
pub fn preload_structure_group<F: Fn(&str)>(group: &[&str], preload_pool: &F)
    requires
        forall|i: int| 0 <= i < group@.len() ==> call_requires(*preload_pool, (group@[i],)),
    ensures
        forall|i: int|
            0 <= i < group@.len() ==> call_ensures(*preload_pool, (group@[i],), ()),
{
    let mut i: usize = 0;
    while i < group.len()
        invariant
            i <= group@.len(),
            forall|j: int| 0 <= j < group@.len() ==> call_requires(*preload_pool, (group@[j],)),
            forall|j: int| 0 <= j < i ==> call_ensures(*preload_pool, (group@[j],), ()),
        decreases group@.len() - i,
    {
        preload_pool(group[i]);
        i = i + 1;
    }
}

/// Preload the template pools of every jigsaw structure family, group by
/// group, handing each pool id to `preload_pool`: afterwards every pool id
/// of the preloaded groups has been handed over.
pub fn preload_all_structure_templates<F: Fn(&str)>(preload_pool: &F)
    requires
        forall|s: &str| call_requires(*preload_pool, (s,)),
    ensures
        forall|i: int, j: int|
            0 <= i < template_pool_groups().len() && 0 <= j < template_pool_groups()[i].len()
                ==> call_ensures(*preload_pool, (template_pool_groups()[i][j],), ()),
{
    let groups = structure_template_groups();
    let mut g: usize = 0;
    while g < groups.len()
        invariant
            g <= groups@.len(),
            groups@.len() == template_pool_groups().len(),
            forall|i: int| 0 <= i < groups@.len() ==> #[trigger] groups@[i]@ == template_pool_groups()[i],
            forall|s: &str| call_requires(*preload_pool, (s,)),
            forall|i: int, j: int|
                0 <= i < g && 0 <= j < template_pool_groups()[i].len() ==> call_ensures(
                    *preload_pool,
                    (template_pool_groups()[i][j],),
                    (),
                ),
        decreases groups@.len() - g,
    {
        preload_structure_group(groups[g].as_slice(), preload_pool);
        assert(groups@[g as int]@ == template_pool_groups()[g as int]);
        g = g + 1;
    }
}

} // verus!
