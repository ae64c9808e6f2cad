//! Finding a node in a flow's node collection by name.

use vstd::prelude::*;

use crate::node::Node;

verus! {

/// The position of the first node carrying `name`, if any.
pub open spec fn find_node<N: Node>(nodes: Seq<N>, name: Seq<char>) -> Option<int>
    decreases nodes.len(),
{
    if nodes.len() == 0 {
        None
    } else if nodes[0].name_spec() == name {
        Some(0)
    } else {
        match find_node(nodes.drop_first(), name) {
            Some(i) => Some(i + 1),
            None => None,
        }
    }
}

/// `find_node` yields an in-range position holding the name.
pub proof fn lemma_find_node_valid<N: Node>(nodes: Seq<N>, name: Seq<char>)
    ensures
        match find_node(nodes, name) {
            Some(i) => 0 <= i < nodes.len() && nodes[i].name_spec() == name,
            None => forall|j: int|
                0 <= j < nodes.len() ==> (#[trigger] nodes[j]).name_spec() != name,
        },
    decreases nodes.len(),
{
    if nodes.len() > 0 {
        lemma_find_node_valid(nodes.drop_first(), name);
        assert(forall|j: int|
            1 <= j < nodes.len() ==> #[trigger] nodes[j] == nodes.drop_first()[j - 1]);
    }
}

/// `find_node` yields the first position holding the name.
pub proof fn lemma_find_node_first<N: Node>(nodes: Seq<N>, name: Seq<char>, i: int)
    requires
        0 <= i < nodes.len(),
        nodes[i].name_spec() == name,
        forall|j: int| 0 <= j < i ==> (#[trigger] nodes[j]).name_spec() != name,
    ensures
        find_node(nodes, name) == Some(i),
    decreases i,
{
    if i > 0 {
        lemma_find_node_first(nodes.drop_first(), name, i - 1);
    }
}

/// The first node carrying `name`, if any.
pub fn node_by_name<'a, N: Node>(nodes: &'a Vec<N>, name: &str) -> (r: Option<&'a N>)
    ensures
        match r {
            Some(n) => {
                &&& find_node(nodes@, name@) is Some
                &&& *n == nodes@[find_node(nodes@, name@)->Some_0]
            },
            None => find_node(nodes@, name@) is None,
        },
{
    let target = name.to_owned();
    let mut i: usize = 0;
    while i < nodes.len()
        invariant
            target@ == name@,
            i <= nodes@.len(),
            forall|j: int| 0 <= j < i ==> (#[trigger] nodes@[j]).name_spec() != name@,
        decreases nodes@.len() - i,
    {
        let c = nodes[i].common();
        if c.name == target {
            proof {
                lemma_find_node_first(nodes@, name@, i as int);
            }
            return Some(&nodes[i]);
        }
        i += 1;
    }
    proof {
        lemma_find_node_valid(nodes@, name@);
        if find_node(nodes@, name@) is Some {
            let k = find_node(nodes@, name@)->Some_0;
            assert(nodes@[k].name_spec() != name@);
        }
    }
    None
}

/// A mutable borrow of the first node carrying `name`, if any.
pub fn node_by_name_mut<'a, N: Node>(nodes: &'a mut Vec<N>, name: &str) -> (r: Option<&'a mut N>)
    ensures
        match r {
            Some(n) => {
                &&& find_node(old(nodes)@, name@) is Some
                &&& *n == old(nodes)@[find_node(old(nodes)@, name@)->Some_0]
                &&& final(nodes)@ == old(nodes)@.update(
                    find_node(old(nodes)@, name@)->Some_0,
                    *final(n),
                )
            },
            None => {
                &&& find_node(old(nodes)@, name@) is None
                &&& final(nodes)@ == old(nodes)@
            },
        },
{
    let target = name.to_owned();
    let n = nodes.len();
    let mut i: usize = 0;
    while i < n
        invariant
            target@ == name@,
            i <= n,
            n == nodes@.len(),
            nodes@ == old(nodes)@,
            forall|j: int| 0 <= j < i ==> (#[trigger] nodes@[j]).name_spec() != name@,
        decreases n - i,
    {
        let c = nodes[i].common();
        if c.name == target {
            proof {
                lemma_find_node_first(nodes@, name@, i as int);
            }
            let r = &mut nodes[i];
            return Some(r);
        }
        i += 1;
    }
    proof {
        lemma_find_node_valid(nodes@, name@);
        if find_node(nodes@, name@) is Some {
            let k = find_node(nodes@, name@)->Some_0;
            assert(nodes@[k].name_spec() != name@);
        }
    }
    None
}

} // verus!
