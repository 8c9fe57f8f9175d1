//! Whether anything is selected below an entity of the scene: its children
//! are searched, down to a depth limit, through those that can be selected.

use vstd::prelude::*;

verus! {

/// An entity of the scene as the search sees it: whether it can be selected
/// and is (`None`: it cannot be selected), and its children.
pub struct SelectionNode {
    pub selection: Option<bool>,
    pub children: Vec<SelectionNode>,
}

/// Whether one of `nodes` from index `i` on is selected, or, not being
/// selected itself but selectable, has a selected child at a depth up to
/// `max_depth` (the nodes being at `depth`). Nodes that cannot be selected
/// are not searched below.
pub open spec fn selection_found_from(nodes: Seq<SelectionNode>, i: int, depth: nat, max_depth: nat) -> bool
    decreases nodes, nodes.len() - i,
{
    if i < 0 || i >= nodes.len() {
        false
    } else {
        let found_here = match nodes[i].selection {
            Some(true) => true,
            Some(false) => if depth < max_depth {
                proof {
                    assert(decreases_to!(nodes => nodes[i]));
                    assert(decreases_to!(nodes[i] => nodes[i].children));
                    assert(decreases_to!(nodes[i].children => nodes[i].children@));
                }
                selection_found_from(nodes[i].children@, 0, depth + 1, max_depth)
            } else {
                false
            },
            None => false,
        };
        found_here || selection_found_from(nodes, i + 1, depth, max_depth)
    }
}

/// Whether anything among `children` (at `depth`) or below them, down to
/// `max_depth`, is selected; see `selection_found_from`.
pub fn check_selection_recursive(children: &Vec<SelectionNode>, depth: u32, max_depth: u32) -> (r: bool)
    ensures
        r == selection_found_from(children@, 0, depth as nat, max_depth as nat),
    decreases children@,
{
    let mut k: usize = 0;
    while k < children.len()
        invariant
            k <= children@.len(),
            selection_found_from(children@, 0, depth as nat, max_depth as nat) == selection_found_from(
                children@,
                k as int,
                depth as nat,
                max_depth as nat,
            ),
        decreases children@.len() - k,
    {
        let child = &children[k];
        match child.selection {
            Some(true) => {
                return true;
            },
            Some(false) => {
                if depth < max_depth {
                    proof {
                        assert(decreases_to!(children@ => children@[k as int]));
                        assert(decreases_to!(children@[k as int] => children@[k as int].children));
                        assert(decreases_to!(children@[k as int].children => children@[k as int].children@));
                    }
                    if check_selection_recursive(&child.children, depth + 1, max_depth) {
                        return true;
                    }
                }
            },
            None => {},
        }
        k = k + 1;
    }
    false
}

} // verus!
