//! The hierarchical display tree of category paths: every slash-separated
//! prefix of an inserted path becomes a node, and inserting never loses a
//! path that the tree already held.

use vstd::prelude::*;
use vstd::string::StrSliceExecFns;
use vstd::string::StringExecFns;
use crate::text;

verus! {

/// One node of the display tree.
pub struct TreeNode {
    pub path: String,
    pub children: Vec<TreeNode>,
}

/// A node or one of its descendants carries the path.
pub open spec fn node_contains(n: TreeNode, p: Seq<char>) -> bool
    decreases n,
    via node_contains_dec
{
    n.path@ == p || exists|i: int|
        0 <= i < n.children@.len() && node_contains(#[trigger] n.children@[i], p)
}

#[via_fn]
proof fn node_contains_dec(n: TreeNode, p: Seq<char>) {
    assert forall|i: int| 0 <= i < n.children@.len() implies decreases_to!(
        n => n.children@[i]
    ) by {
        assert(decreases_to!(n => n.children));
        vstd::std_specs::vec::axiom_vec_index_decreases(n.children, i);
    }
}

/// Some tree in the forest carries the path.
pub open spec fn tree_contains(nodes: Seq<TreeNode>, p: Seq<char>) -> bool {
    exists|i: int| 0 <= i < nodes.len() && node_contains(#[trigger] nodes[i], p)
}

/// The parent of a category path: everything before its last separator.
pub fn get_parent_path(path: &str) -> (r: Option<String>)
    ensures
        match r {
            Some(p) => text::contains_char(path@, '/') && p@ == text::before_last_slash_spec(
                path@,
            ),
            None => !text::contains_char(path@, '/'),
        },
{
    text::parent_of_path(path)
}

/// Joining the pieces of a split gives the original text back.
pub proof fn lemma_join_split(s: Seq<char>, c: char)
    ensures
        text::join_char_spec(text::split_char_spec(s, c), c) == s,
    decreases s.len(),
{
    text::lemma_split_char_len(s, c);
    if s.len() == 0 {
        assert(text::join_char_spec(text::split_char_spec(s, c), c) =~= s);
    } else {
        let t = s.drop_last();
        let ch = s.last();
        lemma_join_split(t, c);
        text::lemma_split_char_len(t, c);
        let u = text::split_char_spec(t, c);
        if ch == c {
            let w = u.push(Seq::empty());
            assert(text::split_char_spec(s, c) == w);
            assert(w.len() >= 2);
            assert(w.drop_last() =~= u);
            assert(text::join_char_spec(w, c) == text::join_char_spec(u, c).push(c) + Seq::empty());
            assert(text::join_char_spec(w, c) =~= t.push(c));
            assert(t.push(c) =~= s);
        } else {
            let w = u.update(u.len() - 1, u.last().push(ch));
            assert(text::split_char_spec(s, c) == w);
            if u.len() == 1 {
                assert(w.len() == 1);
                assert(text::join_char_spec(w, c) == w[0]);
                assert(text::join_char_spec(u, c) == u[0]);
                assert(w[0] == u[0].push(ch));
                assert(u[0].push(ch) =~= s);
            } else {
                assert(w.drop_last() =~= u.drop_last());
                assert(w.last() == u.last().push(ch));
                assert(text::join_char_spec(w, c) == text::join_char_spec(w.drop_last(), c).push(
                    c,
                ) + w.last());
                assert(text::join_char_spec(u, c) == text::join_char_spec(u.drop_last(), c).push(
                    c,
                ) + u.last());
                assert(text::join_char_spec(w, c) =~= text::join_char_spec(u, c).push(ch));
                assert(text::join_char_spec(u, c).push(ch) =~= t.push(ch));
                assert(t.push(ch) =~= s);
            }
        }
    }
}

/// Insert a path into the forest from the given depth on: the
/// slash-separated prefixes of the path become a chain of nodes, an
/// existing node on the chain is descended into, and every path the
/// forest already held is kept.
pub fn insert_into_tree_recursive(nodes: Vec<TreeNode>, path: &str, depth: usize) -> (r: Vec<
    TreeNode,
>)
    ensures
        forall|q: Seq<char>| tree_contains(nodes@, q) ==> tree_contains(r@, q),
        forall|k: int|
            depth < k <= text::split_char_spec(path@, '/').len() ==> tree_contains(
                r@,
                text::join_char_spec(text::split_char_spec(path@, '/').subrange(0, k), '/'),
            ),
        depth >= text::split_char_spec(path@, '/').len() ==> r@ == nodes@,
    decreases text::split_char_spec(path@, '/').len() - depth,
{
    let parts = text::split_char(path, '/');
    let ghost sp = text::split_char_spec(path@, '/');
    let plen = parts.len();
    if depth >= plen {
        return nodes;
    }
    let prefix = text::slice_strings(&parts, 0, depth + 1);
    let current = text::join_char(&prefix, '/');
    proof {
        assert(current@ == text::join_char_spec(sp.subrange(0, depth + 1), '/'));
    }
    let mut nodes = nodes;
    let ghost orig = nodes@;
    let n = nodes.len();
    let mut idx: usize = 0;
    let mut found: bool = false;
    while idx < n && !found
        invariant
            idx <= n,
            n == nodes@.len(),
            nodes@ == orig,
            found ==> idx < n && nodes@[idx as int].path@ == current@,
        decreases n - idx + (if found {
            0int
        } else {
            1int
        }),
    {
        if text::str_eq(nodes[idx].path.as_str(), current.as_str()) {
            found = true;
        } else {
            idx += 1;
        }
    }
    if found {
        let node = nodes.remove(idx);
        let TreeNode { path: node_path, children: node_children } = node;
        let ghost old_children = node_children@;
        let new_children = insert_into_tree_recursive(node_children, path, depth + 1);
        let node2 = TreeNode { path: node_path, children: new_children };
        let ghost idxg = idx as int;
        nodes.insert(idx, node2);
        proof {
            assert(nodes@ =~= orig.update(idxg, node2));
            assert(node2.path@ == current@);
            assert(node.path == node2.path);
            assert(node.children@ == old_children);
            // Everything the forest held is kept.
            assert forall|q: Seq<char>| tree_contains(orig, q) implies tree_contains(
                nodes@,
                q,
            ) by {
                let i = choose|i: int| 0 <= i < orig.len() && node_contains(orig[i], q);
                if i != idxg {
                    assert(nodes@[i] == orig[i]);
                } else {
                    if node.path@ == q {
                        assert(node_contains(nodes@[idxg], q));
                    } else {
                        let j = choose|j: int|
                            0 <= j < old_children.len() && node_contains(old_children[j], q);
                        assert(tree_contains(old_children, q));
                        assert(tree_contains(new_children@, q));
                        let j2 = choose|j2: int|
                            0 <= j2 < new_children@.len() && node_contains(new_children@[j2], q);
                        assert(node2.children@[j2] == new_children@[j2]);
                        assert(node_contains(node2.children@[j2], q));
                        assert(node_contains(node2, q));
                        assert(nodes@[idxg] == node2);
                    }
                }
            }
            // The inserted chain is present.
            assert forall|k: int| depth < k <= sp.len() implies tree_contains(
                nodes@,
                text::join_char_spec(sp.subrange(0, k), '/'),
            ) by {
                let target = text::join_char_spec(sp.subrange(0, k), '/');
                if k == depth + 1 {
                    assert(node_contains(nodes@[idxg], target));
                } else {
                    assert(tree_contains(new_children@, target));
                    let j2 = choose|j2: int|
                        0 <= j2 < new_children@.len() && node_contains(new_children@[j2], target);
                    assert(node2.children@[j2] == new_children@[j2]);
                    assert(node_contains(node2.children@[j2], target));
                    assert(node_contains(node2, target));
                    assert(nodes@[idxg] == node2);
                }
            }
        }
        nodes
    } else {
        let children: Vec<TreeNode> = if depth + 1 < plen {
            let fresh: Vec<TreeNode> = Vec::new();
            insert_into_tree_recursive(fresh, path, depth + 1)
        } else {
            Vec::new()
        };
        let new_node = TreeNode { path: current, children };
        let ghost node_g = new_node;
        nodes.push(new_node);
        proof {
            assert(nodes@ =~= orig.push(node_g));
            assert forall|q: Seq<char>| tree_contains(orig, q) implies tree_contains(
                nodes@,
                q,
            ) by {
                let i = choose|i: int| 0 <= i < orig.len() && node_contains(orig[i], q);
                assert(nodes@[i] == orig[i]);
            }
            assert forall|k: int| depth < k <= sp.len() implies tree_contains(
                nodes@,
                text::join_char_spec(sp.subrange(0, k), '/'),
            ) by {
                let target = text::join_char_spec(sp.subrange(0, k), '/');
                let last = orig.len() as int;
                if k == depth + 1 {
                    assert(node_contains(nodes@[last], target));
                } else {
                    assert(depth + 1 < sp.len());
                    assert(tree_contains(node_g.children@, target));
                    let j2 = choose|j2: int|
                        0 <= j2 < node_g.children@.len() && node_contains(
                            node_g.children@[j2],
                            target,
                        );
                    assert(node_contains(node_g, target));
                    assert(nodes@[last] == node_g);
                }
            }
        }
        nodes
    }
}

/// Insert a path into the forest.
pub fn insert_into_tree(nodes: Vec<TreeNode>, path: &str) -> (r: Vec<TreeNode>)
    ensures
        forall|q: Seq<char>| tree_contains(nodes@, q) ==> tree_contains(r@, q),
        tree_contains(r@, path@),
{
    let r = insert_into_tree_recursive(nodes, path, 0);
    proof {
        lemma_join_split(path@, '/');
        text::lemma_split_char_len(path@, '/');
        let sp = text::split_char_spec(path@, '/');
        assert(sp.subrange(0, sp.len() as int) =~= sp);
        assert(tree_contains(r@, text::join_char_spec(sp, '/')));
    }
    r
}

/// Build the display forest of a set of category paths: afterwards the
/// forest holds every given path.
pub fn build_tree_structure(all_paths: &Vec<String>) -> (r: Vec<TreeNode>)
    ensures
        forall|i: int| 0 <= i < all_paths@.len() ==> tree_contains(r@, (#[trigger] all_paths@[i])@),
{
    let mut nodes: Vec<TreeNode> = Vec::new();
    let n = all_paths.len();
    let mut i: usize = 0;
    while i < n
        invariant
            i <= n,
            n == all_paths@.len(),
            forall|j: int|
                0 <= j < i ==> tree_contains(nodes@, (#[trigger] all_paths@[j])@),
        decreases n - i,
    {
        nodes = insert_into_tree(nodes, all_paths[i].as_str());
        i += 1;
    }
    nodes
}

/// Whether some tree of the forest carries the path, itself or below.
pub fn forest_has_path(nodes: &Vec<TreeNode>, p: &str) -> (r: bool)
    ensures
        r == tree_contains(nodes@, p@),
    decreases nodes@,
{
    let n = nodes.len();
    let mut i: usize = 0;
    while i < n
        invariant
            i <= n,
            n == nodes@.len(),
            forall|j: int| 0 <= j < i ==> !node_contains(#[trigger] nodes@[j], p@),
        decreases n - i,
    {
        proof {
            vstd::std_specs::vec::axiom_vec_decreases_to_view(*nodes);
            vstd::std_specs::vec::axiom_vec_index_decreases(*nodes, i as int);
            assert(decreases_to!(nodes@[i as int] => nodes@[i as int].children));
        }
        if text::str_eq(nodes[i].path.as_str(), p) {
            proof {
                assert(node_contains(nodes@[i as int], p@));
            }
            return true;
        }
        if forest_has_path(&nodes[i].children, p) {
            proof {
                assert(node_contains(nodes@[i as int], p@));
            }
            return true;
        }
        i += 1;
    }
    false
}

/// Attach a path as a child of the node carrying the parent path,
/// wherever that node sits.  Returns whether a parent was found; nothing
/// already held is lost, a successful attach makes the path present, and
/// a failed one returns the forest untouched.
pub fn try_insert_as_child(nodes: Vec<TreeNode>, path: &str, parent_path: &str) -> (r: (
    Vec<TreeNode>,
    bool,
))
    ensures
        r.1 == tree_contains(nodes@, parent_path@),
        forall|q: Seq<char>| tree_contains(nodes@, q) ==> tree_contains(r.0@, q),
        !r.1 ==> r.0 == nodes,
        r.1 ==> tree_contains(r.0@, path@),
    decreases nodes@,
{
    let ghost entry = nodes;
    let ghost orig = nodes@;
    let mut forest = nodes;
    let n = forest.len();
    let mut i: usize = 0;
    while i < n
        invariant
            i <= n,
            n == forest@.len(),
            forest == entry,
            forest@ == orig,
            entry == nodes,
            orig == nodes@,
            forall|j: int| 0 <= j < i ==> !node_contains(#[trigger] orig[j], parent_path@),
        decreases n - i,
    {
        let direct = text::str_eq(forest[i].path.as_str(), parent_path);
        let below = if direct {
            false
        } else {
            forest_has_path(&forest[i].children, parent_path)
        };
        if direct {
            // The parent is this root: attach the child unless present.
            let ghost idxg = i as int;
            let node = forest.remove(i);
            let TreeNode { path: node_path, children: node_children } = node;
            let ghost old_children = node_children@;
            let mut children = node_children;
            let mut already: bool = false;
            let mut k: usize = 0;
            while k < children.len() && !already
                invariant
                    k <= children@.len(),
                    children@ == old_children,
                    already ==> exists|m: int|
                        0 <= m < children@.len() && (#[trigger] children@[m]).path@ == path@,
                decreases children@.len() - k + (if already {
                    0int
                } else {
                    1int
                }),
            {
                if text::str_eq(children[k].path.as_str(), path) {
                    already = true;
                } else {
                    k += 1;
                }
            }
            if !already {
                children.push(TreeNode { path: String::from_str(path), children: Vec::new() });
            }
            let node2 = TreeNode { path: node_path, children };
            forest.insert(i, node2);
            proof {
                assert(forest@ =~= orig.update(idxg, node2));
                assert(node.path == node2.path);
                assert(node.path@ == parent_path@);
                assert(node_contains(orig[idxg], parent_path@));
                assert(tree_contains(orig, parent_path@));
                assert(node_contains(node2, path@)) by {
                    if already {
                        let m = choose|m: int|
                            0 <= m < old_children.len() && old_children[m].path@ == path@;
                        assert(node2.children@[m].path@ == path@);
                        assert(node_contains(node2.children@[m], path@));
                    } else {
                        let last = node2.children@.len() - 1;
                        assert(node2.children@[last].path@ == path@);
                        assert(node_contains(node2.children@[last], path@));
                    }
                }
                assert(tree_contains(forest@, path@)) by {
                    assert(forest@[idxg] == node2);
                }
                assert forall|q: Seq<char>| tree_contains(orig, q) implies tree_contains(
                    forest@,
                    q,
                ) by {
                    let j = choose|j: int| 0 <= j < orig.len() && node_contains(orig[j], q);
                    if j != idxg {
                        assert(forest@[j] == orig[j]);
                    } else {
                        assert(node_contains(node2, q)) by {
                            if orig[idxg].path@ == q {
                            } else {
                                let m = choose|m: int|
                                    0 <= m < old_children.len() && node_contains(
                                        old_children[m],
                                        q,
                                    );
                                assert(node2.children@[m] == old_children[m]);
                                assert(node_contains(node2.children@[m], q));
                            }
                        }
                        assert(forest@[idxg] == node2);
                    }
                }
            }
            return (forest, true);
        }
        if below {
            // The parent sits below this root: rebuild the subtree.
            let ghost idxg = i as int;
            let node = forest.remove(i);
            let TreeNode { path: node_path, children: node_children } = node;
            let ghost old_children = node_children@;
            proof {
                vstd::seq::axiom_seq_index_decreases(orig, idxg);
                assert(decreases_to!(orig[idxg] => orig[idxg].children));
                vstd::std_specs::vec::axiom_vec_decreases_to_view(orig[idxg].children);
                assert(orig[idxg].children == node.children);
                assert(decreases_to!(orig => node_children@));
            }
            let (new_children, inserted) = try_insert_as_child(
                node_children,
                path,
                parent_path,
            );
            proof {
                assert(inserted);
            }
            let node2 = TreeNode { path: node_path, children: new_children };
            forest.insert(i, node2);
            proof {
                assert(forest@ =~= orig.update(idxg, node2));
                assert(node.path == node2.path);
                assert(tree_contains(orig[idxg].children@, parent_path@));
                assert(node_contains(orig[idxg], parent_path@)) by {
                    let m = choose|m: int|
                        0 <= m < orig[idxg].children@.len() && node_contains(
                            orig[idxg].children@[m],
                            parent_path@,
                        );
                }
                assert(tree_contains(orig, parent_path@));
                assert(tree_contains(new_children@, path@));
                assert(tree_contains(node2.children@, path@));
                assert(node_contains(node2, path@)) by {
                    let m = choose|m: int|
                        0 <= m < node2.children@.len() && node_contains(
                            node2.children@[m],
                            path@,
                        );
                }
                assert(tree_contains(forest@, path@)) by {
                    assert(forest@[idxg] == node2);
                }
                assert forall|q: Seq<char>| tree_contains(orig, q) implies tree_contains(
                    forest@,
                    q,
                ) by {
                    let j = choose|j: int| 0 <= j < orig.len() && node_contains(orig[j], q);
                    if j != idxg {
                        assert(forest@[j] == orig[j]);
                    } else {
                        assert(node_contains(node2, q)) by {
                            if orig[idxg].path@ == q {
                            } else {
                                assert(tree_contains(old_children, q));
                                assert(tree_contains(new_children@, q));
                                assert(tree_contains(node2.children@, q));
                                let m = choose|m: int|
                                    0 <= m < node2.children@.len() && node_contains(
                                        node2.children@[m],
                                        q,
                                    );
                            }
                        }
                        assert(forest@[idxg] == node2);
                    }
                }
            }
            return (forest, true);
        }
        proof {
            assert(!node_contains(orig[i as int], parent_path@));
        }
        i += 1;
    }
    proof {
        assert(!tree_contains(orig, parent_path@)) by {
            if tree_contains(orig, parent_path@) {
                let j = choose|j: int| 0 <= j < orig.len() && node_contains(orig[j], parent_path@);
            }
        }
    }
    (forest, false)
}

} // verus!
