//! The syntax tree of the analyzed function, as an arena of nodes indexed by
//! small integers. Parents are stored as indices, so upward walks are O(1)
//! and need no ownership cycles; a node's children always carry larger
//! indices than the node itself, which bounds every walk.

use vstd::prelude::*;

use crate::Range;

verus! {

/// One node of the syntax tree arena.
#[derive(Debug)]
pub struct SyntaxNode {
    /// Index of the enclosing node; the root points to itself.
    pub parent: usize,
    /// Whether this node is a source-level statement, as classified by the
    /// external syntax layer.
    pub is_statement: bool,
    /// Child nodes in source order; every child index exceeds the node's own.
    pub children: Vec<usize>,
    /// Source range of the node, from the external span resolver.
    pub range: Range,
}

/// The syntax tree arena. Node identity is the index; node 0, when present,
/// is the root.
#[derive(Debug)]
pub struct SyntaxTree {
    pub nodes: Vec<SyntaxNode>,
}

impl SyntaxTree {
    /// Parents never exceed their node's index and children always do, so
    /// walks up strictly descend and walks down strictly ascend.
    pub open spec fn wf(self) -> bool {
        forall|i: int|
            0 <= i < self.nodes@.len() ==> {
                let n = #[trigger] self.nodes@[i];
                &&& n.parent <= i
                &&& forall|k: int|
                    0 <= k < n.children@.len() ==> i < #[trigger] n.children@[k]
                        < self.nodes@.len()
            }
    }

    /// Checks [`SyntaxTree::wf`] at run time.
    pub fn is_wf(&self) -> (b: bool)
        ensures
            b == self.wf(),
    {
        let mut i: usize = 0;
        while i < self.nodes.len()
            invariant
                i <= self.nodes@.len(),
                forall|j: int|
                    0 <= j < i ==> {
                        let n = #[trigger] self.nodes@[j];
                        &&& n.parent <= j
                        &&& forall|k: int|
                            0 <= k < n.children@.len() ==> j < #[trigger] n.children@[k]
                                < self.nodes@.len()
                    },
            decreases self.nodes@.len() - i,
        {
            let node = &self.nodes[i];
            if node.parent > i {
                return false;
            }
            let mut k: usize = 0;
            while k < node.children.len()
                invariant
                    k <= node.children@.len(),
                    node == self.nodes@[i as int],
                    i < self.nodes@.len(),
                    forall|m: int|
                        0 <= m < k ==> i < #[trigger] node.children@[m] < self.nodes@.len(),
                decreases node.children@.len() - k,
            {
                let c = node.children[k];
                if c <= i || c >= self.nodes.len() {
                    return false;
                }
                k = k + 1;
            }
            i = i + 1;
        }
        true
    }
}

/// The statement a node belongs to: the node itself if it is a statement,
/// otherwise the nearest enclosing statement found by walking parents; none
/// if the walk reaches the root without finding one.
pub open spec fn spec_stmt_of(nodes: Seq<SyntaxNode>, n: int) -> Option<int>
    decreases n,
{
    if 0 <= n < nodes.len() {
        if nodes[n].is_statement {
            Some(n)
        } else if nodes[n].parent as int >= n {
            None
        } else {
            spec_stmt_of(nodes, nodes[n].parent as int)
        }
    } else {
        None
    }
}

/// A found statement is itself a node of the tree.
pub proof fn lemma_stmt_of_in_range(nodes: Seq<SyntaxNode>, n: int)
    ensures
        spec_stmt_of(nodes, n) matches Some(s) ==> 0 <= s < nodes.len()
            && nodes[s].is_statement,
    decreases n,
{
    if 0 <= n < nodes.len() && !nodes[n].is_statement && (nodes[n].parent as int) < n {
        lemma_stmt_of_in_range(nodes, nodes[n].parent as int);
    }
}

/// Resolves the statement enclosing `node` by walking up the tree, or
/// reports that the root was reached without finding one — the recoverable
/// condition under which a program point is simply dropped from the lifted
/// output.
pub fn location_to_stmt(tree: &SyntaxTree, node: usize) -> (r: Option<usize>)
    requires
        tree.wf(),
        node < tree.nodes@.len(),
    ensures
        match r {
            Some(s) => spec_stmt_of(tree.nodes@, node as int) == Some(s as int),
            None => spec_stmt_of(tree.nodes@, node as int) is None,
        },
{
    let mut cur = node;
    loop
        invariant
            tree.wf(),
            cur < tree.nodes@.len(),
            spec_stmt_of(tree.nodes@, node as int) == spec_stmt_of(tree.nodes@, cur as int),
        decreases cur,
    {
        if tree.nodes[cur].is_statement {
            return Some(cur);
        }
        let p = tree.nodes[cur].parent;
        if p == cur {
            return None;
        }
        cur = p;
    }
}

/// The statements of the subtree rooted at `n`, in a depth-first source-order
/// walk: the node itself first when it is a statement, then the statements of
/// each child subtree in source order.
pub open spec fn subtree_stmts(nodes: Seq<SyntaxNode>, n: int) -> Seq<usize>
    decreases nodes.len() - n, 1int, 0int,
{
    if 0 <= n < nodes.len() {
        (if nodes[n].is_statement {
            seq![n as usize]
        } else {
            Seq::<usize>::empty()
        }) + children_stmts(nodes, n, 0)
    } else {
        Seq::<usize>::empty()
    }
}

/// The statements of the child subtrees of `n`, from the `k`-th child on.
pub open spec fn children_stmts(nodes: Seq<SyntaxNode>, n: int, k: int) -> Seq<usize>
    decreases nodes.len() - n, 0int, nodes[n].children@.len() - k,
{
    if 0 <= n < nodes.len() && 0 <= k < nodes[n].children@.len() {
        let c = nodes[n].children@[k] as int;
        (if n < c < nodes.len() {
            subtree_stmts(nodes, c)
        } else {
            Seq::<usize>::empty()
        }) + children_stmts(nodes, n, k + 1)
    } else {
        Seq::<usize>::empty()
    }
}

/// Every statement id listed for a subtree is a statement node of the tree.
pub proof fn lemma_subtree_stmts_in_range(nodes: Seq<SyntaxNode>, n: int)
    requires
        nodes.len() <= usize::MAX,
    ensures
        forall|j: int|
            0 <= j < subtree_stmts(nodes, n).len() ==> {
                let s = #[trigger] subtree_stmts(nodes, n)[j];
                s < nodes.len() && nodes[s as int].is_statement
            },
    decreases nodes.len() - n, 1int, 0int,
{
    if 0 <= n < nodes.len() {
        lemma_children_stmts_in_range(nodes, n, 0);
        let own = if nodes[n].is_statement {
            seq![n as usize]
        } else {
            Seq::<usize>::empty()
        };
        assert forall|j: int| 0 <= j < subtree_stmts(nodes, n).len() implies {
            let s = #[trigger] subtree_stmts(nodes, n)[j];
            s < nodes.len() && nodes[s as int].is_statement
        } by {
            if j < own.len() {
                assert(subtree_stmts(nodes, n)[j] == n as usize);
            } else {
                assert(subtree_stmts(nodes, n)[j] == children_stmts(nodes, n, 0)[j - own.len()]);
            }
        }
    }
}

/// Every statement id listed for a run of child subtrees is a statement node
/// of the tree.
pub proof fn lemma_children_stmts_in_range(nodes: Seq<SyntaxNode>, n: int, k: int)
    requires
        nodes.len() <= usize::MAX,
    ensures
        forall|j: int|
            0 <= j < children_stmts(nodes, n, k).len() ==> {
                let s = #[trigger] children_stmts(nodes, n, k)[j];
                s < nodes.len() && nodes[s as int].is_statement
            },
    decreases nodes.len() - n, 0int, nodes[n].children@.len() - k,
{
    if 0 <= n < nodes.len() && 0 <= k < nodes[n].children@.len() {
        let c = nodes[n].children@[k] as int;
        if n < c < nodes.len() {
            lemma_subtree_stmts_in_range(nodes, c);
        }
        lemma_children_stmts_in_range(nodes, n, k + 1);
        let head = if n < c < nodes.len() {
            subtree_stmts(nodes, c)
        } else {
            Seq::<usize>::empty()
        };
        assert forall|j: int| 0 <= j < children_stmts(nodes, n, k).len() implies {
            let s = #[trigger] children_stmts(nodes, n, k)[j];
            s < nodes.len() && nodes[s as int].is_statement
        } by {
            if j < head.len() {
                assert(children_stmts(nodes, n, k)[j] == subtree_stmts(nodes, c)[j]);
            } else {
                assert(children_stmts(nodes, n, k)[j] == children_stmts(nodes, n, k + 1)[j
                    - head.len()]);
            }
        }
    }
}

/// Appends the statements of the subtree rooted at `n` to `out`, in
/// depth-first source order.
pub fn collect_subtree_stmts(tree: &SyntaxTree, n: usize, out: &mut Vec<usize>)
    requires
        tree.wf(),
        n < tree.nodes@.len(),
    ensures
        final(out)@ == old(out)@ + subtree_stmts(tree.nodes@, n as int),
    decreases tree.nodes@.len() - n, 1int, 0int,
{
    if tree.nodes[n].is_statement {
        out.push(n);
    }
    collect_children_stmts(tree, n, 0, out);
    proof {
        assert(out@ =~= old(out)@ + subtree_stmts(tree.nodes@, n as int));
    }
}

/// Appends the statements of the child subtrees of `n`, from the `k`-th child
/// on, to `out`.
fn collect_children_stmts(tree: &SyntaxTree, n: usize, k: usize, out: &mut Vec<usize>)
    requires
        tree.wf(),
        n < tree.nodes@.len(),
    ensures
        final(out)@ == old(out)@ + children_stmts(tree.nodes@, n as int, k as int),
    decreases tree.nodes@.len() - n, 0int, tree.nodes@[n as int].children@.len() - k,
{
    if k < tree.nodes[n].children.len() {
        let c = tree.nodes[n].children[k];
        collect_subtree_stmts(tree, c, out);
        collect_children_stmts(tree, n, k + 1, out);
        proof {
            assert(out@ =~= old(out)@ + children_stmts(tree.nodes@, n as int, k as int));
        }
    } else {
        proof {
            assert(out@ =~= old(out)@ + children_stmts(tree.nodes@, n as int, k as int));
        }
    }
}

/// The statements of the whole tree in program order: the depth-first walk
/// from the root, or nothing for an empty tree.
pub open spec fn spec_stmt_order(nodes: Seq<SyntaxNode>) -> Seq<usize> {
    if nodes.len() == 0 {
        Seq::<usize>::empty()
    } else {
        subtree_stmts(nodes, 0)
    }
}

/// Collects the statements of the whole tree in program order.
pub fn statement_order(tree: &SyntaxTree) -> (order: Vec<usize>)
    requires
        tree.wf(),
    ensures
        order@ == spec_stmt_order(tree.nodes@),
{
    let mut out: Vec<usize> = Vec::new();
    if tree.nodes.len() > 0 {
        collect_subtree_stmts(tree, 0, &mut out);
    }
    proof {
        assert(out@ =~= spec_stmt_order(tree.nodes@));
    }
    out
}

} // verus!
