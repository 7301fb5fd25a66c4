//! A binary search tree of integers with insertion, lookup and in-order traversal.
use vstd::prelude::*;

verus! {

/// A node of a binary search tree of `i32` values.
#[derive(Debug)]
pub struct TreeNode {
    pub value: i32,
    pub left: Option<Box<TreeNode>>,
    pub right: Option<Box<TreeNode>>,
}

/// The values stored in an optional subtree.
pub open spec fn subtree_elems(t: Option<Box<TreeNode>>) -> Set<i32>
    decreases t,
{
    match t {
        None => Set::empty(),
        Some(n) => n.elems(),
    }
}

/// The values of an optional subtree, left to right.
pub open spec fn subtree_in_order(t: Option<Box<TreeNode>>) -> Seq<i32>
    decreases t,
{
    match t {
        None => Seq::empty(),
        Some(n) => n.in_order_seq(),
    }
}

/// Whether an optional subtree obeys the search-tree ordering.
pub open spec fn subtree_is_bst(t: Option<Box<TreeNode>>) -> bool
    decreases t,
{
    match t {
        None => true,
        Some(n) => n.is_bst(),
    }
}

/// The optional subtree after inserting `v` into it.
pub open spec fn subtree_inserted(t: Option<Box<TreeNode>>, v: i32) -> Option<Box<TreeNode>>
    decreases t,
{
    match t {
        None => Some(Box::new(TreeNode { value: v, left: None, right: None })),
        Some(n) => Some(Box::new(n.inserted(v))),
    }
}

/// Whether the search path for `v` in an optional subtree reaches a node holding `v`.
pub open spec fn subtree_search(t: Option<Box<TreeNode>>, v: i32) -> bool
    decreases t,
{
    match t {
        None => false,
        Some(n) => n.search(v),
    }
}

/// A sequence in strictly increasing order.
pub open spec fn strictly_sorted(s: Seq<i32>) -> bool {
    forall|i: int, j: int| 0 <= i < j < s.len() ==> s[i] < s[j]
}

impl TreeNode {
    /// All values held by the tree.
    pub open spec fn elems(self) -> Set<i32>
        decreases self,
    {
        subtree_elems(self.left).union(subtree_elems(self.right)).insert(self.value)
    }

    /// The values of the tree, visiting the left subtree, the node, then the right subtree.
    pub open spec fn in_order_seq(self) -> Seq<i32>
        decreases self,
    {
        subtree_in_order(self.left).push(self.value) + subtree_in_order(self.right)
    }

    /// Every value in a left subtree is smaller than the node, every value in a right
    /// subtree is larger, at every node.
    pub open spec fn is_bst(self) -> bool
        decreases self,
    {
        &&& forall|x: i32| subtree_elems(self.left).contains(x) ==> x < self.value
        &&& forall|x: i32| subtree_elems(self.right).contains(x) ==> x > self.value
        &&& subtree_is_bst(self.left)
        &&& subtree_is_bst(self.right)
    }

    /// The tree after inserting `v`: equal values are ignored, smaller ones go left,
    /// larger ones go right, and a new leaf is made where the path ends.
    pub open spec fn inserted(self, v: i32) -> TreeNode
        decreases self,
    {
        if v == self.value {
            self
        } else if v < self.value {
            TreeNode { left: subtree_inserted(self.left, v), ..self }
        } else {
            TreeNode { right: subtree_inserted(self.right, v), ..self }
        }
    }

    /// Whether following the search path for `v` finds it.
    pub open spec fn search(self, v: i32) -> bool
        decreases self,
    {
        if v == self.value {
            true
        } else if v < self.value {
            subtree_search(self.left, v)
        } else {
            subtree_search(self.right, v)
        }
    }

    /// A leaf holding `value`.
    pub fn new(value: i32) -> (n: Self)
        ensures
            n.value == value,
            n.left.is_none(),
            n.right.is_none(),
    {
        TreeNode { value, left: None, right: None }
    }

    /// Inserts `value` following the search-tree rule; a value already on its path is
    /// left alone.
    pub fn insert(&mut self, value: i32)
        ensures
            *final(self) == old(self).inserted(value),
        decreases *old(self),
    {
        if self.value == value {
            return ;
        }
        if value < self.value {
            match &mut self.left {
                None => {
                    self.left = Some(Box::new(TreeNode::new(value)));
                },
                Some(n) => {
                    n.insert(value);
                },
            }
        } else {
            match &mut self.right {
                None => {
                    self.right = Some(Box::new(TreeNode::new(value)));
                },
                Some(n) => {
                    n.insert(value);
                },
            }
        }
    }

    /// Whether `value` is found along its search path.
    pub fn contains(&self, value: i32) -> (b: bool)
        ensures
            b == self.search(value),
        decreases self,
    {
        if self.value == value {
            return true;
        }
        let target = if value < self.value {
            &self.left
        } else {
            &self.right
        };
        match target {
            None => false,
            Some(n) => n.contains(value),
        }
    }

    /// The values of the tree in order: left subtree, node, right subtree.
    pub fn in_order(&self) -> (r: Vec<i32>)
        ensures
            r@ == self.in_order_seq(),
        decreases self,
    {
        let mut res: Vec<i32> = match &self.left {
            None => Vec::new(),
            Some(n) => n.in_order(),
        };
        res.push(self.value);
        match &self.right {
            None => {},
            Some(n) => {
                let mut rest = n.in_order();
                res.append(&mut rest);
            },
        }
        res
    }
}


/// Inserting into an optional subtree adds exactly the inserted value to its contents.
proof fn lemma_subtree_insert_adds(t: Option<Box<TreeNode>>, v: i32)
    ensures
        subtree_elems(subtree_inserted(t, v)) == subtree_elems(t).insert(v),
    decreases t,
{
    match t {
        None => {
            assert(subtree_elems(subtree_inserted(t, v)) =~= subtree_elems(t).insert(v));
        },
        Some(n) => {
            lemma_insert_adds(*n, v);
        },
    }
}

/// Inserting a value into a tree adds exactly that value to the set of values it holds.
pub proof fn lemma_insert_adds(t: TreeNode, v: i32)
    ensures
        t.inserted(v).elems() == t.elems().insert(v),
    decreases t,
{
    if v == t.value {
        assert(t.elems().insert(v) =~= t.elems());
    } else if v < t.value {
        lemma_subtree_insert_adds(t.left, v);
        assert(t.inserted(v).elems() =~= t.elems().insert(v));
    } else {
        lemma_subtree_insert_adds(t.right, v);
        assert(t.inserted(v).elems() =~= t.elems().insert(v));
    }
}

proof fn lemma_subtree_insert_keeps_bst(t: Option<Box<TreeNode>>, v: i32)
    requires
        subtree_is_bst(t),
    ensures
        subtree_is_bst(subtree_inserted(t, v)),
    decreases t,
{
    match t {
        None => {
            let leaf = TreeNode { value: v, left: None, right: None };
            assert(subtree_elems(leaf.left) =~= Set::empty());
            assert(subtree_elems(leaf.right) =~= Set::empty());
        },
        Some(n) => {
            lemma_insert_keeps_bst(*n, v);
        },
    }
}

/// Inserting into a binary search tree leaves a binary search tree.
pub proof fn lemma_insert_keeps_bst(t: TreeNode, v: i32)
    requires
        t.is_bst(),
    ensures
        t.inserted(v).is_bst(),
    decreases t,
{
    if v == t.value {
    } else if v < t.value {
        lemma_subtree_insert_keeps_bst(t.left, v);
        lemma_subtree_insert_adds(t.left, v);
    } else {
        lemma_subtree_insert_keeps_bst(t.right, v);
        lemma_subtree_insert_adds(t.right, v);
    }
}

proof fn lemma_subtree_search_complete(t: Option<Box<TreeNode>>, v: i32)
    requires
        subtree_is_bst(t),
    ensures
        subtree_search(t, v) <==> subtree_elems(t).contains(v),
    decreases t,
{
    match t {
        None => {},
        Some(n) => {
            lemma_search_complete(*n, v);
        },
    }
}

/// In a binary search tree the search path for a value finds it exactly when the tree
/// holds it.
pub proof fn lemma_search_complete(t: TreeNode, v: i32)
    requires
        t.is_bst(),
    ensures
        t.search(v) <==> t.elems().contains(v),
    decreases t,
{
    lemma_subtree_search_complete(t.left, v);
    lemma_subtree_search_complete(t.right, v);
}

proof fn lemma_subtree_in_order(t: Option<Box<TreeNode>>)
    requires
        subtree_is_bst(t),
    ensures
        strictly_sorted(subtree_in_order(t)),
        subtree_in_order(t).to_set() == subtree_elems(t),
    decreases t,
{
    match t {
        None => {
            assert(subtree_in_order(t).to_set() =~= subtree_elems(t));
        },
        Some(n) => {
            lemma_in_order_sorted(*n);
        },
    }
}

/// The in-order traversal of a binary search tree lists its values in strictly
/// increasing order, and lists exactly the values the tree holds.
pub proof fn lemma_in_order_sorted(t: TreeNode)
    requires
        t.is_bst(),
    ensures
        strictly_sorted(t.in_order_seq()),
        t.in_order_seq().to_set() == t.elems(),
    decreases t,
{
    lemma_subtree_in_order(t.left);
    lemma_subtree_in_order(t.right);
    let l = subtree_in_order(t.left);
    let r = subtree_in_order(t.right);
    let s = t.in_order_seq();
    assert(s == l.push(t.value) + r);
    assert forall|i: int| 0 <= i < l.len() implies l[i] < t.value by {
        assert(l.to_set().contains(l[i]));
    }
    assert forall|i: int| 0 <= i < r.len() implies r[i] > t.value by {
        assert(r.to_set().contains(r[i]));
    }
    assert forall|i: int, j: int| 0 <= i < j < s.len() implies s[i] < s[j] by {
        if j < l.len() {
        } else if j == l.len() {
        } else if i < l.len() {
            assert(s[i] == l[i]);
            assert(s[j] == r[j - l.len() - 1]);
        } else if i == l.len() {
            assert(s[j] == r[j - l.len() - 1]);
        } else {
            assert(s[i] == r[i - l.len() - 1]);
            assert(s[j] == r[j - l.len() - 1]);
        }
    }
    assert forall|x: i32| s.to_set().contains(x) implies t.elems().contains(x) by {
        let k = choose|k: int| 0 <= k < s.len() && s[k] == x;
        if k < l.len() {
            assert(l[k] == x);
            assert(l.to_set().contains(x));
        } else if k > l.len() {
            assert(r[k - l.len() - 1] == x);
            assert(r.to_set().contains(x));
        }
    }
    assert forall|x: i32| t.elems().contains(x) implies s.to_set().contains(x) by {
        if x == t.value {
            assert(s[l.len() as int] == x);
        } else if subtree_elems(t.left).contains(x) {
            assert(l.to_set().contains(x));
            let k = choose|k: int| 0 <= k < l.len() && l[k] == x;
            assert(s[k] == x);
        } else {
            assert(r.to_set().contains(x));
            let k = choose|k: int| 0 <= k < r.len() && r[k] == x;
            assert(s[k + l.len() + 1] == x);
        }
    }
    assert(s.to_set() =~= t.elems());
}

/// A single leaf is a binary search tree.
pub proof fn lemma_leaf_is_bst(v: i32)
    ensures
        (TreeNode { value: v, left: None, right: None }).is_bst(),
        (TreeNode { value: v, left: None, right: None }).elems() == set![v],
{
    let leaf = TreeNode { value: v, left: None, right: None };
    assert(subtree_elems(leaf.left) =~= Set::empty());
    assert(subtree_elems(leaf.right) =~= Set::empty());
    assert(leaf.elems() =~= set![v]);
}

} // verus!
