//! Binary trees of `i32`, built from the array layout in which the children
//! of the node at index `i` stand at `2 i + 1` and `2 i + 2`, and walked in
//! order.

use vstd::prelude::*;

verus! {

#[derive(Debug, PartialEq, Eq)]
pub struct TreeNode {
    pub val: i32,
    pub left: Option<Box<TreeNode>>,
    pub right: Option<Box<TreeNode>>,
}

/// `t` is the tree that the layout `data` holds from index `i` down: a node
/// wherever an entry is present and every entry above it on its path is too.
pub open spec fn laid_out(t: Option<Box<TreeNode>>, data: Seq<Option<i32>>, i: nat) -> bool
    decreases t,
{
    match t {
        None => !(i < data.len() && data[i as int] is Some),
        Some(node) => {
            &&& i < data.len()
            &&& data[i as int] == Some(node.val)
            &&& laid_out(node.left, data, 2 * i + 1)
            &&& laid_out(node.right, data, 2 * i + 2)
        },
    }
}

/// The values of a tree in order: left subtree, node, right subtree.
pub open spec fn inorder(t: Option<Box<TreeNode>>) -> Seq<i32>
    decreases t,
{
    match t {
        None => Seq::empty(),
        Some(node) => inorder(node.left) + seq![node.val] + inorder(node.right),
    }
}

/// The subtree of `data` rooted at index `i`.
fn subtree(data: &Vec<Option<i32>>, i: usize) -> (r: Option<Box<TreeNode>>)
    ensures
        laid_out(r, data@, i as nat),
    decreases data.len() - i,
{
    if i >= data.len() {
        return None;
    }
    match data[i] {
        None => None,
        Some(val) => {
            let li: u128 = 2 * (i as u128) + 1;
            let left = if li < data.len() as u128 {
                subtree(data, li as usize)
            } else {
                None
            };
            let right = if li + 1 < data.len() as u128 {
                subtree(data, (li + 1) as usize)
            } else {
                None
            };
            let r = Some(Box::new(TreeNode { val, left, right }));
            assert(laid_out(left, data@, 2 * (i as nat) + 1));
            assert(laid_out(right, data@, 2 * (i as nat) + 2));
            r
        },
    }
}

impl TreeNode {
    pub fn new(val: i32) -> (r: Self)
        ensures
            r.val == val,
            r.left is None,
            r.right is None,
    {
        TreeNode { val, left: None, right: None }
    }

    /// Constructs a binary tree from a Vec<Option<i32>>.
    /// `vec[i]` represents the value of the node at index `i`, or `None` if the node is absent.
    pub fn from_vec(data: Vec<Option<i32>>) -> (r: Option<Box<TreeNode>>)
        ensures
            laid_out(r, data@, 0),
    {
        subtree(&data, 0)
    }
}

pub struct Solution {}

impl Solution {
    /// The values of the tree in order.
    pub fn inorder_traversal(root: Option<Box<TreeNode>>) -> (r: Vec<i32>)
        ensures
            r@ == inorder(root),
        decreases root,
    {
        match root {
            None => Vec::new(),
            Some(node) => {
                let TreeNode { val, left, right } = *node;
                let mut res = Self::inorder_traversal(left);
                res.push(val);
                let mut rest = Self::inorder_traversal(right);
                res.append(&mut rest);
                res
            },
        }
    }
}

} // verus!
