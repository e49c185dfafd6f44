//! The rope's tree: a leaf holds bytes, a branch joins two shared subtrees.
//!
//! Children are reference-counted handles, so a subtree may belong to many
//! ropes at once; no node is ever changed after it is built. Every branch
//! caches its weight (the byte length of its left subtree) and its total
//! length; the well-formedness invariant ties both caches to the content,
//! which makes length reads constant-time and lookups proportional to the
//! tree's depth.

use std::rc::Rc;
use vstd::prelude::*;

verus! {

/// A node of the rope tree.
///
/// The tree is never rebalanced: a long run of concatenations can make it
/// arbitrarily deep, which degrades lookups, but never changes any result.
#[derive(Debug)]
pub(crate) enum Node {
    Leaf(Vec<u8>),
    Branch { weight: usize, length: usize, left: Rc<Node>, right: Rc<Node> },
}

impl Node {
    /// The byte sequence this subtree stands for, in left-to-right order.
    pub(crate) open spec fn content(self) -> Seq<u8>
        decreases self,
    {
        match self {
            Node::Leaf(v) => v@,
            Node::Branch { left, right, .. } => left.content() + right.content(),
        }
    }

    /// Well-formedness: at every branch the cached weight is the byte
    /// length of the left subtree and the cached length is the byte length
    /// of the whole subtree. Only node construction can establish this; no
    /// operation ever rewrites a built node.
    pub(crate) open spec fn wf(self) -> bool
        decreases self,
    {
        match self {
            Node::Leaf(_) => true,
            Node::Branch { weight, length, left, right } => {
                &&& left.wf()
                &&& right.wf()
                &&& weight == left.content().len()
                &&& length == left.content().len() + right.content().len()
            },
        }
    }

    /// The byte length of a branch's left subtree; of a leaf, its own
    /// length. Lookups and splits are routed by comparing an index against
    /// it.
    pub(crate) open spec fn spec_weight(self) -> nat {
        match self {
            Node::Leaf(v) => v@.len(),
            Node::Branch { left, .. } => left.content().len(),
        }
    }

    /// A well-formed subtree's content fits a machine-sized byte count.
    pub(crate) proof fn lemma_content_fits(&self)
        requires
            self.wf(),
        ensures
            self.content().len() <= usize::MAX,
    {
        match self {
            Node::Leaf(v) => {
                vstd::std_specs::vec::axiom_spec_len(v);
            },
            Node::Branch { .. } => {},
        }
    }

    /// Total byte count of the subtree, read from the cache at a branch.
    pub(crate) fn len(&self) -> (n: usize)
        requires
            self.wf(),
        ensures
            n == self.content().len(),
    {
        match self {
            Node::Leaf(v) => v.len(),
            Node::Branch { length, .. } => *length,
        }
    }

    /// The node's weight, read from the cache at a branch.
    pub(crate) fn weight(&self) -> (n: usize)
        requires
            self.wf(),
        ensures
            n == self.spec_weight(),
    {
        match self {
            Node::Leaf(v) => v.len(),
            Node::Branch { weight, .. } => *weight,
        }
    }

    /// The byte at `index`, or nothing when `index` is past the end.
    ///
    /// At a branch the lookup descends left when `index` falls below the
    /// weight, and right, with the weight subtracted, otherwise.
    pub(crate) fn get(&self, index: usize) -> (r: Option<&u8>)
        requires
            self.wf(),
        ensures
            index < self.content().len() ==> (r matches Some(b) && *b == self.content()[index as int]),
            index >= self.content().len() ==> r is None,
        decreases self,
    {
        match self {
            Node::Leaf(v) => {
                if index < v.len() {
                    Some(&v[index])
                } else {
                    None
                }
            },
            Node::Branch { left, right, .. } => {
                let w = self.weight();
                if index < w {
                    left.get(index)
                } else {
                    right.get(index - w)
                }
            },
        }
    }

    /// Join two subtrees under a new branch, sharing both of them.
    pub(crate) fn concat(a: &Rc<Node>, b: &Rc<Node>) -> (r: Rc<Node>)
        requires
            a.wf(),
            b.wf(),
            a.content().len() + b.content().len() <= usize::MAX,
        ensures
            r.wf(),
            r.content() == a.content() + b.content(),
    {
        let weight = a.len();
        let length = weight + b.len();
        Rc::new(Node::Branch { weight, length, left: a.clone(), right: b.clone() })
    }

    /// Cut the subtree into a left part of exactly `index` bytes and the
    /// right remainder.
    ///
    /// Only the one leaf that straddles the cut is copied; every subtree
    /// that lies wholly on one side is shared with the result. A cut that
    /// falls exactly on a branch's left/right boundary hands back the two
    /// children themselves.
    pub(crate) fn split(n: &Rc<Node>, index: usize) -> (r: (Rc<Node>, Rc<Node>))
        requires
            n.wf(),
            index <= n.content().len(),
        ensures
            r.0.wf(),
            r.1.wf(),
            r.0.content() == n.content().take(index as int),
            r.1.content() == n.content().skip(index as int),
        decreases n,
    {
        match &**n {
            Node::Leaf(v) => {
                let mut left: Vec<u8> = Vec::new();
                let mut right: Vec<u8> = Vec::new();
                let mut i: usize = 0;
                while i < index
                    invariant
                        i <= index <= v@.len(),
                        left@ == v@.take(i as int),
                    decreases index - i,
                {
                    left.push(v[i]);
                    i = i + 1;
                    proof {
                        assert(left@ =~= v@.take(i as int));
                    }
                }
                let mut j: usize = index;
                while j < v.len()
                    invariant
                        index <= j <= v@.len(),
                        right@ == v@.subrange(index as int, j as int),
                    decreases v@.len() - j,
                {
                    right.push(v[j]);
                    j = j + 1;
                    proof {
                        assert(right@ =~= v@.subrange(index as int, j as int));
                    }
                }
                proof {
                    assert(right@ =~= v@.skip(index as int));
                }
                (Rc::new(Node::Leaf(left)), Rc::new(Node::Leaf(right)))
            },
            Node::Branch { left, right, .. } => {
                let w = n.weight();
                if index == w {
                    proof {
                        assert(left.content() =~= n.content().take(index as int));
                        assert(right.content() =~= n.content().skip(index as int));
                    }
                    (left.clone(), right.clone())
                } else if index < w {
                    let (l1, l2) = Node::split(left, index);
                    let rest = Node::concat(&l2, right);
                    proof {
                        assert(l1.content() =~= n.content().take(index as int));
                        assert(rest.content() =~= n.content().skip(index as int));
                    }
                    (l1, rest)
                } else {
                    let (r1, r2) = Node::split(right, index - w);
                    let first = Node::concat(left, &r1);
                    proof {
                        assert(first.content() =~= n.content().take(index as int));
                        assert(r2.content() =~= n.content().skip(index as int));
                    }
                    (first, r2)
                }
            },
        }
    }
}

} // verus!
