//! A rope: a persistent, structurally shared sequence of bytes.
//!
//! Every edit (`concat`, `split`, `insert`, `delete`) returns a new rope and
//! leaves its operands untouched; subtrees are shared between the old and the
//! new value instead of being copied. The contracts speak of a rope through
//! its view, the `Seq<u8>` of its bytes.

use std::rc::Rc;
use vstd::prelude::*;

pub mod content;
mod node;

use content::removed;
use content::spliced;
use node::Node;
use vstd::string::StringSliceAdditionalSpecFns;

verus! {

/// The one failure the rope can signal: an index or range argument that
/// exceeds the rope's current length.
#[derive(Clone, Copy, Debug, PartialEq, Eq, Structural)]
pub struct OutOfBounds;

/// A persistent byte sequence, held as one shared handle to a tree root.
///
/// Cloning a rope only copies the handle: the clone shares the whole tree.
#[derive(Debug)]
pub struct Rope {
    root: Rc<Node>,
}

impl Clone for Rope {
    /// The clone shares the whole tree with the original and holds the same
    /// bytes.
    fn clone(&self) -> (r: Self)
        ensures
            r@ == self@,
    {
        proof {
            use_type_invariant(&*self);
        }
        Rope { root: self.root.clone() }
    }
}

/// A forward cursor over a rope's bytes, in left-to-right order.
///
/// Each call of [`RopeByte::next`] yields the next byte until the rope is
/// exhausted; a fresh cursor from [`Rope::iter`] restarts at the front.
#[derive(Debug)]
pub struct RopeByte<'a> {
    index: usize,
    rope: &'a Rope,
}

impl<'a> Clone for RopeByte<'a> {
    /// The clone walks the same rope and stands at the same position.
    fn clone(&self) -> (r: Self)
        ensures
            r.content() == self.content(),
            r.pos() == self.pos(),
    {
        proof {
            use_type_invariant(&*self);
        }
        RopeByte { index: self.index, rope: self.rope }
    }
}

impl<'a> RopeByte<'a> {
    /// The byte sequence the cursor walks over.
    pub closed spec fn content(self) -> Seq<u8> {
        self.rope@
    }

    /// How many bytes the cursor has yielded so far.
    pub closed spec fn pos(self) -> nat {
        self.index as nat
    }

    /// The cursor never moves past the end of its rope.
    #[verifier::type_invariant]
    spec fn inv(self) -> bool {
        self.index <= self.rope@.len() && self.rope@.len() <= usize::MAX
    }

    /// Yield the byte the cursor stands on and step forward, or report the
    /// end of the rope.
    pub fn next(&mut self) -> (r: Option<&'a u8>)
        ensures
            final(self).content() == old(self).content(),
            old(self).pos() < old(self).content().len() ==> (r matches Some(b) && *b == old(
                self,
            ).content()[old(self).pos() as int] && final(self).pos() == old(self).pos() + 1),
            old(self).pos() >= old(self).content().len() ==> (r is None && final(self).pos() == old(
                self,
            ).pos()),
    {
        proof {
            use_type_invariant(&*self);
        }
        let r = self.rope.get(self.index);
        if r.is_some() {
            self.index = self.index + 1;
        }
        r
    }
}

impl View for Rope {
    type V = Seq<u8>;

    closed spec fn view(&self) -> Seq<u8> {
        self.root.content()
    }
}

impl Rope {
    /// Every rope's tree is well formed: each branch caches its true
    /// weight and length.
    #[verifier::type_invariant]
    spec fn inv(self) -> bool {
        self.root.wf()
    }

    /// Create an empty rope.
    pub fn new() -> (r: Self)
        ensures
            r@ == Seq::<u8>::empty(),
    {
        Rope { root: Rc::new(Node::Leaf(Vec::new())) }
    }

    /// Total number of bytes in the rope.
    pub fn len(&self) -> (n: usize)
        ensures
            n == self@.len(),
    {
        proof {
            use_type_invariant(&*self);
        }
        self.root.len()
    }

    /// The byte at position `index`, or `None` when `index >= self.len()`.
    pub fn get(&self, index: usize) -> (r: Option<&u8>)
        ensures
            index < self@.len() ==> (r matches Some(b) && *b == self@[index as int]),
            index >= self@.len() ==> r is None,
    {
        proof {
            use_type_invariant(&*self);
        }
        self.root.get(index)
    }

    /// A new rope holding the bytes of `self` followed by the bytes of
    /// `other`. Both operands' trees are shared, not copied.
    pub fn concat(&self, other: &Rope) -> (r: Rope)
        requires
            self@.len() + other@.len() <= usize::MAX,
        ensures
            r@ == self@ + other@,
            r@.len() == self@.len() + other@.len(),
    {
        proof {
            use_type_invariant(&*self);
            use_type_invariant(&*other);
        }
        Rope { root: Node::concat(&self.root, &other.root) }
    }

    /// Cut the rope into a left part of exactly `index` bytes and a right
    /// part holding the rest, sharing every subtree that lies wholly on one
    /// side of the cut.
    ///
    /// Succeeds exactly when `0 <= index <= self.len()`; any larger index
    /// is out of bounds.
    pub fn split(&self, index: usize) -> (r: Result<(Rope, Rope), OutOfBounds>)
        ensures
            index <= self@.len() ==> (r matches Ok(p) && p.0@ == self@.take(index as int) && p.1@
                == self@.skip(index as int)),
            index > self@.len() ==> r is Err,
    {
        proof {
            use_type_invariant(&*self);
        }
        if index > self.len() {
            return Err(OutOfBounds);
        }
        let (l, r) = Node::split(&self.root, index);
        Ok((Rope { root: l }, Rope { root: r }))
    }

    /// A new rope with the bytes of `other` spliced in at position `index`:
    /// the cut halves of `self` are shared around a shared `other`.
    ///
    /// Succeeds exactly when `0 <= index <= self.len()`; any larger index
    /// is out of bounds.
    pub fn insert(&self, index: usize, other: &Rope) -> (r: Result<Rope, OutOfBounds>)
        requires
            self@.len() + other@.len() <= usize::MAX,
        ensures
            index <= self@.len() ==> (r matches Ok(res) && res@ == spliced(
                self@,
                index as int,
                other@,
            ) && res@.len() == self@.len() + other@.len()),
            index > self@.len() ==> r is Err,
    {
        proof {
            use_type_invariant(&*self);
            use_type_invariant(&*other);
        }
        match self.split(index) {
            Err(e) => Err(e),
            Ok((l, r)) => {
                let joined = l.concat(other).concat(&r);
                proof {
                    assert(joined@ =~= spliced(self@, index as int, other@));
                }
                Ok(joined)
            },
        }
    }

    /// A new rope with the byte range `[index, index + count)` removed; the
    /// kept stretches on either side are shared with `self`.
    ///
    /// Succeeds exactly when the whole range lies inside the rope, that is
    /// when `index + count <= self.len()`; removing zero bytes at any valid
    /// position leaves the content unchanged.
    pub fn delete(&self, index: usize, count: usize) -> (r: Result<Rope, OutOfBounds>)
        ensures
            index + count <= self@.len() ==> (r matches Ok(res) && res@ == removed(
                self@,
                index as int,
                count as int,
            ) && res@.len() == self@.len() - count),
            index + count > self@.len() ==> r is Err,
    {
        proof {
            use_type_invariant(&*self);
            self.root.lemma_content_fits();
        }
        match self.split(index) {
            Err(e) => Err(e),
            Ok((l, rest)) => match rest.split(count) {
                Err(e) => Err(e),
                Ok((_, r)) => {
                    let kept = l.concat(&r);
                    proof {
                        assert(kept@ =~= removed(self@, index as int, count as int));
                    }
                    Ok(kept)
                },
            },
        }
    }

    /// A fresh cursor over this rope's bytes, standing on the first byte.
    pub fn iter<'a>(&'a self) -> (it: RopeByte<'a>)
        ensures
            it.content() == self@,
            it.pos() == 0,
    {
        proof {
            use_type_invariant(&*self);
            self.root.lemma_content_fits();
        }
        RopeByte { index: 0, rope: self }
    }
}

impl Rope {
    /// Wrap an owned byte buffer in a single fresh leaf.
    fn leaf_of(bytes: Vec<u8>) -> (r: Rope)
        ensures
            r@ == bytes@,
    {
        Rope { root: Rc::new(Node::Leaf(bytes)) }
    }
}

impl From<Vec<u8>> for Rope {
    /// Build a rope of exactly the given bytes, taking ownership of the
    /// buffer.
    fn from(bytes: Vec<u8>) -> (r: Rope)
        ensures
            r@ == bytes@,
    {
        Rope::leaf_of(bytes)
    }
}

/// Ghost code cannot build the shared handle behind a rope's root, so no
/// canonical `from_spec` value is claimed; the `from` impl above carries
/// its contract directly instead.
impl vstd::std_specs::convert::FromSpecImpl<Vec<u8>> for Rope {
    open spec fn obeys_from_spec() -> bool {
        false
    }

    open spec fn from_spec(v: Vec<u8>) -> Rope {
        arbitrary()
    }
}

impl From<&str> for Rope {
    /// Build a rope of the string's UTF-8 bytes.
    fn from(text: &str) -> (r: Rope)
        ensures
            r@ == text.spec_bytes(),
    {
        Rope::leaf_of(vstd::slice::slice_to_vec(text.as_bytes()))
    }
}

/// As for byte vectors: the `from` impl above carries its contract
/// directly, and no canonical `from_spec` value is claimed.
impl vstd::std_specs::convert::FromSpecImpl<&str> for Rope {
    open spec fn obeys_from_spec() -> bool {
        false
    }

    open spec fn from_spec(v: &str) -> Rope {
        arbitrary()
    }
}

} // verus!
