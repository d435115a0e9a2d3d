//! Node pool backed binary tree.
//!
//! A binary tree tuned for indexing an LZSS dictionary. Nodes take unique values from
//! `0..len`, where `len` is the size of the node pool; a node's value is also its slot in the
//! pool, so a cursor, a node value and a pool index are one and the same.
//!
//! There can be one root per symbol, each occupying a slot in the pool. The tree keeps a ghost
//! ranking of its slots that strictly decreases along every downward link, which is what makes
//! the downward structure acyclic and its recursive walks finite.
use vstd::prelude::*;

verus! {

/// Tree errors.
#[derive(Debug, Clone, Copy, PartialEq, Eq, Structural)]
pub enum Error {
    NodeMissing,
    NodeExists,
    OutOfRange,
    NoCursor,
    BrokenConnection,
    BrokenConnectionOrRoot,
    BrokenConnectionOrNotRoot,
}

/// The opposite side.
pub open spec fn other_side(s: Side) -> Side {
    match s {
        Side::Left => Side::Right,
        Side::Right => Side::Left,
    }
}

/// Which child of a node.
#[derive(Debug, Clone, Copy, PartialEq, Eq, Structural)]
pub enum Side {
    Left,
    Right,
}

impl Side {
    /// The child index of a side: 0 for `Left`, 1 for `Right`.
    pub open spec fn index(self) -> int {
        match self {
            Side::Left => 0,
            Side::Right => 1,
        }
    }

    /// Convert a child index to a side, as `FromPrimitive` does: 0 is `Left`, 1 is `Right`.
    pub fn from_index(i: usize) -> (r: Option<Side>)
        ensures
            i == 0 ==> r == Some(Side::Left),
            i == 1 ==> r == Some(Side::Right),
            i > 1 ==> r is None,
    {
        if i == 0 {
            Some(Side::Left)
        } else if i == 1 {
            Some(Side::Right)
        } else {
            None
        }
    }
}

/// A node of the pool. Its value is its index in the pool.
#[derive(Clone, Copy)]
struct Node {
    val: usize,
    symbol: Option<usize>,
    up: Option<usize>,
    left: Option<usize>,
    right: Option<usize>,
}

impl Node {
    spec fn child(self, side: Side) -> Option<usize> {
        match side {
            Side::Left => self.left,
            Side::Right => self.right,
        }
    }

    spec fn is_reset(self) -> bool {
        self.symbol is None && self.up is None && self.left is None && self.right is None
    }
}

/// A binary tree whose nodes live in a fixed pool, with optional roots per symbol.
pub struct Tree {
    roots: Vec<Option<usize>>,
    curs: Option<usize>,
    pool: Vec<Node>,
    rank: Ghost<Seq<nat>>,
}

spec fn node_ok(pool: Seq<Node>, nroots: nat, rank: Seq<nat>, i: int) -> bool {
    let n = pool[i];
    &&& n.val == i
    &&& opt_below(n.symbol, nroots)
    &&& opt_below(n.up, pool.len())
    &&& (n.left matches Some(c) ==> c < pool.len() && rank[c as int] < rank[i])
    &&& (n.right matches Some(c) ==> c < pool.len() && rank[c as int] < rank[i])
}

/// `y` can be reached from `x` by following downward links whose rank decreases, or is `x`.
spec fn below_in(pool: Seq<Node>, rank: Seq<nat>, x: int, y: int) -> bool
    decreases rank[x],
{
    if !(rank.len() == pool.len() && 0 <= x < pool.len()) {
        x == y
    } else if x == y {
        true
    } else {
        (match pool[x].left {
            Some(c) => rank[c as int] < rank[x] && below_in(pool, rank, c as int, y),
            None => false,
        }) || (match pool[x].right {
            Some(c) => rank[c as int] < rank[x] && below_in(pool, rank, c as int, y),
            None => false,
        })
    }
}

/// The last node reached from `i` by following `side` links whose rank decreases.
spec fn terminus_in(pool: Seq<Node>, rank: Seq<nat>, i: int, side: Side) -> int
    decreases rank[i],
{
    if !(rank.len() == pool.len() && 0 <= i < pool.len()) {
        i
    } else {
        match pool[i].child(side) {
            Some(c) => if rank[c as int] < rank[i] { terminus_in(pool, rank, c as int, side) } else { i },
            None => i,
        }
    }
}

/// The links of slot `i` agree with those of its neighbours and with the root table.
spec fn links_back_in(pool: Seq<Node>, roots: Seq<Option<usize>>, i: int) -> bool {
    let n = pool[i];
    &&& (n.left is Some ==> pool[n.left.unwrap() as int].up == Some(i as usize))
    &&& (n.right is Some ==> pool[n.right.unwrap() as int].up == Some(i as usize))
    &&& (n.up is Some ==> pool[n.up.unwrap() as int].left == Some(i as usize)
        || pool[n.up.unwrap() as int].right == Some(i as usize))
    &&& (n.left is Some && n.right is Some ==> n.left != n.right)
    &&& (n.symbol is Some ==> roots[n.symbol.unwrap() as int] == Some(i as usize))
}

/// Every downward link has a matching upward link and every upward link a matching downward
/// one, no node holds the same child on both sides, and the root table and the symbols of the
/// nodes agree.
spec fn linked_in(pool: Seq<Node>, roots: Seq<Option<usize>>) -> bool {
    &&& forall|i: int| 0 <= i < pool.len() ==> #[trigger] links_back_in(pool, roots, i)
    &&& forall|k: int| 0 <= k < roots.len() && (#[trigger] roots[k]) is Some
            ==> pool[roots[k].unwrap() as int].symbol == Some(k as usize)
}

/// Node `b` is node `a` with at most its links to slot `ov` redirected to slot `nv`, and with
/// any parent.
spec fn relinked(a: Node, b: Node, ov: usize, nv: usize) -> bool {
    &&& b.val == a.val
    &&& b.symbol == a.symbol
    &&& (b.left == a.left || (a.left == Some(ov) && b.left == Some(nv)))
    &&& (b.right == a.right || (a.right == Some(ov) && b.right == Some(nv)))
}

/// A value that, if present, lies below `bound`.
pub open spec fn opt_below(o: Option<usize>, bound: nat) -> bool {
    match o {
        Some(v) => v < bound,
        None => true,
    }
}

impl Tree {
    /// Well-formedness: every link points into the pool or the root table, each node's value is
    /// its slot, and the ghost rank strictly decreases along every downward link.
    pub closed spec fn wf(&self) -> bool {
        &&& self.rank@.len() == self.pool@.len()
        &&& self.pool@.len() <= usize::MAX
        &&& self.roots@.len() <= usize::MAX
        &&& forall|k: int| 0 <= k < self.roots@.len() ==> opt_below(#[trigger] self.roots@[k], self.pool@.len())
        &&& forall|i: int| 0 <= i < self.pool@.len() ==> #[trigger] node_ok(self.pool@, self.roots@.len(), self.rank@, i)
    }

    /// Facts that well-formedness gives about the node in slot `i`.
    proof fn lemma_node(&self, i: int)
        requires
            self.wf(),
            0 <= i < self.pool@.len(),
        ensures
            self.pool@[i].val == i,
            opt_below(self.pool@[i].symbol, self.roots@.len()),
            opt_below(self.pool@[i].up, self.pool@.len()),
            self.pool@[i].left matches Some(c) ==> c < self.pool@.len() && self.rank@[c as int] < self.rank@[i],
            self.pool@[i].right matches Some(c) ==> c < self.pool@.len() && self.rank@[c as int] < self.rank@[i],
    {
        assert(node_ok(self.pool@, self.roots@.len(), self.rank@, i));
    }

    /// Number of slots in the node pool.
    pub closed spec fn len(&self) -> nat {
        self.pool@.len()
    }

    /// Number of symbols, that is of possible roots.
    pub closed spec fn symbols(&self) -> nat {
        self.roots@.len()
    }

    /// The cursor.
    pub closed spec fn cursor(&self) -> Option<usize> {
        self.curs
    }

    /// The root slot of a symbol, if it has one.
    pub closed spec fn root(&self, symbol: int) -> Option<usize> {
        self.roots@[symbol]
    }

    /// The symbol of the node in slot `i`, if it is a root.
    pub closed spec fn symbol_of(&self, i: int) -> Option<usize> {
        self.pool@[i].symbol
    }

    /// The parent link of the node in slot `i`.
    pub closed spec fn up_of(&self, i: int) -> Option<usize> {
        self.pool@[i].up
    }

    /// The child link of the node in slot `i` on one side.
    pub closed spec fn down_of(&self, i: int, side: Side) -> Option<usize> {
        self.pool@[i].child(side)
    }

    /// The node in slot `i` has no symbol, no parent and no children.
    pub open spec fn is_reset(&self, i: int) -> bool {
        &&& self.symbol_of(i) is None
        &&& self.up_of(i) is None
        &&& self.down_of(i, Side::Left) is None
        &&& self.down_of(i, Side::Right) is None
    }

    /// `y` can be reached from `x` by following downward links (or is `x` itself).
    pub closed spec fn below(&self, x: int, y: int) -> bool {
        below_in(self.pool@, self.rank@, x, y)
    }

    /// Every downward link has a matching upward link and every upward link a matching downward
    /// one, no node holds the same child on both sides, and the root table and the symbols of
    /// the nodes agree.
    pub closed spec fn linked(&self) -> bool {
        linked_in(self.pool@, self.roots@)
    }

    proof fn lemma_below_unfold(&self, x: int, y: int)
        requires
            self.wf(),
            0 <= x < self.pool@.len(),
        ensures
            self.below(x, y) == (x == y
                || (self.pool@[x].left matches Some(c) && self.below(c as int, y))
                || (self.pool@[x].right matches Some(c) && self.below(c as int, y))),
    {
        self.lemma_node(x);
    }

    /// Nodes below `x` lie in the pool and rank no higher than `x`; strictly lower unless `x` itself.
    proof fn lemma_below_rank(&self, x: int, y: int)
        requires
            self.wf(),
            0 <= x < self.pool@.len(),
            self.below(x, y),
        ensures
            0 <= y < self.pool@.len(),
            self.rank@[y] <= self.rank@[x],
            x != y ==> self.rank@[y] < self.rank@[x],
        decreases self.rank@[x],
    {
        self.lemma_node(x);
        if x != y {
            if self.pool@[x].left is Some && self.below(self.pool@[x].left.unwrap() as int, y) {
                self.lemma_below_rank(self.pool@[x].left.unwrap() as int, y);
            } else {
                let c = self.pool@[x].right.unwrap();
                self.lemma_below_rank(c as int, y);
            }
        }
    }

    proof fn lemma_below_trans(&self, x: int, y: int, z: int)
        requires
            self.wf(),
            0 <= x < self.pool@.len(),
            self.below(x, y),
            self.below(y, z),
        ensures
            self.below(x, z),
        decreases self.rank@[x],
    {
        self.lemma_node(x);
        if x != y {
            if self.pool@[x].left is Some && self.below(self.pool@[x].left.unwrap() as int, y) {
                self.lemma_below_trans(self.pool@[x].left.unwrap() as int, y, z);
            } else {
                let c = self.pool@[x].right.unwrap();
                self.lemma_below_trans(c as int, y, z);
            }
        }
    }

    /// A node below `x` other than `x` is a child of some node below `x`.
    proof fn lemma_last_link(&self, x: int, y: int) -> (q: int)
        requires
            self.wf(),
            0 <= x < self.pool@.len(),
            self.below(x, y),
            x != y,
        ensures
            0 <= q < self.pool@.len(),
            self.below(x, q),
            self.pool@[q].left == Some(y as usize) || self.pool@[q].right == Some(y as usize),
        decreases self.rank@[x],
    {
        self.lemma_node(x);
        let c = if self.pool@[x].left is Some && self.below(self.pool@[x].left.unwrap() as int, y) {
            self.pool@[x].left.unwrap()
        } else {
            self.pool@[x].right.unwrap()
        };
        if c as int == y {
            x
        } else {
            let q = self.lemma_last_link(c as int, y);
            self.lemma_below_unfold(x, q);
            q
        }
    }

    /// In a linked tree, the parent of a node strictly below `x` is itself below `x`.
    proof fn lemma_parent_below(&self, x: int, y: int)
        requires
            self.wf(),
            self.linked(),
            0 <= x < self.pool@.len(),
            self.below(x, y),
            x != y,
        ensures
            self.pool@[y].up matches Some(q) && self.below(x, q as int),
    {
        let q = self.lemma_last_link(x, y);
        self.lemma_below_rank(x, y);
        assert(links_back_in(self.pool@, self.roots@, q));
        assert(self.pool@[y].up == Some(q as usize));
    }


    /// The links of slot `i` to nodes outside the subtree of `d` are present in `other` as well.
    spec fn keeps_outside(&self, other: &Tree, d: int, i: int) -> bool {
        &&& (self.pool@[i].left is Some && !self.below(d, self.pool@[i].left.unwrap() as int)
            ==> other.pool@[i].left == self.pool@[i].left)
        &&& (self.pool@[i].right is Some && !self.below(d, self.pool@[i].right.unwrap() as int)
            ==> other.pool@[i].right == self.pool@[i].right)
    }

    /// A tree with a subset of the downward links reaches a subset of the nodes.
    proof fn lemma_below_fewer(&self, other: &Tree, x: int, y: int)
        requires
            self.wf(),
            other.wf(),
            self.fewer_links(other),
            0 <= x < self.pool@.len(),
            other.below(x, y),
        ensures
            self.below(x, y),
        decreases self.rank@[x],
    {
        self.lemma_node(x);
        other.lemma_node(x);
        if x != y {
            assert(other.pool@[x].left is None || other.pool@[x].left == self.pool@[x].left);
            let c = if other.pool@[x].left is Some && other.below(other.pool@[x].left.unwrap() as int, y) {
                other.pool@[x].left.unwrap()
            } else {
                other.pool@[x].right.unwrap()
            };
            self.lemma_below_fewer(other, c as int, y);
            self.lemma_below_unfold(x, y);
        }
    }

    /// If `other` keeps every link of `self` between nodes outside the subtree of `d`, it
    /// reaches from `x` every node outside that subtree that `self` reaches.
    proof fn lemma_below_kept(&self, other: &Tree, d: int, x: int, y: int)
        requires
            self.wf(),
            other.wf(),
            other.rank@ == self.rank@,
            other.pool@.len() == self.pool@.len(),
            0 <= d < self.pool@.len(),
            forall|i: int| 0 <= i < self.pool@.len() && !self.below(d, i) ==> #[trigger] self.keeps_outside(other, d, i),
            0 <= x < self.pool@.len(),
            self.below(x, y),
            !self.below(d, y),
        ensures
            other.below(x, y),
        decreases self.rank@[x],
    {
        self.lemma_node(x);
        other.lemma_node(x);
        if x != y {
            if self.below(d, x) {
                self.lemma_below_trans(d, x, y);
            }
            let c = if self.pool@[x].left is Some && self.below(self.pool@[x].left.unwrap() as int, y) {
                self.pool@[x].left.unwrap()
            } else {
                self.pool@[x].right.unwrap()
            };
            if self.below(d, c as int) {
                self.lemma_below_trans(d, c as int, y);
            }
            self.lemma_below_kept(other, d, c as int, y);
            assert(self.keeps_outside(other, d, x));
            other.lemma_below_unfold(x, y);
        }
    }


    /// A link, or `None` where it leads into the subtree of `c`.
    pub open spec fn cut_link(&self, l: Option<usize>, c: int) -> Option<usize> {
        if l is Some && self.below(c, l.unwrap() as int) {
            None
        } else {
            l
        }
    }

    /// Slot `i` of `new` is what dropping the subtree of `c` from `self` leaves of it: reset if
    /// the slot is in the subtree, else unchanged but for its links into the subtree.
    pub open spec fn drop_node_ok(&self, new: &Tree, c: int, i: int) -> bool {
        if self.below(c, i) {
            new.is_reset(i)
        } else {
            &&& new.symbol_of(i) == self.symbol_of(i)
            &&& new.up_of(i) == self.up_of(i)
            &&& new.down_of(i, Side::Left) == self.cut_link(self.down_of(i, Side::Left), c)
            &&& new.down_of(i, Side::Right) == self.cut_link(self.down_of(i, Side::Right), c)
        }
    }

    /// `new` is `self` with the subtree of `c` dropped: its slots reset, the links and the roots
    /// that led into it removed, everything else unchanged.
    pub open spec fn dropped_from(&self, new: &Tree, c: int) -> bool {
        &&& new.len() == self.len()
        &&& new.symbols() == self.symbols()
        &&& new.same_ranks(self)
        &&& forall|i: int| 0 <= i < self.len() ==> #[trigger] self.drop_node_ok(new, c, i)
        &&& forall|k: int| 0 <= k < self.symbols() ==> #[trigger] new.root(k) == self.cut_link(self.root(k), c)
    }

    /// Both trees rank their slots alike.
    pub closed spec fn same_ranks(&self, other: &Tree) -> bool {
        self.rank@ == other.rank@
    }

    /// Where the cursor goes when the subtree of `c` is dropped: to the parent of `c`, or to
    /// nowhere if `c` is a root, or it stays on `c`.
    pub open spec fn cursor_after_drop(&self, c: int) -> Option<usize> {
        if self.symbol_of(c) is Some {
            None
        } else if self.up_of(c) is Some {
            self.up_of(c)
        } else {
            Some(c as usize)
        }
    }

    /// The rank of the cursor, which bounds the depth of a drop.
    pub closed spec fn cursor_rank(&self) -> nat {
        match self.curs {
            Some(c) => if c < self.pool@.len() { self.rank@[c as int] } else { 0 },
            None => 0,
        }
    }

    /// Dropping a subtree from a linked tree leaves it linked.
    proof fn lemma_dropped_linked(&self, new: &Tree, c: int)
        requires
            self.wf(),
            self.linked(),
            new.wf(),
            0 <= c < self.pool@.len(),
            self.dropped_from(new, c),
        ensures
            new.linked(),
    {
        assert forall|i: int| 0 <= i < new.pool@.len() implies #[trigger] links_back_in(new.pool@, new.roots@, i) by {
            assert(self.drop_node_ok(new, c, i));
            assert(links_back_in(self.pool@, self.roots@, i));
            if !self.below(c, i) {
                let n = self.pool@[i];
                if new.pool@[i].left is Some {
                    let z = new.pool@[i].left.unwrap() as int;
                    self.lemma_node(i);
                    assert(self.drop_node_ok(new, c, z));
                }
                if new.pool@[i].right is Some {
                    let z = new.pool@[i].right.unwrap() as int;
                    self.lemma_node(i);
                    assert(self.drop_node_ok(new, c, z));
                }
                if n.up is Some {
                    let q = n.up.unwrap() as int;
                    self.lemma_node(i);
                    if self.below(c, q) {
                        self.lemma_below_unfold(q, i);
                        self.lemma_below_trans(c, q, i);
                    }
                    assert(self.drop_node_ok(new, c, q));
                }
                if n.symbol is Some {
                    let k = n.symbol.unwrap() as int;
                    self.lemma_node(i);
                    assert(new.root(k) == self.cut_link(self.root(k), c));
                }
            }
        }
        assert forall|k: int| 0 <= k < new.roots@.len() && (#[trigger] new.roots@[k]) is Some
            implies new.pool@[new.roots@[k].unwrap() as int].symbol == Some(k as usize) by {
            assert(new.root(k) == self.cut_link(self.root(k), c));
            let x = new.roots@[k].unwrap() as int;
            assert(self.drop_node_ok(new, c, x));
        }
    }

    /// Drop the nodes at and below the cursor. On exit the cursor moves up to the parent; if
    /// the node is a root, the cursor becomes `None`.
    pub fn drop(&mut self) -> (r: Result<(), Error>)
        requires
            old(self).wf(),
        ensures
            final(self).wf(),
            final(self).len() == old(self).len(),
            final(self).symbols() == old(self).symbols(),
            old(self).fewer_links(&*final(self)),
            match old(self).cursor() {
                None => r == Err::<(), Error>(Error::NoCursor) && *final(self) == *old(self),
                Some(c) => if c >= old(self).len() {
                    r == Err::<(), Error>(Error::OutOfRange) && *final(self) == *old(self)
                } else {
                    &&& r is Ok || r == Err::<(), Error>(Error::BrokenConnection)
                    &&& old(self).drop_frame(&*final(self), c as int)
                    &&& old(self).linked() ==> {
                        &&& r is Ok
                        &&& old(self).dropped_from(&*final(self), c as int)
                        &&& final(self).linked()
                        &&& final(self).cursor() == old(self).cursor_after_drop(c as int)
                    }
                },
            },
        decreases old(self).cursor_rank(), 1nat,
    {
        let curs = self.chk_cursor()?;
        proof { self.lemma_node(curs as int); }
        let maybe_parent = self.pool[curs].up;
        let maybe_symbol = self.pool[curs].symbol;
        let ghost t0 = *self;
        let (res, Ghost(t1)) = self.drop_children(curs);
        if res.is_err() {
            return res;
        }
        let ghost t2 = *self;
        proof { t2.lemma_node(curs as int); }
        if let Some(parent) = maybe_parent {
            proof {
                if t0.linked() {
                    assert(links_back_in(t2.pool@, t2.roots@, curs as int));
                }
            }
            let (_, side) = self.get_parent_and_side()?;
            let mut pn = self.pool[parent];
            match side {
                Side::Left => { pn.left = None; },
                Side::Right => { pn.right = None; },
            }
            self.set_node(parent, pn);
            self.curs = Some(parent);
        }
        if let Some(symbol) = maybe_symbol {
            self.set_root(symbol, None);
            self.curs = None;
        }
        self.set_node(curs, Node { val: curs, symbol: None, up: None, left: None, right: None });
        proof {
            assert forall|i: int| 0 <= i < self.pool@.len() implies #[trigger] node_ok(self.pool@, self.roots@.len(), self.rank@, i) by {
                t2.lemma_node(i);
            }
            t2.lemma_last_step(&*self, curs as int);
            t0.lemma_frame_trans(&t2, &*self, curs as int);
            if t0.linked() {
                t0.lemma_drop_compose(&t1, &t2, &*self, curs as int);
                t0.lemma_dropped_linked(&*self, curs as int);
            }
        }
        Ok(())
    }

    /// Drop the subtrees of both children of the cursor node `curs`, left first; the cursor
    /// ends on `curs`. Also hands back, as a ghost value, the tree between the two drops.
    fn drop_children(&mut self, curs: usize) -> (r: (Result<(), Error>, Ghost<Tree>))
        requires
            old(self).wf(),
            curs < old(self).len(),
            old(self).cursor() == Some(curs),
        ensures
            r.0 is Ok || r.0 == Err::<(), Error>(Error::BrokenConnection),
            old(self).drop_frame(&*final(self), curs as int),
            final(self).up_of(curs as int) == old(self).up_of(curs as int),
            final(self).symbol_of(curs as int) == old(self).symbol_of(curs as int),
            r.0 is Ok ==> final(self).cursor() == Some(curs),
            old(self).linked() ==> {
                &&& r.0 is Ok
                &&& r.1@.wf()
                &&& r.1@.linked()
                &&& final(self).linked()
                &&& old(self).child_dropped(&r.1@, curs as int, Side::Left)
                &&& r.1@.child_dropped(&*final(self), curs as int, Side::Right)
            },
        decreases old(self).cursor_rank(), 0nat,
    {
        let ghost t0 = *self;
        proof { self.lemma_node(curs as int); }
        if self.down(Side::Left).is_ok() {
            let ghost tl = *self;
            let ghost dl = t0.pool@[curs as int].left.unwrap() as int;
            proof { assert(linked_in(tl.pool@, tl.roots@) == linked_in(t0.pool@, t0.roots@)); }
            let res = self.drop();
            let ghost t1pre = *self;
            proof { t0.lemma_frame_child(&tl, &t1pre, &t1pre, curs as int, dl); }
            if res.is_err() {
                return (res, Ghost(t1pre));
            }
            let _ = self.set_cursor(curs);
            proof {
                t0.lemma_frame_child(&tl, &t1pre, &*self, curs as int, dl);
                if t0.linked() {
                    tl.lemma_dropped_same(&t0, &t1pre, &*self, dl);
                }
            }
        } else {
            proof { t0.lemma_frame_same(&*self, curs as int); }
        }
        let ghost t1 = *self;
        proof {
            if t0.linked() {
                if t0.pool@[curs as int].left is Some {
                    t0.lemma_dropped_linked(&t1, t0.pool@[curs as int].left.unwrap() as int);
                } else {
                    assert(linked_in(t1.pool@, t1.roots@) == linked_in(t0.pool@, t0.roots@));
                }
            }
            t1.lemma_node(curs as int);
        }
        if self.down(Side::Right).is_ok() {
            let ghost tr = *self;
            let ghost dr = t1.pool@[curs as int].right.unwrap() as int;
            proof { assert(linked_in(tr.pool@, tr.roots@) == linked_in(t1.pool@, t1.roots@)); }
            let res = self.drop();
            let ghost t2pre = *self;
            proof {
                t1.lemma_frame_child(&tr, &t2pre, &t2pre, curs as int, dr);
                t0.lemma_frame_trans(&t1, &t2pre, curs as int);
            }
            if res.is_err() {
                return (res, Ghost(t1));
            }
            let _ = self.set_cursor(curs);
            proof {
                t1.lemma_frame_child(&tr, &t2pre, &*self, curs as int, dr);
                t0.lemma_frame_trans(&t1, &*self, curs as int);
                if t0.linked() {
                    tr.lemma_dropped_same(&t1, &t2pre, &*self, dr);
                }
            }
        } else {
            proof {
                t1.lemma_frame_same(&*self, curs as int);
                t0.lemma_frame_trans(&t1, &*self, curs as int);
            }
        }
        proof {
            if t0.linked() {
                if t1.pool@[curs as int].right is Some {
                    t1.lemma_dropped_linked(&*self, t1.pool@[curs as int].right.unwrap() as int);
                } else {
                    assert(linked_in(self.pool@, self.roots@) == linked_in(t1.pool@, t1.roots@));
                }
            }
        }
        (Ok(()), Ghost(t1))
    }

    proof fn lemma_frame_same(&self, other: &Tree, c: int)
        requires
            self.wf(),
            self.same_links(other),
        ensures
            self.drop_frame(other, c),
            other.up_of(c) == self.up_of(c),
            other.symbol_of(c) == self.symbol_of(c),
    {
        assert(other.wf() == self.wf());
    }


    /// Drop everything below the cursor on one side; it is no error if there is no branch there.
    pub fn drop_branch(&mut self, side: Side) -> (r: Result<(), Error>)
        requires
            old(self).wf(),
        ensures
            final(self).wf(),
            final(self).len() == old(self).len(),
            final(self).symbols() == old(self).symbols(),
            match old(self).cursor() {
                Some(c) => if c < old(self).len() && old(self).down_of(c as int, side) is Some {
                    let d = old(self).down_of(c as int, side).unwrap() as int;
                    &&& r is Ok || r == Err::<(), Error>(Error::BrokenConnection)
                    &&& old(self).drop_frame(&*final(self), d)
                    &&& old(self).linked() ==> {
                        &&& r is Ok
                        &&& old(self).dropped_from(&*final(self), d)
                        &&& final(self).linked()
                        &&& final(self).cursor() == old(self).cursor_after_drop(d)
                    }
                } else {
                    r is Ok && *final(self) == *old(self)
                },
                None => r is Ok && *final(self) == *old(self),
            },
    {
        let ghost t0 = *self;
        proof {
            if t0.curs is Some && t0.curs.unwrap() < t0.pool@.len() {
                t0.lemma_node(t0.curs.unwrap() as int);
            }
        }
        if self.down(side).is_ok() {
            let ghost t1 = *self;
            let ghost d = t0.down_of(t0.curs.unwrap() as int, side).unwrap() as int;
            proof { assert(linked_in(t1.pool@, t1.roots@) == linked_in(t0.pool@, t0.roots@)); }
            let res = self.drop();
            proof {
                let t2 = *self;
                t1.lemma_frame_congruent(&t0, &t2, d);
                if t0.linked() {
                    t1.lemma_dropped_same(&t0, &t2, &t2, d);
                }
            }
            if res.is_err() {
                return res;
            }
        }
        Ok(())
    }

    /// Cut the links between the cursor node and its parent. Normally part of another
    /// operation; the tree is left broken.
    pub fn cut_upward(&mut self) -> (r: Result<(), Error>)
        requires
            old(self).wf(),
        ensures
            final(self).wf(),
            final(self).len() == old(self).len(),
            final(self).symbols() == old(self).symbols(),
            final(self).cursor() == old(self).cursor(),
            match old(self).cursor() {
                None => r == Err::<(), Error>(Error::NoCursor) && *final(self) == *old(self),
                Some(c) => if c >= old(self).len() {
                    r == Err::<(), Error>(Error::OutOfRange) && *final(self) == *old(self)
                } else {
                    match old(self).up_of(c as int) {
                        None => r == Err::<(), Error>(Error::BrokenConnectionOrRoot) && *final(self) == *old(self),
                        Some(p) => match old(self).side_in_parent(p as int, c) {
                            None => r == Err::<(), Error>(Error::BrokenConnection) && *final(self) == *old(self),
                            Some(s) => {
                                &&& r is Ok
                                &&& final(self).up_of(c as int) is None
                                &&& final(self).down_of(p as int, s) is None
                                &&& final(self).down_of(p as int, other_side(s)) == old(self).down_of(p as int, other_side(s))
                                &&& final(self).up_of(p as int) == old(self).up_of(p as int)
                                &&& final(self).symbol_of(p as int) == old(self).symbol_of(p as int)
                                &&& final(self).symbol_of(c as int) == old(self).symbol_of(c as int)
                                &&& final(self).down_of(c as int, Side::Left) == old(self).down_of(c as int, Side::Left)
                                &&& final(self).down_of(c as int, Side::Right) == old(self).down_of(c as int, Side::Right)
                                &&& forall|i: int| 0 <= i < old(self).len() && i != c && i != p ==> final(self).same_node(&*old(self), i)
                                &&& forall|k: int| 0 <= k < old(self).symbols() ==> final(self).root(k) == old(self).root(k)
                                &&& old(self).fewer_links(&*final(self))
                            },
                        },
                    }
                },
            },
    {
        let ghost t0 = *self;
        let (parent, side) = self.get_parent_and_side()?;
        let curs = self.curs.unwrap();
        proof { self.lemma_node(curs as int); self.lemma_node(parent as int); }
        let mut pn = self.pool[parent];
        match side {
            Side::Left => { pn.left = None; },
            Side::Right => { pn.right = None; },
        }
        self.set_node(parent, pn);
        let mut cn = self.pool[curs];
        cn.up = None;
        self.set_node(curs, cn);
        proof {
            assert forall|i: int| 0 <= i < self.pool@.len() implies #[trigger] node_ok(self.pool@, self.roots@.len(), self.rank@, i) by {
                t0.lemma_node(i);
            }
        }
        Ok(())
    }

    /// Cut the links between the cursor node and its child on one side. Normally part of
    /// another operation; the tree could be left broken.
    pub fn cut_downward(&mut self, side: Side) -> (r: Result<(), Error>)
        requires
            old(self).wf(),
        ensures
            final(self).wf(),
            final(self).len() == old(self).len(),
            final(self).symbols() == old(self).symbols(),
            final(self).cursor() == old(self).cursor(),
            match old(self).cursor() {
                None => r == Err::<(), Error>(Error::NoCursor) && *final(self) == *old(self),
                Some(c) => if c >= old(self).len() {
                    r == Err::<(), Error>(Error::OutOfRange) && *final(self) == *old(self)
                } else {
                    &&& r is Ok
                    &&& match old(self).down_of(c as int, side) {
                        None => *final(self) == *old(self),
                        Some(d) => {
                            &&& final(self).down_of(c as int, side) is None
                            &&& final(self).up_of(d as int) is None
                            &&& d != c ==> final(self).down_of(c as int, other_side(side)) == old(self).down_of(c as int, other_side(side))
                                && final(self).up_of(c as int) == old(self).up_of(c as int)
                                && final(self).symbol_of(c as int) == old(self).symbol_of(c as int)
                            &&& final(self).symbol_of(d as int) == old(self).symbol_of(d as int)
                            &&& final(self).down_of(d as int, Side::Left) == old(self).down_of(d as int, Side::Left)
                            &&& final(self).down_of(d as int, Side::Right) == old(self).down_of(d as int, Side::Right)
                            &&& forall|i: int| 0 <= i < old(self).len() && i != c && i != d ==> final(self).same_node(&*old(self), i)
                            &&& forall|k: int| 0 <= k < old(self).symbols() ==> final(self).root(k) == old(self).root(k)
                            &&& old(self).fewer_links(&*final(self))
                        },
                    }
                },
            },
    {
        let curs = self.chk_cursor()?;
        let ghost t0 = *self;
        proof { self.lemma_node(curs as int); }
        if let Some(son) = self.child_of(curs, side) {
            let mut cn = self.pool[curs];
            match side {
                Side::Left => { cn.left = None; },
                Side::Right => { cn.right = None; },
            }
            self.set_node(curs, cn);
            let mut sn = self.pool[son];
            sn.up = None;
            self.set_node(son, sn);
            proof {
                assert forall|i: int| 0 <= i < self.pool@.len() implies #[trigger] node_ok(self.pool@, self.roots@.len(), self.rank@, i) by {
                    t0.lemma_node(i);
                }
            }
        }
        Ok(())
    }


    /// A frame of a drop depends on the links of the trees alone, not on their cursors.
    proof fn lemma_frame_congruent(&self, a2: &Tree, b: &Tree, d: int)
        requires
            self.same_links(a2),
            self.drop_frame(b, d),
        ensures
            a2.drop_frame(b, d),
    {
        assert forall|i: int| 0 <= i < a2.len() && !a2.below(d, i)
            implies #[trigger] b.up_of(i) == a2.up_of(i) && b.symbol_of(i) == a2.symbol_of(i) by {
            assert(!self.below(d, i));
        }
    }


    /// Link `c`, which is not below `np`'s side slot, as the child of `np` on `side`, raising
    /// the ranks of the nodes outside the subtree of `c` so that ranks keep decreasing downward.
    fn link_child(&mut self, np: usize, side: Side, c: usize)
        requires
            old(self).wf(),
            np < old(self).len(),
            c < old(self).len(),
            !old(self).below(c as int, np as int),
        ensures
            final(self).wf(),
            final(self).len() == old(self).len(),
            final(self).symbols() == old(self).symbols(),
            final(self).cursor() == old(self).cursor(),
            forall|k: int| 0 <= k < old(self).symbols() ==> final(self).root(k) == old(self).root(k),
            final(self).down_of(np as int, side) == Some(c),
            final(self).down_of(np as int, other_side(side)) == old(self).down_of(np as int, other_side(side)),
            final(self).up_of(np as int) == old(self).up_of(np as int),
            final(self).symbol_of(np as int) == old(self).symbol_of(np as int),
            final(self).up_of(c as int) == Some(np),
            final(self).symbol_of(c as int) == old(self).symbol_of(c as int),
            final(self).down_of(c as int, Side::Left) == old(self).down_of(c as int, Side::Left),
            final(self).down_of(c as int, Side::Right) == old(self).down_of(c as int, Side::Right),
            forall|i: int| 0 <= i < old(self).len() && i != c && i != np ==> final(self).same_node(&*old(self), i),
    {
        let ghost t = *self;
        proof { t.lemma_below_unfold(c as int, c as int); }
        let mut pn = self.pool[np];
        match side {
            Side::Left => { pn.left = Some(c); },
            Side::Right => { pn.right = Some(c); },
        }
        self.set_node(np, pn);
        let mut cn = self.pool[c];
        cn.up = Some(np);
        self.set_node(c, cn);
        let ghost k = t.rank@[c as int] + 1;
        self.rank = Ghost(Seq::new(t.rank@.len(), |i: int| if t.below(c as int, i) { t.rank@[i] } else { t.rank@[i] + k }));
        proof {
            assert forall|i: int| 0 <= i < self.pool@.len() implies #[trigger] node_ok(self.pool@, self.roots@.len(), self.rank@, i) by {
                t.lemma_node(i);
                let n = self.pool@[i];
                if n.left is Some {
                    let z = n.left.unwrap() as int;
                    if !(i == np && side == Side::Left) {
                        if t.below(c as int, i) {
                            t.lemma_below_unfold(i, z);
                            t.lemma_below_trans(c as int, i, z);
                        }
                        if t.below(c as int, z) {
                            t.lemma_below_rank(c as int, z);
                        }
                    } else {
                        t.lemma_below_rank(c as int, c as int);
                    }
                }
                if n.right is Some {
                    let z = n.right.unwrap() as int;
                    if !(i == np && side == Side::Right) {
                        if t.below(c as int, i) {
                            t.lemma_below_unfold(i, z);
                            t.lemma_below_trans(c as int, i, z);
                        }
                        if t.below(c as int, z) {
                            t.lemma_below_rank(c as int, z);
                        }
                    }
                }
            }
        }
    }

    /// Move the cursor node and everything below it to a new parent, on `side`. An existing
    /// link to the old parent is cut first. An existing branch at the target is dropped and
    /// replaced if `force` is set, and is an error otherwise. The cursor stays on the node.
    /// The new parent must not lie in the moved subtree.
    pub fn move_node(&mut self, new_parent: usize, side: Side, force: bool) -> (r: Result<(), Error>)
        requires
            old(self).wf(),
            old(self).cursor() is Some && old(self).cursor().unwrap() < old(self).len() ==> {
                &&& new_parent < old(self).len()
                &&& !old(self).below(old(self).cursor().unwrap() as int, new_parent as int)
            },
        ensures
            final(self).wf(),
            final(self).len() == old(self).len(),
            final(self).symbols() == old(self).symbols(),
            match old(self).cursor() {
                None => r == Err::<(), Error>(Error::NoCursor) && *final(self) == *old(self),
                Some(c) => if c >= old(self).len() {
                    r == Err::<(), Error>(Error::OutOfRange) && *final(self) == *old(self)
                } else if old(self).down_of(new_parent as int, side) is Some && !force {
                    r == Err::<(), Error>(Error::NodeExists) && *final(self) == *old(self)
                } else {
                    &&& r is Ok || r == Err::<(), Error>(Error::BrokenConnection)
                    &&& r is Ok ==> {
                        &&& final(self).cursor() == Some(c)
                        &&& final(self).down_of(new_parent as int, side) == Some(c)
                        &&& final(self).up_of(c as int) == Some(new_parent)
                    }
                    &&& old(self).down_of(new_parent as int, side) is None ==> match old(self).up_of(c as int) {
                        None => {
                            &&& r is Ok
                            &&& final(self).symbol_of(c as int) == old(self).symbol_of(c as int)
                            &&& final(self).down_of(new_parent as int, other_side(side)) == old(self).down_of(new_parent as int, other_side(side))
                            &&& final(self).down_of(c as int, Side::Left) == old(self).down_of(c as int, Side::Left)
                            &&& final(self).down_of(c as int, Side::Right) == old(self).down_of(c as int, Side::Right)
                            &&& forall|i: int| 0 <= i < old(self).len() && i != c && i != new_parent ==> final(self).same_node(&*old(self), i)
                            &&& forall|k: int| 0 <= k < old(self).symbols() ==> final(self).root(k) == old(self).root(k)
                        },
                        Some(p) => match old(self).side_in_parent(p as int, c) {
                            None => r == Err::<(), Error>(Error::BrokenConnection) && *final(self) == *old(self),
                            Some(s) => {
                                &&& r is Ok
                                &&& final(self).symbol_of(c as int) == old(self).symbol_of(c as int)
                                &&& p != new_parent ==> final(self).down_of(p as int, s) is None
                                    && final(self).down_of(p as int, other_side(s)) == old(self).down_of(p as int, other_side(s))
                                &&& final(self).down_of(c as int, Side::Left) == old(self).down_of(c as int, Side::Left)
                                &&& final(self).down_of(c as int, Side::Right) == old(self).down_of(c as int, Side::Right)
                                &&& forall|i: int| 0 <= i < old(self).len() && i != c && i != new_parent && i != p
                                    ==> final(self).same_node(&*old(self), i)
                                &&& forall|k: int| 0 <= k < old(self).symbols() ==> final(self).root(k) == old(self).root(k)
                            },
                        },
                    }
                },
            },
    {
        let curs = self.chk_cursor()?;
        let ghost t0 = *self;
        proof { self.lemma_node(curs as int); self.lemma_node(new_parent as int); }
        let occupied = self.child_of(new_parent, side).is_some();
        if occupied && !force {
            return Err(Error::NodeExists);
        }
        if self.pool[curs].up.is_some() {
            self.cut_upward()?;
        }
        let ghost t1 = *self;
        proof {
            if t1.below(curs as int, new_parent as int) {
                t0.lemma_below_fewer(&t1, curs as int, new_parent as int);
            }
        }
        if occupied {
            let _ = self.set_cursor(new_parent);
            let ghost t2 = *self;
            let res = self.drop_branch(side);
            let ghost t3 = *self;
            proof {
                t2.lemma_node(new_parent as int);
                let x = t2.down_of(new_parent as int, side).unwrap() as int;
                if t3.below(curs as int, new_parent as int) {
                    t2.lemma_below_fewer(&t3, curs as int, new_parent as int);
                }
                assert(t2.below(curs as int, new_parent as int) == t1.below(curs as int, new_parent as int));
            }
            if res.is_err() {
                return res;
            }
            let _ = self.set_cursor(curs);
            proof {
                assert(self.below(curs as int, new_parent as int) == t3.below(curs as int, new_parent as int));
            }
        }
        let ghost t4 = *self;
        self.link_child(new_parent, side, curs);
        proof {
            if t0.pool@[curs as int].up is Some {
                let p = t0.pool@[curs as int].up.unwrap() as int;
                t0.lemma_node(p);
                assert(self.same_node(&t4, p) || p == new_parent);
            }
            if !occupied {
                assert forall|i: int| 0 <= i < t0.len() && i != curs && i != new_parent
                    && (t0.pool@[curs as int].up is None || i != t0.pool@[curs as int].up.unwrap())
                    implies self.same_node(&t0, i) by {
                    assert(self.same_node(&t4, i));
                    if t0.pool@[curs as int].up is Some {
                        assert(t1.same_node(&t0, i));
                    }
                }
            }
        }
        Ok(())
    }


    /// Same as `move_node`, except that the target is the root of `symbol`.
    pub fn move_node_to_root(&mut self, symbol: usize, force: bool) -> (r: Result<(), Error>)
        requires
            old(self).wf(),
            old(self).cursor() is Some && old(self).cursor().unwrap() < old(self).len() ==> symbol < old(self).symbols(),
        ensures
            final(self).wf(),
            final(self).len() == old(self).len(),
            final(self).symbols() == old(self).symbols(),
            match old(self).cursor() {
                None => r == Err::<(), Error>(Error::NoCursor) && *final(self) == *old(self),
                Some(c) => if c >= old(self).len() {
                    r == Err::<(), Error>(Error::OutOfRange) && *final(self) == *old(self)
                } else if old(self).root(symbol as int) is Some && !force {
                    r == Err::<(), Error>(Error::NodeExists) && *final(self) == *old(self)
                } else {
                    &&& r is Ok || r == Err::<(), Error>(Error::BrokenConnection)
                    &&& r is Ok ==> {
                        &&& final(self).cursor() == Some(c)
                        &&& final(self).root(symbol as int) == Some(c)
                        &&& final(self).symbol_of(c as int) == Some(symbol)
                        &&& final(self).up_of(c as int) is None
                    }
                    &&& old(self).root(symbol as int) is None ==> match old(self).up_of(c as int) {
                        None => {
                            &&& r is Ok
                            &&& final(self).down_of(c as int, Side::Left) == old(self).down_of(c as int, Side::Left)
                            &&& final(self).down_of(c as int, Side::Right) == old(self).down_of(c as int, Side::Right)
                            &&& forall|i: int| 0 <= i < old(self).len() && i != c ==> final(self).same_node(&*old(self), i)
                            &&& forall|k: int| 0 <= k < old(self).symbols() && k != symbol ==> final(self).root(k) == old(self).root(k)
                        },
                        Some(p) => match old(self).side_in_parent(p as int, c) {
                            None => r == Err::<(), Error>(Error::BrokenConnection) && *final(self) == *old(self),
                            Some(s) => {
                                &&& r is Ok
                                &&& final(self).down_of(p as int, s) is None
                                &&& final(self).down_of(p as int, other_side(s)) == old(self).down_of(p as int, other_side(s))
                                &&& final(self).down_of(c as int, Side::Left) == old(self).down_of(c as int, Side::Left)
                                &&& final(self).down_of(c as int, Side::Right) == old(self).down_of(c as int, Side::Right)
                                &&& forall|i: int| 0 <= i < old(self).len() && i != c && i != p ==> final(self).same_node(&*old(self), i)
                                &&& forall|k: int| 0 <= k < old(self).symbols() && k != symbol ==> final(self).root(k) == old(self).root(k)
                            },
                        },
                    }
                },
            },
    {
        let curs = self.chk_cursor()?;
        let ghost t0 = *self;
        proof { self.lemma_node(curs as int); }
        let old_root = self.roots[symbol];
        if old_root.is_some() && !force {
            return Err(Error::NodeExists);
        }
        if self.pool[curs].up.is_some() {
            self.cut_upward()?;
        }
        let ghost t1 = *self;
        if let Some(root) = old_root {
            let _ = self.set_cursor(root);
            self.drop()?;
            let _ = self.set_cursor(curs);
        }
        let ghost t2 = *self;
        self.set_root(symbol, Some(curs));
        let mut cn = self.pool[curs];
        cn.up = None;
        cn.symbol = Some(symbol);
        self.set_node(curs, cn);
        proof {
            assert forall|i: int| 0 <= i < self.pool@.len() implies #[trigger] node_ok(self.pool@, self.roots@.len(), self.rank@, i) by {
                t2.lemma_node(i);
            }
            if old_root is None {
                assert forall|i: int| 0 <= i < t0.len() && i != curs
                    && (t0.pool@[curs as int].up is None || i != t0.pool@[curs as int].up.unwrap())
                    implies self.same_node(&t0, i) by {
                    if t0.pool@[curs as int].up is Some {
                        assert(t1.same_node(&t0, i));
                    }
                }
                assert forall|k: int| 0 <= k < t0.symbols() && k != symbol implies self.root(k) == t0.root(k) by {
                    if t0.pool@[curs as int].up is Some {
                        assert(t1.root(k) == t0.root(k));
                    }
                }
            }
        }
        Ok(())
    }


    /// No node holds slot `v` as a child.
    pub open spec fn unreferenced(&self, v: int) -> bool {
        forall|i: int| 0 <= i < self.len() ==> #[trigger] self.down_of(i, Side::Left) != Some(v as usize)
            && self.down_of(i, Side::Right) != Some(v as usize)
    }

    /// Give the cursor node the value `new_val`: the node moves to slot `new_val`, its old slot
    /// is freed, and the links to it follow. The cursor follows the node. If slot `new_val` is in
    /// use, it is an error unless `force` is set, in which case the subtree at `new_val` is
    /// dropped first. The tree must be linked, or slot `new_val` free and held by no node.
    pub fn change_value(&mut self, new_val: usize, force: bool) -> (r: Result<(), Error>)
        requires
            old(self).wf(),
            old(self).cursor() is Some && old(self).cursor().unwrap() < old(self).len()
                && old(self).cursor().unwrap() != new_val ==> {
                &&& new_val < old(self).len()
                &&& old(self).linked() || (old(self).symbol_of(new_val as int) is None
                    && old(self).up_of(new_val as int) is None && old(self).unreferenced(new_val as int))
            },
        ensures
            final(self).wf(),
            final(self).len() == old(self).len(),
            final(self).symbols() == old(self).symbols(),
            match old(self).cursor() {
                None => r == Err::<(), Error>(Error::NoCursor) && *final(self) == *old(self),
                Some(c) => if c >= old(self).len() {
                    r == Err::<(), Error>(Error::OutOfRange) && *final(self) == *old(self)
                } else if c == new_val {
                    r is Ok && *final(self) == *old(self)
                } else if !(old(self).symbol_of(new_val as int) is None && old(self).up_of(new_val as int) is None) && !force {
                    r == Err::<(), Error>(Error::NodeExists) && *final(self) == *old(self)
                } else {
                    &&& r is Ok || r == Err::<(), Error>(Error::BrokenConnection)
                    &&& r is Ok ==> final(self).cursor() == Some(new_val) && final(self).is_reset(c as int)
                    &&& old(self).symbol_of(new_val as int) is None && old(self).up_of(new_val as int) is None ==> {
                        &&& old(self).linked() ==> r is Ok
                        &&& r is Ok ==> {
                            &&& final(self).symbol_of(new_val as int) == old(self).symbol_of(c as int)
                            &&& final(self).down_of(new_val as int, Side::Left) == old(self).down_of(c as int, Side::Left)
                            &&& final(self).down_of(new_val as int, Side::Right) == old(self).down_of(c as int, Side::Right)
                            &&& (old(self).symbol_of(c as int) matches Some(k) ==> final(self).root(k as int) == Some(new_val))
                            &&& (old(self).down_of(c as int, Side::Left) matches Some(d) ==> final(self).up_of(d as int) == Some(new_val))
                            &&& (old(self).down_of(c as int, Side::Right) matches Some(d) ==> final(self).up_of(d as int) == Some(new_val))
                            &&& match old(self).up_of(c as int) {
                                Some(p) => p != new_val ==> final(self).up_of(new_val as int) == Some(p)
                                    && match old(self).side_in_parent(p as int, c) {
                                        Some(s) => final(self).down_of(p as int, s) == Some(new_val),
                                        None => false,
                                    },
                                None => final(self).up_of(new_val as int) is None,
                            }
                        }
                    }
                },
            },
    {
        let old_val = self.chk_cursor()?;
        if new_val == old_val {
            return Ok(());
        }
        let ghost t0 = *self;
        proof { self.lemma_node(old_val as int); self.lemma_node(new_val as int); }
        let free = self.is_free(new_val)?;
        if !free && !force {
            return Err(Error::NodeExists);
        }
        if !free {
            let _ = self.set_cursor(new_val);
            let ghost tn = *self;
            proof { assert(linked_in(tn.pool@, tn.roots@) == linked_in(t0.pool@, t0.roots@)); }
            let res = self.drop();
            let ghost td = *self;
            proof {
                tn.lemma_dropped_same(&t0, &td, &td, new_val as int);
                t0.lemma_below_unfold(new_val as int, new_val as int);
                assert forall|i: int| 0 <= i < td.len() implies #[trigger] td.down_of(i, Side::Left) != Some(new_val)
                    && td.down_of(i, Side::Right) != Some(new_val) by {
                    assert(t0.drop_node_ok(&td, new_val as int, i));
                }
            }
            if res.is_err() {
                return res;
            }
            let _ = self.set_cursor(old_val);
            proof {
                assert forall|i: int| 0 <= i < self.len() implies #[trigger] self.down_of(i, Side::Left) != Some(new_val)
                    && self.down_of(i, Side::Right) != Some(new_val) by {
                    assert(td.down_of(i, Side::Left) != Some(new_val) && td.down_of(i, Side::Right) != Some(new_val));
                }
            }
        } else {
            proof {
                if t0.linked() {
                    assert forall|i: int| 0 <= i < t0.len() implies #[trigger] t0.down_of(i, Side::Left) != Some(new_val)
                        && t0.down_of(i, Side::Right) != Some(new_val) by {
                        assert(links_back_in(t0.pool@, t0.roots@, i));
                    }
                }
            }
        }
        proof {
            assert(self.unreferenced(new_val as int));
            if free && t0.linked() {
                assert(links_back_in(t0.pool@, t0.roots@, old_val as int));
            }
        }
        self.relabel(old_val, new_val)
    }

    /// Move the cursor node `old_val` to the slot `new_val`, which no node holds, redirecting
    /// the links into it; the cursor follows.
    fn relabel(&mut self, old_val: usize, new_val: usize) -> (r: Result<(), Error>)
        requires
            old(self).wf(),
            old(self).unreferenced(new_val as int),
            old_val < old(self).len(),
            new_val < old(self).len(),
            old_val != new_val,
            old(self).cursor() == Some(old_val),
        ensures
            final(self).wf(),
            final(self).len() == old(self).len(),
            final(self).symbols() == old(self).symbols(),
            r is Ok || r == Err::<(), Error>(Error::BrokenConnection),
            r is Err ==> (old(self).up_of(old_val as int) matches Some(p) && old(self).side_in_parent(p as int, old_val) is None),
            r is Ok ==> {
                &&& final(self).cursor() == Some(new_val)
                &&& final(self).is_reset(old_val as int)
                &&& final(self).symbol_of(new_val as int) == old(self).symbol_of(old_val as int)
                &&& final(self).down_of(new_val as int, Side::Left) == old(self).down_of(old_val as int, Side::Left)
                &&& final(self).down_of(new_val as int, Side::Right) == old(self).down_of(old_val as int, Side::Right)
                &&& (old(self).symbol_of(old_val as int) matches Some(k) ==> final(self).root(k as int) == Some(new_val))
                &&& (old(self).down_of(old_val as int, Side::Left) matches Some(d) ==> final(self).up_of(d as int) == Some(new_val))
                &&& (old(self).down_of(old_val as int, Side::Right) matches Some(d) ==> final(self).up_of(d as int) == Some(new_val))
                &&& match old(self).up_of(old_val as int) {
                    Some(p) => p != new_val ==> final(self).up_of(new_val as int) == Some(p)
                        && match old(self).side_in_parent(p as int, old_val) {
                            Some(s) => final(self).down_of(p as int, s) == Some(new_val),
                            None => false,
                        },
                    None => final(self).up_of(new_val as int) is None,
                }
            },
    {
        let ghost t1 = *self;
        proof { t1.lemma_node(old_val as int); }
        let n = self.pool[old_val];
        if let Some(symbol) = n.symbol {
            self.set_root(symbol, Some(new_val));
        }
        if let Some(parent) = n.up {
            let (_, side) = self.get_parent_and_side()?;
            let mut pn = self.pool[parent];
            match side {
                Side::Left => { pn.left = Some(new_val); },
                Side::Right => { pn.right = Some(new_val); },
            }
            self.set_node(parent, pn);
        }
        let ghost t2 = *self;
        if let Some(child) = n.left {
            let mut cn = self.pool[child];
            cn.up = Some(new_val);
            self.set_node(child, cn);
        }
        if let Some(child) = n.right {
            let mut cn = self.pool[child];
            cn.up = Some(new_val);
            self.set_node(child, cn);
        }
        let ghost t3 = *self;
        let moved = Node { val: new_val, symbol: n.symbol, up: n.up, left: n.left, right: n.right };
        self.set_node(new_val, moved);
        self.set_node(old_val, Node { val: old_val, symbol: None, up: None, left: None, right: None });
        let ghost rk = t1.rank@;
        self.rank = Ghost(rk.update(new_val as int, rk[old_val as int]).update(old_val as int, 0nat));
        self.curs = Some(new_val);
        proof {
            assert forall|i: int| 0 <= i < t1.pool@.len() && i != old_val && i != new_val
                implies #[trigger] relinked(t1.pool@[i], self.pool@[i], old_val, new_val) by {
                assert(self.pool@[i].left == t3.pool@[i].left && self.pool@[i].right == t3.pool@[i].right);
                assert(t3.pool@[i].left == t2.pool@[i].left && t3.pool@[i].right == t2.pool@[i].right);
                assert(t3.pool@[i].symbol == t2.pool@[i].symbol);
                if n.up != Some(i as usize) {
                    assert(t2.pool@[i] == t1.pool@[i]);
                }
            }
            assert forall|i: int| 0 <= i < t1.pool@.len() implies opt_below(#[trigger] self.pool@[i].up, self.pool@.len()) by {
                t1.lemma_node(i);
                assert(t2.pool@[i].up == t1.pool@[i].up);
            }
            t1.lemma_relabel(&*self, old_val as int, new_val as int);
        }
        Ok(())
    }


    /// After moving the node in slot `ov` to the free, unreferenced slot `nv`, with links into
    /// `ov` redirected to `nv` and ranks carried along, the tree is well formed.
    proof fn lemma_relabel(&self, fin: &Tree, ov: int, nv: int)
        requires
            self.wf(),
            self.unreferenced(nv),
            0 <= ov < self.pool@.len(),
            0 <= nv < self.pool@.len(),
            ov != nv,
            fin.pool@.len() == self.pool@.len(),
            fin.roots@.len() == self.roots@.len(),
            fin.rank@ == self.rank@.update(nv, self.rank@[ov]).update(ov, 0nat),
            forall|k: int| 0 <= k < fin.roots@.len() ==> opt_below(#[trigger] fin.roots@[k], fin.pool@.len()),
            fin.pool@[nv].val == nv,
            fin.pool@[nv].symbol == self.pool@[ov].symbol,
            opt_below(fin.pool@[nv].up, fin.pool@.len()),
            fin.pool@[nv].left == self.pool@[ov].left,
            fin.pool@[nv].right == self.pool@[ov].right,
            fin.pool@[ov].val == ov,
            fin.pool@[ov].is_reset(),
            forall|i: int| 0 <= i < self.pool@.len() && i != ov && i != nv
                ==> #[trigger] relinked(self.pool@[i], fin.pool@[i], ov as usize, nv as usize),
            forall|i: int| 0 <= i < self.pool@.len() ==> opt_below(#[trigger] fin.pool@[i].up, fin.pool@.len()),
        ensures
            fin.wf(),
    {
        self.lemma_node(ov);
        assert(self.down_of(ov, Side::Left) != Some(nv as usize) && self.down_of(ov, Side::Right) != Some(nv as usize));
        let rk = self.rank@;
        let fr = fin.rank@;
        assert(fr.len() == rk.len());
        assert(fr[nv] == rk[ov]);
        assert(fr[ov] == 0);
        assert forall|j: int| 0 <= j < rk.len() && j != ov && j != nv implies fr[j] == rk[j] by {}
        assert forall|i: int| 0 <= i < fin.pool@.len() implies #[trigger] node_ok(fin.pool@, fin.roots@.len(), fin.rank@, i) by {
            self.lemma_node(i);
            assert(self.down_of(i, Side::Left) != Some(nv as usize) && self.down_of(i, Side::Right) != Some(nv as usize));
            assert(opt_below(fin.pool@[i].up, fin.pool@.len()));
            let a = self.pool@[i];
            let b = fin.pool@[i];
            if i == nv {
                if b.left is Some {
                    let z = b.left.unwrap() as int;
                    assert(z != ov && z != nv);
                }
                if b.right is Some {
                    let z = b.right.unwrap() as int;
                    assert(z != ov && z != nv);
                }
            } else if i != ov {
                assert(relinked(a, b, ov as usize, nv as usize));
                assert(rk[i] > rk[ov] || (a.left != Some(ov as usize) && a.right != Some(ov as usize)));
                if b.left is Some {
                    let z = b.left.unwrap() as int;
                    if z != ov && z != nv {
                        assert(fr[z] == rk[z]);
                    }
                }
                if b.right is Some {
                    let z = b.right.unwrap() as int;
                    if z != ov && z != nv {
                        assert(fr[z] == rk[z]);
                    }
                }
            }
        }
    }

    /// What any drop of the subtree of `c` keeps: the same slots and ranks, no new links, and
    /// the parent and symbol of every node outside the subtree.
    pub open spec fn drop_frame(&self, new: &Tree, c: int) -> bool {
        &&& new.wf()
        &&& new.len() == self.len()
        &&& new.symbols() == self.symbols()
        &&& self.fewer_links(new)
        &&& forall|i: int| 0 <= i < self.len() && !self.below(c, i)
            ==> #[trigger] new.up_of(i) == self.up_of(i) && new.symbol_of(i) == self.symbol_of(i)
    }

    proof fn lemma_frame_refl(&self, c: int)
        requires
            self.wf(),
        ensures
            self.drop_frame(self, c),
    {
    }

    /// The frame of a drop of child `d` of `c`, started from `tl` (which has the links of
    /// `self` and its cursor on `d`), is a frame of a drop of `c`, and keeps `c` itself.
    proof fn lemma_frame_child(&self, tl: &Tree, t1pre: &Tree, t1: &Tree, c: int, d: int)
        requires
            self.wf(),
            self.same_links(tl),
            t1pre.same_links(t1),
            0 <= c < self.pool@.len(),
            self.pool@[c].left == Some(d as usize) || self.pool@[c].right == Some(d as usize),
            tl.drop_frame(t1pre, d),
        ensures
            self.drop_frame(t1, c),
            t1.up_of(c) == self.up_of(c),
            t1.symbol_of(c) == self.symbol_of(c),
    {
        self.lemma_node(c);
        self.lemma_below_unfold(c, d);
        assert(tl.below(d, c) == self.below(d, c));
        if self.below(d, c) {
            self.lemma_below_rank(d, c);
        }
        assert forall|i: int| 0 <= i < self.len() && !self.below(c, i)
            implies #[trigger] t1.up_of(i) == self.up_of(i) && t1.symbol_of(i) == self.symbol_of(i) by {
            if self.below(d, i) {
                self.lemma_below_trans(c, d, i);
            }
            assert(tl.below(d, i) == self.below(d, i));
            assert(t1pre.up_of(i) == tl.up_of(i) && t1pre.symbol_of(i) == tl.symbol_of(i));
        }
        assert(t1pre.up_of(c) == tl.up_of(c) && t1pre.symbol_of(c) == tl.symbol_of(c));
        assert(self.fewer_links(t1)) by {
            assert forall|i: int| 0 <= i < self.pool@.len() implies
                (#[trigger] t1.pool@[i]).left is None || t1.pool@[i].left == self.pool@[i].left by {
                assert(t1pre.pool@[i] == t1.pool@[i]);
            }
        }
        assert(t1.wf() == t1pre.wf());
    }

    /// Frames of drops of `c` compose.
    proof fn lemma_frame_trans(&self, t1: &Tree, t2: &Tree, c: int)
        requires
            self.wf(),
            0 <= c < self.pool@.len(),
            self.drop_frame(t1, c),
            t1.drop_frame(t2, c),
        ensures
            self.drop_frame(t2, c),
    {
        assert forall|i: int| 0 <= i < self.len() && !self.below(c, i)
            implies #[trigger] t2.up_of(i) == self.up_of(i) && t2.symbol_of(i) == self.symbol_of(i) by {
            if t1.below(c, i) {
                self.lemma_below_fewer(t1, c, i);
            }
        }
        assert(self.fewer_links(t2)) by {
            assert forall|i: int| 0 <= i < self.pool@.len() implies
                (#[trigger] t2.pool@[i]).left is None || t2.pool@[i].left == self.pool@[i].left by {
                assert(t1.pool@[i].left is None || t1.pool@[i].left == self.pool@[i].left);
            }
            assert forall|i: int| 0 <= i < self.pool@.len() implies
                (#[trigger] t2.pool@[i]).right is None || t2.pool@[i].right == self.pool@[i].right by {
                assert(t1.pool@[i].right is None || t1.pool@[i].right == self.pool@[i].right);
            }
        }
    }

    /// The last step of a drop of `c` is a frame of that drop.
    proof fn lemma_last_step(&self, t3: &Tree, c: int)
        requires
            self.wf(),
            t3.wf(),
            0 <= c < self.pool@.len(),
            self.last_step(t3, c),
        ensures
            self.drop_frame(t3, c),
    {
        self.lemma_node(c);
        self.lemma_below_unfold(c, c);
        assert(self.fewer_links(t3)) by {
            assert forall|i: int| 0 <= i < self.pool@.len() implies
                (#[trigger] t3.pool@[i]).left is None || t3.pool@[i].left == self.pool@[i].left by {
                if i != c && self.pool@[c].up != Some(i as usize) {
                    assert(t3.pool@[i] == self.pool@[i]);
                }
            }
            assert forall|i: int| 0 <= i < self.pool@.len() implies
                (#[trigger] t3.pool@[i]).right is None || t3.pool@[i].right == self.pool@[i].right by {
                if i != c && self.pool@[c].up != Some(i as usize) {
                    assert(t3.pool@[i] == self.pool@[i]);
                }
            }
        }
        assert forall|i: int| 0 <= i < self.len() && !self.below(c, i)
            implies #[trigger] t3.up_of(i) == self.up_of(i) && t3.symbol_of(i) == self.symbol_of(i) by {
            if self.pool@[c].up != Some(i as usize) {
                assert(t3.pool@[i] == self.pool@[i]);
            }
        }
    }

    /// Dropping a subtree depends on the links of the trees alone, not on their cursors.
    proof fn lemma_dropped_same(&self, a2: &Tree, b: &Tree, b2: &Tree, c: int)
        requires
            self.same_links(a2),
            b.same_links(b2),
            self.dropped_from(b, c),
        ensures
            a2.dropped_from(b2, c),
    {
        assert forall|i: int| 0 <= i < a2.len() implies #[trigger] a2.drop_node_ok(b2, c, i) by {
            assert(self.drop_node_ok(b, c, i));
        }
        assert forall|k: int| 0 <= k < a2.symbols() implies #[trigger] b2.root(k) == a2.cut_link(a2.root(k), c) by {
            assert(b.root(k) == self.cut_link(self.root(k), c));
        }
    }

    /// Either `new` is `self` with the subtree below the `side` child of `c` dropped, or `c` has
    /// no such child and `new` has the links of `self`.
    spec fn child_dropped(&self, new: &Tree, c: int, side: Side) -> bool {
        match self.pool@[c].child(side) {
            Some(d) => self.dropped_from(new, d as int),
            None => self.same_links(new),
        }
    }

    /// The subtree of `c` is `c` with the subtrees of its two children, the second one taken
    /// after the first has been dropped.
    proof fn lemma_split_subtree(&self, t1: &Tree, c: int, y: int)
        requires
            self.wf(),
            self.linked(),
            t1.wf(),
            0 <= c < self.pool@.len(),
            self.child_dropped(t1, c, Side::Left),
        ensures
            self.below(c, y) == (y == c
                || (self.pool@[c].left is Some && self.below(self.pool@[c].left.unwrap() as int, y))
                || (t1.pool@[c].right is Some && t1.below(t1.pool@[c].right.unwrap() as int, y))),
            t1.pool@[c].right is Some ==> self.pool@[c].right == t1.pool@[c].right,
    {
        self.lemma_node(c);
        self.lemma_below_unfold(c, y);
        assert(links_back_in(self.pool@, self.roots@, c));
        if self.pool@[c].left is Some {
            let dl = self.pool@[c].left.unwrap() as int;
            self.lemma_below_unfold(c, dl);
            if self.below(dl, c) {
                self.lemma_below_rank(dl, c);
            }
            assert(self.drop_node_ok(t1, dl, c));
            if self.pool@[c].right is Some {
                let r0 = self.pool@[c].right.unwrap() as int;
                if self.below(dl, r0) {
                    self.lemma_parent_below(dl, r0);
                    assert(links_back_in(self.pool@, self.roots@, c));
                    self.lemma_below_rank(dl, c);
                }
                assert(t1.pool@[c].right == Some(r0 as usize));
                assert(self.fewer_links(t1)) by {
                    assert forall|i: int| 0 <= i < self.pool@.len() implies
                        (#[trigger] t1.pool@[i]).left is None || t1.pool@[i].left == self.pool@[i].left by {
                        assert(self.drop_node_ok(t1, dl, i));
                    }
                    assert forall|i: int| 0 <= i < self.pool@.len() implies
                        (#[trigger] t1.pool@[i]).right is None || t1.pool@[i].right == self.pool@[i].right by {
                        assert(self.drop_node_ok(t1, dl, i));
                    }
                }
                if self.below(r0, y) && !self.below(dl, y) {
                    assert forall|i: int| 0 <= i < self.pool@.len() && !self.below(dl, i) implies #[trigger] self.keeps_outside(t1, dl, i) by {
                        assert(self.drop_node_ok(t1, dl, i));
                    }
                    self.lemma_below_kept(t1, dl, r0, y);
                }
                if t1.below(r0, y) {
                    self.lemma_below_fewer(t1, r0, y);
                }
            }
        }
    }


    /// `new` is `self` after the last step of a drop of `c`: the parent's link to `c` and the
    /// root of `c` removed, and `c` reset.
    spec fn last_step(&self, new: &Tree, c: int) -> bool {
        let n = self.pool@[c];
        &&& new.pool@.len() == self.pool@.len()
        &&& new.roots@.len() == self.roots@.len()
        &&& new.rank@ == self.rank@
        &&& new.pool@[c].is_reset()
        &&& forall|i: int| 0 <= i < self.pool@.len() && i != c && n.up != Some(i as usize)
            ==> #[trigger] new.pool@[i] == self.pool@[i]
        &&& (n.up is Some ==> {
            let p = n.up.unwrap() as int;
            &&& new.pool@[p].symbol == self.pool@[p].symbol
            &&& new.pool@[p].up == self.pool@[p].up
            &&& if self.pool@[p].left == Some(c as usize) {
                new.pool@[p].left is None && new.pool@[p].right == self.pool@[p].right
            } else {
                new.pool@[p].right is None && new.pool@[p].left == self.pool@[p].left
            }
        })
        &&& forall|k: int| 0 <= k < self.roots@.len() ==> #[trigger] new.roots@[k]
            == if n.symbol == Some(k as usize) { None } else { self.roots@[k] }
    }

    /// Put together the two child drops and the last step of a drop of `c`.
    proof fn lemma_drop_compose(&self, t1: &Tree, t2: &Tree, t3: &Tree, c: int)
        requires
            self.wf(),
            self.linked(),
            t1.wf(),
            t1.linked(),
            t2.wf(),
            t2.linked(),
            t3.wf(),
            0 <= c < self.pool@.len(),
            self.child_dropped(t1, c, Side::Left),
            t1.child_dropped(t2, c, Side::Right),
            t2.last_step(t3, c),
            t2.pool@[c].up == self.pool@[c].up,
            t2.pool@[c].symbol == self.pool@[c].symbol,
        ensures
            self.dropped_from(t3, c),
    {
        let n0 = self.pool@[c];
        self.lemma_node(c);
        assert(links_back_in(self.pool@, self.roots@, c));
        let has_l = n0.left is Some;
        let dl = n0.left.unwrap() as int;
        let has_r = t1.pool@[c].right is Some;
        let dr = t1.pool@[c].right.unwrap() as int;
        if has_l {
            self.lemma_below_unfold(c, dl);
        }
        if n0.up is Some {
            let p = n0.up.unwrap() as int;
            assert(links_back_in(self.pool@, self.roots@, p));
            self.lemma_node(p);
            if self.below(c, p) {
                self.lemma_below_rank(c, p);
            }
        }
        assert forall|i: int| 0 <= i < self.len() implies #[trigger] self.drop_node_ok(t3, c, i) by {
            self.lemma_split_subtree(t1, c, i);
            if has_l {
                assert(self.drop_node_ok(t1, dl, i));
            }
            if has_r {
                assert(t1.drop_node_ok(t2, dr, i));
            }
            if i != c && n0.up != Some(i as usize) {
                assert(t3.pool@[i] == t2.pool@[i]);
            }
            if !self.below(c, i) {
                let zl = self.pool@[i].left;
                let zr = self.pool@[i].right;
                if zl is Some {
                    let z = zl.unwrap() as int;
                    self.lemma_split_subtree(t1, c, z);
                    assert(links_back_in(self.pool@, self.roots@, i));
                    if has_l && self.below(dl, z) {
                    } else if has_r && t1.below(dr, z) {
                    } else if z == c {
                    } else {
                    }
                }
                if zr is Some {
                    let z = zr.unwrap() as int;
                    self.lemma_split_subtree(t1, c, z);
                    assert(links_back_in(self.pool@, self.roots@, i));
                }
                if n0.up == Some(i as usize) {
                    assert(links_back_in(t2.pool@, t2.roots@, c));
                    assert(links_back_in(t2.pool@, t2.roots@, i));
                }
            }
        }
        assert forall|k: int| 0 <= k < self.symbols() implies #[trigger] t3.root(k) == self.cut_link(self.root(k), c) by {
            let r1 = if has_l { self.cut_link(self.root(k), dl) } else { self.root(k) };
            if has_l {
                assert(t1.root(k) == self.cut_link(self.root(k), dl));
            } else {
                assert(t1.roots@ == self.roots@);
            }
            assert(t1.root(k) == r1);
            let r2 = if has_r { t1.cut_link(r1, dr) } else { r1 };
            if has_r {
                assert(t2.root(k) == t1.cut_link(t1.root(k), dr));
            } else {
                assert(t2.roots@ == t1.roots@);
            }
            assert(t2.roots@[k] == r2);
            assert(t3.roots@[k] == if n0.symbol == Some(k as usize) { None } else { t2.roots@[k] });
            if n0.symbol is Some {
                assert(links_back_in(self.pool@, self.roots@, c));
            }
            if self.roots@[k] is Some {
                let x = self.roots@[k].unwrap() as int;
                self.lemma_split_subtree(t1, c, x);
                assert(self.pool@[x].symbol == Some(k as usize));
                if x == c {
                    assert(t3.roots@[k] is None);
                } else if self.below(c, x) {
                    assert(r2 is None);
                } else {
                    assert(r1 == Some(x as usize));
                    assert(r2 == Some(x as usize));
                    assert(n0.symbol != Some(k as usize));
                }
            } else {
                assert(r2 is None);
            }
            assert(t3.root(k) == t3.roots@[k]);
        }
    }

    /// Links of `other` are those of `self` with some links removed, with the same pool and ranks.
    pub closed spec fn fewer_links(&self, other: &Tree) -> bool {
        &&& self.pool@.len() == other.pool@.len()
        &&& self.rank@ == other.rank@
        &&& forall|i: int| 0 <= i < self.pool@.len() ==> {
            &&& (#[trigger] other.pool@[i]).left is None || other.pool@[i].left == self.pool@[i].left
            &&& other.pool@[i].right is None || other.pool@[i].right == self.pool@[i].right
        }
    }

    /// `other` has the same nodes, roots and ranks as `self`; only the cursor may differ.
    pub closed spec fn same_links(&self, other: &Tree) -> bool {
        &&& self.pool@ == other.pool@
        &&& self.roots@ == other.roots@
        &&& self.rank@ == other.rank@
    }

    /// Two trees with the same links agree on everything but the cursor: size, symbols, roots,
    /// links, reachability, termini and linkage.
    pub proof fn lemma_same_links(&self, other: &Tree)
        requires
            self.same_links(other),
        ensures
            other.len() == self.len(),
            other.symbols() == self.symbols(),
            other.wf() == self.wf(),
            other.linked() == self.linked(),
            forall|k: int| #[trigger] other.root(k) == self.root(k),
            forall|i: int| #[trigger] other.symbol_of(i) == self.symbol_of(i),
            forall|i: int| #[trigger] other.up_of(i) == self.up_of(i),
            forall|i: int, s: Side| #[trigger] other.down_of(i, s) == self.down_of(i, s),
            forall|x: int, y: int| #[trigger] other.below(x, y) == self.below(x, y),
            forall|i: int, s: Side| #[trigger] other.terminus_of(i, s) == self.terminus_of(i, s),
    {
    }

    /// In a linked tree a child's parent link leads back to the node that holds it, and a
    /// parent link leads to a node that holds the child on one side.
    pub proof fn lemma_linked_child(&self, p: int, side: Side)
        requires
            self.wf(),
            self.linked(),
            0 <= p < self.len(),
        ensures
            self.down_of(p, side) matches Some(v) ==> v < self.len() && self.up_of(v as int) == Some(p as usize),
            self.up_of(p) matches Some(q) ==> q < self.len() && self.side_in_parent(q as int, p as usize) is Some,
            self.symbol_of(p) matches Some(s) ==> s < self.symbols() && self.root(s as int) == Some(p as usize),
    {
        self.lemma_node(p);
        assert(links_back_in(self.pool@, self.roots@, p));
    }

    /// Every node lies below itself.
    pub proof fn lemma_below_refl(&self, x: int)
        ensures
            self.below(x, x),
    {
    }

    /// The terminus of a node on one side lies in the pool and has no link on that side.
    pub proof fn lemma_terminus_end(&self, i: int, side: Side)
        requires
            self.wf(),
            0 <= i < self.len(),
        ensures
            0 <= self.terminus_of(i, side) < self.len(),
            self.down_of(self.terminus_of(i, side), side) is None,
    {
        self.lemma_terminus_end_in(i, side);
    }

    proof fn lemma_terminus_end_in(&self, i: int, side: Side)
        requires
            self.wf(),
            0 <= i < self.len(),
        ensures
            0 <= self.terminus_of(i, side) < self.len(),
            self.down_of(self.terminus_of(i, side), side) is None,
        decreases self.rank@[i],
    {
        self.lemma_node(i);
        match self.pool@[i].child(side) {
            Some(c) => {
                self.lemma_terminus_end_in(c as int, side);
            },
            None => {},
        }
    }

    /// Create a tree with `len` free node slots and room for `symbols` roots, with no cursor.
    pub fn create(len: usize, symbols: usize) -> (r: Self)
        ensures
            r.wf(),
            r.len() == len,
            r.symbols() == symbols,
            r.cursor() is None,
            forall|k: int| 0 <= k < symbols ==> r.root(k) is None,
            forall|i: int| 0 <= i < len ==> r.is_reset(i),
    {
        let roots: Vec<Option<usize>> = vec![None; symbols];
        let mut pool: Vec<Node> = Vec::new();
        let mut i: usize = 0;
        while i < len
            invariant
                i <= len,
                pool@.len() == i,
                forall|j: int| 0 <= j < i ==> (#[trigger] pool@[j]).val == j && pool@[j].is_reset(),
            decreases len - i,
        {
            pool.push(Node { val: i, symbol: None, up: None, left: None, right: None });
            i += 1;
        }
        let r = Self { roots, curs: None, pool, rank: Ghost(Seq::new(len as nat, |j: int| 0nat)) };
        assert forall|i: int| 0 <= i < r.pool@.len() implies #[trigger] node_ok(r.pool@, r.roots@.len(), r.rank@, i) by {
            assert(r.pool@[i].is_reset());
        }
        r
    }

    /// The cursor if it is set and inside the pool.
    fn chk_cursor(&self) -> (r: Result<usize, Error>)
        ensures
            match self.cursor() {
                None => r == Err::<usize, Error>(Error::NoCursor),
                Some(c) => if c < self.len() { r == Ok::<usize, Error>(c) } else { r == Err::<usize, Error>(Error::OutOfRange) },
            },
    {
        match self.curs {
            None => Err(Error::NoCursor),
            Some(curs) => if curs < self.pool.len() {
                Ok(curs)
            } else {
                Err(Error::OutOfRange)
            },
        }
    }

    /// The cursor.
    pub fn get_cursor(&self) -> (r: Option<usize>)
        ensures
            r == self.cursor(),
    {
        self.curs
    }

    /// Place the cursor on slot `curs`, which must be inside the pool.
    pub fn set_cursor(&mut self, curs: usize) -> (r: Result<(), Error>)
        requires
            old(self).wf(),
        ensures
            final(self).wf(),
            old(self).same_links(&*final(self)),
            curs < old(self).len() ==> r is Ok && final(self).cursor() == Some(curs),
            curs >= old(self).len() ==> r == Err::<(), Error>(Error::OutOfRange) && final(self).cursor() == old(self).cursor(),
    {
        if curs < self.pool.len() {
            self.curs = Some(curs);
            Ok(())
        } else {
            Err(Error::OutOfRange)
        }
    }

    /// Place the cursor on the root of `symbol`.
    pub fn set_cursor_to_root(&mut self, symbol: usize) -> (r: Result<(), Error>)
        requires
            old(self).wf(),
            symbol < old(self).symbols(),
        ensures
            final(self).wf(),
            old(self).same_links(&*final(self)),
            match old(self).root(symbol as int) {
                None => r == Err::<(), Error>(Error::NodeMissing) && final(self).cursor() == old(self).cursor(),
                Some(v) => r is Ok && final(self).cursor() == Some(v),
            },
    {
        match self.roots[symbol] {
            None => Err(Error::NodeMissing),
            Some(v) => {
                self.curs = Some(v);
                Ok(())
            },
        }
    }

    /// Move the cursor to its parent and return the parent.
    pub fn up(&mut self) -> (r: Result<usize, Error>)
        requires
            old(self).wf(),
        ensures
            final(self).wf(),
            old(self).same_links(&*final(self)),
            match old(self).cursor() {
                None => r == Err::<usize, Error>(Error::NoCursor) && final(self).cursor() == old(self).cursor(),
                Some(c) => if c >= old(self).len() {
                    r == Err::<usize, Error>(Error::OutOfRange) && final(self).cursor() == old(self).cursor()
                } else {
                    match old(self).up_of(c as int) {
                        None => r == Err::<usize, Error>(Error::NodeMissing) && final(self).cursor() == old(self).cursor(),
                        Some(p) => r == Ok::<usize, Error>(p) && final(self).cursor() == Some(p),
                    }
                },
            },
    {
        let c = self.chk_cursor()?;
        proof { self.lemma_node(c as int); }
        match self.pool[c].up {
            None => Err(Error::NodeMissing),
            Some(v) => {
                self.curs = Some(v);
                Ok(v)
            },
        }
    }

    fn child_of(&self, c: usize, side: Side) -> (r: Option<usize>)
        requires
            c < self.len(),
        ensures
            r == self.down_of(c as int, side),
    {
        match side {
            Side::Left => self.pool[c].left,
            Side::Right => self.pool[c].right,
        }
    }

    /// Move the cursor to its child on `side` and return the child.
    pub fn down(&mut self, side: Side) -> (r: Result<usize, Error>)
        requires
            old(self).wf(),
        ensures
            final(self).wf(),
            old(self).same_links(&*final(self)),
            r is Err ==> *final(self) == *old(self),
            match old(self).cursor() {
                None => r == Err::<usize, Error>(Error::NoCursor) && final(self).cursor() == old(self).cursor(),
                Some(c) => if c >= old(self).len() {
                    r == Err::<usize, Error>(Error::OutOfRange) && final(self).cursor() == old(self).cursor()
                } else {
                    match old(self).down_of(c as int, side) {
                        None => r == Err::<usize, Error>(Error::NodeMissing) && final(self).cursor() == old(self).cursor(),
                        Some(d) => r == Ok::<usize, Error>(d) && final(self).cursor() == Some(d),
                    }
                },
            },
    {
        let c = self.chk_cursor()?;
        proof { self.lemma_node(c as int); }
        match self.child_of(c, side) {
            None => Err(Error::NodeMissing),
            Some(v) => {
                self.curs = Some(v);
                Ok(v)
            },
        }
    }

    /// The last node reached from `i` by following `side` links.
    pub closed spec fn terminus_of(&self, i: int, side: Side) -> int {
        terminus_in(self.pool@, self.rank@, i, side)
    }

    /// Go down on one side as far as possible; the cursor follows. Returns the last node reached.
    pub fn terminus(&mut self, side: Side) -> (r: Result<usize, Error>)
        requires
            old(self).wf(),
        ensures
            final(self).wf(),
            old(self).same_links(&*final(self)),
            match old(self).cursor() {
                None => r == Err::<usize, Error>(Error::NoCursor) && final(self).cursor() == old(self).cursor(),
                Some(c) => if c >= old(self).len() {
                    r == Err::<usize, Error>(Error::OutOfRange) && final(self).cursor() == old(self).cursor()
                } else {
                    r == Ok::<usize, Error>(old(self).terminus_of(c as int, side) as usize)
                        && final(self).cursor() == Some(old(self).terminus_of(c as int, side) as usize)
                },
            },
    {
        let mut term = self.chk_cursor()?;
        let ghost start = term;
        loop
            invariant
                self.wf(),
                old(self).same_links(&*self),
                term < self.len(),
                self.cursor() == Some(term),
                old(self).terminus_of(start as int, side) == old(self).terminus_of(term as int, side),
                old(self).cursor() == Some(start),
                start < old(self).len(),
                old(self).wf(),
            decreases self.rank@[term as int],
        {
            proof { self.lemma_node(term as int); }
            let ghost prev = term;
            match self.down(side) {
                Ok(curs) => {
                    assert(terminus_in(old(self).pool@, old(self).rank@, prev as int, side) == terminus_in(old(self).pool@, old(self).rank@, curs as int, side));
                    term = curs;
                },
                Err(_) => {
                    assert(terminus_in(old(self).pool@, old(self).rank@, prev as int, side) == prev);
                    return Ok(term);
                },
            }
        }
    }

    /// The children of the cursor node; the cursor does not move.
    pub fn get_down(&self) -> (r: Result<[Option<usize>; 2], Error>)
        requires
            self.wf(),
        ensures
            match self.cursor() {
                None => r == Err::<[Option<usize>; 2], Error>(Error::NoCursor),
                Some(c) => if c >= self.len() {
                    r == Err::<[Option<usize>; 2], Error>(Error::OutOfRange)
                } else {
                    r matches Ok(d) && d@ == seq![self.down_of(c as int, Side::Left), self.down_of(c as int, Side::Right)]
                },
            },
    {
        let curs = self.chk_cursor()?;
        proof { self.lemma_node(curs as int); }
        let d = [self.pool[curs].left, self.pool[curs].right];
        assert(d@ == seq![self.pool@[curs as int].left, self.pool@[curs as int].right]);
        Ok(d)
    }

    /// The side on which parent `p` holds `c`, looking at the left child first.
    pub open spec fn side_in_parent(&self, p: int, c: usize) -> Option<Side> {
        if self.down_of(p, Side::Left) == Some(c) {
            Some(Side::Left)
        } else if self.down_of(p, Side::Right) == Some(c) {
            Some(Side::Right)
        } else {
            None
        }
    }

    /// The parent of the cursor node and the side on which it holds it; the cursor does not move.
    pub fn get_parent_and_side(&mut self) -> (r: Result<(usize, Side), Error>)
        requires
            old(self).wf(),
        ensures
            *final(self) == *old(self),
            match old(self).cursor() {
                None => r == Err::<(usize, Side), Error>(Error::NoCursor),
                Some(c) => if c >= old(self).len() {
                    r == Err::<(usize, Side), Error>(Error::OutOfRange)
                } else {
                    match old(self).up_of(c as int) {
                        None => r == Err::<(usize, Side), Error>(Error::BrokenConnectionOrRoot),
                        Some(p) => match old(self).side_in_parent(p as int, c) {
                            Some(s) => r == Ok::<(usize, Side), Error>((p, s)),
                            None => r == Err::<(usize, Side), Error>(Error::BrokenConnection),
                        },
                    }
                },
            },
    {
        let curs = self.chk_cursor()?;
        proof { self.lemma_node(curs as int); }
        if let Some(parent) = self.pool[curs].up {
            let pn = self.pool[parent];
            if pn.left == Some(curs) {
                return Ok((parent, Side::Left));
            } else if pn.right == Some(curs) {
                return Ok((parent, Side::Right));
            } else {
                return Err(Error::BrokenConnection);
            }
        }
        Err(Error::BrokenConnectionOrRoot)
    }

    /// The symbol of the cursor node, which must be a root; the cursor does not move.
    pub fn get_symbol(&mut self) -> (r: Result<usize, Error>)
        requires
            old(self).wf(),
        ensures
            *final(self) == *old(self),
            match old(self).cursor() {
                None => r == Err::<usize, Error>(Error::NoCursor),
                Some(c) => if c >= old(self).len() {
                    r == Err::<usize, Error>(Error::OutOfRange)
                } else {
                    match old(self).symbol_of(c as int) {
                        None => r == Err::<usize, Error>(Error::BrokenConnectionOrNotRoot),
                        Some(s) => if old(self).root(s as int) == Some(c) {
                            r == Ok::<usize, Error>(s)
                        } else {
                            r == Err::<usize, Error>(Error::BrokenConnection)
                        },
                    }
                },
            },
    {
        let curs = self.chk_cursor()?;
        proof { self.lemma_node(curs as int); }
        if let Some(symbol) = self.pool[curs].symbol {
            return match self.roots[symbol] {
                Some(v) => if v == curs {
                    Ok(symbol)
                } else {
                    Err(Error::BrokenConnection)
                },
                None => Err(Error::BrokenConnection),
            };
        }
        Err(Error::BrokenConnectionOrNotRoot)
    }

    /// Whether the cursor node has no parent.
    pub fn is_root(&self) -> (r: Result<bool, Error>)
        requires
            self.wf(),
        ensures
            match self.cursor() {
                None => r == Err::<bool, Error>(Error::NoCursor),
                Some(c) => if c >= self.len() {
                    r == Err::<bool, Error>(Error::OutOfRange)
                } else {
                    r == Ok::<bool, Error>(self.up_of(c as int) is None)
                },
            },
    {
        let curs = self.chk_cursor()?;
        proof { self.lemma_node(curs as int); }
        Ok(self.pool[curs].up.is_none())
    }

    /// Whether the cursor node has no children.
    pub fn is_leaf(&self) -> (r: Result<bool, Error>)
        requires
            self.wf(),
        ensures
            match self.cursor() {
                None => r == Err::<bool, Error>(Error::NoCursor),
                Some(c) => if c >= self.len() {
                    r == Err::<bool, Error>(Error::OutOfRange)
                } else {
                    r == Ok::<bool, Error>(
                        self.down_of(c as int, Side::Left) is None && self.down_of(c as int, Side::Right) is None,
                    )
                },
            },
    {
        let curs = self.chk_cursor()?;
        proof { self.lemma_node(curs as int); }
        Ok(self.pool[curs].left.is_none() && self.pool[curs].right.is_none())
    }

    /// Whether slot `curs` is free: it has neither a symbol nor a parent.
    pub fn is_free(&self, curs: usize) -> (r: Result<bool, Error>)
        requires
            self.wf(),
            curs < self.len(),
        ensures
            r == Ok::<bool, Error>(self.symbol_of(curs as int) is None && self.up_of(curs as int) is None),
    {
        let n = self.pool[curs];
        Ok(n.symbol.is_none() && n.up.is_none())
    }

    fn set_node(&mut self, i: usize, n: Node)
        requires
            i < old(self).pool@.len(),
        ensures
            final(self).pool@ == old(self).pool@.update(i as int, n),
            final(self).roots@ == old(self).roots@,
            final(self).curs == old(self).curs,
            final(self).rank@ == old(self).rank@,
    {
        self.pool.set(i, n);
    }

    fn set_root(&mut self, k: usize, v: Option<usize>)
        requires
            k < old(self).roots@.len(),
        ensures
            final(self).roots@ == old(self).roots@.update(k as int, v),
            final(self).pool@ == old(self).pool@,
            final(self).curs == old(self).curs,
            final(self).rank@ == old(self).rank@,
    {
        self.roots.set(k, v);
    }

    /// Nodes `self` and `other` agree on the node in slot `i`.
    pub closed spec fn same_node(&self, other: &Tree, i: int) -> bool {
        self.pool@[i] == other.pool@[i]
    }

    /// Two trees that agree on the node in slot `i` agree on its symbol, its parent, its
    /// children, whether it is reset and whether it is free (no symbol and no parent).
    pub proof fn lemma_same_node(&self, other: &Tree, i: int)
        requires
            self.same_node(other, i),
        ensures
            self.symbol_of(i) == other.symbol_of(i),
            self.up_of(i) == other.up_of(i),
            self.down_of(i, Side::Left) == other.down_of(i, Side::Left),
            self.down_of(i, Side::Right) == other.down_of(i, Side::Right),
            self.is_reset(i) == other.is_reset(i),
            self.is_reset_links(i) == other.is_reset_links(i),
            (self.symbol_of(i) is None && self.up_of(i) is None) == (other.symbol_of(i) is None && other.up_of(i) is None),
    {
    }

    /// Spawn node `val` below the cursor on `side`; the cursor does not move.
    /// An existing child on that side is an error; the old links of slot `val` are overwritten.
    pub fn spawn(&mut self, val: usize, side: Side) -> (r: Result<(), Error>)
        requires
            old(self).wf(),
        ensures
            final(self).wf(),
            final(self).len() == old(self).len(),
            final(self).symbols() == old(self).symbols(),
            final(self).cursor() == old(self).cursor(),
            forall|k: int| 0 <= k < old(self).symbols() ==> final(self).root(k) == old(self).root(k),
            val >= old(self).len() ==> r == Err::<(), Error>(Error::OutOfRange) && *final(self) == *old(self),
            val < old(self).len() ==> match old(self).cursor() {
                None => r == Err::<(), Error>(Error::NoCursor) && *final(self) == *old(self),
                Some(c) => if c >= old(self).len() {
                    r == Err::<(), Error>(Error::OutOfRange) && *final(self) == *old(self)
                } else if old(self).down_of(c as int, side) is Some {
                    r == Err::<(), Error>(Error::NodeExists) && *final(self) == *old(self)
                } else {
                    &&& r is Ok
                    &&& final(self).up_of(val as int) == Some(c)
                    &&& final(self).down_of(val as int, Side::Left) is None
                    &&& final(self).down_of(val as int, Side::Right) is None
                    &&& final(self).symbol_of(val as int) == old(self).symbol_of(val as int)
                    &&& c != val ==> final(self).down_of(c as int, side) == Some(val)
                        && final(self).down_of(c as int, other_side(side)) == old(self).down_of(c as int, other_side(side))
                        && final(self).up_of(c as int) == old(self).up_of(c as int)
                        && final(self).symbol_of(c as int) == old(self).symbol_of(c as int)
                    &&& forall|i: int| 0 <= i < old(self).len() && i != c && i != val ==> final(self).same_node(&*old(self), i)
                },
            },
    {
        if val >= self.pool.len() {
            return Err(Error::OutOfRange);
        }
        let curs = self.chk_cursor()?;
        proof { self.lemma_node(curs as int); }
        if self.child_of(curs, side).is_some() {
            return Err(Error::NodeExists);
        }
        let ghost old_rank = self.rank@;
        let ghost pre = *self;
        let mut cn = self.pool[curs];
        match side {
            Side::Left => { cn.left = Some(val); },
            Side::Right => { cn.right = Some(val); },
        }
        self.set_node(curs, cn);
        let mut vn = self.pool[val];
        vn.up = Some(curs);
        vn.left = None;
        vn.right = None;
        self.set_node(val, vn);
        self.rank = Ghost(Seq::new(old_rank.len(), |x: int| if x == val { 0nat } else { old_rank[x] + 1 }));
        proof {
            assert forall|i: int| 0 <= i < self.pool@.len() implies #[trigger] node_ok(self.pool@, self.roots@.len(), self.rank@, i) by {
                pre.lemma_node(i);
            }
        }
        Ok(())
    }

    /// Make slot `curs` the root of `symbol`. The slot must be free.
    pub fn spawn_root(&mut self, symbol: usize, curs: usize) -> (r: Result<(), Error>)
        requires
            old(self).wf(),
        ensures
            final(self).wf(),
            final(self).len() == old(self).len(),
            final(self).symbols() == old(self).symbols(),
            final(self).cursor() == old(self).cursor(),
            symbol >= old(self).symbols() || curs >= old(self).len() ==> r == Err::<(), Error>(Error::OutOfRange) && *final(self) == *old(self),
            symbol < old(self).symbols() && curs < old(self).len() ==> if old(self).symbol_of(curs as int) is None && old(self).up_of(curs as int) is None {
                &&& r is Ok
                &&& final(self).root(symbol as int) == Some(curs)
                &&& final(self).symbol_of(curs as int) == Some(symbol)
                &&& final(self).is_reset_links(curs as int)
                &&& forall|k: int| 0 <= k < old(self).symbols() && k != symbol ==> final(self).root(k) == old(self).root(k)
                &&& forall|i: int| 0 <= i < old(self).len() && i != curs ==> final(self).same_node(&*old(self), i)
            } else {
                r == Err::<(), Error>(Error::NodeExists) && *final(self) == *old(self)
            },
    {
        if symbol >= self.roots.len() || curs >= self.pool.len() {
            return Err(Error::OutOfRange);
        }
        if self.is_free(curs)? {
            let ghost pre = *self;
            self.set_root(symbol, Some(curs));
            let mut n = self.pool[curs];
            n.symbol = Some(symbol);
            n.up = None;
            n.left = None;
            n.right = None;
            self.set_node(curs, n);
            proof {
                assert forall|i: int| 0 <= i < self.pool@.len() implies #[trigger] node_ok(self.pool@, self.roots@.len(), self.rank@, i) by {
                    pre.lemma_node(i);
                }
            }
            return Ok(());
        }
        Err(Error::NodeExists)
    }

    /// The node in slot `i` has no parent and no children.
    pub open spec fn is_reset_links(&self, i: int) -> bool {
        &&& self.up_of(i) is None
        &&& self.down_of(i, Side::Left) is None
        &&& self.down_of(i, Side::Right) is None
    }
}

} // verus!
