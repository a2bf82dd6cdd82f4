//! Structural hashing of expressions, and the equivalence-class partition
//! built on top of it.

use vstd::prelude::*;
use std::hash::Hasher;
use crate::constants::{Value, ValueModel};
use crate::symbols::{ExprView, OpArgument, OpArgumentKind, Operation, OperationKind};
use crate::symbols::{expr_view, hash_cached, kind_cached, kind_view, views_of};

verus! {

/// What ahash's fixed-key 64-bit hasher digests a byte stream to.
pub uninterp spec fn ahash_of(data: Seq<u8>) -> u64;

/// Relies on ahash::AHasher: `Default::default` builds the hasher with fixed,
/// hardcoded keys (the crate is used without its runtime random seeding), so
/// the digest that `write` then `finish` produce depends on the written bytes
/// alone.
#[verifier::external_body]
fn ahash64(data: &Vec<u8>) -> (r: u64)
    ensures
        r == ahash_of(data@),
{
    let mut hasher = ahash::AHasher::default();
    hasher.write(data.as_slice());
    hasher.finish()
}

/// The four bytes of a 32-bit integer, least significant first.
pub open spec fn le4(n: u32) -> Seq<u8> {
    seq![
        (n as int % 256) as u8,
        (n as int / 256 % 256) as u8,
        (n as int / 65536 % 256) as u8,
        (n as int / 16777216 % 256) as u8,
    ]
}

/// The eight bytes of a 64-bit integer, least significant first.
pub open spec fn le8(n: u64) -> Seq<u8> {
    seq![
        (n as int % 256) as u8,
        (n as int / 256 % 256) as u8,
        (n as int / 65536 % 256) as u8,
        (n as int / 16777216 % 256) as u8,
        (n as int / 4294967296 % 256) as u8,
        (n as int / 1099511627776 % 256) as u8,
        (n as int / 281474976710656 % 256) as u8,
        (n as int / 72057594037927936 % 256) as u8,
    ]
}

/// Appends the four little-endian bytes of `n`.
fn push_le4(data: &mut Vec<u8>, n: u32)
    ensures
        final(data)@ == old(data)@ + le4(n),
{
    data.push((n % 256) as u8);
    data.push((n / 256 % 256) as u8);
    data.push((n / 65536 % 256) as u8);
    data.push((n / 16777216 % 256) as u8);
    proof {
        assert(data@ =~= old(data)@ + le4(n));
    }
}

/// Appends the eight little-endian bytes of `n`.
fn push_le8(data: &mut Vec<u8>, n: u64)
    ensures
        final(data)@ == old(data)@ + le8(n),
{
    data.push((n % 256) as u8);
    data.push((n / 256 % 256) as u8);
    data.push((n / 65536 % 256) as u8);
    data.push((n / 16777216 % 256) as u8);
    data.push((n / 4294967296 % 256) as u8);
    data.push((n / 1099511627776 % 256) as u8);
    data.push((n / 281474976710656 % 256) as u8);
    data.push((n / 72057594037927936 % 256) as u8);
    proof {
        assert(data@ =~= old(data)@ + le8(n));
    }
}

/// The numeric opcode written for each operator.
pub open spec fn spec_opcode(k: OperationKind) -> u32 {
    match k {
        OperationKind::Addition => 1u32,
        OperationKind::Subtraction => 2u32,
        OperationKind::Multiplication => 3u32,
        OperationKind::Division => 4u32,
        OperationKind::Negation => 5u32,
        OperationKind::Pow => 6u32,
        OperationKind::Exp => 7u32,
        OperationKind::Sin => 8u32,
        OperationKind::Cos => 9u32,
        OperationKind::Tan => 10u32,
        OperationKind::Ln => 11u32,
    }
}

/// The numeric opcode written for each operator.
#[verifier::when_used_as_spec(spec_opcode)]
fn opcode(k: OperationKind) -> (c: u32)
    ensures
        c == spec_opcode(k),
{
    match k {
        OperationKind::Addition => 1,
        OperationKind::Subtraction => 2,
        OperationKind::Multiplication => 3,
        OperationKind::Division => 4,
        OperationKind::Negation => 5,
        OperationKind::Pow => 6,
        OperationKind::Exp => 7,
        OperationKind::Sin => 8,
        OperationKind::Cos => 9,
        OperationKind::Tan => 10,
        OperationKind::Ln => 11,
    }
}

/// The byte stream hashed for a leaf: a discriminant code, then the
/// numerator and denominator for a rational, or the UTF-8 bytes of the name
/// for a variable.
pub open spec fn leaf_bytes(v: ValueModel) -> Seq<u8> {
    match v {
        ValueModel::Rational(num, den) => le4(0) + le8(num) + le8(den),
        ValueModel::Pi => le4(1),
        ValueModel::E => le4(2),
        ValueModel::I => le4(3),
        ValueModel::Inf => le4(4),
        ValueModel::Variable(name) => le4(5) + vstd::utf8::encode_utf8(name),
    }
}

/// The eight-byte images of a sequence of hashes, concatenated in order.
pub open spec fn flat_le8(hs: Seq<u64>) -> Seq<u8>
    decreases hs,
{
    if hs.len() == 0 {
        Seq::empty()
    } else {
        flat_le8(hs.drop_last()) + le8(hs.last())
    }
}

/// The byte stream hashed for an operator node: its opcode, its argument
/// count, then each child's own hash.
pub open spec fn node_bytes(op: OperationKind, hs: Seq<u64>) -> Seq<u8> {
    le4(spec_opcode(op)) + le8(hs.len() as u64) + flat_le8(hs)
}

/// The structural hash of a tree: bottom-up, each node digests its own
/// content together with its children's hashes.
pub open spec fn spec_hash(e: ExprView) -> u64
    decreases e,
{
    match e {
        ExprView::Leaf(v) => ahash_of(leaf_bytes(v)),
        ExprView::Node(op, cs) => ahash_of(node_bytes(op, child_hashes(cs))),
    }
}

/// The structural hashes of a sequence of trees, in order.
pub open spec fn child_hashes(cs: Seq<ExprView>) -> Seq<u64>
    decreases cs,
{
    if cs.len() == 0 {
        Seq::empty()
    } else {
        child_hashes(cs.drop_last()).push(spec_hash(cs.last()))
    }
}

/// Hashes a leaf value: its discriminant code followed by its payload bytes.
pub fn hash_leaf(leaf: &Value) -> (h: u64)
    ensures
        h == spec_hash(ExprView::Leaf(leaf@)),
{
    let mut data: Vec<u8> = Vec::new();
    match leaf {
        Value::Rational(num, den) => {
            push_le4(&mut data, 0);
            push_le8(&mut data, *num);
            push_le8(&mut data, *den);
        },
        Value::Pi => push_le4(&mut data, 1),
        Value::E => push_le4(&mut data, 2),
        Value::I => push_le4(&mut data, 3),
        Value::Inf => push_le4(&mut data, 4),
        Value::Variable(name) => {
            push_le4(&mut data, 5);
            push_bytes(&mut data, name.as_bytes());
        },
    }
    proof {
        assert(data@ =~= leaf_bytes(leaf@));
    }
    ahash64(&data)
}

/// Appends every byte of a slice.
fn push_bytes(data: &mut Vec<u8>, b: &[u8])
    ensures
        final(data)@ == old(data)@ + b@,
{
    let mut i: usize = 0;
    while i < b.len()
        invariant
            i <= b@.len(),
            data@ == old(data)@ + b@.take(i as int),
        decreases b@.len() - i,
    {
        data.push(b[i]);
        proof {
            assert(old(data)@ + b@.take(i + 1) =~= (old(data)@ + b@.take(i as int)).push(b@[i as int]));
        }
        i = i + 1;
    }
    proof {
        assert(b@.take(b@.len() as int) =~= b@);
    }
}

/// Hashes an operator node whose children already carry their hashes:
/// opcode, argument count, then each child's cached hash.
pub fn hash_op(op: &Operation) -> (h: u64)
    requires
        forall|i: int| 0 <= i < op.arguments@.len() ==> hash_cached(#[trigger] op.arguments@[i]),
    ensures
        h == spec_hash(ExprView::Node(op.op, views_of(op.arguments@))),
{
    let ghost s = op.arguments@;
    let mut data: Vec<u8> = Vec::new();
    push_le4(&mut data, opcode(op.op));
    push_le8(&mut data, op.arguments.len() as u64);
    let ghost prefix = data@;
    let mut i: usize = 0;
    while i < op.arguments.len()
        invariant
            i <= s.len(),
            s == op.arguments@,
            forall|j: int| 0 <= j < s.len() ==> hash_cached(#[trigger] s[j]),
            prefix == le4(spec_opcode(op.op)) + le8(s.len() as u64),
            data@ == prefix + flat_le8(child_hashes(views_of(s.take(i as int)))),
        decreases s.len() - i,
    {
        let c: &OpArgument = &op.arguments[i];
        push_le8(&mut data, c.hash);
        proof {
            let vs = views_of(s.take(i as int));
            let e = expr_view(s[i as int]);
            lemma_views_of_take_step(s, i as int);
            lemma_child_hashes_push(vs, e);
            lemma_flat_le8_push(child_hashes(vs), spec_hash(e));
            assert(c.hash == spec_hash(e));
            vstd::seq_lib::lemma_concat_associative(
                prefix,
                flat_le8(child_hashes(vs)),
                le8(spec_hash(e)),
            );
            assert(data@ == prefix + flat_le8(child_hashes(views_of(s.take(i + 1)))));
        }
        i = i + 1;
    }
    proof {
        assert(s.take(s.len() as int) =~= s);
        lemma_views_of_len(s);
        lemma_child_hashes_len(views_of(s));
        assert(data@ == node_bytes(op.op, child_hashes(views_of(s))));
    }
    ahash64(&data)
}

/// A sequence of handles has as many views as handles.
pub proof fn lemma_views_of_len(s: Seq<OpArgument>)
    ensures
        views_of(s).len() == s.len(),
    decreases s,
{
    if s.len() > 0 {
        lemma_views_of_len(s.drop_last());
    }
}

/// The view sequence is the pointwise view of the handle sequence.
pub proof fn lemma_views_of_index(s: Seq<OpArgument>, i: int)
    requires
        0 <= i < s.len(),
    ensures
        views_of(s).len() == s.len(),
        views_of(s)[i] == expr_view(s[i]),
    decreases s,
{
    lemma_views_of_len(s);
    if i < s.len() - 1 {
        lemma_views_of_index(s.drop_last(), i);
    }
}

/// A sequence of trees has as many hashes as trees.
pub proof fn lemma_child_hashes_len(cs: Seq<ExprView>)
    ensures
        child_hashes(cs).len() == cs.len(),
    decreases cs,
{
    if cs.len() > 0 {
        lemma_child_hashes_len(cs.drop_last());
    }
}

/// Appending a tree appends its hash.
proof fn lemma_child_hashes_push(cs: Seq<ExprView>, e: ExprView)
    ensures
        child_hashes(cs.push(e)) == child_hashes(cs).push(spec_hash(e)),
{
    assert(cs.push(e).drop_last() =~= cs);
    assert(cs.push(e).last() == e);
}

/// Appending a hash appends its eight bytes.
proof fn lemma_flat_le8_push(hs: Seq<u64>, h: u64)
    ensures
        flat_le8(hs.push(h)) == flat_le8(hs) + le8(h),
{
    assert(hs.push(h).drop_last() =~= hs);
    assert(hs.push(h).last() == h);
}

/// A step of [`views_of`] over a growing prefix.
proof fn lemma_views_of_take_step(s: Seq<OpArgument>, i: int)
    requires
        0 <= i < s.len(),
    ensures
        views_of(s.take(i + 1)) == views_of(s.take(i)).push(expr_view(s[i])),
{
    let t = s.take(i + 1);
    assert(t.drop_last() =~= s.take(i));
    assert(t.last() == s[i]);
}

/// Hashes either shape of a node, dispatching to the leaf or operator case.
pub fn hash_oparg(val: &OpArgumentKind) -> (h: u64)
    requires
        kind_cached(*val),
    ensures
        h == spec_hash(kind_view(*val)),
{
    match val {
        OpArgumentKind::Op(op) => hash_op(op),
        OpArgumentKind::Leaf(leaf) => hash_leaf(leaf),
    }
}

/// Two expressions built independently but with identical shape and leaf
/// values carry the same cached structural hash, so they compare equal and
/// collapse to one key in any hash-keyed container.
pub proof fn lemma_hash_deterministic(a: OpArgument, b: OpArgument)
    requires
        a.wf(),
        b.wf(),
        a@ == b@,
    ensures
        a.hash == b.hash,
        spec_hash(a@) == spec_hash(b@),
{
}

/// One equivalence class: the indices (into the graph's expression table) of
/// the expressions currently considered interchangeable.
pub struct EquivalenceClass {
    pub members: Vec<usize>,
}

/// A partition of registered expressions into equivalence classes, seeded
/// with one singleton class per expression and grown by explicit merges.
/// Every index carries the index of its class representative; an index is a
/// representative exactly when it carries itself.
pub struct EquivalenceGraph {
    pub backing_graph: OpArgument,
    pub exprs: Vec<OpArgument>,
    pub rep: Vec<usize>,
}

impl EquivalenceGraph {
    /// The invariant of the partition: one representative entry per
    /// expression, every entry in range, and representatives fixed under
    /// another lookup. This makes the classes a strict partition: each index
    /// belongs to the class of its representative and to no other.
    pub open spec fn wf(self) -> bool {
        &&& self.rep@.len() == self.exprs@.len()
        &&& forall|i: int|
            0 <= i < self.rep@.len() ==> (#[trigger] self.rep@[i]) < self.exprs@.len()
        &&& forall|i: int|
            0 <= i < self.rep@.len() ==> self.rep@[#[trigger] self.rep@[i] as int] == self.rep@[i]
        &&& forall|i: int| 0 <= i < self.exprs@.len() ==> (#[trigger] self.exprs@[i]).wf()
        &&& self.backing_graph.wf()
    }

    /// Whether two registered expressions currently sit in one class.
    pub open spec fn spec_same_class(self, a: int, b: int) -> bool {
        self.rep@[a] == self.rep@[b]
    }

    /// The set of indices sharing a class with `i`.
    pub open spec fn class_set(self, i: int) -> Set<int> {
        Set::new(|j: int| 0 <= j < self.rep@.len() && self.rep@[j] == self.rep@[i])
    }

    /// Seeds the partition from one root expression: a single singleton
    /// class holding the root.
    pub fn new(root: &OpArgument) -> (g: EquivalenceGraph)
        requires
            root.wf(),
        ensures
            g.wf(),
            g.backing_graph == *root,
            g.exprs@ == seq![*root],
            g.rep@ == seq![0usize],
    {
        let mut exprs: Vec<OpArgument> = Vec::new();
        exprs.push(crate::operations::construct_oparg(root));
        let mut rep: Vec<usize> = Vec::new();
        rep.push(0);
        let g = EquivalenceGraph { backing_graph: crate::operations::construct_oparg(root), exprs, rep };
        proof {
            assert(g.exprs@ =~= seq![*root]);
            assert(g.rep@ =~= seq![0usize]);
        }
        g
    }

    /// Registers one more expression in a fresh singleton class and returns
    /// its index.
    pub fn add_expr(&mut self, e: &OpArgument) -> (id: usize)
        requires
            old(self).wf(),
            e.wf(),
        ensures
            final(self).wf(),
            id == old(self).exprs@.len(),
            final(self).exprs@ == old(self).exprs@.push(*e),
            final(self).rep@ == old(self).rep@.push(id),
            final(self).backing_graph == old(self).backing_graph,
    {
        let id = self.exprs.len();
        self.exprs.push(crate::operations::construct_oparg(e));
        self.rep.push(id);
        id
    }

    /// The canonical representative of the class `i` belongs to.
    pub fn find(&self, i: usize) -> (r: usize)
        requires
            self.wf(),
            i < self.rep@.len(),
        ensures
            r == self.rep@[i as int],
            r < self.exprs@.len(),
            self.rep@[r as int] == r,
    {
        self.rep[i]
    }

    /// Whether two registered expressions currently sit in one class.
    pub fn same_class(&self, a: usize, b: usize) -> (r: bool)
        requires
            self.wf(),
            a < self.rep@.len(),
            b < self.rep@.len(),
        ensures
            r == self.spec_same_class(a as int, b as int),
    {
        self.rep[a] == self.rep[b]
    }

    /// Asserts that the expressions at `a` and `b` are equivalent: their two
    /// classes become one, every other class is untouched. The surviving
    /// representative is the one of `a`.
    pub fn merge(&mut self, a: usize, b: usize)
        requires
            old(self).wf(),
            a < old(self).rep@.len(),
            b < old(self).rep@.len(),
        ensures
            final(self).wf(),
            final(self).exprs@ == old(self).exprs@,
            final(self).backing_graph == old(self).backing_graph,
            final(self).rep@.len() == old(self).rep@.len(),
            forall|i: int|
                0 <= i < old(self).rep@.len() ==> final(self).rep@[i] == (if old(self).rep@[i]
                    == old(self).rep@[b as int] {
                    old(self).rep@[a as int]
                } else {
                    old(self).rep@[i]
                }),
            final(self).spec_same_class(a as int, b as int),
    {
        let ra = self.rep[a];
        let rb = self.rep[b];
        let n = self.rep.len();
        let mut i: usize = 0;
        while i < n
            invariant
                n == self.rep@.len(),
                self.rep@.len() == old(self).rep@.len(),
                i <= n,
                self.exprs == old(self).exprs,
                self.backing_graph == old(self).backing_graph,
                ra == old(self).rep@[a as int],
                rb == old(self).rep@[b as int],
                forall|j: int|
                    0 <= j < i ==> self.rep@[j] == (if old(self).rep@[j] == rb {
                        ra
                    } else {
                        old(self).rep@[j]
                    }),
                forall|j: int| i <= j < n ==> self.rep@[j] == old(self).rep@[j],
            decreases n - i,
        {
            if self.rep[i] == rb {
                self.rep.set(i, ra);
            }
            i = i + 1;
        }
        proof {
            assert(old(self).rep@[ra as int] == ra);
            assert forall|j: int| 0 <= j < self.rep@.len() implies (#[trigger] self.rep@[j])
                < self.exprs@.len() && self.rep@[self.rep@[j] as int] == self.rep@[j] by {
                assert(old(self).rep@[old(self).rep@[j] as int] == old(self).rep@[j]);
            }
        }
    }

    /// The members of the class `i` belongs to, in ascending index order.
    pub fn eclass(&self, i: usize) -> (c: EquivalenceClass)
        requires
            self.wf(),
            i < self.rep@.len(),
        ensures
            forall|k: int|
                0 <= k < c.members@.len() ==> (#[trigger] c.members@[k]) < self.rep@.len()
                    && self.spec_same_class(c.members@[k] as int, i as int),
            forall|j: int|
                0 <= j < self.rep@.len() && self.spec_same_class(j, i as int)
                    ==> c.members@.contains(j as usize),
            forall|k1: int, k2: int|
                0 <= k1 < k2 < c.members@.len() ==> (#[trigger] c.members@[k1])
                    < (#[trigger] c.members@[k2]),
    {
        let target = self.rep[i];
        let mut members: Vec<usize> = Vec::new();
        let n = self.rep.len();
        let mut j: usize = 0;
        while j < n
            invariant
                n == self.rep@.len(),
                self.wf(),
                i < self.rep@.len(),
                j <= n,
                target == self.rep@[i as int],
                forall|k: int|
                    0 <= k < members@.len() ==> (#[trigger] members@[k]) < j
                        && self.rep@[members@[k] as int] == target,
                forall|m: int|
                    0 <= m < j && self.rep@[m] == target ==> members@.contains(m as usize),
                forall|k1: int, k2: int|
                    0 <= k1 < k2 < members@.len() ==> (#[trigger] members@[k1])
                        < (#[trigger] members@[k2]),
            decreases n - j,
        {
            let ghost before = members@;
            if self.rep[j] == target {
                members.push(j);
                proof {
                    assert forall|m: int| 0 <= m < j + 1 && self.rep@[m] == target implies members@
                        .contains(m as usize) by {
                        if m < j {
                            let k = choose|k: int|
                                0 <= k < before.len() && before[k] == m as usize;
                            assert(members@[k] == m as usize);
                        } else {
                            assert(members@[members@.len() - 1] == m as usize);
                        }
                    }
                }
            }
            j = j + 1;
        }
        EquivalenceClass { members }
    }

    /// Whether a pair of child expressions are both registered (located by
    /// their cached hash) and currently sit in one class.
    pub open spec fn spec_children_joined(self, ca: OpArgument, cb: OpArgument) -> bool {
        match (first_hash_index(self.exprs@, ca.hash), first_hash_index(self.exprs@, cb.hash)) {
            (Some(x), Some(y)) => self.rep@[x] == self.rep@[y],
            _ => false,
        }
    }

    /// Whether the registered expressions at `a` and `b` are congruent: both
    /// are operator nodes of the same kind and arity, and each pair of
    /// corresponding children is registered and already equivalent.
    pub open spec fn spec_congruent(self, a: int, b: int) -> bool {
        match (self.exprs@[a].value, self.exprs@[b].value) {
            (OpArgumentKind::Op(na), OpArgumentKind::Op(nb)) => {
                &&& (*na).op == (*nb).op
                &&& (*na).arguments@.len() == (*nb).arguments@.len()
                &&& forall|k: int|
                    0 <= k < (*na).arguments@.len() ==> self.spec_children_joined(
                        #[trigger] (*na).arguments@[k],
                        (*nb).arguments@[k],
                    )
            },
            _ => false,
        }
    }

    /// Looks an expression up by its cached hash and returns the index of
    /// the first registered expression that carries the same hash.
    pub fn find_expr(&self, e: &OpArgument) -> (r: Option<usize>)
        requires
            self.wf(),
        ensures
            match r {
                Some(j) => j < self.exprs@.len() && first_hash_index(self.exprs@, e.hash) == Some(
                    j as int,
                ),
                None => first_hash_index(self.exprs@, e.hash) is None,
            },
    {
        let n = self.exprs.len();
        let mut j: usize = 0;
        while j < n
            invariant
                n == self.exprs@.len(),
                j <= n,
                forall|k: int| 0 <= k < j ==> (#[trigger] self.exprs@[k]).hash != e.hash,
            decreases n - j,
        {
            if self.exprs[j].hash == e.hash {
                proof {
                    lemma_first_hash_index_found(self.exprs@, e.hash, j as int);
                }
                return Some(j);
            }
            j = j + 1;
        }
        proof {
            lemma_first_hash_index_none(self.exprs@, e.hash);
        }
        None
    }

    /// Decides congruence of two registered expressions: same operator, same
    /// arity, and every pair of corresponding children already equivalent.
    pub fn congruent(&self, a: usize, b: usize) -> (r: bool)
        requires
            self.wf(),
            a < self.exprs@.len(),
            b < self.exprs@.len(),
        ensures
            r == self.spec_congruent(a as int, b as int),
    {
        let ea = &self.exprs[a];
        let eb = &self.exprs[b];
        match (&ea.value, &eb.value) {
            (OpArgumentKind::Op(na), OpArgumentKind::Op(nb)) => {
                if !(na.op == nb.op) {
                    return false;
                }
                let n = na.arguments.len();
                if n != nb.arguments.len() {
                    return false;
                }
                let mut k: usize = 0;
                while k < n
                    invariant
                        self.wf(),
                        a < self.exprs@.len(),
                        b < self.exprs@.len(),
                        self.exprs@[a as int].value == OpArgumentKind::Op(*na),
                        self.exprs@[b as int].value == OpArgumentKind::Op(*nb),
                        n == (*na).arguments@.len(),
                        n == (*nb).arguments@.len(),
                        k <= n,
                        forall|m: int|
                            0 <= m < k ==> self.spec_children_joined(
                                #[trigger] (*na).arguments@[m],
                                (*nb).arguments@[m],
                            ),
                    decreases n - k,
                {
                    let ja = self.find_expr(&na.arguments[k]);
                    let jb = self.find_expr(&nb.arguments[k]);
                    match (ja, jb) {
                        (Some(x), Some(y)) => {
                            if self.rep[x] != self.rep[y] {
                                return false;
                            }
                        },
                        _ => {
                            return false;
                        },
                    }
                    k = k + 1;
                }
                true
            },
            _ => false,
        }
    }

    /// Applies one congruence-closure step to a pair: when the expressions
    /// at `a` and `b` are congruent, their classes are merged; otherwise the
    /// partition is left untouched.
    pub fn merge_if_congruent(&mut self, a: usize, b: usize) -> (r: bool)
        requires
            old(self).wf(),
            a < old(self).exprs@.len(),
            b < old(self).exprs@.len(),
        ensures
            final(self).wf(),
            r == old(self).spec_congruent(a as int, b as int),
            final(self).exprs@ == old(self).exprs@,
            final(self).backing_graph == old(self).backing_graph,
            r ==> final(self).spec_same_class(a as int, b as int),
            !r ==> final(self).rep@ == old(self).rep@,
    {
        if self.congruent(a, b) {
            self.merge(a, b);
            true
        } else {
            false
        }
    }
}

/// The first position in `s` whose cached hash is `h`.
pub open spec fn first_hash_index(s: Seq<OpArgument>, h: u64) -> Option<int>
    decreases s,
{
    if s.len() == 0 {
        None
    } else if s[0].hash == h {
        Some(0int)
    } else {
        match first_hash_index(s.drop_first(), h) {
            Some(j) => Some(j + 1),
            None => None,
        }
    }
}

/// When `j` is the first position carrying hash `h`, the search finds it.
proof fn lemma_first_hash_index_found(s: Seq<OpArgument>, h: u64, j: int)
    requires
        0 <= j < s.len(),
        s[j].hash == h,
        forall|k: int| 0 <= k < j ==> (#[trigger] s[k]).hash != h,
    ensures
        first_hash_index(s, h) == Some(j),
    decreases j,
{
    if j > 0 {
        lemma_first_hash_index_found(s.drop_first(), h, j - 1);
    }
}

/// When no position carries hash `h`, the search finds nothing.
proof fn lemma_first_hash_index_none(s: Seq<OpArgument>, h: u64)
    requires
        forall|k: int| 0 <= k < s.len() ==> (#[trigger] s[k]).hash != h,
    ensures
        first_hash_index(s, h) is None,
    decreases s,
{
    if s.len() > 0 {
        lemma_first_hash_index_none(s.drop_first(), h);
    }
}

/// The classes of a well-formed graph form a strict partition: every index
/// belongs to its own class, and any two classes are either the same set or
/// disjoint.
pub proof fn lemma_classes_partition(g: EquivalenceGraph, i: int, j: int)
    requires
        g.wf(),
        0 <= i < g.rep@.len(),
        0 <= j < g.rep@.len(),
    ensures
        g.class_set(i).contains(i),
        g.spec_same_class(i, j) ==> g.class_set(i) == g.class_set(j),
        !g.spec_same_class(i, j) ==> g.class_set(i).intersect(g.class_set(j)) == Set::<int>::empty(),
{
    if g.spec_same_class(i, j) {
        assert(g.class_set(i) =~= g.class_set(j));
    } else {
        assert(g.class_set(i).intersect(g.class_set(j)) =~= Set::<int>::empty());
    }
}

/// Class membership is an equivalence relation on registered indices.
pub proof fn lemma_same_class_equivalence(g: EquivalenceGraph, a: int, b: int, c: int)
    requires
        g.wf(),
        0 <= a < g.rep@.len(),
        0 <= b < g.rep@.len(),
        0 <= c < g.rep@.len(),
    ensures
        g.spec_same_class(a, a),
        g.spec_same_class(a, b) == g.spec_same_class(b, a),
        g.spec_same_class(a, b) && g.spec_same_class(b, c) ==> g.spec_same_class(a, c),
{
}

} // verus!
