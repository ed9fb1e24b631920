//! Memory regions: a registered byte range, and the ranges cut out of it.
//!
//! A region is a node of a tree. The root stands for one registration with
//! the device; every other node is a range reserved inside its parent. A node
//! keeps the list of the ranges that are reserved inside it, ordered by their
//! start and never meeting each other. It also keeps its path, the ranges
//! that lead to it from the root, by which its parent knows it again when it
//! is given back.
//!
//! All addresses are addresses in the process that registered the root.

use crate::layout::{layout_size, size_of_layout};
use crate::random::random_u64;
use crate::{RdmaLocalMemory, RdmaMemory, RdmaRemoteMemory};
use std::alloc::Layout;
use std::ops::Range;
use vstd::prelude::*;

verus! {

/// What one side sends to the other to name a region: where it starts in the
/// owner's address space, how long it is, and the key that opens it remotely.
#[derive(Clone, Copy, Debug, PartialEq, Eq, Hash, Structural)]
pub struct MemoryRegionToken {
    pub addr: usize,
    pub len: usize,
    pub rkey: u32,
}

/// Why a region refused an operation.
#[derive(Clone, Copy, Debug, PartialEq, Eq, Structural)]
pub enum MemoryRegionError {
    /// The range is empty, reversed, or ends behind the region.
    InvalidRange,
    /// The range meets a range that is already reserved.
    Overlap,
    /// No gap between the reserved ranges is long enough.
    NoEnoughMemory,
    /// The region still has reserved ranges inside it.
    NotLeaf,
    /// The region given back was not reserved inside this one.
    NotReserved,
}

impl MemoryRegionError {
    /// The text that goes with the error.
    pub fn message(&self) -> (text: &'static str)
        ensures
            text@ == (match *self {
                MemoryRegionError::InvalidRange => "Invalid Range"@,
                MemoryRegionError::Overlap => "Overlap"@,
                MemoryRegionError::NoEnoughMemory => "No Enough Memory"@,
                MemoryRegionError::NotLeaf => "Not A Leaf"@,
                MemoryRegionError::NotReserved => "Not Reserved"@,
            }),
    {
        match self {
            MemoryRegionError::InvalidRange => "Invalid Range",
            MemoryRegionError::Overlap => "Overlap",
            MemoryRegionError::NoEnoughMemory => "No Enough Memory",
            MemoryRegionError::NotLeaf => "Not A Leaf",
            MemoryRegionError::NotReserved => "Not Reserved",
        }
    }
}

/// What a root stands on: a registration on this side, or a token from the
/// other side. Either way it has the key that opens the region remotely.
pub trait LocalRemoteMR: Copy {
    /// The remote key, as contracts speak of it.
    spec fn remote_key(&self) -> u32;

    /// The remote key.
    fn rkey(&self) -> (key: u32)
        ensures
            key == self.remote_key(),
    ;
}

/// A node that is not a root: the root it was cut from, and the address range
/// of its parent.
pub struct Node<T> {
    pub root: T,
    pub fa_addr: usize,
    pub fa_len: usize,
}

/// Root or inner node.
pub enum MemoryRegionKind<T> {
    Root(T),
    Node(Node<T>),
}

impl<T: LocalRemoteMR> MemoryRegionKind<T> {
    /// The root that this node stands on.
    pub open spec fn root_of(self) -> T {
        match self {
            MemoryRegionKind::Root(root) => root,
            MemoryRegionKind::Node(node) => node.root,
        }
    }

    /// The root that this node stands on.
    pub fn root(&self) -> (root: T)
        ensures
            root == self.root_of(),
    {
        match self {
            MemoryRegionKind::Root(root) => *root,
            MemoryRegionKind::Node(node) => node.root,
        }
    }

    /// The remote key, which is the root's.
    pub fn rkey(&self) -> (key: u32)
        ensures
            key == self.root_of().remote_key(),
    {
        match self {
            MemoryRegionKind::Root(root) => root.rkey(),
            MemoryRegionKind::Node(node) => node.root.rkey(),
        }
    }
}

/// Two ranges share at least one offset.
pub open spec fn overlaps(a: Range<usize>, b: Range<usize>) -> bool {
    a.start < b.end && b.start < a.end
}

/// The range lies inside a region of `len` bytes and is not empty.
pub open spec fn in_bounds(range: Range<usize>, len: usize) -> bool {
    range.start < range.end && range.end <= len
}

/// The range meets one of the reserved ranges.
pub open spec fn meets_any(reserved: Seq<Range<usize>>, range: Range<usize>) -> bool {
    exists|i: int| 0 <= i < reserved.len() && overlaps(#[trigger] reserved[i], range)
}

/// `size` bytes from offset `start` lie inside `len` bytes and meet no
/// reserved range.
pub open spec fn fits(reserved: Seq<Range<usize>>, len: usize, start: int, size: int) -> bool {
    &&& 0 <= start
    &&& start + size <= len
    &&& forall|i: int|
        0 <= i < reserved.len() ==> !(start < (#[trigger] reserved[i]).end && reserved[i].start
            < start + size)
}

/// Every reserved range is a non-empty range inside `len` bytes, and each one
/// ends before the next one starts.
pub open spec fn ordered(reserved: Seq<Range<usize>>, len: usize) -> bool {
    &&& forall|i: int| 0 <= i < reserved.len() ==> in_bounds(#[trigger] reserved[i], len)
    &&& forall|i: int, j: int|
        0 <= i < j < reserved.len() ==> (#[trigger] reserved[i]).end <= (
        #[trigger] reserved[j]).start
}

/// How many of the reserved ranges start before `start`.
pub open spec fn count_before(reserved: Seq<Range<usize>>, start: usize) -> int
    decreases reserved.len(),
{
    if reserved.len() == 0 {
        0
    } else {
        count_before(reserved.drop_last(), start) + if reserved.last().start < start {
            1int
        } else {
            0int
        }
    }
}

/// The index of the first reserved range equal to `range`; the length of the
/// list where there is none.
pub open spec fn position(reserved: Seq<Range<usize>>, range: Range<usize>) -> int
    decreases reserved.len(),
{
    if reserved.len() == 0 {
        0
    } else if reserved[0] == range {
        0
    } else {
        1 + position(reserved.drop_first(), range)
    }
}

/// In an ordered list, the ranges that start before `start` are the first
/// `k` ones as soon as the `k`-th does not.
pub proof fn lemma_count_before(reserved: Seq<Range<usize>>, start: usize, k: int)
    requires
        0 <= k <= reserved.len(),
        forall|i: int| 0 <= i < k ==> (#[trigger] reserved[i]).start < start,
        forall|i: int| k <= i < reserved.len() ==> (#[trigger] reserved[i]).start >= start,
    ensures
        count_before(reserved, start) == k,
    decreases reserved.len(),
{
    if reserved.len() > 0 {
        let rest = reserved.drop_last();
        if k == reserved.len() {
            lemma_count_before(rest, start, k - 1);
        } else {
            lemma_count_before(rest, start, k);
        }
    }
}

/// Where the first `k` ranges differ from `range` and the next one equals it,
/// `k` is its position; where all differ, its position is the length.
pub proof fn lemma_position(reserved: Seq<Range<usize>>, range: Range<usize>, k: int)
    requires
        0 <= k <= reserved.len(),
        forall|i: int| 0 <= i < k ==> #[trigger] reserved[i] != range,
        k < reserved.len() ==> reserved[k] == range,
    ensures
        position(reserved, range) == k,
    decreases reserved.len(),
{
    if reserved.len() > 0 && k > 0 {
        let rest = reserved.drop_first();
        assert forall|i: int| 0 <= i < k - 1 implies #[trigger] rest[i] != range by {
            assert(rest[i] == reserved[i + 1]);
        }
        lemma_position(rest, range, k - 1);
    }
}

/// Reserving a range and giving it back leaves the list of reserved ranges
/// as it was.
pub proof fn lemma_slice_then_release(reserved: Seq<Range<usize>>, len: usize, range: Range<usize>)
    requires
        ordered(reserved, len),
        in_bounds(range, len),
        !meets_any(reserved, range),
    ensures
        ({
            let sliced = reserved.insert(count_before(reserved, range.start), range);
            &&& ordered(sliced, len)
            &&& position(sliced, range) == count_before(reserved, range.start)
            &&& sliced.remove(position(sliced, range)) == reserved
        }),
{
    lemma_count_before_bounds(reserved, range.start);
    let k = count_before(reserved, range.start);
    lemma_count_before_splits(reserved, len, range.start);
    let sliced = reserved.insert(k, range);
    assert forall|i: int| 0 <= i < k implies #[trigger] sliced[i] != range by {
        assert(sliced[i] == reserved[i]);
        assert(!overlaps(reserved[i], range));
    }
    lemma_position(sliced, range, k);
    assert(sliced.remove(k) =~= reserved);
    assert forall|a: int, b: int| 0 <= a < b < sliced.len() implies (#[trigger] sliced[a]).end <= (
    #[trigger] sliced[b]).start by {
        if a < k && b == k {
            assert(!overlaps(reserved[a], range));
        } else if a == k && b > k {
            assert(!overlaps(reserved[b - 1], range));
        } else if a < k && b > k {
            assert(reserved[a].end <= reserved[b - 1].start);
        } else if a > k {
            assert(reserved[a - 1].end <= reserved[b - 1].start);
        } else {
            assert(reserved[a].end <= reserved[b].start);
        }
    }
    assert forall|a: int| 0 <= a < sliced.len() implies in_bounds(#[trigger] sliced[a], len) by {
        if a < k {
            assert(in_bounds(reserved[a], len));
        } else if a > k {
            assert(in_bounds(reserved[a - 1], len));
        }
    }
}

/// The count of the ranges that start before `start` lies between zero and
/// the length of the list.
pub proof fn lemma_count_before_bounds(reserved: Seq<Range<usize>>, start: usize)
    ensures
        0 <= count_before(reserved, start) <= reserved.len(),
    decreases reserved.len(),
{
    if reserved.len() > 0 {
        lemma_count_before_bounds(reserved.drop_last(), start);
    }
}

/// In an ordered list, the ranges that start before `start` are the first
/// ones: as many as `count_before` says.
pub proof fn lemma_count_before_splits(reserved: Seq<Range<usize>>, len: usize, start: usize)
    requires
        ordered(reserved, len),
    ensures
        forall|i: int|
            0 <= i < count_before(reserved, start) ==> (#[trigger] reserved[i]).start < start,
        forall|i: int|
            count_before(reserved, start) <= i < reserved.len() ==> (#[trigger] reserved[i]).start
                >= start,
    decreases reserved.len(),
{
    lemma_count_before_bounds(reserved, start);
    if reserved.len() > 0 {
        let rest = reserved.drop_last();
        assert(ordered(rest, len)) by {
            assert forall|i: int| 0 <= i < rest.len() implies in_bounds(
                #[trigger] rest[i],
                len,
            ) by {
                assert(in_bounds(reserved[i], len));
            }
            assert forall|i: int, j: int| 0 <= i < j < rest.len() implies (#[trigger] rest[i]).end
                <= (#[trigger] rest[j]).start by {
                assert(reserved[i].end <= reserved[j].start);
            }
        }
        lemma_count_before_splits(rest, len, start);
        lemma_count_before_bounds(rest, start);
        let k = count_before(rest, start);
        let last = reserved.last();
        if last.start < start {
            assert forall|i: int| 0 <= i < rest.len() implies (#[trigger] reserved[i]).start
                < start by {
                assert(in_bounds(reserved[i], len));
                assert(reserved[i].end <= reserved[reserved.len() - 1].start);
            }
            assert(k == rest.len()) by {
                if k < rest.len() {
                    assert(rest[k].start >= start);
                    assert(reserved[k].start < start);
                }
            }
        }
        assert forall|i: int| 0 <= i < count_before(reserved, start) implies (
        #[trigger] reserved[i]).start < start by {
            if i < rest.len() {
                if i < k {
                    assert(rest[i].start < start);
                }
            }
        }
        assert forall|i: int| count_before(reserved, start) <= i < reserved.len() implies (
        #[trigger] reserved[i]).start >= start by {
            if i < rest.len() {
                assert(rest[i].start >= start);
            }
        }
    }
}

/// A region as contracts see it.
pub struct MemoryRegionView<T> {
    pub addr: usize,
    pub len: usize,
    pub kind: MemoryRegionKind<T>,
    pub reserved: Seq<Range<usize>>,
    /// The ranges that lead to this node from the root of its tree: the range
    /// of its outermost ancestor inside the root first, its own range inside
    /// its parent last. Empty for a root.
    pub path: Seq<Range<usize>>,
    /// The number of the tree: the root got it when it was made, and every
    /// node below the root has it from the root.
    pub tree_id: u64,
}

impl<T: LocalRemoteMR> MemoryRegionView<T> {
    /// The node that `range` cuts out of this one.
    pub open spec fn child(self, range: Range<usize>) -> MemoryRegionView<T> {
        MemoryRegionView {
            addr: (self.addr + range.start) as usize,
            len: (range.end - range.start) as usize,
            kind: MemoryRegionKind::Node(
                Node { root: self.kind.root_of(), fa_addr: self.addr, fa_len: self.len },
            ),
            reserved: Seq::empty(),
            path: self.path.push(range),
            tree_id: self.tree_id,
        }
    }

    /// The range that this node takes inside its parent.
    pub open spec fn range_in_parent(self) -> Range<usize> {
        match self.kind {
            MemoryRegionKind::Root(_) => Range { start: 0usize, end: 0usize },
            MemoryRegionKind::Node(node) => Range {
                start: (self.addr - node.fa_addr) as usize,
                end: (self.addr - node.fa_addr + self.len) as usize,
            },
        }
    }

    /// This node was cut out of `parent`: it belongs to the tree of `parent`,
    /// names the address range of `parent` as that of its parent, has the
    /// remote key of `parent`, and its path is the path of `parent` followed
    /// by its own range. Within one tree no other node than its parent has
    /// that path.
    pub open spec fn is_child_of(self, parent: MemoryRegionView<T>) -> bool {
        &&& self.kind matches MemoryRegionKind::Node(node)
        &&& self.tree_id == parent.tree_id
        &&& node.fa_addr == parent.addr
        &&& node.fa_len == parent.len
        &&& node.root.remote_key() == parent.kind.root_of().remote_key()
        &&& self.path == parent.path.push(self.range_in_parent())
    }

    /// The token that names this node.
    pub open spec fn token(self) -> MemoryRegionToken {
        MemoryRegionToken {
            addr: self.addr,
            len: self.len,
            rkey: self.kind.root_of().remote_key(),
        }
    }

    /// Whether the registration behind this node may be undone: it is a root
    /// and nothing is reserved inside it.
    pub open spec fn may_deregister(self) -> bool {
        self.kind is Root && self.reserved.len() == 0
    }

    /// The region with another list of reserved ranges.
    pub open spec fn with_reserved(self, reserved: Seq<Range<usize>>) -> MemoryRegionView<T> {
        MemoryRegionView { reserved, ..self }
    }
}

/// A list with the same ranges as `ranges`, in the same order.
fn copy_of(ranges: &Vec<Range<usize>>) -> (copy: Vec<Range<usize>>)
    ensures
        copy@ == ranges@,
{
    let mut copy: Vec<Range<usize>> = Vec::new();
    let mut i: usize = 0;
    while i < ranges.len()
        invariant
            i <= ranges@.len(),
            copy@ == ranges@.take(i as int),
        decreases ranges@.len() - i,
    {
        copy.push(ranges[i].start..ranges[i].end);
        proof {
            assert(ranges@.take(i + 1) =~= ranges@.take(i as int).push(ranges@[i as int]));
        }
        i += 1;
    }
    proof {
        assert(ranges@.take(ranges@.len() as int) =~= ranges@);
    }
    copy
}

/// Whether `longer` is `shorter` followed by one more range.
fn leads_to(shorter: &Vec<Range<usize>>, longer: &Vec<Range<usize>>) -> (leads: bool)
    ensures
        leads == (longer@.len() > 0 && longer@.drop_last() == shorter@),
{
    let n = shorter.len();
    if longer.len() == 0 || longer.len() - 1 != n {
        return false;
    }
    let mut i: usize = 0;
    while i < n
        invariant
            n == shorter@.len(),
            longer@.len() == n + 1,
            i <= n,
            forall|j: int| 0 <= j < i ==> shorter@[j] == longer@[j],
        decreases n - i,
    {
        if shorter[i].start != longer[i].start || shorter[i].end != longer[i].end {
            proof {
                assert(longer@.drop_last()[i as int] == longer@[i as int]);
            }
            return false;
        }
        i += 1;
    }
    proof {
        assert(longer@.drop_last() =~= shorter@);
    }
    true
}

/// The root of `len` bytes at `addr` that stands on `t`, with nothing
/// reserved inside it, in the tree with the number `tree_id`.
pub open spec fn root_view<T>(tree_id: u64, addr: usize, len: usize, t: T) -> MemoryRegionView<T> {
    MemoryRegionView {
        addr,
        len,
        kind: MemoryRegionKind::Root(t),
        reserved: Seq::empty(),
        path: Seq::empty(),
        tree_id,
    }
}

/// A node of a region tree.
pub struct MemoryRegion<T: LocalRemoteMR> {
    addr: usize,
    len: usize,
    kind: MemoryRegionKind<T>,
    sub: Vec<Range<usize>>,
    path: Vec<Range<usize>>,
    tree_id: u64,
}

impl<T: LocalRemoteMR> View for MemoryRegion<T> {
    type V = MemoryRegionView<T>;

    closed spec fn view(&self) -> MemoryRegionView<T> {
        MemoryRegionView {
            addr: self.addr,
            len: self.len,
            kind: self.kind,
            reserved: self.sub@,
            path: self.path@,
            tree_id: self.tree_id,
        }
    }
}

impl<T: LocalRemoteMR> MemoryRegion<T> {
    /// The region is valid: it ends inside the address space, a node that is
    /// not a root lies inside its parent and is not empty, and the reserved
    /// ranges are ordered, apart from each other and inside the region. The
    /// path of a root is empty; that of another node ends with its range
    /// inside its parent.
    pub open spec fn wf(&self) -> bool {
        &&& self@.addr + self@.len <= usize::MAX
        &&& ordered(self@.reserved, self@.len)
        &&& match self@.kind {
            MemoryRegionKind::Root(_) => self@.path.len() == 0,
            MemoryRegionKind::Node(node) => {
                &&& self@.len > 0
                &&& node.fa_addr <= self@.addr
                &&& self@.addr + self@.len <= node.fa_addr + node.fa_len
                &&& self@.path.len() > 0
                &&& self@.path.last() == self@.range_in_parent()
            },
        }
    }

    /// A root of `len` bytes at `addr`, standing on `t`, with nothing
    /// reserved, whose tree has the number `tree_id`.
    pub fn new_in(tree_id: u64, addr: usize, len: usize, t: T) -> (region: Self)
        requires
            addr + len <= usize::MAX,
        ensures
            region.wf(),
            region@ == root_view(tree_id, addr, len, t),
    {
        MemoryRegion {
            addr,
            len,
            kind: MemoryRegionKind::Root(t),
            sub: Vec::new(),
            path: Vec::new(),
            tree_id,
        }
    }

    /// A root of `len` bytes at `addr`, standing on `t`, with nothing
    /// reserved. The number of its tree is drawn at random, so that the
    /// nodes of two trees are told apart even where the two roots are made
    /// with the same address, length and keys.
    pub fn new(addr: usize, len: usize, t: T) -> (region: Self)
        requires
            addr + len <= usize::MAX,
        ensures
            region.wf(),
            region@ == root_view(region@.tree_id, addr, len, t),
    {
        Self::new_in(random_u64(), addr, len, t)
    }

    /// The address at which the region starts. Only a region with nothing
    /// reserved inside it is looked at.
    pub fn as_ptr(&self) -> (addr: usize)
        requires
            self@.reserved.len() == 0,
        ensures
            addr == self@.addr,
    {
        self.addr
    }

    /// The number of bytes in the region. Only a region with nothing reserved
    /// inside it is looked at.
    pub fn length(&self) -> (len: usize)
        requires
            self@.reserved.len() == 0,
        ensures
            len == self@.len,
    {
        self.len
    }

    /// The key that opens the region remotely: the root's.
    pub fn rkey(&self) -> (key: u32)
        ensures
            key == self@.kind.root_of().remote_key(),
    {
        self.kind.rkey()
    }

    /// The token that names the region to the other side.
    pub fn token(&self) -> (token: MemoryRegionToken)
        ensures
            token == self@.token(),
    {
        MemoryRegionToken { addr: self.addr, len: self.len, rkey: self.rkey() }
    }

    /// The root that the region stands on.
    pub fn root(&self) -> (root: T)
        ensures
            root == self@.kind.root_of(),
    {
        self.kind.root()
    }

    /// Whether the region is a root.
    pub fn is_root(&self) -> (root: bool)
        ensures
            root == (self@.kind is Root),
    {
        match self.kind {
            MemoryRegionKind::Root(_) => true,
            MemoryRegionKind::Node(_) => false,
        }
    }

    /// Whether nothing is reserved inside the region. Only such a region may
    /// serve as a buffer.
    pub fn is_leaf(&self) -> (leaf: bool)
        ensures
            leaf == (self@.reserved.len() == 0),
    {
        self.sub.len() == 0
    }

    /// The ranges reserved inside the region, in order.
    pub fn reserved(&self) -> (ranges: Vec<Range<usize>>)
        ensures
            ranges@ == self@.reserved,
    {
        copy_of(&self.sub)
    }

    /// Reserves `range` and returns the node for it.
    ///
    /// The range must be non-empty and end inside the region, else the error
    /// is `InvalidRange`; it must meet no reserved range, else the error is
    /// `Overlap`. On success the range joins the list behind the ranges that
    /// start before it. On an error nothing changes.
    #[verifier::loop_isolation(false)]
    pub fn slice(&mut self, range: Range<usize>) -> (result: Result<Self, MemoryRegionError>)
        requires
            old(self).wf(),
        ensures
            final(self).wf(),
            match result {
                Ok(sub) => {
                    &&& in_bounds(range, old(self)@.len)
                    &&& !meets_any(old(self)@.reserved, range)
                    &&& final(self)@ == old(self)@.with_reserved(
                        old(self)@.reserved.insert(
                            count_before(old(self)@.reserved, range.start),
                            range,
                        ),
                    )
                    &&& sub@ == old(self)@.child(range)
                    &&& sub.wf()
                },
                Err(e) => {
                    &&& final(self)@ == old(self)@
                    &&& if !in_bounds(range, old(self)@.len) {
                        e == MemoryRegionError::InvalidRange
                    } else {
                        meets_any(old(self)@.reserved, range) && e == MemoryRegionError::Overlap
                    }
                },
            },
    {
        let start = range.start;
        let end = range.end;
        if start >= end || end > self.len {
            return Err(MemoryRegionError::InvalidRange);
        }
        let n = self.sub.len();
        let mut i: usize = 0;
        while i < n
            invariant
                n == self.sub@.len(),
                i <= n,
                range.start == start,
                range.end == end,
                forall|j: int| 0 <= j < i ==> !overlaps(#[trigger] self.sub@[j], range),
            decreases n - i,
        {
            if !(end <= self.sub[i].start || start >= self.sub[i].end) {
                assert(overlaps(self.sub@[i as int], range));
                return Err(MemoryRegionError::Overlap);
            }
            i += 1;
        }
        let mut k: usize = 0;
        while k < n && self.sub[k].start < start
            invariant
                n == self.sub@.len(),
                k <= n,
                forall|j: int| 0 <= j < k ==> (#[trigger] self.sub@[j]).start < start,
            decreases n - k,
        {
            k += 1;
        }
        proof {
            let reserved = self.sub@;
            assert forall|j: int| k <= j < reserved.len() implies (#[trigger] reserved[j]).start
                >= start by {
                if j > k {
                    assert(reserved[k as int].end <= reserved[j].start);
                }
            }
            lemma_count_before(reserved, start, k as int);
            lemma_slice_then_release(reserved, self.len, range);
        }
        let mut path = copy_of(&self.path);
        path.push(start..end);
        self.sub.insert(k, start..end);
        let node = Node { root: self.kind.root(), fa_addr: self.addr, fa_len: self.len };
        Ok(
            MemoryRegion {
                addr: self.addr + start,
                len: end - start,
                kind: MemoryRegionKind::Node(node),
                sub: Vec::new(),
                path,
                tree_id: self.tree_id,
            },
        )
    }

    /// Reserves the lowest `size` bytes that are free and returns the node
    /// for them.
    ///
    /// A request for no bytes is refused as `InvalidRange`. Where no `size`
    /// bytes in a row are free, the error is `NoEnoughMemory`. On an error
    /// nothing changes.
    #[verifier::loop_isolation(false)]
    pub fn allocate_bytes(&mut self, size: usize) -> (result: Result<Self, MemoryRegionError>)
        requires
            old(self).wf(),
        ensures
            final(self).wf(),
            match result {
                Ok(sub) => {
                    let start = sub@.addr - old(self)@.addr;
                    let range = Range { start: start as usize, end: (start + size) as usize };
                    &&& size > 0
                    &&& fits(old(self)@.reserved, old(self)@.len, start, size as int)
                    &&& forall|lower: int|
                        0 <= lower < start ==> !fits(
                            old(self)@.reserved,
                            old(self)@.len,
                            lower,
                            size as int,
                        )
                    &&& final(self)@ == old(self)@.with_reserved(
                        old(self)@.reserved.insert(
                            count_before(old(self)@.reserved, range.start),
                            range,
                        ),
                    )
                    &&& sub@ == old(self)@.child(range)
                    &&& sub.wf()
                },
                Err(e) => {
                    &&& final(self)@ == old(self)@
                    &&& if size == 0 {
                        e == MemoryRegionError::InvalidRange
                    } else {
                        &&& e == MemoryRegionError::NoEnoughMemory
                        &&& forall|start: int|
                            !fits(old(self)@.reserved, old(self)@.len, start, size as int)
                    }
                },
            },
    {
        if size == 0 {
            return Err(MemoryRegionError::InvalidRange);
        }
        let n = self.sub.len();
        let mut last: usize = 0;
        let mut i: usize = 0;
        while i < n
            invariant
                n == self.sub@.len(),
                i <= n,
                self.wf(),
                size > 0,
                last <= self.len,
                i > 0 ==> last == self.sub@[i - 1].end,
                i == 0 ==> last == 0,
                forall|lower: int|
                    0 <= lower < last ==> !fits(self@.reserved, self@.len, lower, size as int),
            decreases n - i,
        {
            let next_start = self.sub[i].start;
            proof {
                if i > 0 {
                    assert(self.sub@[i - 1].end <= self.sub@[i as int].start);
                }
                assert(in_bounds(self.sub@[i as int], self.len));
            }
            if size <= next_start - last {
                break;
            }
            proof {
                let reserved = self@.reserved;
                let new_last = reserved[i as int].end;
                assert forall|lower: int| 0 <= lower < new_last implies !fits(
                    reserved,
                    self@.len,
                    lower,
                    size as int,
                ) by {
                    if lower >= last {
                        assert(lower < reserved[i as int].end && reserved[i as int].start < lower
                            + size);
                    }
                }
            }
            last = self.sub[i].end;
            i += 1;
        }
        if size > self.len - last {
            proof {
                let reserved = self@.reserved;
                assert forall|start: int| !fits(reserved, self@.len, start, size as int) by {
                    if 0 <= start && start + size <= self@.len {
                        assert(start < last);
                    }
                }
            }
            return Err(MemoryRegionError::NoEnoughMemory);
        }
        proof {
            let reserved = self@.reserved;
            assert forall|j: int| 0 <= j < reserved.len() implies !(last < (
            #[trigger] reserved[j]).end && reserved[j].start < last + size) by {
                if j < i {
                    if j < i - 1 {
                        assert(reserved[j].end <= reserved[i - 1].start);
                    }
                    assert(in_bounds(reserved[i - 1], self.len));
                } else {
                    if j > i {
                        assert(reserved[i as int].end <= reserved[j].start);
                    }
                    assert(in_bounds(reserved[i as int], self.len));
                }
            }
            assert(fits(reserved, self@.len, last as int, size as int));
            let range = Range { start: last, end: (last + size) as usize };
            assert(!meets_any(reserved, range));
        }
        let result = self.slice(last..last + size);
        result
    }

    /// Gives back the range of a node that was cut out of this region.
    ///
    /// `child` must have nothing reserved inside it, else the error is
    /// `NotLeaf`; it must be a node of this region, found under this region's
    /// path followed by its range, and that range must be reserved here, else
    /// the error is `NotReserved`. So a node that was cut out of another node
    /// is refused, also where that node has the same address and length as
    /// this one. On success the range leaves the list. On an error nothing
    /// changes.
    #[verifier::loop_isolation(false)]
    pub fn release(&mut self, child: Self) -> (result: Result<(), MemoryRegionError>)
        requires
            old(self).wf(),
            child.wf(),
        ensures
            final(self).wf(),
            match result {
                Ok(()) => {
                    let at = position(old(self)@.reserved, child@.range_in_parent());
                    &&& child@.reserved.len() == 0
                    &&& child@.is_child_of(old(self)@)
                    &&& 0 <= at < old(self)@.reserved.len()
                    &&& old(self)@.reserved[at] == child@.range_in_parent()
                    &&& final(self)@ == old(self)@.with_reserved(old(self)@.reserved.remove(at))
                },
                Err(e) => {
                    &&& final(self)@ == old(self)@
                    &&& if child@.reserved.len() > 0 {
                        e == MemoryRegionError::NotLeaf
                    } else {
                        &&& e == MemoryRegionError::NotReserved
                        &&& !(child@.is_child_of(old(self)@) && position(
                            old(self)@.reserved,
                            child@.range_in_parent(),
                        ) < old(self)@.reserved.len())
                    }
                },
            },
    {
        if child.sub.len() != 0 {
            return Err(MemoryRegionError::NotLeaf);
        }
        let (start, end) = match child.kind {
            MemoryRegionKind::Root(_) => {
                return Err(MemoryRegionError::NotReserved);
            },
            MemoryRegionKind::Node(node) => {
                if child.tree_id != self.tree_id || node.fa_addr != self.addr || node.fa_len
                    != self.len || node.root.rkey() != self.kind.rkey() {
                    return Err(MemoryRegionError::NotReserved);
                }
                (child.addr - node.fa_addr, child.addr - node.fa_addr + child.len)
            },
        };
        let ghost range = child@.range_in_parent();
        if !leads_to(&self.path, &child.path) {
            proof {
                assert(self@.path.push(range).drop_last() =~= self@.path);
            }
            return Err(MemoryRegionError::NotReserved);
        }
        assert(child@.path =~= self@.path.push(range));
        let n = self.sub.len();
        let mut i: usize = 0;
        while i < n
            invariant
                n == self.sub@.len(),
                i <= n,
                range.start == start,
                range.end == end,
                forall|j: int| 0 <= j < i ==> #[trigger] self.sub@[j] != range,
            decreases n - i,
        {
            if self.sub[i].start == start && self.sub[i].end == end {
                break;
            }
            i += 1;
        }
        proof {
            lemma_position(self.sub@, range, i as int);
        }
        if i == n {
            return Err(MemoryRegionError::NotReserved);
        }
        proof {
            let reserved = self.sub@;
            let after = reserved.remove(i as int);
            assert forall|a: int, b: int| 0 <= a < b < after.len() implies (#[trigger] after[a]).end
                <= (#[trigger] after[b]).start by {
                let a0 = if a < i { a } else { a + 1 };
                let b0 = if b < i { b } else { b + 1 };
                assert(reserved[a0].end <= reserved[b0].start);
            }
            assert forall|a: int| 0 <= a < after.len() implies in_bounds(
                #[trigger] after[a],
                self.len,
            ) by {
                let a0 = if a < i { a } else { a + 1 };
                assert(in_bounds(reserved[a0], self.len));
            }
        }
        self.sub.remove(i);
        Ok(())
    }

    /// Ends the life of a root and hands back what it stands on, so that the
    /// registration can be undone. A region that is no root, or that still has
    /// ranges reserved inside it, is handed back unchanged instead.
    pub fn deregister(self) -> (result: Result<T, Self>)
        ensures
            match result {
                Ok(root) => self@.may_deregister() && self@.kind == MemoryRegionKind::Root(root),
                Err(region) => !self@.may_deregister() && region == self,
            },
    {
        if self.sub.len() != 0 {
            return Err(self);
        }
        match self.kind {
            MemoryRegionKind::Root(root) => Ok(root),
            MemoryRegionKind::Node(_) => Err(self),
        }
    }
}

/// What a local root stands on: the two keys that the device gave to the
/// registration.
#[derive(Clone, Copy, Debug, PartialEq, Eq, Structural)]
pub struct Local {
    lkey: u32,
    rkey: u32,
}

impl Local {
    /// The registration with these keys.
    pub fn new(lkey: u32, rkey: u32) -> (local: Self)
        ensures
            local.local_key() == lkey,
            local.remote_key() == rkey,
    {
        Local { lkey, rkey }
    }

    /// The local key, as contracts speak of it.
    pub closed spec fn local_key(&self) -> u32 {
        self.lkey
    }

    /// The key that local work requests name.
    pub fn lkey(&self) -> (key: u32)
        ensures
            key == self.local_key(),
    {
        self.lkey
    }
}

impl LocalRemoteMR for Local {
    closed spec fn remote_key(&self) -> u32 {
        self.rkey
    }

    fn rkey(&self) -> (key: u32) {
        self.rkey
    }
}

/// A region registered on this side.
pub type LocalMemoryRegion = MemoryRegion<Local>;

impl MemoryRegion<Local> {
    /// The key that local work requests name: the root's.
    pub fn lkey(&self) -> (key: u32)
        ensures
            key == self@.kind.root_of().local_key(),
    {
        self.kind.root().lkey()
    }
}

/// What a remote root stands on: the token that the other side sent.
#[derive(Clone, Copy, Debug, PartialEq, Eq, Structural)]
pub struct Remote {
    token: MemoryRegionToken,
}

impl Remote {
    /// The token that the other side sent.
    pub closed spec fn sent_token(&self) -> MemoryRegionToken {
        self.token
    }

    /// The token that the other side sent.
    pub fn token(&self) -> (token: MemoryRegionToken)
        ensures
            token == self.sent_token(),
    {
        self.token
    }

    /// The remote key is the token's.
    pub proof fn lemma_remote_key(&self)
        ensures
            self.remote_key() == self.sent_token().rkey,
    {
    }
}

impl LocalRemoteMR for Remote {
    closed spec fn remote_key(&self) -> u32 {
        self.token.rkey
    }

    fn rkey(&self) -> (key: u32) {
        self.token.rkey
    }
}

/// A region registered on the other side.
pub type RemoteMemoryRegion = MemoryRegion<Remote>;

/// The root that stands for a region which the other side named by `token`,
/// in the tree with the number `tree_id`: it starts where the token says, is
/// as long as the token says, has the token's key, and nothing is reserved
/// inside it.
pub closed spec fn remote_root(token: MemoryRegionToken, tree_id: u64) -> MemoryRegionView<
    Remote,
> {
    root_view(tree_id, token.addr, token.len, Remote { token })
}

/// What `remote_root` is made of.
pub proof fn lemma_remote_root(token: MemoryRegionToken, tree_id: u64)
    ensures
        remote_root(token, tree_id).addr == token.addr,
        remote_root(token, tree_id).len == token.len,
        remote_root(token, tree_id).kind is Root,
        remote_root(token, tree_id).kind.root_of().sent_token() == token,
        remote_root(token, tree_id).reserved.len() == 0,
        remote_root(token, tree_id).path.len() == 0,
        remote_root(token, tree_id).tree_id == tree_id,
        remote_root(token, tree_id).token() == token,
{
}

/// Token round trip: the remote region made from the token of any region
/// names the same address, length and remote key as that region, whatever
/// the number of its tree.
pub proof fn lemma_token_round_trip<T: LocalRemoteMR>(region: MemoryRegionView<T>, tree_id: u64)
    ensures
        remote_root(region.token(), tree_id).addr == region.addr,
        remote_root(region.token(), tree_id).len == region.len,
        remote_root(region.token(), tree_id).token().rkey == region.kind.root_of().remote_key(),
        remote_root(region.token(), tree_id).token() == region.token(),
{
    lemma_remote_root(region.token(), tree_id);
}

impl MemoryRegion<Remote> {
    /// The root for a region that the other side named by `token`, in the
    /// tree with the number `tree_id`.
    pub fn new_from_token_in(tree_id: u64, token: MemoryRegionToken) -> (region: Self)
        requires
            token.addr + token.len <= usize::MAX,
        ensures
            region.wf(),
            region@ == remote_root(token, tree_id),
    {
        MemoryRegion::new_in(tree_id, token.addr, token.len, Remote { token })
    }

    /// The root for a region that the other side named by `token`. The
    /// number of its tree is drawn at random, so that two roots made from one
    /// token are told apart.
    pub fn new_from_token(token: MemoryRegionToken) -> (region: Self)
        requires
            token.addr + token.len <= usize::MAX,
        ensures
            region.wf(),
            region@ == remote_root(token, region@.tree_id),
            region@.kind is Root,
            region@.kind.root_of().sent_token() == token,
            region@.reserved.len() == 0,
            region@.token() == token,
    {
        Self::new_from_token_in(random_u64(), token)
    }
}

/// The node that `slice` returns goes back: as long as nothing is reserved
/// inside it, `release` on its parent accepts it, and the parent is then as
/// it was before the range was reserved.
pub proof fn lemma_child_goes_back<T: LocalRemoteMR>(parent: MemoryRegion<T>, range: Range<usize>)
    requires
        parent.wf(),
        in_bounds(range, parent@.len),
        !meets_any(parent@.reserved, range),
    ensures
        ({
            let sliced = parent@.reserved.insert(
                count_before(parent@.reserved, range.start),
                range,
            );
            let child = parent@.child(range);
            &&& child.reserved.len() == 0
            &&& child.range_in_parent() == range
            &&& child.is_child_of(parent@.with_reserved(sliced))
            &&& 0 <= position(sliced, range) < sliced.len()
            &&& sliced[position(sliced, range)] == range
            &&& parent@.with_reserved(sliced).with_reserved(sliced.remove(position(sliced, range)))
                == parent@
        }),
{
    lemma_slice_then_release(parent@.reserved, parent@.len, range);
    lemma_count_before_bounds(parent@.reserved, range.start);
}

impl<T: LocalRemoteMR> MemoryRegion<T> {
    /// Reserves the lowest free bytes that hold `layout` and returns the node
    /// for them: `allocate_bytes` with the layout's size.
    pub fn allocate(&mut self, layout: Layout) -> (result: Result<Self, MemoryRegionError>)
        requires
            old(self).wf(),
        ensures
            final(self).wf(),
            match result {
                Ok(sub) => {
                    let size = layout_size(layout);
                    let start = sub@.addr - old(self)@.addr;
                    let range = Range { start: start as usize, end: (start + size) as usize };
                    &&& size > 0
                    &&& fits(old(self)@.reserved, old(self)@.len, start, size as int)
                    &&& forall|lower: int|
                        0 <= lower < start ==> !fits(
                            old(self)@.reserved,
                            old(self)@.len,
                            lower,
                            size as int,
                        )
                    &&& final(self)@ == old(self)@.with_reserved(
                        old(self)@.reserved.insert(
                            count_before(old(self)@.reserved, range.start),
                            range,
                        ),
                    )
                    &&& sub@ == old(self)@.child(range)
                    &&& sub.wf()
                },
                Err(e) => {
                    &&& final(self)@ == old(self)@
                    &&& if layout_size(layout) == 0 {
                        e == MemoryRegionError::InvalidRange
                    } else {
                        &&& e == MemoryRegionError::NoEnoughMemory
                        &&& forall|start: int|
                            !fits(
                                old(self)@.reserved,
                                old(self)@.len,
                                start,
                                layout_size(layout) as int,
                            )
                    }
                },
            },
    {
        let size = size_of_layout(&layout);
        self.allocate_bytes(size)
    }
}

impl<T: LocalRemoteMR> RdmaMemory for MemoryRegion<T> {
    open spec fn addr_of(&self) -> usize {
        self@.addr
    }

    open spec fn length_of(&self) -> usize {
        self@.len
    }

    open spec fn leaf(&self) -> bool {
        self@.reserved.len() == 0
    }

    fn is_leaf(&self) -> (leaf: bool) {
        self.sub.len() == 0
    }

    fn addr(&self) -> (addr: usize) {
        self.addr
    }

    fn length(&self) -> (len: usize) {
        self.len
    }
}

impl RdmaLocalMemory for MemoryRegion<Local> {
    open spec fn lkey_of(&self) -> u32 {
        self@.kind.root_of().local_key()
    }

    fn lkey(&self) -> (key: u32) {
        self.kind.root().lkey()
    }
}

impl RdmaRemoteMemory for MemoryRegion<Remote> {
    open spec fn rkey_of(&self) -> u32 {
        self@.kind.root_of().remote_key()
    }

    fn rkey(&self) -> (key: u32) {
        self.kind.rkey()
    }
}

} // verus!
