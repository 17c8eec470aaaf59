//! The block store: key-addressed storage of blocks by content identifier,
//! together with a tip tag naming the head of the stored chain.
//!
//! Every stored block is keyed by its own content identifier, so a block
//! read back from the store is exactly the block that was verified before
//! it was written. The tip tag, when set, always names a stored block.

use vstd::prelude::*;

use crate::block::{Block, BlockView};

verus! {

/// In-memory key-addressed block storage with a tip tag.
pub struct BlockStore {
    entries: Vec<(u64, Block)>,
    tip: Option<u64>,
}

/// No two entries share a key.
pub open spec fn unique_keys(s: Seq<(u64, Block)>) -> bool {
    forall|i: int, j: int| 0 <= i < j < s.len() ==> (#[trigger] s[i]).0 != (#[trigger] s[j]).0
}

/// The mapping from keys to block values that an entry sequence denotes.
spec fn entries_to_map(s: Seq<(u64, Block)>) -> Map<u64, BlockView>
    decreases s.len(),
{
    if s.len() == 0 {
        Map::empty()
    } else {
        entries_to_map(s.drop_last()).insert(s.last().0, s.last().1@)
    }
}

/// A key is in the denoted map exactly when some entry carries it.
proof fn lemma_entries_map_key(s: Seq<(u64, Block)>, k: u64)
    ensures
        entries_to_map(s).contains_key(k) <==> (exists|i: int|
            0 <= i < s.len() && (#[trigger] s[i]).0 == k),
    decreases s.len(),
{
    if s.len() > 0 {
        lemma_entries_map_key(s.drop_last(), k);
        if s.last().0 == k {
            assert(s[s.len() - 1].0 == k);
        } else {
            if exists|i: int| 0 <= i < s.len() && (#[trigger] s[i]).0 == k {
                let i = choose|i: int| 0 <= i < s.len() && (#[trigger] s[i]).0 == k;
                assert(i < s.len() - 1 && s.drop_last()[i].0 == k);
            }
        }
    }
}

/// With unique keys, the denoted map sends each entry's key to its block.
proof fn lemma_entries_map_value(s: Seq<(u64, Block)>, i: int)
    requires
        unique_keys(s),
        0 <= i < s.len(),
    ensures
        entries_to_map(s).contains_key(s[i].0),
        entries_to_map(s)[s[i].0] == s[i].1@,
    decreases s.len(),
{
    if i < s.len() - 1 {
        assert(s.drop_last()[i] == s[i]);
        lemma_entries_map_value(s.drop_last(), i);
    }
}

impl BlockStore {
    /// The stored blocks, keyed by content identifier.
    pub closed spec fn blocks(&self) -> Map<u64, BlockView> {
        entries_to_map(self.entries@)
    }

    /// The tip tag: the identifier of the head of the stored chain, if one
    /// has been recorded.
    pub closed spec fn tip_tag(&self) -> Option<u64> {
        self.tip
    }

    /// The store's internal invariant: keys are unique, every stored block
    /// is well formed and keyed by its own content identifier, and the tip
    /// tag (when set) names a stored block.
    pub closed spec fn inv(&self) -> bool {
        &&& unique_keys(self.entries@)
        &&& forall|i: int|
            0 <= i < self.entries@.len() ==> (#[trigger] self.entries@[i]).1@.wf()
                && self.entries@[i].1@.id() == self.entries@[i].0
        &&& match self.tip {
            Some(t) => self.blocks().contains_key(t),
            None => true,
        }
    }

    /// What the invariant yields about the visible model: stored blocks are
    /// well formed and keyed by their own identifiers, and the tip tag names
    /// a stored block.
    pub proof fn lemma_inv(&self)
        requires
            self.inv(),
        ensures
            forall|k: u64|
                self.blocks().contains_key(k) ==> (#[trigger] self.blocks()[k]).wf()
                    && self.blocks()[k].id() == k,
            self.tip_tag() matches Some(t) ==> self.blocks().contains_key(t),
    {
        assert forall|k: u64| self.blocks().contains_key(k) implies (#[trigger] self.blocks()[k]).wf()
            && self.blocks()[k].id() == k by {
            lemma_entries_map_key(self.entries@, k);
            let i = choose|i: int| 0 <= i < self.entries@.len() && (#[trigger] self.entries@[i]).0 == k;
            lemma_entries_map_value(self.entries@, i);
        }
    }

    /// Creates an empty store with no tip tag.
    pub fn new() -> (s: BlockStore)
        ensures
            s.inv(),
            s.blocks() == Map::<u64, BlockView>::empty(),
            s.tip_tag() is None,
    {
        BlockStore { entries: Vec::new(), tip: None }
    }

    /// Reports whether a block with identifier `h` is stored.
    pub fn block_exists(&self, h: u64) -> (r: bool)
        requires
            self.inv(),
        ensures
            r == self.blocks().contains_key(h),
    {
        proof {
            lemma_entries_map_key(self.entries@, h);
        }
        let mut i: usize = 0;
        while i < self.entries.len()
            invariant
                i <= self.entries@.len(),
                forall|j: int| 0 <= j < i ==> (#[trigger] self.entries@[j]).0 != h,
            decreases self.entries@.len() - i,
        {
            if self.entries[i].0 == h {
                proof {
                    lemma_entries_map_key(self.entries@, h);
                    assert((self.entries@[i as int]).0 == h);
                }
                return true;
            }
            i = i + 1;
        }
        proof {
            lemma_entries_map_key(self.entries@, h);
        }
        false
    }

    /// Returns the stored block with identifier `h`, or `None` when `h` is
    /// absent.
    pub fn get_block(&self, h: u64) -> (r: Option<&Block>)
        requires
            self.inv(),
        ensures
            r is Some <==> self.blocks().contains_key(h),
            r matches Some(b) ==> b@ == self.blocks()[h] && b@.wf() && b@.id() == h,
    {
        proof {
            lemma_entries_map_key(self.entries@, h);
        }
        let mut i: usize = 0;
        while i < self.entries.len()
            invariant
                self.inv(),
                i <= self.entries@.len(),
                forall|j: int| 0 <= j < i ==> (#[trigger] self.entries@[j]).0 != h,
            decreases self.entries@.len() - i,
        {
            if self.entries[i].0 == h {
                proof {
                    lemma_entries_map_value(self.entries@, i as int);
                }
                return Some(&self.entries[i].1);
            }
            i = i + 1;
        }
        proof {
            lemma_entries_map_key(self.entries@, h);
        }
        None
    }

    /// Stores a block under its own content identifier. The identifier must
    /// not be taken yet: the caller checks existence first and never writes
    /// the same block twice.
    pub fn put_block(&mut self, b: Block)
        requires
            old(self).inv(),
            b@.wf(),
            !old(self).blocks().contains_key(b@.id()),
        ensures
            final(self).inv(),
            final(self).blocks() == old(self).blocks().insert(b@.id(), b@),
            final(self).tip_tag() == old(self).tip_tag(),
    {
        let id = b.content_id();
        proof {
            lemma_entries_map_key(self.entries@, id);
        }
        self.entries.push((id, b));
        proof {
            assert(self.entries@.drop_last() =~= old(self).entries@);
            assert(final(self).blocks() == old(self).blocks().insert(b@.id(), b@));
            if old(self).tip is Some {
                lemma_entries_map_key(old(self).entries@, old(self).tip.unwrap());
                lemma_entries_map_key(self.entries@, old(self).tip.unwrap());
            }
        }
    }

    /// Returns the tip tag.
    pub fn get_tip(&self) -> (r: Option<u64>)
        ensures
            r == self.tip_tag(),
    {
        self.tip
    }

    /// Records `h` as the tip of the stored chain; `h` must name a stored
    /// block.
    pub fn set_tip(&mut self, h: u64)
        requires
            old(self).inv(),
            old(self).blocks().contains_key(h),
        ensures
            final(self).inv(),
            final(self).blocks() == old(self).blocks(),
            final(self).tip_tag() == Some(h),
    {
        self.tip = Some(h);
    }

    /// Reports whether the chain of parent links starting at `from` reaches
    /// `root` inside this store.
    pub fn reaches_root(&self, from: u64, root: u64) -> (r: bool)
        requires
            self.inv(),
        ensures
            r == chain_reaches(self.blocks(), from, root),
    {
        let mut cur: u64 = from;
        loop
            invariant
                self.inv(),
                chain_reaches(self.blocks(), from, root) == chain_reaches(
                    self.blocks(),
                    cur,
                    root,
                ),
            decreases (if self.blocks().contains_key(cur) {
                self.blocks()[cur].height as int + 1
            } else {
                0
            }),
        {
            if cur == root {
                return true;
            }
            match self.get_block(cur) {
                None => {
                    return false;
                },
                Some(b) => {
                    match b.parent {
                        None => {
                            return false;
                        },
                        Some(p) => {
                            let parent_height: u32 = match self.get_block(p) {
                                None => {
                                    return false;
                                },
                                Some(pb) => pb.height,
                            };
                            if parent_height < b.height {
                                cur = p;
                            } else {
                                return false;
                            }
                        },
                    }
                },
            }
        }
    }
}

/// Whether following parent links from `from` inside `m` reaches `root`.
/// Each step must go to a stored parent of strictly smaller height, so the
/// walk always terminates.
pub open spec fn chain_reaches(m: Map<u64, BlockView>, from: u64, root: u64) -> bool
    decreases (if m.contains_key(from) {
        m[from].height as int + 1
    } else {
        0
    }),
{
    if from == root {
        true
    } else if !m.contains_key(from) {
        false
    } else {
        match m[from].parent {
            None => false,
            Some(p) => {
                if m.contains_key(p) && m[p].height < m[from].height {
                    chain_reaches(m, p, root)
                } else {
                    false
                }
            },
        }
    }
}

} // verus!
