//! The jump table: one entry per call, linked to the call site of the frame
//! that made it.

use vstd::prelude::*;
use crate::specs::itable::InstructionTableEntry;

verus! {

/// A call edge that is known when the module is compiled: the call of the
/// entry function and, where the module has one, of its start function.
#[derive(Clone, Copy, Debug, PartialEq, Eq, Structural, Hash)]
pub struct StaticFrameEntry {
    pub enable: bool,
    pub frame_id: u32,
    pub next_frame_id: u32,
    pub callee_fid: u32,
    pub fid: u32,
    pub iid: u32,
}

impl Default for StaticFrameEntry {
    fn default() -> (r: Self)
        ensures
            r == (StaticFrameEntry {
                enable: false,
                frame_id: 0,
                next_frame_id: 0,
                callee_fid: 0,
                fid: 0,
                iid: 0,
            }),
    {
        StaticFrameEntry {
            enable: false,
            frame_id: 0,
            next_frame_id: 0,
            callee_fid: 0,
            fid: 0,
            iid: 0,
        }
    }
}

/// One call made while running. `eid` is the execution id of the calling
/// step and names the frame the call opens; `last_jump_eid` names the frame
/// the call was made from; `inst` is the instruction the callee returns to.
#[derive(Clone, Copy, Debug, PartialEq, Eq, Structural, Hash)]
pub struct JumpTableEntry {
    pub eid: u32,
    pub last_jump_eid: u32,
    pub callee_fid: u32,
    pub inst: InstructionTableEntry,
}

/// The frame id of the frames that no call of the run opened: those of the
/// static call edges.
pub const ROOT_FRAME: u32 = 0;

/// Whether entry `i` was called from the root frame or from the frame of
/// exactly one earlier entry.
pub open spec fn resolves(entries: Seq<JumpTableEntry>, i: int) -> bool {
    ||| entries[i].last_jump_eid == ROOT_FRAME
    ||| exists|j: int|
        {
            &&& 0 <= j < i
            &&& #[trigger] entries[j].eid == entries[i].last_jump_eid
            &&& forall|k: int|
                0 <= k < i && #[trigger] entries[k].eid == entries[i].last_jump_eid ==> k == j
        }
}

/// Whether the execution ids grow from entry to entry, none of them the
/// root's.
pub open spec fn eids_increase(entries: Seq<JumpTableEntry>) -> bool {
    &&& forall|i: int| 0 <= i < entries.len() ==> (#[trigger] entries[i]).eid != ROOT_FRAME
    &&& forall|i: int, j: int|
        0 <= i < j < entries.len() ==> (#[trigger] entries[i]).eid < (#[trigger] entries[j]).eid
}

/// Whether the entries form a tree of frames under the root: execution ids
/// grow, and every entry was called from the root or from one earlier entry.
pub open spec fn consistent(entries: Seq<JumpTableEntry>) -> bool {
    &&& eids_increase(entries)
    &&& forall|i: int| 0 <= i < entries.len() ==> #[trigger] resolves(entries, i)
}

/// In a consistent table every back-reference points to a smaller execution
/// id, so following them from any entry ends at the root: the frames form a
/// tree, with no cycle.
pub proof fn lemma_back_reference_decreases(entries: Seq<JumpTableEntry>, i: int)
    requires
        consistent(entries),
        0 <= i < entries.len(),
    ensures
        entries[i].last_jump_eid < entries[i].eid,
{
    assert(resolves(entries, i));
}

#[derive(Debug, PartialEq, Eq)]
pub struct JumpTable(Vec<JumpTableEntry>);

impl View for JumpTable {
    type V = Seq<JumpTableEntry>;

    closed spec fn view(&self) -> Seq<JumpTableEntry> {
        self.0@
    }
}

impl Default for JumpTable {
    fn default() -> (r: Self)
        ensures
            r@ == Seq::<JumpTableEntry>::empty(),
    {
        JumpTable(Vec::new())
    }
}

impl Clone for JumpTable {
    fn clone(&self) -> (r: Self)
        ensures
            r@ == self@,
    {
        JumpTable(self.0.clone())
    }
}

impl JumpTable {
    pub fn new(entries: Vec<JumpTableEntry>) -> (r: Self)
        ensures
            r@ == entries@,
    {
        JumpTable(entries)
    }

    pub fn entries(&self) -> (r: &Vec<JumpTableEntry>)
        ensures
            r@ == self@,
    {
        &self.0
    }

    pub fn push(&mut self, entry: JumpTableEntry)
        ensures
            final(self)@ == old(self)@.push(entry),
    {
        self.0.push(entry)
    }

    /// Whether the table is consistent.
    pub fn check_consistency(&self) -> (r: bool)
        ensures
            r == consistent(self@),
    {
        let n = self.0.len();
        let mut i: usize = 0;
        while i < n
            invariant
                n == self.0.len(),
                i <= n,
                consistent(self.0@.take(i as int)),
            decreases n - i,
        {
            let entry = self.0[i];
            let ghost prefix = self.0@.take(i as int);
            let ghost next = self.0@.take(i + 1);
            proof {
                assert(forall|j: int| 0 <= j < i ==> next[j] == prefix[j]);
                assert(next[i as int] == entry);
            }
            if entry.eid == ROOT_FRAME || (i > 0 && self.0[i - 1].eid >= entry.eid) {
                proof {
                    if consistent(self.0@) {
                        assert(self.0@[i as int].eid != ROOT_FRAME);
                        if i > 0 {
                            assert(self.0@[i - 1].eid < self.0@[i as int].eid);
                        }
                    }
                }
                return false;
            }
            proof {
                assert(eids_increase(next)) by {
                    assert forall|a: int, b: int| 0 <= a < b < next.len() implies (
                    #[trigger] next[a]).eid < (#[trigger] next[b]).eid by {
                        if b == i {
                            if a < i - 1 {
                                assert(prefix[a].eid < prefix[i - 1].eid);
                            }
                        } else {
                            assert(prefix[a].eid < prefix[b].eid);
                        }
                    }
                }
            }
            let mut found = entry.last_jump_eid == ROOT_FRAME;
            let mut j: usize = 0;
            while j < i && !found
                invariant
                    n == self.0.len(),
                    i < n,
                    j <= i,
                    entry == self.0@[i as int],
                    found ==> resolves(self.0@.take(i + 1), i as int),
                    !found ==> entry.last_jump_eid != ROOT_FRAME,
                    !found ==> forall|k: int| 0 <= k < j ==> self.0@[k].eid != entry.last_jump_eid,
                    eids_increase(self.0@.take(i + 1)),
                decreases i - j + (if found { 0int } else { 1int }),
            {
                if self.0[j].eid == entry.last_jump_eid {
                    found = true;
                    proof {
                        let s = self.0@.take(i + 1);
                        assert(s[j as int].eid == s[i as int].last_jump_eid);
                        assert forall|k: int|
                            0 <= k < i && #[trigger] s[k].eid == s[i as int].last_jump_eid implies k
                            == j by {
                            if k < j {
                                assert(s[k].eid < s[j as int].eid);
                            } else if k > j {
                                assert(s[j as int].eid < s[k].eid);
                            }
                        }
                    }
                } else {
                    j += 1;
                }
            }
            if !found {
                proof {
                    if consistent(self.0@) {
                        assert(resolves(self.0@, i as int));
                    }
                }
                return false;
            }
            proof {
                assert forall|k: int| 0 <= k < next.len() implies #[trigger] resolves(next, k) by {
                    if k < i {
                        assert(resolves(prefix, k));
                        if prefix[k].last_jump_eid != ROOT_FRAME {
                            let w = choose|w: int|
                                {
                                    &&& 0 <= w < k
                                    &&& #[trigger] prefix[w].eid == prefix[k].last_jump_eid
                                    &&& forall|m: int|
                                        0 <= m < k && #[trigger] prefix[m].eid
                                            == prefix[k].last_jump_eid ==> m == w
                                };
                            assert(next[w].eid == next[k].last_jump_eid);
                            assert forall|m: int|
                                0 <= m < k && #[trigger] next[m].eid
                                    == next[k].last_jump_eid implies m == w by {
                                assert(prefix[m].eid == prefix[k].last_jump_eid);
                            }
                        }
                    }
                }
            }
            i += 1;
        }
        proof {
            assert(self.0@.take(i as int) =~= self.0@);
        }
        true
    }
}

} // verus!
