//! The nexus: a block device that replicates its blocks over its children.
use crate::nexus_child::NexusChild;
use vstd::prelude::*;

verus! {

#[derive(Debug, Clone, Copy, PartialEq, Eq, Structural)]
pub enum NexusState {
    /// nexus created but no children attached
    Init,
    /// closed
    Closed,
    /// open
    Open,
    /// reconfiguring internal IO channels
    Reconfiguring,
    /// no child is left to serve I/O
    Faulted,
}

#[derive(Debug, Clone, Copy, PartialEq, Eq, Structural)]
pub enum NexusStatus {
    /// The nexus cannot perform any IO operation
    Faulted,
    /// Degraded, one or more child is missing but IO can still flow
    Degraded,
    /// Online
    Online,
}

/// The main nexus structure
#[derive(Debug, PartialEq, Eq)]
pub struct Nexus {
    /// Name of the Nexus instance
    pub name: String,
    /// number of children part of this nexus
    pub child_count: u32,
    /// vector of children
    pub children: Vec<NexusChild>,
    /// the block length that every child must have
    pub block_len: u32,
    /// the number of blocks that the nexus presents
    pub num_blocks: u64,
    /// the alignment that buffers handed to the nexus must have, as a power of two
    pub required_alignment: u8,
    /// the internal state of the nexus
    pub state: NexusState,
    /// the offset in num blocks where the data partition starts
    pub data_ent_offset: u64,
    /// the size of the nexus in bytes, as requested
    pub size: u64,
}

/// The number of children among the first `upto` that are open.
pub open spec fn open_count(children: Seq<NexusChild>, upto: int) -> nat
    decreases upto,
{
    if upto <= 0 {
        0
    } else {
        open_count(children, upto - 1) + if children[upto - 1].is_open() {
            1nat
        } else {
            0nat
        }
    }
}

/// The index of the first child at or behind `from` that bears `name`;
/// the number of children if there is none.
pub open spec fn position(children: Seq<NexusChild>, name: Seq<char>, from: int) -> int
    decreases children.len() - from,
{
    if from >= children.len() {
        children.len() as int
    } else if children[from].name@ == name {
        from
    } else {
        position(children, name, from + 1)
    }
}

impl Nexus {
    /// A nexus of the name and size given, without children, in the state
    /// `Init`. The block length is 512 bytes until the children say
    /// otherwise.
    pub fn new(name: &str, size: u64) -> (nexus: Nexus)
        ensures
            nexus.wf(),
            nexus.name@ == name@,
            nexus.size == size,
            nexus.children@.len() == 0,
            nexus.child_count == 0,
            nexus.block_len == 512,
            nexus.num_blocks == 0,
            nexus.required_alignment == 0,
            nexus.data_ent_offset == 0,
            nexus.state == NexusState::Init,
    {
        Nexus {
            name: name.to_owned(),
            child_count: 0,
            children: Vec::new(),
            block_len: 512,
            num_blocks: 0,
            required_alignment: 0,
            state: NexusState::Init,
            data_ent_offset: 0,
            size,
        }
    }

    /// The children are counted, each is well-formed, and no two bear the
    /// same name.
    pub open spec fn wf(self) -> bool {
        &&& self.child_count == self.children@.len()
        &&& forall|i: int| 0 <= i < self.children@.len() ==> (#[trigger] self.children@[i]).wf()
        &&& forall|i: int, j: int|
            0 <= i < j < self.children@.len() ==> (#[trigger] self.children@[i]).name@ != (
            #[trigger] self.children@[j]).name@
    }

    /// The number of open children.
    pub open spec fn open_children(self) -> nat {
        open_count(self.children@, self.children@.len() as int)
    }

    /// Whether a child bears `name`.
    pub open spec fn has_child(self, name: Seq<char>) -> bool {
        position(self.children@, name, 0) < self.children@.len()
    }

    /// The status that the nexus shows: faulted where no child is open,
    /// degraded where some child is not, online where all are.
    pub open spec fn status_spec(self) -> NexusStatus {
        if self.state == NexusState::Faulted || self.open_children() == 0 {
            NexusStatus::Faulted
        } else if self.open_children() < self.children@.len() {
            NexusStatus::Degraded
        } else {
            NexusStatus::Online
        }
    }
}

} // verus!
