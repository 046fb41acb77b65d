//!
//! This file implements operations to the child bdevs from the context of its
//! parent.
//!
//! `register_children` and `register_child` are should only be used when
//! building up a new nexus
//!
//! `offline_child` and `online_child` should be used to include the child into
//! the IO path of the nexus currently, online of a child will default the nexus
//! into the degraded mode as it (may) require a rebuild.
//!
//! 'fault_child` will do the same as `offline_child` except, it will not close
//! the child.
//!
//! `add_child` will construct a new `NexusChild` and add the bdev given by the
//! uri to the nexus. The nexus will transition to degraded mode as the new
//! child requires rebuild first.
use crate::nexus_bdev::{open_count, position, Nexus, NexusState, NexusStatus};
use crate::nexus_child::{Bdev, ChildError, ChildState, NexusChild, Reason};
use vstd::prelude::*;

verus! {

/// What went wrong with an operation on the children of a nexus. `name`
/// is the name of the nexus, `child` that of the child.
#[derive(Debug, PartialEq, Eq)]
pub enum NexusError {
    /// The child has a geometry that the nexus cannot take
    ChildGeometry { child: String, name: String },
    /// The block device of the child is missing
    ChildMissing { child: String, name: String },
    /// Failed to open the child
    OpenChild { source: ChildError, child: String, name: String },
    /// Cannot delete the last child of the nexus
    DestroyLastChild { name: String, child: String },
    /// Cannot remove or offline the last child of the nexus
    RemoveLastChild { name: String, child: String },
    /// Cannot remove or offline the last healthy child of the nexus
    FaultingLastHealthyChild { name: String, child: String },
    /// The child was not found
    ChildNotFound { name: String, child: String },
    /// Failed to close the child
    CloseChild { name: String, child: String },
    /// The children of the nexus have mixed block sizes
    MixedBlockSizes { name: String },
    /// Not all children of the nexus are present or can be opened
    NexusIncomplete { name: String },
}

/// The kinds of `NexusError`.
#[derive(Debug, Copy, Clone, PartialEq, Eq, Structural)]
pub enum ErrorKind {
    ChildGeometry,
    ChildMissing,
    OpenChild(ChildError),
    DestroyLastChild,
    RemoveLastChild,
    FaultingLastHealthyChild,
    ChildNotFound,
    CloseChild,
    MixedBlockSizes,
    NexusIncomplete,
}

impl NexusError {
    /// The kind of the error.
    pub open spec fn kind(self) -> ErrorKind {
        match self {
            NexusError::ChildGeometry { .. } => ErrorKind::ChildGeometry,
            NexusError::ChildMissing { .. } => ErrorKind::ChildMissing,
            NexusError::OpenChild { source, .. } => ErrorKind::OpenChild(source),
            NexusError::DestroyLastChild { .. } => ErrorKind::DestroyLastChild,
            NexusError::RemoveLastChild { .. } => ErrorKind::RemoveLastChild,
            NexusError::FaultingLastHealthyChild { .. } => ErrorKind::FaultingLastHealthyChild,
            NexusError::ChildNotFound { .. } => ErrorKind::ChildNotFound,
            NexusError::CloseChild { .. } => ErrorKind::CloseChild,
            NexusError::MixedBlockSizes { .. } => ErrorKind::MixedBlockSizes,
            NexusError::NexusIncomplete { .. } => ErrorKind::NexusIncomplete,
        }
    }

    /// The nexus that the error is about.
    pub open spec fn nexus(self) -> Seq<char> {
        match self {
            NexusError::ChildGeometry { name, .. } => name@,
            NexusError::ChildMissing { name, .. } => name@,
            NexusError::OpenChild { name, .. } => name@,
            NexusError::DestroyLastChild { name, .. } => name@,
            NexusError::RemoveLastChild { name, .. } => name@,
            NexusError::FaultingLastHealthyChild { name, .. } => name@,
            NexusError::ChildNotFound { name, .. } => name@,
            NexusError::CloseChild { name, .. } => name@,
            NexusError::MixedBlockSizes { name } => name@,
            NexusError::NexusIncomplete { name } => name@,
        }
    }

    /// The child that the error is about, where it is about one.
    pub open spec fn child(self) -> Option<Seq<char>> {
        match self {
            NexusError::ChildGeometry { child, .. } => Some(child@),
            NexusError::ChildMissing { child, .. } => Some(child@),
            NexusError::OpenChild { child, .. } => Some(child@),
            NexusError::DestroyLastChild { child, .. } => Some(child@),
            NexusError::RemoveLastChild { child, .. } => Some(child@),
            NexusError::FaultingLastHealthyChild { child, .. } => Some(child@),
            NexusError::ChildNotFound { child, .. } => Some(child@),
            NexusError::CloseChild { child, .. } => Some(child@),
            NexusError::MixedBlockSizes { .. } => None,
            NexusError::NexusIncomplete { .. } => None,
        }
    }

    /// Whether the error is of `kind`, about the nexus `name` and the
    /// child `child`.
    pub open spec fn is(self, kind: ErrorKind, name: Seq<char>, child: Seq<char>) -> bool {
        self.kind() == kind && self.nexus() == name && self.child() == Some(child)
    }
}

/// The first child that bears `name` is at the position found, and no
/// child before it does.
pub proof fn lemma_position(children: Seq<NexusChild>, name: Seq<char>, from: int)
    requires
        0 <= from <= children.len(),
    ensures
        from <= position(children, name, from) <= children.len(),
        position(children, name, from) < children.len() ==> children[position(
            children,
            name,
            from,
        )].name@ == name,
        forall|i: int|
            from <= i < position(children, name, from) ==> (#[trigger] children[i]).name@ != name,
    decreases children.len() - from,
{
    if from < children.len() && children[from].name@ != name {
        lemma_position(children, name, from + 1);
    }
}

/// A change to one child changes the count of open children by what the
/// child adds to it.
pub proof fn lemma_open_count_update(
    children: Seq<NexusChild>,
    at: int,
    child: NexusChild,
    upto: int,
)
    requires
        0 <= at < children.len(),
        0 <= upto <= children.len(),
    ensures
        open_count(children.update(at, child), upto) == if at < upto {
            open_count(children, upto) - (if children[at].is_open() {
                1int
            } else {
                0int
            }) + (if child.is_open() {
                1int
            } else {
                0int
            })
        } else {
            open_count(children, upto) as int
        },
    decreases upto,
{
    if upto > 0 {
        lemma_open_count_update(children, at, child, upto - 1);
    }
}

/// A child pushed behind the others leaves the count of open children
/// among the others as it is.
pub proof fn lemma_open_count_prefix(children: Seq<NexusChild>, child: NexusChild, upto: int)
    requires
        0 <= upto <= children.len(),
    ensures
        open_count(children.push(child), upto) == open_count(children, upto),
    decreases upto,
{
    if upto > 0 {
        lemma_open_count_prefix(children, child, upto - 1);
    }
}

/// A child pushed behind the others adds itself to the count of open
/// children.
pub proof fn lemma_open_count_push(children: Seq<NexusChild>, child: NexusChild)
    ensures
        open_count(children.push(child), children.len() as int + 1) == open_count(
            children,
            children.len() as int,
        ) + if child.is_open() {
            1nat
        } else {
            0nat
        },
{
    lemma_open_count_prefix(children, child, children.len() as int);
    assert(children.push(child)[children.len() as int] == child);
}

/// An open child is counted.
pub proof fn lemma_open_count_has(children: Seq<NexusChild>, at: int, upto: int)
    requires
        0 <= at < upto <= children.len(),
        children[at].is_open(),
    ensures
        open_count(children, upto) >= 1,
    decreases upto,
{
    if at < upto - 1 {
        lemma_open_count_has(children, at, upto - 1);
    }
}

/// Where no child is open, the nexus is faulted.
pub proof fn lemma_no_open_child_is_faulted(nexus: Nexus)
    ensures
        nexus.open_children() == 0 ==> nexus.status_spec() == NexusStatus::Faulted,
        nexus.status_spec() != NexusStatus::Faulted ==> nexus.open_children() >= 1,
{
}

impl Nexus {
    /// The index of the child that bears `name`.
    pub fn find_child(&self, name: &str) -> (r: Option<usize>)
        ensures
            match r {
                Some(at) => at < self.children@.len() && position(self.children@, name@, 0) == at
                    && self.children@[at as int].name@ == name@,
                None => !self.has_child(name@),
            },
    {
        let wanted = name.to_owned();
        let mut i: usize = 0;
        while i < self.children.len()
            invariant
                i <= self.children@.len(),
                wanted@ == name@,
                position(self.children@, name@, 0) == position(self.children@, name@, i as int),
            decreases self.children@.len() - i,
        {
            if self.children[i].name == wanted {
                return Some(i);
            }
            i = i + 1;
        }
        None
    }

    /// Whether the nexus is in order, to be asked of a nexus that was put
    /// together by hand: the children are counted, each is in order, and
    /// no two bear the same name.
    pub fn is_wf(&self) -> (r: bool)
        ensures
            r == self.wf(),
    {
        if self.children.len() > 0xffff_ffff || self.children.len() != self.child_count as usize {
            return false;
        }
        let mut i: usize = 0;
        while i < self.children.len()
            invariant
                i <= self.children@.len(),
                self.child_count == self.children@.len(),
                forall|k: int| 0 <= k < i ==> (#[trigger] self.children@[k]).wf(),
                forall|a: int, b: int|
                    0 <= a < b < i ==> (#[trigger] self.children@[a]).name@ != (
                    #[trigger] self.children@[b]).name@,
            decreases self.children@.len() - i,
        {
            if !self.children[i].is_wf() {
                return false;
            }
            let mut j: usize = 0;
            while j < i
                invariant
                    j <= i < self.children@.len(),
                    forall|a: int|
                        0 <= a < j ==> (#[trigger] self.children@[a]).name@
                            != self.children@[i as int].name@,
                decreases i - j,
            {
                if self.children[j].name == self.children[i].name {
                    assert(self.children@[j as int].name@ == self.children@[i as int].name@);
                    return false;
                }
                j = j + 1;
            }
            i = i + 1;
        }
        true
    }

    /// lookup a child by its name
    pub fn child_lookup(&self, name: &str) -> (r: Option<&NexusChild>)
        ensures
            match r {
                Some(child) => self.has_child(name@) && *child == self.children@[position(
                    self.children@,
                    name@,
                    0,
                )],
                None => !self.has_child(name@),
            },
    {
        match self.find_child(name) {
            Some(at) => Some(&self.children[at]),
            None => None,
        }
    }

    /// The child that bears `name`, or the error that there is none.
    pub fn get_child_by_name(&self, name: &str) -> (r: Result<&NexusChild, NexusError>)
        ensures
            match r {
                Ok(child) => self.has_child(name@) && *child == self.children@[position(
                    self.children@,
                    name@,
                    0,
                )],
                Err(error) => !self.has_child(name@) && error.is(
                    ErrorKind::ChildNotFound,
                    self.name@,
                    name@,
                ),
            },
    {
        match self.find_child(name) {
            Some(at) => Ok(&self.children[at]),
            None => Err(NexusError::ChildNotFound { child: name.to_owned(), name: self.name.clone() }),
        }
    }

    /// The number of children that are open.
    pub fn count_open(&self) -> (count: usize)
        ensures
            count == self.open_children(),
    {
        let mut count: usize = 0;
        let mut i: usize = 0;
        while i < self.children.len()
            invariant
                i <= self.children@.len(),
                count == open_count(self.children@, i as int),
                count <= i,
            decreases self.children@.len() - i,
        {
            if let ChildState::Open = self.children[i].state {
                count = count + 1;
            }
            i = i + 1;
        }
        count
    }

    /// The status of the nexus: faulted where no child is open, degraded
    /// where some child is not, online where all are.
    pub fn status(&self) -> (status: NexusStatus)
        ensures
            status == self.status_spec(),
    {
        let open = self.count_open();
        if let NexusState::Faulted = self.state {
            NexusStatus::Faulted
        } else if open == 0 {
            NexusStatus::Faulted
        } else if open < self.children.len() {
            NexusStatus::Degraded
        } else {
            NexusStatus::Online
        }
    }

    /// The least number of blocks among the devices of the children;
    /// `u64::MAX` where no child has a device.
    pub open spec fn least_blocks(children: Seq<NexusChild>, upto: int) -> u64
        decreases upto,
    {
        if upto <= 0 {
            u64::MAX
        } else {
            let rest = Self::least_blocks(children, upto - 1);
            match children[upto - 1].bdev {
                Some(bdev) if bdev.num_blocks < rest => bdev.num_blocks,
                _ => rest,
            }
        }
    }

    /// The nexus is allowed to be smaller then the underlying child devices
    /// this function returns the smallest blockcnt of all online children as
    /// they MAY vary in size.
    pub fn min_num_blocks(&self) -> (blocks: u64)
        ensures
            blocks == Self::least_blocks(self.children@, self.children@.len() as int),
    {
        let mut smallest_blkcnt = u64::MAX;
        let mut i: usize = 0;
        while i < self.children.len()
            invariant
                i <= self.children@.len(),
                smallest_blkcnt == Self::least_blocks(self.children@, i as int),
            decreases self.children@.len() - i,
        {
            if let Some(bdev) = &self.children[i].bdev {
                if smallest_blkcnt > bdev.num_blocks {
                    smallest_blkcnt = bdev.num_blocks;
                }
            }
            i = i + 1;
        }
        smallest_blkcnt
    }

    /// The children with `child` among them: in the place of the child of
    /// the same name, if there is one, else behind the others.
    pub open spec fn with_child(children: Seq<NexusChild>, child: NexusChild) -> Seq<NexusChild> {
        let at = position(children, child.name@, 0);
        if at < children.len() {
            children.update(at, child)
        } else {
            children.push(child)
        }
    }

    /// Takes a child into the nexus, by its name: a child of the same name
    /// gives way to it.
    pub fn insert_child(&mut self, child: NexusChild)
        requires
            old(self).wf(),
            child.wf(),
            old(self).children@.len() < u32::MAX,
        ensures
            final(self).wf(),
            final(self).children@ == Self::with_child(old(self).children@, child),
            *final(self) == (Nexus {
                children: final(self).children,
                child_count: final(self).child_count,
                ..*old(self)
            }),
    {
        proof {
            lemma_position(self.children@, child.name@, 0);
        }
        match self.find_child(child.name.as_str()) {
            Some(at) => {
                let ghost before = self.children@;
                self.children.remove(at);
                self.children.insert(at, child);
                assert(self.children@ =~= before.update(at as int, child));
            },
            None => {
                self.children.push(child);
                self.child_count = self.child_count + 1;
            },
        }
    }
}


/// The children with the state of the child at `at` set to `state`.
pub open spec fn with_state(children: Seq<NexusChild>, at: int, state: ChildState) -> Seq<
    NexusChild,
> {
    children.update(at, NexusChild { state, ..children[at] })
}

/// The index of the first child at or behind `from` without a device; the
/// number of children if all have one.
pub open spec fn first_without_bdev(children: Seq<NexusChild>, from: int) -> int
    decreases children.len() - from,
{
    if from >= children.len() {
        children.len() as int
    } else if children[from].bdev is None {
        from
    } else {
        first_without_bdev(children, from + 1)
    }
}

/// Whether all children have a device, and all devices the block length
/// of the device of the first child.
pub open spec fn same_block_len(children: Seq<NexusChild>) -> bool {
    forall|i: int|
        0 <= i < children.len() ==> (#[trigger] children[i]).bdev is Some
            && children[i].bdev->Some_0.block_len == children[0].bdev->Some_0.block_len
}

/// Whether every child can be opened for a nexus of `size` bytes.
pub open spec fn all_can_open(children: Seq<NexusChild>, size: u64) -> bool {
    forall|i: int| 0 <= i < children.len() ==> (#[trigger] children[i]).open_check(size) is Ok
}

/// The largest of `alignment` and the alignments of the devices of the
/// first `upto` children.
pub open spec fn largest_alignment(children: Seq<NexusChild>, alignment: u8, upto: int) -> u8
    decreases upto,
{
    if upto <= 0 {
        alignment
    } else {
        let rest = largest_alignment(children, alignment, upto - 1);
        match children[upto - 1].bdev {
            Some(bdev) if bdev.alignment > rest => bdev.alignment,
            _ => rest,
        }
    }
}

impl Nexus {
    /// register children with the nexus, only allowed during the nexus init
    /// phase
    ///
    /// Each child is known by its own name; of two children of one name
    /// the later replaces the earlier.
    pub fn register_children(&mut self, children: Vec<NexusChild>)
        requires
            old(self).wf(),
            old(self).state == NexusState::Init,
            old(self).children@.len() + children@.len() < u32::MAX,
            forall|i: int| 0 <= i < children@.len() ==> (#[trigger] children@[i]).wf(),
        ensures
            final(self).wf(),
            final(self).children@ == Self::with_children(
                old(self).children@,
                children@,
                children@.len() as int,
            ),
            *final(self) == (Nexus {
                children: final(self).children,
                child_count: final(self).child_count,
                ..*old(self)
            }),
    {
        let mut rest = children;
        let ghost all = children@;
        let mut done: usize = 0;
        let count = rest.len();
        while rest.len() > 0
            invariant
                self.wf(),
                done + rest@.len() == count,
                count == all.len(),
                rest@ == all.subrange(done as int, count as int),
                self.children@.len() <= old(self).children@.len() + done,
                old(self).children@.len() + all.len() < u32::MAX,
                forall|i: int| 0 <= i < all.len() ==> (#[trigger] all[i]).wf(),
                self.children@ == Self::with_children(old(self).children@, all, done as int),
                *self == (Nexus {
                    children: self.children,
                    child_count: self.child_count,
                    ..*old(self)
                }),
            decreases rest@.len(),
        {
            let child = rest.remove(0);
            assert(child == all[done as int]);
            proof {
                lemma_position(self.children@, child.name@, 0);
            }
            self.insert_child(child);
            done = done + 1;
            assert(rest@ =~= all.subrange(done as int, count as int));
        }
    }

    /// The children with the first `upto` of `more` taken in, one after
    /// the other.
    pub open spec fn with_children(children: Seq<NexusChild>, more: Seq<NexusChild>, upto: int) -> Seq<
        NexusChild,
    >
        decreases upto,
    {
        if upto <= 0 {
            children
        } else {
            Self::with_child(Self::with_children(children, more, upto - 1), more[upto - 1])
        }
    }

    /// Create and register a single child to nexus, only allowed during the
    /// nexus init phase
    ///
    /// `bdev` is what was found of the device that was created for `uri`.
    pub fn create_and_register(&mut self, uri: &str, bdev: Option<Bdev>)
        requires
            old(self).wf(),
            old(self).state == NexusState::Init,
            old(self).children@.len() < u32::MAX,
            bdev matches Some(device) ==> device.block_len > 0,
        ensures
            final(self).wf(),
            final(self).has_child(uri@),
            final(self).children@.len() <= old(self).children@.len() + 1,
            exists|child: NexusChild|
                {
                    &&& child.name@ == uri@
                    &&& child.parent@ == old(self).name@
                    &&& child.bdev == bdev
                    &&& child.state == ChildState::Init
                    &&& #[trigger] Self::with_child(old(self).children@, child) == final(self).children@
                },
            *final(self) == (Nexus {
                children: final(self).children,
                child_count: final(self).child_count,
                ..*old(self)
            }),
    {
        let child = NexusChild::new(uri.to_owned(), self.name.clone(), bdev);
        proof {
            lemma_position(self.children@, child.name@, 0);
        }
        let ghost taken = child;
        self.insert_child(child);
        proof {
            lemma_position(self.children@, uri@, 0);
            let at = position(old(self).children@, uri@, 0);
            if at < old(self).children@.len() {
                assert(self.children@[at].name@ == uri@);
            } else {
                assert(self.children@[old(self).children@.len() as int].name@ == uri@);
            }
            assert(Self::with_child(old(self).children@, taken) == self.children@);
        }
    }

    /// What stands against taking the device `bdev` as a new child of the
    /// nexus, if anything: there is no device, its block length is not
    /// that of the nexus, it has fewer blocks than the smallest child, or
    /// it is smaller than the nexus.
    pub open spec fn add_check(self, bdev: Option<Bdev>) -> Result<(), ErrorKind> {
        match bdev {
            None => Err(ErrorKind::ChildMissing),
            Some(device) => if device.block_len != self.block_len || Self::least_blocks(
                self.children@,
                self.children@.len() as int,
            ) > device.num_blocks {
                Err(ErrorKind::ChildGeometry)
            } else if self.size > device.num_blocks * device.block_len {
                Err(
                    ErrorKind::OpenChild(
                        ChildError::ChildTooSmall {
                            child_blocks: device.num_blocks,
                            required_blocks: self.size,
                        },
                    ),
                )
            } else {
                Ok(())
            },
        }
    }

    /// What the addition of a child comes to: `after` is the nexus
    /// `before` with the device `bdev` taken as the child `uri`, opened
    /// and then faulted as out of sync, if nothing stands against it; else
    /// `after` is as `before`, and `r` says what stands against it. A
    /// device that is missing or of the wrong geometry is named as it was
    /// created, a child that cannot be opened by its URI.
    pub open spec fn child_added(
        before: Nexus,
        after: Nexus,
        uri: Seq<char>,
        created: Seq<char>,
        bdev: Option<Bdev>,
        r: Result<NexusStatus, NexusError>,
    ) -> bool {
        match r {
            Ok(status) => {
                &&& before.add_check(bdev) is Ok
                &&& status == after.status_spec()
                &&& after.has_child(uri)
                &&& after.open_children() >= before.open_children() - 1
                &&& exists|child: NexusChild|
                    {
                        &&& child.name@ == uri
                        &&& child.parent@ == before.name@
                        &&& child.bdev == bdev
                        &&& child.state == ChildState::Faulted(Reason::OutOfSync)
                        &&& #[trigger] Self::with_child(before.children@, child) == after.children@
                    }
                &&& after == (Nexus {
                    children: after.children,
                    child_count: after.child_count,
                    ..before
                })
            },
            Err(error) => {
                &&& before.add_check(bdev) == Err::<(), ErrorKind>(error.kind())
                &&& error.nexus() == before.name@
                &&& error.child() == Some(
                    if error.kind() == ErrorKind::ChildMissing || error.kind()
                        == ErrorKind::ChildGeometry {
                        created
                    } else {
                        uri
                    },
                )
                &&& after == before
            },
        }
    }

    /// The child may require a rebuild first, so the nexus will
    /// transition to degraded mode when the addition has been successful.
    ///
    /// `created` is the name of the device that was created for `uri`,
    /// `bdev` what was found under that name. The device is taken as a
    /// child if nothing stands against it; the child is opened and then
    /// faulted as out of sync. On an error the nexus is as before, and the
    /// device is to be destroyed again.
    pub fn add_child_only(&mut self, uri: &str, created: &str, bdev: Option<Bdev>) -> (r: Result<
        NexusStatus,
        NexusError,
    >)
        requires
            old(self).wf(),
            old(self).children@.len() < u32::MAX,
            bdev matches Some(device) ==> device.block_len > 0,
        ensures
            final(self).wf(),
            Self::child_added(*old(self), *final(self), uri@, created@, bdev, r),
    {
        let device = match bdev {
            Some(device) => device,
            None => {
                return Err(
                    NexusError::ChildMissing { child: created.to_owned(), name: self.name.clone() },
                );
            },
        };
        if device.block_len != self.block_len || self.min_num_blocks() > device.num_blocks {
            return Err(
                NexusError::ChildGeometry { child: created.to_owned(), name: self.name.clone() },
            );
        }
        let mut child = NexusChild::new(uri.to_owned(), self.name.clone(), Some(device));
        match child.open(self.size) {
            Ok(name) => {
                // it can never take part in the IO path
                // of the nexus until it's rebuilt from a healthy child.
                child.fault(Reason::OutOfSync);
                proof {
                    lemma_position(self.children@, child.name@, 0);
                    let at = position(self.children@, child.name@, 0);
                    if at < self.children@.len() {
                        lemma_open_count_update(
                            self.children@,
                            at,
                            child,
                            self.children@.len() as int,
                        );
                    } else {
                        lemma_open_count_push(self.children@, child);
                    }
                }
                let ghost taken = child;
                self.insert_child(child);
                proof {
                    lemma_position(self.children@, uri@, 0);
                    let at = position(old(self).children@, uri@, 0);
                    if at < old(self).children@.len() {
                        assert(self.children@[at].name@ == uri@);
                    } else {
                        assert(self.children@[old(self).children@.len() as int].name@ == uri@);
                    }
                    assert(Self::with_child(old(self).children@, taken) == self.children@);
                }
                Ok(self.status())
            },
            Err(e) => Err(
                NexusError::OpenChild { source: e, child: uri.to_owned(), name: self.name.clone() },
            ),
        }
    }

    /// add a new child to an existing nexus. note that the child is added and
    /// opened but not taking part of any new IO's that are submitted to the
    /// nexus.
    ///
    /// The child may require a rebuild first, so the nexus will
    /// transition to degraded mode when the addition has been successful.
    /// The rebuild flag dictates wether we attempt to start the rebuild or not:
    /// the second part of the result says whether a rebuild is to be started.
    /// If the rebuild fails to start, `rebuild_failed_to_start` takes that in.
    pub fn add_child(&mut self, uri: &str, created: &str, bdev: Option<Bdev>, norebuild: bool) -> (r:
        Result<(NexusStatus, bool), NexusError>)
        requires
            old(self).wf(),
            old(self).children@.len() < u32::MAX,
            bdev matches Some(device) ==> device.block_len > 0,
        ensures
            final(self).wf(),
            match r {
                Ok((status, rebuild)) => rebuild == !norebuild && Self::child_added(
                    *old(self),
                    *final(self),
                    uri@,
                    created@,
                    bdev,
                    Ok(status),
                ),
                Err(error) => Self::child_added(
                    *old(self),
                    *final(self),
                    uri@,
                    created@,
                    bdev,
                    Err(error),
                ),
            },
    {
        match self.add_child_only(uri, created, bdev) {
            Ok(status) => Ok((status, !norebuild)),
            Err(error) => Err(error),
        }
    }

    /// Takes in that the rebuild of a child that was added did not start:
    /// the child, if it is found, is faulted because its rebuild failed.
    pub fn rebuild_failed_to_start(&mut self, uri: &str)
        requires
            old(self).wf(),
        ensures
            final(self).wf(),
            final(self).children@ == if old(self).has_child(uri@) {
                with_state(
                    old(self).children@,
                    position(old(self).children@, uri@, 0),
                    ChildState::Faulted(Reason::RebuildFailed),
                )
            } else {
                old(self).children@
            },
            *final(self) == (Nexus { children: final(self).children, ..*old(self) }),
    {
        match self.find_child(uri) {
            Some(at) => {
                self.set_state(at, ChildState::Faulted(Reason::RebuildFailed));
            },
            None => {},
        }
    }

    /// Sets the state of the child at `at`.
    pub fn set_state(&mut self, at: usize, state: ChildState)
        requires
            old(self).wf(),
            at < old(self).children@.len(),
            state == ChildState::Open ==> old(self).children@[at as int].bdev is Some,
        ensures
            final(self).wf(),
            final(self).children@ == with_state(old(self).children@, at as int, state),
            *final(self) == (Nexus { children: final(self).children, ..*old(self) }),
            final(self).open_children() == old(self).open_children() - (if old(self).children@[at as int].is_open() {
                1int
            } else {
                0int
            }) + (if state == ChildState::Open {
                1int
            } else {
                0int
            }),
    {
        let ghost before = self.children@;
        let mut child = self.children.remove(at);
        child.state = state;
        proof {
            lemma_open_count_update(before, at as int, child, before.len() as int);
        }
        self.children.insert(at, child);
        assert(self.children@ =~= with_state(before, at as int, state));
    }

    /// Whether `after` and `r` are what the removal of the child `uri`
    /// makes of the nexus `before`, where `closed` says whether the child
    /// could be closed.
    pub open spec fn child_removed(before: Nexus, after: Nexus, uri: Seq<char>, closed: bool, r: Result<(), NexusError>) -> bool {
        match r {
            Ok(()) => {
                &&& before.child_count != 1
                &&& !after.has_child(uri)
                &&& if before.has_child(uri) {
                    &&& closed
                    &&& after.children@ == before.children@.remove(
                        position(before.children@, uri, 0),
                    )
                    &&& after.child_count == before.child_count - 1
                    &&& after == (Nexus {
                        children: after.children,
                        child_count: after.child_count,
                        ..before
                    })
                } else {
                    after == before
                }
            },
            Err(error) => {
                &&& after == before
                &&& if before.child_count == 1 {
                    error.is(ErrorKind::DestroyLastChild, before.name@, uri)
                } else {
                    &&& before.has_child(uri)
                    &&& !closed
                    &&& error.is(ErrorKind::CloseChild, before.name@, uri)
                }
            },
        }
    }

    /// Destroy child with given uri.
    /// If the child does not exist the method returns success.
    ///
    /// The last child is not removed. `closed` says whether the child
    /// could be closed; a child that could not is not removed either.
    pub fn remove_child(&mut self, uri: &str, closed: bool) -> (r: Result<(), NexusError>)
        requires
            old(self).wf(),
        ensures
            final(self).wf(),
            Self::child_removed(*old(self), *final(self), uri@, closed, r),
    {
        if self.child_count == 1 {
            return Err(
                NexusError::DestroyLastChild { name: self.name.clone(), child: uri.to_owned() },
            );
        }
        proof {
            lemma_position(self.children@, uri@, 0);
        }
        let at = match self.find_child(uri) {
            None => {
                return Ok(());
            },
            Some(at) => at,
        };
        if !closed {
            return Err(
                NexusError::CloseChild {
                    name: self.name.clone(),
                    child: self.children[at].name.clone(),
                },
            );
        }
        let ghost before = self.children@;
        self.children.remove(at);
        self.child_count = self.child_count - 1;
        proof {
            let after = self.children@;
            assert forall|i: int| 0 <= i < after.len() implies (#[trigger] after[i]).name@
                != uri@ by {
                if i < at {
                    assert(after[i] == before[i]);
                } else {
                    assert(after[i] == before[i + 1]);
                }
            }
            lemma_position(after, uri@, 0);
        }
        Ok(())
    }

    /// Whether `after` and `r` are what taking the child `name` offline
    /// makes of the nexus `before`.
    pub open spec fn child_offlined(before: Nexus, after: Nexus, name: Seq<char>, r: Result<NexusStatus, NexusError>) -> bool {
        match r {
            Ok(status) => {
                &&& before.has_child(name)
                &&& after.children@ == with_state(
                    before.children@,
                    position(before.children@, name, 0),
                    ChildState::Closed,
                )
                &&& after == (Nexus { children: after.children, ..before })
                &&& status == after.status_spec()
            },
            Err(error) => {
                &&& !before.has_child(name)
                &&& error.is(ErrorKind::ChildNotFound, before.name@, name)
                &&& after == before
            },
        }
    }

    /// offline a child device and reconfigure the IO channels
    ///
    /// The child is closed; the I/O channels of the nexus are to be
    /// reconfigured afterwards.
    pub fn offline_child(&mut self, name: &str) -> (r: Result<NexusStatus, NexusError>)
        requires
            old(self).wf(),
        ensures
            final(self).wf(),
            Self::child_offlined(*old(self), *final(self), name@, r),
    {
        match self.find_child(name) {
            Some(at) => {
                self.set_state(at, ChildState::Closed);
            },
            None => {
                return Err(
                    NexusError::ChildNotFound { name: self.name.clone(), child: name.to_owned() },
                );
            },
        }
        Ok(self.status())
    }

    /// Whether the child `name` is the only child that is open.
    pub open spec fn last_healthy(self, name: Seq<char>) -> bool {
        let at = position(self.children@, name, 0);
        self.open_children() == 1 && at < self.children@.len() && self.children@[at].is_open()
    }

    /// Whether `after` and `r` are what a fault of the child `name` for
    /// `reason` makes of the nexus `before`; `r` says whether the I/O
    /// channels are to be reconfigured.
    pub open spec fn child_faulted(before: Nexus, after: Nexus, name: Seq<char>, reason: Reason, r: Result<bool, NexusError>) -> bool {
        match r {
            Ok(reconfigure) => {
                &&& before.child_count >= 2
                &&& !before.last_healthy(name)
                &&& before.has_child(name)
                &&& reconfigure == !(before.children@[position(
                    before.children@,
                    name,
                    0,
                )].state is Faulted)
                &&& after.children@ == if reconfigure {
                    with_state(
                        before.children@,
                        position(before.children@, name, 0),
                        ChildState::Faulted(reason),
                    )
                } else {
                    before.children@
                }
                &&& after == (Nexus { children: after.children, ..before })
            },
            Err(error) => {
                &&& after == before
                &&& if before.child_count < 2 {
                    error.is(ErrorKind::RemoveLastChild, before.name@, name)
                } else if before.last_healthy(name) {
                    error.is(ErrorKind::FaultingLastHealthyChild, before.name@, name)
                } else {
                    !before.has_child(name) && error.is(
                        ErrorKind::ChildNotFound,
                        before.name@,
                        name,
                    )
                }
            },
        }
    }

    /// fault a child device and reconfigure the IO channels
    ///
    /// A nexus of fewer than two children lets none be faulted, and no
    /// nexus its last healthy child: a fault never takes the last open
    /// child from a nexus. A child that is faulted already stays as it
    /// is. The result says whether the I/O channels of the nexus are to be
    /// reconfigured.
    pub fn fault_child(&mut self, name: &str, reason: Reason) -> (r: Result<bool, NexusError>)
        requires
            old(self).wf(),
        ensures
            final(self).wf(),
            old(self).open_children() >= 1 ==> final(self).open_children() >= 1,
            Self::child_faulted(*old(self), *final(self), name@, reason, r),
    {
        if self.child_count < 2 {
            return Err(
                NexusError::RemoveLastChild { name: self.name.clone(), child: name.to_owned() },
            );
        }
        let healthy = self.count_open();
        let found = self.find_child(name);
        if healthy == 1 {
            if let Some(at) = found {
                if let ChildState::Open = self.children[at].state {
                    // the last healthy child cannot be faulted
                    return Err(
                        NexusError::FaultingLastHealthyChild {
                            name: self.name.clone(),
                            child: name.to_owned(),
                        },
                    );
                }
            }
        }
        match found {
            Some(at) => {
                match self.children[at].state {
                    ChildState::Faulted(_) => Ok(false),
                    _ => {
                        self.set_state(at, ChildState::Faulted(reason));
                        Ok(true)
                    },
                }
            },
            None => Err(
                NexusError::ChildNotFound { name: self.name.clone(), child: name.to_owned() },
            ),
        }
    }

    /// online a child and reconfigure the IO channels. The child is already
    /// registered, but simply not opened. This can be required in case where
    /// a child is misbehaving.
    ///
    /// The rebuild of the child is to be started afterwards.
    pub fn online_child(&mut self, name: &str) -> (r: Result<NexusStatus, NexusError>)
        requires
            old(self).wf(),
        ensures
            final(self).wf(),
            match r {
                Ok(status) => {
                    &&& old(self).has_child(name@)
                    &&& old(self).children@[position(old(self).children@, name@, 0)].online_check(
                        old(self).size,
                    ) is Ok
                    &&& final(self).children@ == with_state(
                        old(self).children@,
                        position(old(self).children@, name@, 0),
                        ChildState::Open,
                    )
                    &&& *final(self) == (Nexus { children: final(self).children, ..*old(self) })
                    &&& status == final(self).status_spec()
                    &&& final(self).open_children() >= 1
                },
                Err(error) => {
                    &&& final(self).children@ == old(self).children@
                    &&& *final(self) == (Nexus { children: final(self).children, ..*old(self) })
                    &&& if old(self).has_child(name@) {
                        &&& old(self).children@[position(
                            old(self).children@,
                            name@,
                            0,
                        )].online_check(old(self).size) matches Err(source)
                        &&& error.is(ErrorKind::OpenChild(source), old(self).name@, name@)
                    } else {
                        error.is(ErrorKind::ChildNotFound, old(self).name@, name@)
                    }
                },
            },
    {
        let at = match self.find_child(name) {
            Some(at) => at,
            None => {
                return Err(
                    NexusError::ChildNotFound { name: self.name.clone(), child: name.to_owned() },
                );
            },
        };
        let ghost before = self.children@;
        let mut child = self.children.remove(at);
        let size = self.size;
        let opened = child.online(size);
        proof {
            lemma_open_count_update(before, at as int, child, before.len() as int);
            if before[at as int].is_open() {
                lemma_open_count_has(before, at as int, before.len() as int);
            }
        }
        self.children.insert(at, child);
        assert(self.children@ =~= before.update(at as int, child));
        match opened {
            Ok(_) => {
                assert(self.children@ =~= with_state(before, at as int, ChildState::Open));
                Ok(self.status())
            },
            Err(source) => {
                assert(self.children@ =~= before);
                Err(
                    NexusError::OpenChild {
                        source,
                        child: name.to_owned(),
                        name: self.name.clone(),
                    },
                )
            },
        }
    }

    /// Close each child that belongs to this nexus.
    pub fn close_children(&mut self)
        requires
            old(self).wf(),
        ensures
            final(self).wf(),
            final(self).children@.len() == old(self).children@.len(),
            forall|i: int|
                0 <= i < old(self).children@.len() ==> (#[trigger] final(self).children@[i]) == (
                NexusChild { state: ChildState::Closed, ..old(self).children@[i] }),
            *final(self) == (Nexus { children: final(self).children, ..*old(self) }),
    {
        let mut i: usize = 0;
        while i < self.children.len()
            invariant
                self.wf(),
                i <= self.children@.len(),
                self.children@.len() == old(self).children@.len(),
                *self == (Nexus { children: self.children, ..*old(self) }),
                forall|k: int|
                    0 <= k < i ==> (#[trigger] self.children@[k]) == (NexusChild {
                        state: ChildState::Closed,
                        ..old(self).children@[k]
                    }),
                forall|k: int|
                    i <= k < self.children@.len() ==> (#[trigger] self.children@[k]) == old(self).children@[k],
            decreases self.children@.len() - i,
        {
            self.set_state(i, ChildState::Closed);
            i = i + 1;
        }
    }

    /// Add a child to the configuration when an example callback is run.
    /// The nexus is not opened implicitly, call .open() for this manually.
    ///
    /// `bdev` is what was found of a device of the name of the child. The
    /// child takes it as its device, if there is such a child and such a
    /// device.
    pub fn examine_child(&mut self, name: &str, bdev: Option<Bdev>) -> (r: bool)
        requires
            old(self).wf(),
            bdev matches Some(device) ==> device.block_len > 0,
        ensures
            final(self).wf(),
            r == (old(self).has_child(name@) && bdev is Some),
            final(self).children@ == if r {
                old(self).children@.update(
                    position(old(self).children@, name@, 0),
                    NexusChild { bdev, ..old(self).children@[position(old(self).children@, name@, 0)] },
                )
            } else {
                old(self).children@
            },
            *final(self) == (Nexus { children: final(self).children, ..*old(self) }),
    {
        match self.find_child(name) {
            Some(at) => {
                if bdev.is_some() {
                    let ghost before = self.children@;
                    let mut child = self.children.remove(at);
                    child.bdev = bdev;
                    self.children.insert(at, child);
                    assert(self.children@ =~= before.update(
                        at as int,
                        NexusChild { bdev, ..before[at as int] },
                    ));
                    true
                } else {
                    false
                }
            },
            None => false,
        }
    }
}


/// What makes the child at `at` unfit for a nexus whose block length is
/// that of the device of the first child: it has no device, or one of
/// another block length.
pub open spec fn unfit(children: Seq<NexusChild>, at: int) -> Option<ErrorKind> {
    match children[at].bdev {
        None => Some(ErrorKind::NexusIncomplete),
        Some(bdev) => if bdev.block_len != children[0].bdev->Some_0.block_len {
            Some(ErrorKind::MixedBlockSizes)
        } else {
            None
        },
    }
}

/// The index of the first unfit child at or behind `from`; the number of
/// children if all are fit.
pub open spec fn first_unfit(children: Seq<NexusChild>, from: int) -> int
    decreases children.len() - from,
{
    if from >= children.len() {
        children.len() as int
    } else if unfit(children, from) is Some {
        from
    } else {
        first_unfit(children, from + 1)
    }
}

/// The children after an attempt to open them all: all open if all could
/// be opened; else those closed again that could be, and the others as
/// they were.
pub open spec fn opened(children: Seq<NexusChild>, size: u64) -> Seq<NexusChild> {
    Seq::new(
        children.len(),
        |i: int|
            if children[i].open_check(size) is Ok {
                NexusChild {
                    state: if all_can_open(children, size) {
                        ChildState::Open
                    } else {
                        ChildState::Closed
                    },
                    ..children[i]
                }
            } else {
                children[i]
            },
    )
}

impl Nexus {
    /// try to open all the child devices
    ///
    /// Every child must have a device, and all devices the same block
    /// length, which becomes that of the nexus. Then every child is
    /// opened. If one cannot be opened, those that were are closed again,
    /// so that either all children are open or none is. At last the nexus
    /// takes the largest alignment that a device asks for.
    pub fn try_open_children(&mut self) -> (r: Result<(), NexusError>)
        requires
            old(self).wf(),
            old(self).children@.len() > 0,
        ensures
            final(self).wf(),
            final(self).children@.len() == old(self).children@.len(),
            match r {
                Ok(()) => {
                    &&& first_unfit(old(self).children@, 0) == old(self).children@.len()
                    &&& all_can_open(old(self).children@, old(self).size)
                    &&& final(self).children@ == opened(old(self).children@, old(self).size)
                    &&& final(self).open_children() == final(self).children@.len()
                    &&& final(self).block_len == old(self).children@[0].bdev->Some_0.block_len
                    &&& final(self).required_alignment == largest_alignment(
                        old(self).children@,
                        old(self).required_alignment,
                        old(self).children@.len() as int,
                    )
                    &&& *final(self) == (Nexus {
                        children: final(self).children,
                        block_len: final(self).block_len,
                        required_alignment: final(self).required_alignment,
                        ..*old(self)
                    })
                },
                Err(error) => {
                    &&& error.nexus() == old(self).name@
                    &&& error.child() is None
                    &&& if first_unfit(old(self).children@, 0) < old(self).children@.len() {
                        &&& Some(error.kind()) == unfit(
                            old(self).children@,
                            first_unfit(old(self).children@, 0),
                        )
                        &&& *final(self) == *old(self)
                    } else {
                        &&& error.kind() == ErrorKind::NexusIncomplete
                        &&& !all_can_open(old(self).children@, old(self).size)
                        &&& final(self).children@ == opened(old(self).children@, old(self).size)
                        &&& final(self).open_children() == 0
                        &&& final(self).block_len == old(self).children@[0].bdev->Some_0.block_len
                        &&& *final(self) == (Nexus {
                            children: final(self).children,
                            block_len: final(self).block_len,
                            ..*old(self)
                        })
                    }
                },
            },
    {
        // Set the common block size.
        let first_len = match &self.children[0].bdev {
            Some(bdev) => bdev.block_len,
            None => {
                return Err(NexusError::NexusIncomplete { name: self.name.clone() });
            },
        };
        let mut i: usize = 1;
        assert(unfit(self.children@, 0) is None);
        while i < self.children.len()
            invariant
                1 <= i <= self.children@.len(),
                *self == *old(self),
                self.wf(),
                self.children@[0].bdev matches Some(bdev) && bdev.block_len == first_len,
                first_unfit(self.children@, 0) == first_unfit(self.children@, i as int),
            decreases self.children@.len() - i,
        {
            match &self.children[i].bdev {
                None => {
                    return Err(NexusError::NexusIncomplete { name: self.name.clone() });
                },
                Some(bdev) => {
                    if bdev.block_len != first_len {
                        return Err(NexusError::MixedBlockSizes { name: self.name.clone() });
                    }
                },
            }
            i = i + 1;
        }
        self.block_len = first_len;
        let size = self.size;
        let ghost before = self.children@;
        let mut failed = false;
        let mut i: usize = 0;
        while i < self.children.len()
            invariant
                i <= self.children@.len(),
                self.wf(),
                size == old(self).size,
                before == old(self).children@,
                self.children@.len() == before.len(),
                *self == (Nexus {
                    children: self.children,
                    block_len: self.block_len,
                    ..*old(self)
                }),
                self.block_len == first_len,
                failed == exists|k: int| 0 <= k < i && (#[trigger] before[k]).open_check(size) is Err,
                forall|k: int|
                    0 <= k < i ==> (#[trigger] self.children@[k]) == if before[k].open_check(
                        size,
                    ) is Ok {
                        NexusChild { state: ChildState::Open, ..before[k] }
                    } else {
                        before[k]
                    },
                forall|k: int| i <= k < before.len() ==> (#[trigger] self.children@[k]) == before[k],
            decreases self.children@.len() - i,
        {
            let ghost now = self.children@;
            let mut child = self.children.remove(i);
            match child.open(size) {
                Ok(_) => {},
                Err(_) => {
                    failed = true;
                },
            }
            self.children.insert(i, child);
            assert(self.children@ =~= now.update(i as int, child));
            i = i + 1;
        }
        // A nexus does not go online with some of its children only: if one
        // child failed to open, the registration fails all together.
        if failed {
            let ghost attempted = self.children@;
            let mut i: usize = 0;
            while i < self.children.len()
                invariant
                    i <= self.children@.len(),
                    self.wf(),
                    self.children@.len() == before.len(),
                    attempted.len() == before.len(),
                    *self == (Nexus {
                        children: self.children,
                        block_len: self.block_len,
                        ..*old(self)
                    }),
                    self.block_len == first_len,
                    forall|k: int|
                        0 <= k < before.len() ==> (#[trigger] attempted[k]) == if before[k].open_check(
                            size,
                        ) is Ok {
                            NexusChild { state: ChildState::Open, ..before[k] }
                        } else {
                            before[k]
                        },
                    forall|k: int|
                        0 <= k < i ==> (#[trigger] self.children@[k]) == if before[k].open_check(
                            size,
                        ) is Ok {
                            NexusChild { state: ChildState::Closed, ..before[k] }
                        } else {
                            before[k]
                        },
                    forall|k: int|
                        i <= k < before.len() ==> (#[trigger] self.children@[k]) == attempted[k],
                decreases self.children@.len() - i,
            {
                let is_open = match self.children[i].state {
                    ChildState::Open => true,
                    _ => false,
                };
                assert(attempted[i as int] == self.children@[i as int]);
                if is_open {
                    assert(before[i as int].open_check(size) is Ok);
                    self.set_state(i, ChildState::Closed);
                } else {
                    assert(before[i as int].open_check(size) is Err);
                }
                i = i + 1;
            }
            proof {
                assert(self.children@ =~= opened(before, size));
                lemma_none_open(self.children@, self.children@.len() as int);
            }
            return Err(NexusError::NexusIncomplete { name: self.name.clone() });
        }
        proof {
            assert(all_can_open(before, size));
            assert(self.children@ =~= opened(before, size));
            lemma_all_open(self.children@, self.children@.len() as int);
        }
        let mut i: usize = 0;
        while i < self.children.len()
            invariant
                i <= self.children@.len(),
                self.wf(),
                self.children@ == opened(before, size),
                self.children@.len() == before.len(),
                forall|k: int|
                    0 <= k < before.len() ==> (#[trigger] self.children@[k]).bdev == before[k].bdev,
                *self == (Nexus {
                    children: self.children,
                    block_len: self.block_len,
                    required_alignment: self.required_alignment,
                    ..*old(self)
                }),
                self.block_len == first_len,
                self.required_alignment == largest_alignment(
                    before,
                    old(self).required_alignment,
                    i as int,
                ),
            decreases self.children@.len() - i,
        {
            if let Some(bdev) = &self.children[i].bdev {
                if self.required_alignment < bdev.alignment {
                    self.required_alignment = bdev.alignment;
                }
            }
            i = i + 1;
        }
        Ok(())
    }
}

/// Where no child is open, none is counted.
pub proof fn lemma_none_open(children: Seq<NexusChild>, upto: int)
    requires
        0 <= upto <= children.len(),
        forall|k: int| 0 <= k < upto ==> !(#[trigger] children[k]).is_open(),
    ensures
        open_count(children, upto) == 0,
    decreases upto,
{
    if upto > 0 {
        lemma_none_open(children, upto - 1);
    }
}

/// Where all children are open, all are counted.
pub proof fn lemma_all_open(children: Seq<NexusChild>, upto: int)
    requires
        0 <= upto <= children.len(),
        forall|k: int| 0 <= k < upto ==> (#[trigger] children[k]).is_open(),
    ensures
        open_count(children, upto) == upto,
    decreases upto,
{
    if upto > 0 {
        lemma_all_open(children, upto - 1);
    }
}

} // verus!
