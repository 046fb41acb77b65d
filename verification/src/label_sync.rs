//! Bringing the labels of the children of a nexus in line: what to do
//! with the label found on a child, and what the labels of all children
//! say of the nexus.
use crate::errors::{LabelError, ProbeError};
use crate::gpt_entry::GptEntry;
use crate::guid::GptGuid;
use crate::label_write::{
    data_views, label_writes, lemma_writes_fault, writes_fault, DataSpec, LabelData,
};
use crate::nexus_bdev::Nexus;
use crate::nexus_child::NexusChild;
use crate::nexus_label::{
    find_partition, generated, has_room, maya_layout, unique, unique_spec, LabelSpec, NexusLabel,
    NexusLabelStatus,
};
use vstd::prelude::*;

verus! {

/// What is to be done with the label of a child.
#[derive(Debug, PartialEq, Eq)]
pub enum LabelUpdate {
    /// The label found on the child is kept. The halves that the device
    /// lacks are written, and the metadata index on the child is kept if
    /// there is one.
    Keep { label: NexusLabel, writes: Vec<LabelData> },
    /// A new label takes the place of what was found. Both halves are
    /// written, and a new metadata index is made.
    Replace { label: NexusLabel, writes: Vec<LabelData> },
}

impl LabelUpdate {
    /// The writes that bring the label to the device.
    pub open spec fn due(self) -> Seq<LabelData> {
        match self {
            LabelUpdate::Keep { writes, .. } => writes@,
            LabelUpdate::Replace { writes, .. } => writes@,
        }
    }

    /// Whether the label is to be read again once its writes are done: a
    /// label of which anything is written must come back from the device
    /// as it was written, see `NexusChild::check_reread`. A label that
    /// is whole on the device is not written, and not read again.
    pub fn reread_owed(&self) -> (r: bool)
        ensures
            r == (self.due().len() > 0),
    {
        match self {
            LabelUpdate::Keep { writes, .. } => writes.len() > 0,
            LabelUpdate::Replace { writes, .. } => writes.len() > 0,
        }
    }
}

/// What `validate_label` makes of the result of a probe.
pub open spec fn validated(probed: Result<LabelSpec, LabelError>) -> Result<LabelSpec, LabelError> {
    match probed {
        Err(error) => Err(error),
        Ok(label) => if !maya_layout(label) {
            Err(LabelError::InvalidLabel { source: ProbeError::IncorrectPartitions })
        } else if label.status != NexusLabelStatus::Both {
            Err(LabelError::InvalidLabel { source: ProbeError::LabelRedundancy })
        } else {
            Ok(label)
        },
    }
}

/// The offset in bytes of the data partition of a label.
pub open spec fn data_offset(label: LabelSpec) -> Option<int> {
    match find_partition(label.partitions, "MayaData"@) {
        Some(entry) => Some(entry.ent_start * label.block_size),
        None => None,
    }
}

/// The size in bytes of the data partition of a label: the blocks from
/// its first to its last, both counted.
pub open spec fn data_size(label: LabelSpec) -> Option<int> {
    match find_partition(label.partitions, "MayaData"@) {
        Some(entry) => Some((entry.ent_end - entry.ent_start + 1) * label.block_size),
        None => None,
    }
}

/// The least of `size` and the sizes of the data partitions of the first
/// `upto` labels.
pub open spec fn least_size(labels: Seq<NexusLabel>, size: int, upto: int) -> int
    decreases upto,
{
    if upto <= 0 {
        size
    } else {
        let rest = least_size(labels, size, upto - 1);
        let own = data_size(labels[upto - 1]@).unwrap();
        if own < rest {
            own
        } else {
            rest
        }
    }
}

/// Whether the data partition of each label can be measured in bytes:
/// it does not end before it starts, and its offset and size fit 64 bits.
pub open spec fn measurable(labels: Seq<NexusLabel>) -> bool {
    forall|i: int|
        0 <= i < labels.len() ==> (find_partition(
            (#[trigger] labels[i])@.partitions,
            "MayaData"@,
        ) matches Some(entry) ==> {
            &&& entry.ent_start <= entry.ent_end
            &&& entry.ent_start * labels[i].block_size <= u64::MAX
            &&& (entry.ent_end - entry.ent_start + 1) * labels[i].block_size <= u64::MAX
        })
}

/// After an update of the label of a child, the label is to be read
/// again exactly if it took the place of another, or if the device
/// lacked one of its halves: that is, exactly if anything was written.
pub proof fn lemma_reread_owed(
    child: NexusChild,
    probed: Result<NexusLabel, LabelError>,
    size: u64,
    update: LabelUpdate,
)
    requires
        child.label_updated(probed, size, Ok(update)),
    ensures
        update.due().len() > 0 <==> match update {
            LabelUpdate::Keep { label, .. } => label.status != NexusLabelStatus::Both,
            LabelUpdate::Replace { .. } => true,
        },
        update matches LabelUpdate::Keep { label, .. } ==> probed == Ok::<NexusLabel, LabelError>(
            label,
        ),
{
    match update {
        LabelUpdate::Keep { label, writes } => {
            assert(data_views(writes@).len() == writes@.len());
        },
        LabelUpdate::Replace { label, writes } => {
            assert(data_views(writes@).len() == writes@.len());
        },
    }
}

/// Whether the data partition of each label can be measured in bytes.
pub fn is_measurable(labels: &[NexusLabel]) -> (r: bool)
    ensures
        r == measurable(labels@),
{
    let mut i: usize = 0;
    while i < labels.len()
        invariant
            i <= labels@.len(),
            forall|k: int|
                0 <= k < i ==> (find_partition((#[trigger] labels@[k])@.partitions, "MayaData"@)
                    matches Some(entry) ==> {
                    &&& entry.ent_start <= entry.ent_end
                    &&& entry.ent_start * labels@[k].block_size <= u64::MAX
                    &&& (entry.ent_end - entry.ent_start + 1) * labels@[k].block_size <= u64::MAX
                }),
        decreases labels@.len() - i,
    {
        let label = &labels[i];
        match label.get_partition("MayaData") {
            Some(entry) => {
                if entry.ent_start > entry.ent_end {
                    return false;
                }
                let size: u128 = label.block_size as u128;
                let blocks: u128 = (entry.ent_end - entry.ent_start) as u128 + 1;
                assert(entry.ent_start * size <= 0xffff_ffff_ffff_ffff * 0xffff_ffff_ffff_ffff
                    && blocks * size <= 0x1_0000_0000_0000_0000 * 0xffff_ffff_ffff_ffff)
                    by (nonlinear_arith)
                    requires
                        0 <= entry.ent_start <= 0xffff_ffff_ffff_ffff,
                        0 <= blocks <= 0x1_0000_0000_0000_0000,
                        0 <= size <= 0xffff_ffff_ffff_ffff,
                ;
                if (entry.ent_start as u128) * size > 0xffff_ffff_ffff_ffff || blocks * size
                    > 0xffff_ffff_ffff_ffff {
                    return false;
                }
            },
            None => {},
        }
        i = i + 1;
    }
    true
}

/// The least size is no more than `size` and than the size of any of the
/// data partitions.
pub proof fn lemma_least_size(labels: Seq<NexusLabel>, size: int, upto: int)
    requires
        0 <= upto <= labels.len(),
    ensures
        least_size(labels, size, upto) <= size,
        forall|i: int|
            0 <= i < upto ==> least_size(labels, size, upto) <= data_size(
                (#[trigger] labels[i])@,
            ).unwrap(),
    decreases upto,
{
    if upto > 0 {
        lemma_least_size(labels, size, upto - 1);
    }
}

impl NexusChild {
    /// Helper method to generate a new label for this child
    pub fn new_label(&self, size: u64) -> (r: Result<NexusLabel, LabelError>)
        requires
            self.wf(),
        ensures
            match self.bdev {
                None => r matches Err(LabelError::HandleError { name }) && name@ == self.name@,
                Some(bdev) => match r {
                    Ok(label) => {
                        &&& has_room(bdev.block_len, bdev.num_blocks)
                        &&& label@ == generated(
                            bdev.uuid,
                            bdev.block_len,
                            bdev.num_blocks,
                            size,
                            label@.partitions[0].ent_guid,
                            label@.partitions[1].ent_guid,
                        )
                    },
                    Err(error) => {
                        &&& !has_room(bdev.block_len, bdev.num_blocks)
                        &&& error == (LabelError::DeviceTooSmall {
                            num_blocks: bdev.num_blocks,
                            block_size: bdev.block_len,
                        })
                    },
                },
            },
    {
        match &self.bdev {
            None => Err(LabelError::HandleError { name: self.name.clone() }),
            Some(bdev) => Nexus::generate_label(bdev.uuid, bdev.block_len, bdev.num_blocks, size),
        }
    }

    /// What the creation of a label on the child comes to: a child
    /// without device is refused, and so is a device without room for a
    /// label. Else `r` holds the label generated for the device and the
    /// writes that bring both its halves to the device, unless a half
    /// cannot be made: whether it can, the places of its parts decide,
    /// whatever GUIDs are drawn for the partitions.
    pub open spec fn label_created(
        self,
        size: u64,
        r: Result<(NexusLabel, Vec<LabelData>), LabelError>,
    ) -> bool {
        match self.bdev {
            None => r matches Err(LabelError::HandleError { name }) && name@ == self.name@,
            Some(bdev) => match r {
                Ok((label, writes)) => {
                    &&& has_room(bdev.block_len, bdev.num_blocks)
                    &&& label@ == generated(
                        bdev.uuid,
                        bdev.block_len,
                        bdev.num_blocks,
                        size,
                        label@.partitions[0].ent_guid,
                        label@.partitions[1].ent_guid,
                    )
                    &&& label_writes(label@, bdev.block_len as u64) == Ok::<
                        Seq<DataSpec>,
                        LabelError,
                    >(data_views(writes@))
                },
                Err(error) => if !has_room(bdev.block_len, bdev.num_blocks) {
                    error == (LabelError::DeviceTooSmall {
                        num_blocks: bdev.num_blocks,
                        block_size: bdev.block_len,
                    })
                } else {
                    writes_fault(
                        generated(
                            bdev.uuid,
                            bdev.block_len,
                            bdev.num_blocks,
                            size,
                            GptGuid::zero(),
                            GptGuid::zero(),
                        ),
                        bdev.block_len as u64,
                    ) == Some(error)
                },
            },
        }
    }

    /// What becomes of the label found on the child by a probe: a label
    /// with the layout of a nexus label is kept, and the halves that the
    /// device lacks are written; any other label, and a label that the
    /// probe refused, is replaced by a new one; any other failure of the
    /// probe is passed on.
    pub open spec fn label_updated(
        self,
        probed: Result<NexusLabel, LabelError>,
        size: u64,
        r: Result<LabelUpdate, LabelError>,
    ) -> bool {
        match probed {
            Ok(found) if maya_layout(found@) => match self.bdev {
                None => r matches Err(LabelError::HandleError { name }) && name@ == self.name@,
                Some(bdev) => match label_writes(found@, bdev.block_len as u64) {
                    Ok(due) => r matches Ok(LabelUpdate::Keep { label, writes }) && label
                        == found && data_views(writes@) == due,
                    Err(error) => r == Err::<LabelUpdate, LabelError>(error),
                },
            },
            Ok(_) => Self::replaced(self, size, r),
            Err(LabelError::InvalidLabel { .. }) => Self::replaced(self, size, r),
            Err(error) => r == Err::<LabelUpdate, LabelError>(error),
        }
    }

    /// What the replacement of a label comes to: what the creation of a
    /// label does.
    pub open spec fn replaced(self, size: u64, r: Result<LabelUpdate, LabelError>) -> bool {
        match r {
            Ok(LabelUpdate::Replace { label, writes }) => self.label_created(
                size,
                Ok((label, writes)),
            ),
            Ok(LabelUpdate::Keep { .. }) => false,
            Err(error) => self.label_created(size, Err(error)),
        }
    }

    /// Create new label on this child: the label, and the writes that
    /// bring it to the device.
    pub fn create_label(&self, size: u64) -> (r: Result<(NexusLabel, Vec<LabelData>), LabelError>)
        requires
            self.wf(),
        ensures
            self.label_created(size, r),
    {
        let label = match self.new_label(size) {
            Ok(label) => label,
            Err(error) => {
                return Err(error);
            },
        };
        proof {
            let bdev = self.bdev->Some_0;
            lemma_writes_fault(
                label@,
                generated(
                    bdev.uuid,
                    bdev.block_len,
                    bdev.num_blocks,
                    size,
                    GptGuid::zero(),
                    GptGuid::zero(),
                ),
                bdev.block_len as u64,
            );
        }
        match self.write_label(&label) {
            Ok(writes) => Ok((label, writes)),
            Err(error) => Err(error),
        }
    }

    /// Create new or replace existing label on this child as necessary,
    /// going by what a probe of the child gave.
    ///
    /// A label with the layout of a nexus label is kept. Any other label,
    /// and a label that the probe refused, is replaced. Any other failure
    /// of the probe is passed on.
    pub fn update_label(&self, probed: Result<NexusLabel, LabelError>, size: u64) -> (r: Result<
        LabelUpdate,
        LabelError,
    >)
        requires
            self.wf(),
            probed matches Ok(label) ==> label.block_size > 0,
        ensures
            self.label_updated(probed, size, r),
    {
        match probed {
            Ok(label) => {
                if NexusChild::check_maya_partitions(&label) {
                    // Keep existing label
                    if self.bdev.is_none() {
                        return Err(LabelError::HandleError { name: self.name.clone() });
                    }
                    match self.write_label(&label) {
                        Ok(writes) => Ok(LabelUpdate::Keep { label, writes }),
                        Err(error) => Err(error),
                    }
                } else {
                    // Replace existing label.
                    match self.create_label(size) {
                        Ok((label, writes)) => Ok(LabelUpdate::Replace { label, writes }),
                        Err(error) => Err(error),
                    }
                }
            },
            Err(LabelError::InvalidLabel { source }) => {
                // Create new label.
                match self.create_label(size) {
                    Ok((label, writes)) => Ok(LabelUpdate::Replace { label, writes }),
                    Err(error) => Err(error),
                }
            },
            Err(error) => Err(error),
        }
    }

    /// Validate label on this child, going by what a probe of the child
    /// gave: the label must have the layout of a nexus label, and both its
    /// halves must be on the device.
    pub fn validate_label(probed: Result<NexusLabel, LabelError>) -> (r: Result<
        NexusLabel,
        LabelError,
    >)
        requires
            probed matches Ok(label) ==> label.block_size > 0,
        ensures
            match probed {
                Err(error) => r == Err::<NexusLabel, LabelError>(error),
                Ok(label) => match r {
                    Ok(valid) => valid == label && validated(Ok(label@)) == Ok::<
                        LabelSpec,
                        LabelError,
                    >(label@),
                    Err(error) => validated(Ok(label@)) == Err::<LabelSpec, LabelError>(error),
                },
            },
    {
        let label = match probed {
            Ok(label) => label,
            Err(error) => {
                return Err(error);
            },
        };
        if !NexusChild::check_maya_partitions(&label) {
            return Err(LabelError::InvalidLabel { source: ProbeError::IncorrectPartitions });
        }
        if label.status != NexusLabelStatus::Both {
            return Err(LabelError::InvalidLabel { source: ProbeError::LabelRedundancy });
        }
        Ok(label)
    }

    /// What became of a label that was written and probed again: the
    /// probe must give the label back, with both halves on the device.
    /// Else the child cannot hold a label.
    pub fn check_reread(&self, written: &NexusLabel, probed: &Result<NexusLabel, LabelError>) -> (r:
        Result<(), LabelError>)
        ensures
            match r {
                Ok(()) => probed matches Ok(found) && found@ == (LabelSpec {
                    status: NexusLabelStatus::Both,
                    ..written@
                }),
                Err(error) => {
                    &&& error matches LabelError::ReReadError { name }
                    &&& name@ == self.name@
                    &&& !(probed matches Ok(found) && found@ == (LabelSpec {
                        status: NexusLabelStatus::Both,
                        ..written@
                    }))
                },
            },
    {
        match probed {
            Ok(found) => {
                if found.status == NexusLabelStatus::Both && found.block_size == written.block_size
                    && found.mbr.same(&written.mbr) && found.primary.same(&written.primary)
                    && found.secondary.same(&written.secondary) && GptEntry::same_all(
                    found.partitions.as_slice(),
                    written.partitions.as_slice(),
                ) {
                    Ok(())
                } else {
                    Err(LabelError::ReReadError { name: self.name.clone() })
                }
            },
            Err(_) => Err(LabelError::ReReadError { name: self.name.clone() }),
        }
    }
}


/// The index of the first label at or behind `from` without a data
/// partition; the number of labels if there is none.
pub open spec fn first_without_data(labels: Seq<NexusLabel>, from: int) -> int
    decreases labels.len() - from,
{
    if from >= labels.len() {
        labels.len() as int
    } else if data_offset(labels[from]@) is None {
        from
    } else {
        first_without_data(labels, from + 1)
    }
}

/// The offsets of the data partitions of the first `upto` labels.
pub open spec fn data_offsets(labels: Seq<NexusLabel>, upto: int) -> Seq<u64> {
    Seq::new(upto as nat, |i: int| data_offset(labels[i]@).unwrap() as u64)
}

impl Nexus {
    /// Whether the labels of the children agree on where the data
    /// partition lies: each has one, there is at least one label, and the
    /// offset is the same in all.
    pub open spec fn labels_agree(labels: Seq<NexusLabel>) -> bool {
        &&& first_without_data(labels, 0) == labels.len()
        &&& unique_spec(data_offsets(labels, labels.len() as int)) is Some
    }

    /// What the labels of the children make of a nexus: `after` is the
    /// nexus `before` with the data offset and the size set from
    /// `labels`, and `r` says whether that could be done.
    pub open spec fn laid_out(
        before: Nexus,
        after: Nexus,
        labels: Seq<NexusLabel>,
        r: Result<(), LabelError>,
    ) -> bool {
        match r {
            Ok(()) => {
                &&& Self::labels_agree(labels)
                &&& after.data_ent_offset == data_offset(labels[0]@).unwrap() / (
                before.block_len as int)
                &&& after.num_blocks == least_size(
                    labels,
                    before.size as int,
                    labels.len() as int,
                ) / (before.block_len as int)
                &&& forall|i: int|
                    0 <= i < labels.len() ==> {
                        &&& data_offset((#[trigger] labels[i])@) == data_offset(labels[0]@)
                        &&& after.num_blocks * after.block_len <= data_size(
                            labels[i]@,
                        ).unwrap()
                        &&& labels[i].block_size == before.block_len ==> after.data_ent_offset * after.block_len == data_offset(
                            labels[i]@,
                        ).unwrap()
                    }
                &&& after.num_blocks * after.block_len <= before.size
                &&& after == (Nexus {
                    data_ent_offset: after.data_ent_offset,
                    num_blocks: after.num_blocks,
                    ..before
                })
            },
            Err(error) => {
                &&& !Self::labels_agree(labels)
                &&& after == before
                &&& if first_without_data(labels, 0) < labels.len() {
                    error matches LabelError::InvalidLabel {
                        source: ProbeError::MissingPartition { name },
                    } && name@ == "MayaData"@
                } else {
                    error matches LabelError::DataOffsetMismatch { name } && name@
                        == before.name@
                }
            },
        }
    }

    /// Sets the offset of the data partition and the size of the nexus
    /// from the labels of its children.
    ///
    /// The labels must agree on the offset of the data partition, which
    /// becomes the data offset of the nexus, in blocks. The nexus gets as
    /// many blocks as fit the size asked for and every data partition.
    ///
    /// Where the block length of the labels is that of the nexus, the
    /// data offset is exact: in bytes it is the offset of the data
    /// partition on every child. The size of the nexus in bytes is no more
    /// than the size asked for, nor than any of the data partitions.
    pub fn set_data_layout(&mut self, labels: &[NexusLabel]) -> (r: Result<(), LabelError>)
        requires
            old(self).block_len > 0,
            measurable(labels@),
        ensures
            Self::laid_out(*old(self), *final(self), labels@, r),
        {
        let block_size = self.block_len as u64;
        let mut offsets: Vec<u64> = Vec::new();
        let mut size = self.size;
        let mut i: usize = 0;
        while i < labels.len()
            invariant
                i <= labels.len(),
                measurable(labels@),
                *self == *old(self),
                first_without_data(labels@, 0) == first_without_data(labels@, i as int),
                forall|k: int| 0 <= k < i ==> data_offset((#[trigger] labels@[k])@) is Some,
                offsets@ == data_offsets(labels@, i as int),
                size == least_size(labels@, self.size as int, i as int),
            decreases labels.len() - i,
        {
            let label = &labels[i];
            // Append the offset of the Data partition
            let offset = match label.partition_offset("MayaData") {
                Ok(offset) => offset,
                Err(error) => {
                    return Err(LabelError::InvalidLabel { source: error });
                },
            };
            offsets.push(offset);
            assert(offsets@ =~= data_offsets(labels@, i + 1));
            // Adjust size as necessary
            let own = match label.partition_size("MayaData") {
                Ok(own) => own,
                Err(error) => {
                    return Err(LabelError::InvalidLabel { source: error });
                },
            };
            if own < size {
                size = own;
            }
            i = i + 1;
        }
        proof {
            lemma_least_size(labels@, self.size as int, labels@.len() as int);
        }
        // Set the (common) "Data" offset
        match unique(offsets.as_slice()) {
            Some(value) => {
                self.data_ent_offset = value / block_size;
            },
            None => {
                return Err(LabelError::DataOffsetMismatch { name: self.name.clone() });
            },
        }
        // Set the nexus size
        self.num_blocks = size / block_size;
        proof {
            let bs = block_size as int;
            let all = data_offsets(labels@, labels@.len() as int);
            assert(all[0] == data_offset(labels@[0]@).unwrap());
            assert((size as int / bs) * bs <= size) by (nonlinear_arith)
                requires
                    size >= 0,
                    bs > 0,
            ;
            assert forall|k: int| 0 <= k < labels@.len() implies {
                &&& data_offset((#[trigger] labels@[k])@) == data_offset(labels@[0]@)
                &&& labels@[k].block_size == old(self).block_len ==> self.data_ent_offset
                    * self.block_len == data_offset(labels@[k]@).unwrap()
            } by {
                assert(all[k] == all[0]);
                assert(data_offset(labels@[k]@) is Some);
                if labels@[k].block_size == old(self).block_len {
                    let start = find_partition(labels@[k]@.partitions, "MayaData"@).unwrap().ent_start;
                    assert((start * bs) / bs == start) by (nonlinear_arith)
                        requires
                            bs > 0,
                            start >= 0,
                    ;
                }
            }
        }
        Ok(())
    }

    /// Validate label on each child device: takes the labels found valid
    /// on the children, and sets the data offset and the size of the nexus
    /// from them.
    pub fn validate_child_labels(&mut self, labels: &[NexusLabel]) -> (r: Result<(), LabelError>)
        requires
            old(self).block_len > 0,
            measurable(labels@),
        ensures
            Self::laid_out(*old(self), *final(self), labels@, r),
    {
        self.set_data_layout(labels)
    }

    /// Takes the labels newly created on the children, and sets the data
    /// offset and the size of the nexus from them.
    pub fn create_child_labels(&mut self, labels: &[NexusLabel]) -> (r: Result<(), LabelError>)
        requires
            old(self).block_len > 0,
            measurable(labels@),
        ensures
            Self::laid_out(*old(self), *final(self), labels@, r),
    {
        self.set_data_layout(labels)
    }
}

} // verus!
