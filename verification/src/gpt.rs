//! Partition table entries, as plain values.

use vstd::prelude::*;

verus! {

/// Linux filesystem GUID: 0FC63DAF-8483-4772-8E79-3D69D8477DE4 (mixed-endian).
pub open spec fn linux_fs_guid() -> Seq<u8> {
    seq![
        0xAF, 0x3D, 0xC6, 0x0F, 0x83, 0x84, 0x72, 0x47, 0x8E, 0x79, 0x3D, 0x69, 0xD8, 0x47, 0x7D,
        0xE4,
    ]
}

/// The attribute bit that marks the slot the bootloader starts.
pub const ATTR_LEGACY_BIOS_BOOTABLE: u64 = 0x4;

/// An entry of the partition table found on a card.
#[derive(Debug)]
pub struct GptEntry {
    pub partition_type_guid: [u8; 16],
    pub starting_lba: u64,
    pub ending_lba: u64,
    pub attribute_bits: u64,
    pub partition_name: String,
}

/// What a [`GptEntry`] holds.
pub struct GptEntryView {
    pub partition_type_guid: Seq<u8>,
    pub starting_lba: u64,
    pub ending_lba: u64,
    pub attribute_bits: u64,
    pub partition_name: Seq<char>,
}

impl View for GptEntry {
    type V = GptEntryView;

    open spec fn view(&self) -> GptEntryView {
        GptEntryView {
            partition_type_guid: self.partition_type_guid@,
            starting_lba: self.starting_lba,
            ending_lba: self.ending_lba,
            attribute_bits: self.attribute_bits,
            partition_name: self.partition_name@,
        }
    }
}

/// A type GUID is in use unless all of its bytes are zero.
pub open spec fn guid_is_used(guid: Seq<u8>) -> bool {
    exists|i: int| 0 <= i < guid.len() && #[trigger] guid[i] != 0
}

impl GptEntryView {
    pub open spec fn is_used(self) -> bool {
        guid_is_used(self.partition_type_guid)
    }

    pub open spec fn is_bootable(self) -> bool {
        self.attribute_bits & ATTR_LEGACY_BIOS_BOOTABLE != 0
    }
}

/// `gptman::GPTPartitionEntry::is_used`: an entry is in use exactly if its type GUID has a
/// byte that is not zero.
#[verifier::external_body]
fn type_guid_is_used(guid: &[u8; 16]) -> (r: bool)
    ensures
        r == guid_is_used(guid@),
{
    let mut entry = gptman::GPTPartitionEntry::empty();
    entry.partition_type_guid = *guid;
    entry.is_used()
}

/// `gptman::GPTPartitionEntry::size`: the sectors from the first to the last, both counted;
/// an error, here nothing, if the last lies before the first.
#[verifier::external_body]
pub(crate) fn entry_sectors(starting_lba: u64, ending_lba: u64) -> (r: Option<u64>)
    requires
        ending_lba - starting_lba < u64::MAX,
    ensures
        r == (if ending_lba < starting_lba {
            None::<u64>
        } else {
            Some((ending_lba - starting_lba + 1) as u64)
        }),
{
    let mut entry = gptman::GPTPartitionEntry::empty();
    entry.starting_lba = starting_lba;
    entry.ending_lba = ending_lba;
    entry.size().ok()
}

/// `fastrand::u8` over its whole range: any byte may come back.
#[verifier::external_body]
fn random_byte() -> (r: u8) {
    fastrand::u8(..)
}

/// Sixteen random bytes; nothing more can be said of them.
pub fn random_guid() -> (r: [u8; 16]) {
    let mut guid: [u8; 16] = [0u8; 16];
    let mut i: usize = 0;
    while i < 16
        invariant
            i <= 16,
        decreases 16 - i,
    {
        let b: u8 = random_byte();
        guid[i] = b;
        i = i + 1;
    }
    guid
}

impl GptEntry {
    /// Whether the entry is in use.
    pub fn is_used(&self) -> (r: bool)
        ensures
            r == self@.is_used(),
    {
        type_guid_is_used(&self.partition_type_guid)
    }

    /// Whether the entry is marked as the one to start.
    pub fn is_bootable(&self) -> (r: bool)
        ensures
            r == self@.is_bootable(),
    {
        self.attribute_bits & ATTR_LEGACY_BIOS_BOOTABLE != 0
    }
}

} // verus!
