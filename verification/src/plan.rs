//! The flash workflow as a list of steps: what is erased and written, in which order.

use crate::device::Capacity;
use crate::flash::{
    aligned, expected_layout, layout_on, lemma_aligned, max_rootfs, max_rootfs_bytes, Config,
    ConfigView, GptSlotsView, Layout, LayoutError, Partition, GPT_ALIGN_SECTORS,
    GPT_FIRST_USABLE_LBA, MIB, SECTOR_SIZE,
};
use crate::gpt::{
    entry_sectors, linux_fs_guid, random_guid, GptEntryView, ATTR_LEGACY_BIOS_BOOTABLE,
};
use crate::text::{decimal, decimal_text};
use vstd::prelude::*;

verus! {

/// The bytes of the userdata marker.
pub const USERDATA_MAGIC_LEN: u64 = 20;

/// 20-byte ASCII marker. It is written at the first and last 20 bytes of the userdata
/// partition so the bootloader can detect a "first boot after flash" state and wipe userdata
/// automatically.
pub const USERDATA_MAGIC: &'static str = "LEAFKVMUSERDATAMAGIC";

/// The most sectors that one erase command takes.
pub const ERASE_CHUNK: u32 = 0x8000;

/// The name of a partition of the layout.
#[derive(Debug, Clone, Copy, PartialEq, Eq, Structural)]
pub enum PartName {
    RootfsA,
    RootfsB,
    Userdata,
}

impl PartName {
    /// The name as the table holds it.
    pub open spec fn spec_text(self) -> Seq<char> {
        match self {
            PartName::RootfsA => "rootfs_a"@,
            PartName::RootfsB => "rootfs_b"@,
            PartName::Userdata => "userdata"@,
        }
    }

    /// The name as the table holds it.
    pub fn text(&self) -> (r: &'static str)
        ensures
            r@ == self.spec_text(),
    {
        match self {
            PartName::RootfsA => "rootfs_a",
            PartName::RootfsB => "rootfs_b",
            PartName::Userdata => "userdata",
        }
    }
}

/// The random identifiers that a new table gets.
#[derive(Debug, Clone, Copy)]
pub struct Guids {
    pub disk: [u8; 16],
    pub rootfs_a: [u8; 16],
    pub rootfs_b: [u8; 16],
    pub userdata: [u8; 16],
}

/// An entry of a table to be written. Its type is that of a Linux filesystem.
#[derive(Debug, Clone, Copy)]
pub struct NewEntry {
    pub name: PartName,
    pub unique_partition_guid: [u8; 16],
    pub starting_lba: u64,
    pub ending_lba: u64,
    pub attribute_bits: u64,
}

impl NewEntry {
    /// The type of the partition: a Linux filesystem.
    pub fn type_guid(&self) -> (r: [u8; 16])
        ensures
            r@ == linux_fs_guid(),
    {
        let r: [u8; 16] = [
            0xAF, 0x3D, 0xC6, 0x0F, 0x83, 0x84, 0x72, 0x47, 0x8E, 0x79, 0x3D, 0x69, 0xD8, 0x47,
            0x7D, 0xE4,
        ];
        assert(r@ =~= linux_fs_guid());
        r
    }

    /// What a look at the written entry finds.
    pub open spec fn as_found(self) -> GptEntryView {
        GptEntryView {
            partition_type_guid: linux_fs_guid(),
            starting_lba: self.starting_lba,
            ending_lba: self.ending_lba,
            attribute_bits: self.attribute_bits,
            partition_name: self.name.spec_text(),
        }
    }
}

/// A new table: its identifier and its first three entries.
#[derive(Debug, Clone, Copy)]
pub struct NewTable {
    pub disk_guid: [u8; 16],
    pub first: NewEntry,
    pub second: NewEntry,
    pub third: NewEntry,
}

impl NewTable {
    /// What a look at the written entries finds.
    pub open spec fn as_found(self) -> GptSlotsView {
        GptSlotsView {
            first: self.first.as_found(),
            second: self.second.as_found(),
            third: self.third.as_found(),
        }
    }
}

/// The sectors that one erase command takes.
#[derive(Debug, Clone, Copy, PartialEq, Eq, Structural)]
pub struct EraseChunk {
    pub first: u32,
    pub count: u16,
}

/// A message about what comes next.
#[derive(Debug, Clone, Copy, PartialEq, Eq, Structural)]
pub enum Note {
    SwitchToSd,
    CardSize { bytes: u64, sectors: u32 },
    KeepLayout { target: Partition },
    EraseCard { sectors: u32 },
    GenerateTable,
    WriteTable,
    PartitionLine { index: u32, name: PartName, mib: u64, first: u64, last: u64 },
    WriteImage { slot: PartName, lba: u64 },
    WriteMarkers,
    Reset,
}

/// What a progress bar counts.
#[derive(Debug, Clone, Copy, PartialEq, Eq, Structural)]
pub enum Task {
    EraseCard,
    EraseSlot { slot: PartName },
    WriteImage,
}

/// One step of a flash.
#[derive(Debug, Clone, Copy)]
pub enum Step {
    /// Report a message.
    Note(Note),
    /// Start a progress bar with the given total.
    Begin { total: u64, task: Task },
    /// Erase the sectors, and advance the progress bar by their number.
    Erase(EraseChunk),
    /// Close the progress bar.
    Finish,
    /// Wait.
    Pause { millis: u64 },
    /// Make a new table for the card.
    MakeTable(NewTable),
    /// Write the protective MBR and the table that was made.
    WriteTable,
    /// Make sure that everything written has reached the card.
    Flush,
    /// Copy the image to the given byte offset, advancing the progress bar.
    WriteImage { offset: u64, len: u64 },
    /// Write the userdata marker at the given byte offset.
    WriteMarker { offset: u64 },
    /// Reset the device.
    Reset,
}

/// Why a flash is refused.
#[derive(Debug, Clone, Copy, PartialEq, Eq, Structural)]
pub enum FlashError {
    ZeroRootfs,
    UnalignedRootfs,
    ImageTooLarge { image: u64, rootfs: u64 },
    NoSectors,
    RootfsTooLarge { rootfs: u64, max: u64 },
    Layout(LayoutError),
}

/// `n` bytes in whole MiB, rounded down.
pub open spec fn mib_text(n: int) -> Seq<char> {
    decimal((n / MIB as int) as nat)
}

/// `n` bytes in whole MiB, rounded up.
pub open spec fn mib_text_up(n: int) -> Seq<char> {
    decimal((aligned(n, MIB as int) / MIB as int) as nat)
}

/// `n` bytes in whole MiB, rounded up.
pub fn mib_up(n: u64) -> (r: String)
    ensures
        r@ == mib_text_up(n as int),
{
    proof {
        lemma_aligned(n as int, MIB as int);
        assert(aligned(n as int, MIB as int) / MIB as int == (n + MIB - 1) / MIB as int);
    }
    if n % MIB == 0 {
        decimal_text(n / MIB)
    } else {
        decimal_text(n / MIB + 1)
    }
}

impl FlashError {
    /// The text of an error.
    pub open spec fn spec_message(self) -> Seq<char> {
        match self {
            FlashError::ZeroRootfs => "rootfs size must be > 0"@,
            FlashError::UnalignedRootfs => "rootfs size must be a multiple of 512 bytes"@,
            FlashError::ImageTooLarge { image, rootfs } => "image is "@ + mib_text(image as int)
                + " MiB ("@ + decimal(image as nat) + " bytes) but rootfs partition is "@
                + mib_text(rootfs as int) + " MiB ("@ + decimal(rootfs as nat)
                + " bytes); pick --rootfs-size >= "@ + mib_text_up(image as int) + " MiB"@,
            FlashError::NoSectors => "SD card reports 0 sectors"@,
            FlashError::RootfsTooLarge { rootfs, max } => "rootfs size "@ + mib_text(rootfs as int)
                + " MiB > "@ + mib_text(max as int)
                + " MiB (half of SD minus GPT overhead). Pick --rootfs-size <= "@ + mib_text(
                max as int,
            ) + " MiB or use a larger card."@,
            FlashError::Layout(e) => e.spec_message(),
        }
    }

    /// The text of this error.
    pub fn message(&self) -> (r: String)
        ensures
            r@ == self.spec_message(),
    {
        match self {
            FlashError::ZeroRootfs => "rootfs size must be > 0".to_owned(),
            FlashError::UnalignedRootfs => "rootfs size must be a multiple of 512 bytes".to_owned(),
            FlashError::ImageTooLarge { image, rootfs } => {
                let mut r: String = "image is ".to_owned();
                r.append(&decimal_text(*image / MIB));
                r.append(" MiB (");
                r.append(&decimal_text(*image));
                r.append(" bytes) but rootfs partition is ");
                r.append(&decimal_text(*rootfs / MIB));
                r.append(" MiB (");
                r.append(&decimal_text(*rootfs));
                r.append(" bytes); pick --rootfs-size >= ");
                r.append(&mib_up(*image));
                r.append(" MiB");
                r
            },
            FlashError::NoSectors => "SD card reports 0 sectors".to_owned(),
            FlashError::RootfsTooLarge { rootfs, max } => {
                let mut r: String = "rootfs size ".to_owned();
                r.append(&decimal_text(*rootfs / MIB));
                r.append(" MiB > ");
                r.append(&decimal_text(*max / MIB));
                r.append(" MiB (half of SD minus GPT overhead). Pick --rootfs-size <= ");
                r.append(&decimal_text(*max / MIB));
                r.append(" MiB or use a larger card.");
                r
            },
            FlashError::Layout(e) => e.message(),
        }
    }
}

impl Note {
    /// The text of a message; `image` is the image file.
    pub open spec fn spec_text(self, image: Seq<char>) -> Seq<char> {
        match self {
            Note::SwitchToSd => "Switching storage to SD..."@,
            Note::CardSize { bytes, sectors } => "SD card: "@ + mib_text(bytes as int) + " MiB ("@
                + decimal(sectors as nat) + " sectors)"@,
            Note::KeepLayout { target } => match target {
                Partition::RootfsA =>
                    "Existing GPT matches; preserving rootfs_b and userdata, refreshing rootfs_a only."@,
                Partition::RootfsB =>
                    "Existing GPT matches; preserving rootfs_a and userdata, refreshing rootfs_b only."@,
                Partition::Both =>
                    "Existing GPT matches; preserving userdata, refreshing rootfs_a and rootfs_b."@,
            },
            Note::EraseCard { sectors } => "Erasing whole card ("@ + decimal(sectors as nat)
                + " sectors)..."@,
            Note::GenerateTable => "Generating GPT (rootfs_a / rootfs_b / userdata)..."@,
            Note::WriteTable => "Writing protective MBR + primary/backup GPT..."@,
            Note::PartitionLine { index, name, mib, first, last } => "  partition "@ + decimal(
                index as nat,
            ) + ": "@ + name.spec_text() + " "@ + decimal(mib as nat) + " MiB (LBA "@ + decimal(
                first as nat,
            ) + "..="@ + decimal(last as nat) + ")"@,
            Note::WriteImage { slot, lba } => "Writing image "@ + image + " -> "@ + slot.spec_text()
                + " (LBA "@ + decimal(lba as nat) + ")..."@,
            Note::WriteMarkers =>
                "Writing userdata magic markers (bootloader will auto-wipe userdata on next boot)..."@,
            Note::Reset => "Resetting device..."@,
        }
    }

    /// The text of this message; `image` is the image file.
    pub fn text(&self, image: &str) -> (r: String)
        ensures
            r@ == self.spec_text(image@),
    {
        match self {
            Note::SwitchToSd => "Switching storage to SD...".to_owned(),
            Note::CardSize { bytes, sectors } => {
                let mut r: String = "SD card: ".to_owned();
                r.append(&decimal_text(*bytes / MIB));
                r.append(" MiB (");
                r.append(&decimal_text(*sectors as u64));
                r.append(" sectors)");
                r
            },
            Note::KeepLayout { target } => match target {
                Partition::RootfsA =>
                    "Existing GPT matches; preserving rootfs_b and userdata, refreshing rootfs_a only.".to_owned(),
                Partition::RootfsB =>
                    "Existing GPT matches; preserving rootfs_a and userdata, refreshing rootfs_b only.".to_owned(),
                Partition::Both =>
                    "Existing GPT matches; preserving userdata, refreshing rootfs_a and rootfs_b.".to_owned(),
            },
            Note::EraseCard { sectors } => {
                let mut r: String = "Erasing whole card (".to_owned();
                r.append(&decimal_text(*sectors as u64));
                r.append(" sectors)...");
                r
            },
            Note::GenerateTable =>
                "Generating GPT (rootfs_a / rootfs_b / userdata)...".to_owned(),
            Note::WriteTable => "Writing protective MBR + primary/backup GPT...".to_owned(),
            Note::PartitionLine { index, name, mib, first, last } => {
                let mut r: String = "  partition ".to_owned();
                r.append(&decimal_text(*index as u64));
                r.append(": ");
                r.append(name.text());
                r.append(" ");
                r.append(&decimal_text(*mib));
                r.append(" MiB (LBA ");
                r.append(&decimal_text(*first));
                r.append("..=");
                r.append(&decimal_text(*last));
                r.append(")");
                r
            },
            Note::WriteImage { slot, lba } => {
                let mut r: String = "Writing image ".to_owned();
                r.append(image);
                r.append(" -> ");
                r.append(slot.text());
                r.append(" (LBA ");
                r.append(&decimal_text(*lba));
                r.append(")...");
                r
            },
            Note::WriteMarkers =>
                "Writing userdata magic markers (bootloader will auto-wipe userdata on next boot)...".to_owned(),
            Note::Reset => "Resetting device...".to_owned(),
        }
    }
}

impl Task {
    /// The label of a progress bar.
    pub open spec fn spec_text(self) -> Seq<char> {
        match self {
            Task::EraseCard => "Erasing card..."@,
            Task::EraseSlot { slot } => "Erasing "@ + slot.spec_text() + "..."@,
            Task::WriteImage => "Writing image..."@,
        }
    }

    /// The label of this progress bar.
    pub fn text(&self) -> (r: String)
        ensures
            r@ == self.spec_text(),
    {
        match self {
            Task::EraseCard => "Erasing card...".to_owned(),
            Task::EraseSlot { slot } => {
                let mut r: String = "Erasing ".to_owned();
                r.append(slot.text());
                r.append("...");
                r
            },
            Task::WriteImage => "Writing image...".to_owned(),
        }
    }
}

/// The line that closes a flash.
pub fn done_text(reset_after: bool) -> (r: &'static str)
    ensures
        r@ == (if reset_after {
            "Done. Device reset."@
        } else {
            "Done."@
        }),
{
    if reset_after {
        "Done. Device reset."
    } else {
        "Done."
    }
}

/// The line about a reset that returned an error. The reset itself yanks the USB endpoint, so
/// an error may surface even though the reset succeeded.
pub fn reset_warning(reason: &str) -> (r: String)
    ensures
        r@ == "Reset returned "@ + reason@
            + " (often expected \u{2014} USB disconnects mid-call)"@,
{
    let mut r: String = "Reset returned ".to_owned();
    r.append(reason);
    r.append(" (often expected \u{2014} USB disconnects mid-call)");
    r
}

/// The erase commands for `count` sectors from `first` on, each for at most `max` of them.
pub open spec fn erase_chunks(first: nat, count: nat, max: nat) -> Seq<EraseChunk>
    decreases count,
{
    if count == 0 || max == 0 {
        Seq::empty()
    } else {
        let n = if max < count {
            max
        } else {
            count
        };
        let next = if first + n <= u32::MAX {
            first + n
        } else {
            u32::MAX as nat
        };
        seq![EraseChunk { first: first as u32, count: n as u16 }] + erase_chunks(
            next,
            (count - n) as nat,
            max,
        )
    }
}

/// The erase commands for `count` sectors from `first` on, each for at most `max` of them.
pub fn erase_in_chunks(first: u32, count: u32, max: u32) -> (r: Vec<EraseChunk>)
    requires
        0 < max <= u16::MAX,
    ensures
        r@ == erase_chunks(first as nat, count as nat, max as nat),
{
    let mut r: Vec<EraseChunk> = Vec::new();
    let mut remaining: u32 = count;
    let mut start: u32 = first;
    let ghost all = erase_chunks(first as nat, count as nat, max as nat);
    assert(Seq::<EraseChunk>::empty() + all =~= all);
    while remaining > 0
        invariant
            0 < max <= u16::MAX,
            r@ + erase_chunks(start as nat, remaining as nat, max as nat) == all,
        decreases remaining,
    {
        let n: u32 = if max < remaining {
            max
        } else {
            remaining
        };
        let chunk: EraseChunk = EraseChunk { first: start, count: n as u16 };
        let ghost before = r@;
        r.push(chunk);
        start = start.saturating_add(n);
        remaining = remaining - n;
        assert(before + (seq![chunk] + erase_chunks(start as nat, remaining as nat, max as nat))
            =~= r@ + erase_chunks(start as nat, remaining as nat, max as nat));
    }
    assert(r@ + Seq::<EraseChunk>::empty() =~= r@);
    r
}

/// The erase commands for `count` sectors of the SD card from `first` on.
pub fn chunk_erase(first: u32, count: u32) -> (r: Vec<EraseChunk>)
    ensures
        r@ == erase_chunks(first as nat, count as nat, ERASE_CHUNK as nat),
{
    erase_in_chunks(first, count, ERASE_CHUNK)
}

/// The slots that a flash writes.
pub open spec fn slots_of(target: Partition) -> Seq<PartName> {
    match target {
        Partition::RootfsA => seq![PartName::RootfsA],
        Partition::RootfsB => seq![PartName::RootfsB],
        Partition::Both => seq![PartName::RootfsA, PartName::RootfsB],
    }
}

impl Layout {
    /// The first sector of a part.
    pub open spec fn start_of(self, name: PartName) -> u64 {
        match name {
            PartName::RootfsA => self.a_start,
            PartName::RootfsB => self.b_start,
            PartName::Userdata => self.user_start,
        }
    }

    /// The last sector of a part.
    pub open spec fn end_of(self, name: PartName) -> u64 {
        match name {
            PartName::RootfsA => self.a_end,
            PartName::RootfsB => self.b_end,
            PartName::Userdata => self.user_end,
        }
    }

    /// Whether a sector belongs to a part.
    pub open spec fn holds(self, name: PartName, sector: int) -> bool {
        self.start_of(name) <= sector <= self.end_of(name)
    }

    /// The first sector of a part.
    pub fn start(&self, name: PartName) -> (r: u64)
        ensures
            r == self.start_of(name),
    {
        match name {
            PartName::RootfsA => self.a_start,
            PartName::RootfsB => self.b_start,
            PartName::Userdata => self.user_start,
        }
    }

    /// The last sector of a part.
    pub fn end(&self, name: PartName) -> (r: u64)
        ensures
            r == self.end_of(name),
    {
        match name {
            PartName::RootfsA => self.a_end,
            PartName::RootfsB => self.b_end,
            PartName::Userdata => self.user_end,
        }
    }
}

/// A layout whose parts follow each other on a card of `sectors` sectors, behind the primary
/// table and before the backup table.
pub open spec fn layout_ok(layout: Layout, sectors: int) -> bool {
    &&& GPT_FIRST_USABLE_LBA <= layout.a_start <= layout.a_end < layout.b_start
    &&& layout.b_start <= layout.b_end < layout.user_start < layout.user_end
    &&& layout.user_end + 34 == sectors
    &&& layout.a_start % GPT_ALIGN_SECTORS == 0
    &&& layout.b_start % GPT_ALIGN_SECTORS == 0
    &&& layout.user_start % GPT_ALIGN_SECTORS == 0
    &&& layout.a_end - layout.a_start == layout.b_end - layout.b_start
}

/// The layout of a card is well formed: three parts that do not touch each other, aligned,
/// inside the usable sectors, with A and B of the size asked for.
pub proof fn law_layout(sectors: u64, bytes: u64)
    requires
        layout_on(sectors, bytes) is Ok,
        bytes >= SECTOR_SIZE,
    ensures
        layout_ok(layout_on(sectors, bytes)->Ok_0, sectors as int),
        layout_on(sectors, bytes)->Ok_0.a_end - layout_on(sectors, bytes)->Ok_0.a_start + 1
            == bytes / SECTOR_SIZE,
{
    let rootfs = bytes as int / SECTOR_SIZE as int;
    let a_start = aligned(GPT_FIRST_USABLE_LBA as int, GPT_ALIGN_SECTORS as int);
    lemma_aligned(GPT_FIRST_USABLE_LBA as int, GPT_ALIGN_SECTORS as int);
    lemma_aligned(a_start + rootfs, GPT_ALIGN_SECTORS as int);
    let b_start = aligned(a_start + rootfs, GPT_ALIGN_SECTORS as int);
    lemma_aligned(b_start + rootfs, GPT_ALIGN_SECTORS as int);
}

/// A rootfs that is no larger than the largest one always leaves room for userdata: such a
/// size is never refused for want of space.
pub proof fn law_max_rootfs_fits(sectors: u64, bytes: u64)
    requires
        sectors * SECTOR_SIZE <= u64::MAX,
        0 < bytes <= max_rootfs(sectors * SECTOR_SIZE),
    ensures
        layout_on(sectors, bytes) is Ok,
{
    let rootfs = bytes as int / SECTOR_SIZE as int;
    let a_start = aligned(GPT_FIRST_USABLE_LBA as int, GPT_ALIGN_SECTORS as int);
    lemma_aligned(GPT_FIRST_USABLE_LBA as int, GPT_ALIGN_SECTORS as int);
    assert(a_start == 2048);
    lemma_aligned(a_start + rootfs, GPT_ALIGN_SECTORS as int);
    let b_start = aligned(a_start + rootfs, GPT_ALIGN_SECTORS as int);
    lemma_aligned(b_start + rootfs, GPT_ALIGN_SECTORS as int);
}

/// The layout that a flash uses, or why it is refused: first the request, then the image,
/// then the card.
pub open spec fn flash_layout(cfg: ConfigView, image_len: u64, card: Capacity) -> Result<
    Layout,
    FlashError,
> {
    match request_error(cfg) {
        Some(e) => Err(e),
        None => match image_error(cfg, image_len) {
            Some(e) => Err(e),
            None => card_layout_of(cfg, card),
        },
    }
}

/// What is wrong with the size asked for.
pub open spec fn request_error(cfg: ConfigView) -> Option<FlashError> {
    if cfg.rootfs_size_bytes == 0 {
        Some(FlashError::ZeroRootfs)
    } else if cfg.rootfs_size_bytes % SECTOR_SIZE != 0 {
        Some(FlashError::UnalignedRootfs)
    } else {
        None
    }
}

/// What is wrong with an image of the given length.
pub open spec fn image_error(cfg: ConfigView, image_len: u64) -> Option<FlashError> {
    if image_len > cfg.rootfs_size_bytes {
        Some(FlashError::ImageTooLarge { image: image_len, rootfs: cfg.rootfs_size_bytes })
    } else {
        None
    }
}

/// The layout on a card, or why the card does not do.
pub open spec fn card_layout_of(cfg: ConfigView, card: Capacity) -> Result<Layout, FlashError> {
    if card.sectors == 0 {
        Err(FlashError::NoSectors)
    } else if cfg.rootfs_size_bytes > max_rootfs(card.bytes as int) {
        Err(
            FlashError::RootfsTooLarge {
                rootfs: cfg.rootfs_size_bytes,
                max: max_rootfs(card.bytes as int) as u64,
            },
        )
    } else {
        match layout_on(card.sectors as u64, cfg.rootfs_size_bytes) {
            Ok(layout) => Ok(layout),
            Err(e) => Err(FlashError::Layout(e)),
        }
    }
}

/// Check the size asked for.
pub fn check_request(cfg: &Config) -> (r: Result<(), FlashError>)
    ensures
        r == (match request_error(cfg@) {
            Some(e) => Err::<(), FlashError>(e),
            None => Ok(()),
        }),
{
    if cfg.rootfs_size_bytes == 0 {
        return Err(FlashError::ZeroRootfs);
    }
    if cfg.rootfs_size_bytes % SECTOR_SIZE != 0 {
        return Err(FlashError::UnalignedRootfs);
    }
    Ok(())
}

/// Check the length of the image.
pub fn check_image(cfg: &Config, image_len: u64) -> (r: Result<(), FlashError>)
    ensures
        r == (match image_error(cfg@, image_len) {
            Some(e) => Err::<(), FlashError>(e),
            None => Ok(()),
        }),
{
    if image_len > cfg.rootfs_size_bytes {
        return Err(
            FlashError::ImageTooLarge { image: image_len, rootfs: cfg.rootfs_size_bytes },
        );
    }
    Ok(())
}

/// What a look at the card gives: a message, and the layout or why the card does not do.
#[derive(Debug, Clone, Copy)]
pub struct CardCheck {
    pub note: Option<Note>,
    pub layout: Result<Layout, FlashError>,
}

/// The message about a card's size, unless it has none.
pub open spec fn card_note(card: Capacity) -> Option<Note> {
    if card.sectors == 0 {
        None
    } else {
        Some(Note::CardSize { bytes: card.bytes, sectors: card.sectors })
    }
}

/// Look at the card: how large it is, and the layout for it or why it does not do.
pub fn card_layout(cfg: &Config, card: Capacity) -> (r: CardCheck)
    ensures
        r.note == card_note(card),
        r.layout == card_layout_of(cfg@, card),
{
    if card.sectors == 0 {
        return CardCheck { note: None, layout: Err(FlashError::NoSectors) };
    }
    let note: Option<Note> = Some(Note::CardSize { bytes: card.bytes, sectors: card.sectors });
    let max: u64 = max_rootfs_bytes(card.bytes);
    if cfg.rootfs_size_bytes > max {
        let e: FlashError = FlashError::RootfsTooLarge { rootfs: cfg.rootfs_size_bytes, max };
        return CardCheck { note, layout: Err(e) };
    }
    match expected_layout(card.sectors as u64, cfg.rootfs_size_bytes) {
        Ok(layout) => CardCheck { note, layout: Ok(layout) },
        Err(e) => CardCheck { note, layout: Err(FlashError::Layout(e)) },
    }
}

/// The steps that erase the given sectors under a progress bar.
pub open spec fn erase_steps(first: nat, count: nat, task: Task) -> Seq<Step> {
    seq![Step::Begin { total: count as u64, task }] + erase_chunks(
        first,
        count,
        ERASE_CHUNK as nat,
    ).map_values(|c: EraseChunk| Step::Erase(c)) + seq![Step::Finish]
}

/// The steps that erase one slot.
pub open spec fn erase_slot_steps(layout: Layout, slot: PartName) -> Seq<Step> {
    erase_steps(
        layout.start_of(slot) as nat,
        (layout.end_of(slot) - layout.start_of(slot) + 1) as nat,
        Task::EraseSlot { slot },
    )
}

/// The steps that erase each slot in turn.
pub open spec fn erase_slots_steps(layout: Layout, slots: Seq<PartName>) -> Seq<Step>
    decreases slots.len(),
{
    if slots.len() == 0 {
        Seq::empty()
    } else {
        erase_slots_steps(layout, slots.drop_last()) + erase_slot_steps(layout, slots.last())
    }
}

/// The erasing: the slots to be written where the layout stays, the whole card otherwise.
pub open spec fn erasing(layout: Layout, target: Partition, keep: bool, sectors: u32) -> Seq<Step> {
    if keep {
        seq![Step::Note(Note::KeepLayout { target })] + erase_slots_steps(layout, slots_of(target))
    } else {
        seq![Step::Note(Note::EraseCard { sectors })] + erase_steps(
            0,
            sectors as nat,
            Task::EraseCard,
        )
    }
}

/// The table for a layout. Slot A is the one to start.
pub open spec fn new_table(layout: Layout, guids: Guids) -> NewTable {
    NewTable {
        disk_guid: guids.disk,
        first: NewEntry {
            name: PartName::RootfsA,
            unique_partition_guid: guids.rootfs_a,
            starting_lba: layout.a_start,
            ending_lba: layout.a_end,
            attribute_bits: ATTR_LEGACY_BIOS_BOOTABLE,
        },
        second: NewEntry {
            name: PartName::RootfsB,
            unique_partition_guid: guids.rootfs_b,
            starting_lba: layout.b_start,
            ending_lba: layout.b_end,
            attribute_bits: 0,
        },
        third: NewEntry {
            name: PartName::Userdata,
            unique_partition_guid: guids.userdata,
            starting_lba: layout.user_start,
            ending_lba: layout.user_end,
            attribute_bits: 0,
        },
    }
}

/// The line that reports one partition of a new table.
pub open spec fn partition_line(layout: Layout, index: u32, name: PartName) -> Step {
    Step::Note(
        Note::PartitionLine {
            index,
            name,
            mib: ((layout.end_of(name) - layout.start_of(name) + 1) * SECTOR_SIZE
                / MIB as int) as u64,
            first: layout.start_of(name),
            last: layout.end_of(name),
        },
    )
}

/// The writing of the table, where the layout does not stay.
pub open spec fn table_steps(layout: Layout, keep: bool, guids: Guids) -> Seq<Step> {
    if keep {
        Seq::empty()
    } else {
        seq![
            Step::Note(Note::GenerateTable),
            Step::MakeTable(new_table(layout, guids)),
            Step::Note(Note::WriteTable),
            Step::WriteTable,
            Step::Flush,
            partition_line(layout, 1, PartName::RootfsA),
            partition_line(layout, 2, PartName::RootfsB),
            partition_line(layout, 3, PartName::Userdata),
        ]
    }
}

/// The copying of the image into one slot.
pub open spec fn image_steps(layout: Layout, slot: PartName, image_len: u64) -> Seq<Step> {
    seq![
        Step::Note(Note::WriteImage { slot, lba: layout.start_of(slot) }),
        Step::Begin { total: image_len, task: Task::WriteImage },
        Step::WriteImage {
            offset: (layout.start_of(slot) * SECTOR_SIZE) as u64,
            len: image_len,
        },
        Step::Flush,
        Step::Finish,
    ]
}

/// The copying of the image into each slot in turn.
pub open spec fn images_steps(layout: Layout, slots: Seq<PartName>, image_len: u64) -> Seq<Step>
    decreases slots.len(),
{
    if slots.len() == 0 {
        Seq::empty()
    } else {
        images_steps(layout, slots.drop_last(), image_len) + image_steps(
            layout,
            slots.last(),
            image_len,
        )
    }
}

/// The markers in the first and the last bytes of userdata, if they are asked for.
pub open spec fn marker_steps(layout: Layout, magic: bool) -> Seq<Step> {
    if magic {
        seq![
            Step::Note(Note::WriteMarkers),
            Step::WriteMarker { offset: (layout.user_start * SECTOR_SIZE) as u64 },
            Step::WriteMarker {
                offset: ((layout.user_end + 1) * SECTOR_SIZE - USERDATA_MAGIC_LEN) as u64,
            },
            Step::Flush,
        ]
    } else {
        Seq::empty()
    }
}

/// The reset, if it is asked for.
pub open spec fn reset_steps(reset: bool) -> Seq<Step> {
    if reset {
        seq![Step::Note(Note::Reset), Step::Reset]
    } else {
        Seq::empty()
    }
}

/// All steps of a flash.
pub open spec fn flash_steps(
    cfg: ConfigView,
    layout: Layout,
    keep: bool,
    image_len: u64,
    sectors: u32,
    guids: Guids,
) -> Seq<Step> {
    erasing(layout, cfg.target_partition, keep, sectors) + seq![Step::Pause { millis: 100 }]
        + table_steps(layout, keep, guids) + images_steps(
        layout,
        slots_of(cfg.target_partition),
        image_len,
    ) + marker_steps(layout, cfg.userdata_magic) + reset_steps(cfg.reset_after_flash)
}

/// Whether these are the steps of a flash on a card whose table has the layout `existing`: the
/// flash is accepted, and the layout stays exactly if it is the one that would be written.
pub open spec fn is_plan(
    steps: Seq<Step>,
    cfg: ConfigView,
    image_len: u64,
    card: Capacity,
    existing: Option<Layout>,
    guids: Guids,
) -> bool {
    match flash_layout(cfg, image_len, card) {
        Ok(layout) => steps == flash_steps(
            cfg,
            layout,
            existing == Some(layout),
            image_len,
            card.sectors,
            guids,
        ),
        Err(_) => false,
    }
}

/// Add the steps that erase the given sectors.
fn push_erase(steps: &mut Vec<Step>, first: u32, count: u32, task: Task)
    ensures
        final(steps)@ == old(steps)@ + erase_steps(first as nat, count as nat, task),
{
    let ghost before = steps@;
    steps.push(Step::Begin { total: count as u64, task });
    let chunks: Vec<EraseChunk> = chunk_erase(first, count);
    let ghost erases = chunks@.map_values(|c: EraseChunk| Step::Erase(c));
    let ghost begin = seq![Step::Begin { total: count as u64, task }];
    let mut i: usize = 0;
    assert(steps@ =~= before + begin + erases.take(0));
    while i < chunks.len()
        invariant
            i <= chunks.len(),
            erases == chunks@.map_values(|c: EraseChunk| Step::Erase(c)),
            steps@ == before + begin + erases.take(i as int),
        decreases chunks.len() - i,
    {
        steps.push(Step::Erase(chunks[i]));
        assert(erases.take(i + 1) =~= erases.take(i as int).push(erases[i as int]));
        assert(steps@ =~= before + begin + erases.take(i + 1));
        i = i + 1;
    }
    assert(erases.take(i as int) =~= erases);
    steps.push(Step::Finish);
    assert(steps@ =~= before + erase_steps(first as nat, count as nat, task));
}

/// Add the steps that erase one slot.
fn push_erase_slot(steps: &mut Vec<Step>, layout: &Layout, slot: PartName)
    requires
        layout.start_of(slot) <= layout.end_of(slot) < u32::MAX,
    ensures
        final(steps)@ == old(steps)@ + erase_slot_steps(*layout, slot),
{
    let first: u64 = layout.start(slot);
    let count: u64 = layout.end(slot) - first + 1;
    push_erase(steps, first as u32, count as u32, Task::EraseSlot { slot });
}

/// Add the steps that copy the image into one slot.
fn push_image(steps: &mut Vec<Step>, layout: &Layout, slot: PartName, image_len: u64)
    requires
        layout.start_of(slot) <= u32::MAX,
    ensures
        final(steps)@ == old(steps)@ + image_steps(*layout, slot, image_len),
{
    let ghost before = steps@;
    let lba: u64 = layout.start(slot);
    steps.push(Step::Note(Note::WriteImage { slot, lba }));
    steps.push(Step::Begin { total: image_len, task: Task::WriteImage });
    steps.push(Step::WriteImage { offset: lba * SECTOR_SIZE, len: image_len });
    steps.push(Step::Flush);
    steps.push(Step::Finish);
    assert(steps@ =~= before + image_steps(*layout, slot, image_len));
}

/// The line that reports one partition of a new table.
fn line_for(layout: &Layout, index: u32, name: PartName) -> (r: Step)
    requires
        layout.start_of(name) <= layout.end_of(name) <= u32::MAX,
    ensures
        r == partition_line(*layout, index, name),
{
    let first: u64 = layout.start(name);
    let last: u64 = layout.end(name);
    let sectors: u64 = match entry_sectors(first, last) {
        Some(n) => n,
        None => 0,
    };
    Step::Note(Note::PartitionLine { index, name, mib: sectors * SECTOR_SIZE / MIB, first, last })
}

/// Add the writing of the table.
fn push_table(steps: &mut Vec<Step>, layout: &Layout, guids: &Guids)
    requires
        layout.a_start <= layout.a_end <= u32::MAX,
        layout.b_start <= layout.b_end <= u32::MAX,
        layout.user_start <= layout.user_end <= u32::MAX,
    ensures
        final(steps)@ == old(steps)@ + table_steps(*layout, false, *guids),
{
    let ghost before = steps@;
    steps.push(Step::Note(Note::GenerateTable));
    let table: NewTable = NewTable {
        disk_guid: guids.disk,
        first: NewEntry {
            name: PartName::RootfsA,
            unique_partition_guid: guids.rootfs_a,
            starting_lba: layout.a_start,
            ending_lba: layout.a_end,
            attribute_bits: ATTR_LEGACY_BIOS_BOOTABLE,
        },
        second: NewEntry {
            name: PartName::RootfsB,
            unique_partition_guid: guids.rootfs_b,
            starting_lba: layout.b_start,
            ending_lba: layout.b_end,
            attribute_bits: 0,
        },
        third: NewEntry {
            name: PartName::Userdata,
            unique_partition_guid: guids.userdata,
            starting_lba: layout.user_start,
            ending_lba: layout.user_end,
            attribute_bits: 0,
        },
    };
    steps.push(Step::MakeTable(table));
    steps.push(Step::Note(Note::WriteTable));
    steps.push(Step::WriteTable);
    steps.push(Step::Flush);
    steps.push(line_for(layout, 1, PartName::RootfsA));
    steps.push(line_for(layout, 2, PartName::RootfsB));
    steps.push(line_for(layout, 3, PartName::Userdata));
    assert(steps@ =~= before + table_steps(*layout, false, *guids));
}

/// Add the erasing.
fn push_erasing(steps: &mut Vec<Step>, layout: &Layout, target: Partition, keep: bool, sectors: u32)
    requires
        layout_ok(*layout, sectors as int),
    ensures
        final(steps)@ == old(steps)@ + erasing(*layout, target, keep, sectors),
{
    let ghost before = steps@;
    if keep {
        steps.push(Step::Note(Note::KeepLayout { target }));
        let ghost noted = steps@;
        match target {
            Partition::RootfsA => push_erase_slot(steps, layout, PartName::RootfsA),
            Partition::RootfsB => push_erase_slot(steps, layout, PartName::RootfsB),
            Partition::Both => {
                push_erase_slot(steps, layout, PartName::RootfsA);
                push_erase_slot(steps, layout, PartName::RootfsB);
            },
        }
        proof {
            lemma_erase_slots(*layout, target);
            assert(steps@ =~= noted + erase_slots_steps(*layout, slots_of(target)));
        }
    } else {
        steps.push(Step::Note(Note::EraseCard { sectors }));
        push_erase(steps, 0, sectors, Task::EraseCard);
    }
    assert(steps@ =~= before + erasing(*layout, target, keep, sectors));
}

/// Add the copying of the image into the chosen slots.
fn push_images(steps: &mut Vec<Step>, layout: &Layout, target: Partition, image_len: u64)
    requires
        layout.a_start <= u32::MAX,
        layout.b_start <= u32::MAX,
    ensures
        final(steps)@ == old(steps)@ + images_steps(*layout, slots_of(target), image_len),
{
    let ghost before = steps@;
    match target {
        Partition::RootfsA => push_image(steps, layout, PartName::RootfsA, image_len),
        Partition::RootfsB => push_image(steps, layout, PartName::RootfsB, image_len),
        Partition::Both => {
            push_image(steps, layout, PartName::RootfsA, image_len);
            push_image(steps, layout, PartName::RootfsB, image_len);
        },
    }
    proof {
        lemma_images(*layout, target, image_len);
        assert(steps@ =~= before + images_steps(*layout, slots_of(target), image_len));
    }
}

/// Add the markers, if they are asked for.
fn push_markers(steps: &mut Vec<Step>, layout: &Layout, magic: bool)
    requires
        layout.user_start <= layout.user_end <= u32::MAX,
    ensures
        final(steps)@ == old(steps)@ + marker_steps(*layout, magic),
{
    let ghost before = steps@;
    if magic {
        let first_byte: u64 = layout.user_start * SECTOR_SIZE;
        let end_byte: u64 = (layout.user_end + 1) * SECTOR_SIZE;
        let trailing: u64 = end_byte - USERDATA_MAGIC_LEN;
        steps.push(Step::Note(Note::WriteMarkers));
        steps.push(Step::WriteMarker { offset: first_byte });
        steps.push(Step::WriteMarker { offset: trailing });
        steps.push(Step::Flush);
    }
    assert(steps@ =~= before + marker_steps(*layout, magic));
}

/// Add the reset, if it is asked for.
fn push_reset(steps: &mut Vec<Step>, reset: bool)
    ensures
        final(steps)@ == old(steps)@ + reset_steps(reset),
{
    let ghost before = steps@;
    if reset {
        steps.push(Step::Note(Note::Reset));
        steps.push(Step::Reset);
    }
    assert(steps@ =~= before + reset_steps(reset));
}

/// The steps of a flash that gives a new table the identifiers `guids`.
pub fn plan_flash(
    cfg: &Config,
    image_len: u64,
    card: Capacity,
    existing: Option<Layout>,
    guids: &Guids,
) -> (r: Result<Vec<Step>, FlashError>)
    ensures
        match r {
            Ok(steps) => is_plan(steps@, cfg@, image_len, card, existing, *guids),
            Err(e) => flash_layout(cfg@, image_len, card) == Err::<Layout, FlashError>(e),
        },
{
    match check_request(cfg) {
        Err(e) => {
            return Err(e);
        },
        Ok(()) => {},
    }
    match check_image(cfg, image_len) {
        Err(e) => {
            return Err(e);
        },
        Ok(()) => {},
    }
    let layout: Layout = match card_layout(cfg, card).layout {
        Err(e) => {
            return Err(e);
        },
        Ok(layout) => layout,
    };
    proof {
        law_layout(card.sectors as u64, cfg.rootfs_size_bytes);
    }
    let keep: bool = match existing {
        Some(found) => found == layout,
        None => false,
    };
    let mut steps: Vec<Step> = Vec::new();
    push_erasing(&mut steps, &layout, cfg.target_partition, keep, card.sectors);
    assert(steps@ =~= erasing(layout, cfg.target_partition, keep, card.sectors));
    steps.push(Step::Pause { millis: 100 });
    assert(steps@ =~= erasing(layout, cfg.target_partition, keep, card.sectors)
        + seq![Step::Pause { millis: 100 }]);
    let ghost paused = steps@;
    if !keep {
        push_table(&mut steps, &layout, guids);
    }
    assert(steps@ =~= paused + table_steps(layout, keep, *guids));
    push_images(&mut steps, &layout, cfg.target_partition, image_len);
    push_markers(&mut steps, &layout, cfg.userdata_magic);
    push_reset(&mut steps, cfg.reset_after_flash);
    Ok(steps)
}

/// The single source of truth for the flash workflow: the steps to take on a card whose
/// table has the layout `existing`, in their order, or why there is nothing to be done. Where
/// the layout stays, the flash is just an in-place refresh of the chosen slots: the full
/// erase and the GPT rewrite are skipped, leaving everything else intact. A new table gets
/// random identifiers.
pub fn flash_image(cfg: &Config, image_len: u64, card: Capacity, existing: Option<Layout>) -> (r:
    Result<Vec<Step>, FlashError>)
    ensures
        match r {
            Ok(steps) => exists|guids: Guids| #[trigger]
                is_plan(steps@, cfg@, image_len, card, existing, guids),
            Err(e) => flash_layout(cfg@, image_len, card) == Err::<Layout, FlashError>(e),
        },
{
    let guids: Guids = Guids {
        disk: random_guid(),
        rootfs_a: random_guid(),
        rootfs_b: random_guid(),
        userdata: random_guid(),
    };
    plan_flash(cfg, image_len, card, existing, &guids)
}

/// The erasing of the chosen slots, written out.
pub proof fn lemma_erase_slots(layout: Layout, target: Partition)
    ensures
        erase_slots_steps(layout, slots_of(target)) == (match target {
            Partition::RootfsA => erase_slot_steps(layout, PartName::RootfsA),
            Partition::RootfsB => erase_slot_steps(layout, PartName::RootfsB),
            Partition::Both => erase_slot_steps(layout, PartName::RootfsA) + erase_slot_steps(
                layout,
                PartName::RootfsB,
            ),
        }),
{
    let slots = slots_of(target);
    reveal_with_fuel(erase_slots_steps, 3);
    if target == Partition::Both {
        assert(slots.drop_last() =~= seq![PartName::RootfsA]);
        assert(seq![PartName::RootfsA].drop_last() =~= Seq::<PartName>::empty());
        assert(Seq::<Step>::empty() + erase_slot_steps(layout, PartName::RootfsA)
            =~= erase_slot_steps(layout, PartName::RootfsA));
    } else {
        assert(slots.drop_last() =~= Seq::<PartName>::empty());
        assert(Seq::<Step>::empty() + erase_slot_steps(layout, slots.last()) =~= erase_slot_steps(
            layout,
            slots.last(),
        ));
    }
}

/// The copying into the chosen slots, written out.
pub proof fn lemma_images(layout: Layout, target: Partition, image_len: u64)
    ensures
        images_steps(layout, slots_of(target), image_len) == (match target {
            Partition::RootfsA => image_steps(layout, PartName::RootfsA, image_len),
            Partition::RootfsB => image_steps(layout, PartName::RootfsB, image_len),
            Partition::Both => image_steps(layout, PartName::RootfsA, image_len) + image_steps(
                layout,
                PartName::RootfsB,
                image_len,
            ),
        }),
{
    let slots = slots_of(target);
    reveal_with_fuel(images_steps, 3);
    if target == Partition::Both {
        assert(slots.drop_last() =~= seq![PartName::RootfsA]);
        assert(seq![PartName::RootfsA].drop_last() =~= Seq::<PartName>::empty());
        assert(Seq::<Step>::empty() + image_steps(layout, PartName::RootfsA, image_len)
            =~= image_steps(layout, PartName::RootfsA, image_len));
    } else {
        assert(slots.drop_last() =~= Seq::<PartName>::empty());
        assert(Seq::<Step>::empty() + image_steps(layout, slots.last(), image_len)
            =~= image_steps(layout, slots.last(), image_len));
    }
}

} // verus!
