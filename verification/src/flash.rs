//! The A/B/userdata layout of an SD card: sizes, positions, and the table found on a card.

use crate::gpt::{GptEntry, GptEntryView};
use crate::text::{
    all_white, chars_of, decimal, is_digit, is_white_space, law_decimal_reads_back, lemma_trimmed,
    lemma_trimmed_around, lower, lower_text, lowered, parse_unsigned, same_text, trim, trimmed,
    unsigned_value,
};
use vstd::arithmetic::div_mod::*;
use vstd::arithmetic::mul::*;
use vstd::prelude::*;

verus! {

pub const SECTOR_SIZE: u64 = 512;

/// One MiB in bytes.
pub const MIB: u64 = 0x10_0000;

/// Default rounding granularity of the rootfs size when the user doesn't override it.
pub const DEFAULT_ROUND_MIB: u64 = 128;

/// Reservation for GPT primary + protective MBR + backup GPT + alignment slack.
/// 4 MiB is comfortably more than the standard ~67 sectors actually used.
pub const GPT_OVERHEAD_BYTES: u64 = 0x40_0000;

/// 128 partition entries take 32 sectors.
pub const GPT_ENTRIES_SECTORS: u64 = 32;

/// The first sector behind the header and its entries.
pub const GPT_FIRST_USABLE_LBA: u64 = 34;

/// Partitions start at multiples of 1 MiB.
pub const GPT_ALIGN_SECTORS: u64 = 2048;

/// The on-disk LBA layout of the three partitions we manage. Used to
/// compare what a flash would write against what's already on the
/// card, so the full erase + GPT rewrite can be skipped when nothing about
/// the layout changes.
#[derive(Debug, Clone, Copy, PartialEq, Eq, Structural)]
pub struct Layout {
    pub a_start: u64,
    pub a_end: u64,
    pub b_start: u64,
    pub b_end: u64,
    pub user_start: u64,
    pub user_end: u64,
}

/// Why a card cannot hold the layout.
#[derive(Debug, Clone, Copy, PartialEq, Eq, Structural)]
pub enum LayoutError {
    DiskTooSmall,
    NoRoomForUserdata,
}

/// The rootfs slots that a flash writes.
#[derive(Debug, Clone, Copy, PartialEq, Eq, Structural)]
pub enum Partition {
    RootfsA,
    RootfsB,
    Both,
}

/// The layout found on a card, and the slot it starts from, where exactly one is marked.
#[derive(Debug, Clone, Copy, PartialEq, Eq, Structural)]
pub struct LayoutInfo {
    pub layout: Layout,
    pub active: Option<Partition>,
}

/// The first three entries of a partition table.
#[derive(Debug)]
pub struct GptSlots {
    pub first: GptEntry,
    pub second: GptEntry,
    pub third: GptEntry,
}

/// What a [`GptSlots`] holds.
pub struct GptSlotsView {
    pub first: GptEntryView,
    pub second: GptEntryView,
    pub third: GptEntryView,
}

impl View for GptSlots {
    type V = GptSlotsView;

    open spec fn view(&self) -> GptSlotsView {
        GptSlotsView { first: self.first@, second: self.second@, third: self.third@ }
    }
}

/// The names of the three partitions.
pub open spec fn rootfs_a_name() -> Seq<char> {
    "rootfs_a"@
}

pub open spec fn rootfs_b_name() -> Seq<char> {
    "rootfs_b"@
}

pub open spec fn userdata_name() -> Seq<char> {
    "userdata"@
}

impl Partition {
    /// The text that stands for the choice of slots.
    pub open spec fn spec_name(self) -> Seq<char> {
        match self {
            Partition::RootfsA => rootfs_a_name(),
            Partition::RootfsB => rootfs_b_name(),
            Partition::Both => "both"@,
        }
    }

    /// The text that stands for the choice of slots.
    pub fn name(&self) -> (r: &'static str)
        ensures
            r@ == self.spec_name(),
    {
        match self {
            Partition::RootfsA => "rootfs_a",
            Partition::RootfsB => "rootfs_b",
            Partition::Both => "both",
        }
    }

    /// Whether rootfs_a is among the chosen slots.
    pub open spec fn covers_a(self) -> bool {
        self != Partition::RootfsB
    }

    /// Whether rootfs_b is among the chosen slots.
    pub open spec fn covers_b(self) -> bool {
        self != Partition::RootfsA
    }
}

impl LayoutError {
    /// The text of an error.
    pub open spec fn spec_message(self) -> Seq<char> {
        match self {
            LayoutError::DiskTooSmall => "disk too small for a GPT"@,
            LayoutError::NoRoomForUserdata => "no room for userdata after rootfs_a + rootfs_b"@,
        }
    }

    /// The text of this error.
    pub fn message(&self) -> (r: String)
        ensures
            r@ == self.spec_message(),
    {
        match self {
            LayoutError::DiskTooSmall => "disk too small for a GPT".to_owned(),
            LayoutError::NoRoomForUserdata =>
                "no room for userdata after rootfs_a + rootfs_b".to_owned(),
        }
    }
}

impl Layout {
    /// The bytes of rootfs_a, none if it ends before it starts, and never more than fit.
    pub open spec fn spec_rootfs_size(self) -> int {
        if self.a_end < self.a_start {
            0
        } else if (self.a_end - self.a_start + 1) * SECTOR_SIZE > u64::MAX {
            u64::MAX as int
        } else {
            (self.a_end - self.a_start + 1) * SECTOR_SIZE
        }
    }

    /// The bytes of rootfs_a.
    pub fn rootfs_size_bytes(&self) -> (r: u64)
        ensures
            r == self.spec_rootfs_size(),
    {
        if self.a_end < self.a_start {
            return 0;
        }
        match (self.a_end - self.a_start).checked_add(1) {
            Some(n) => match n.checked_mul(SECTOR_SIZE) {
                Some(bytes) => bytes,
                None => u64::MAX,
            },
            None => u64::MAX,
        }
    }
}

/// All inputs of a flash.
#[derive(Debug, Clone)]
pub struct Config {
    /// The image file.
    pub image: String,
    pub rootfs_size_bytes: u64,
    pub reset_after_flash: bool,
    pub userdata_magic: bool,
    pub target_partition: Partition,
}

/// What a [`Config`] holds.
pub struct ConfigView {
    pub image: Seq<char>,
    pub rootfs_size_bytes: u64,
    pub reset_after_flash: bool,
    pub userdata_magic: bool,
    pub target_partition: Partition,
}

impl View for Config {
    type V = ConfigView;

    open spec fn view(&self) -> ConfigView {
        ConfigView {
            image: self.image@,
            rootfs_size_bytes: self.rootfs_size_bytes,
            reset_after_flash: self.reset_after_flash,
            userdata_magic: self.userdata_magic,
            target_partition: self.target_partition,
        }
    }
}

/// The options of the `flash` command.
#[derive(Debug, Clone)]
pub struct FlashArgs {
    /// Image file to write into rootfs_a (raw, sector-aligned).
    pub image: String,
    /// Size of each rootfs partition (A and B), in bytes.
    pub rootfs_size: u64,
    /// Reset the device after the image is written (boots into the new image).
    pub reset_after_flash: bool,
    /// Write the marker at the start and end of the userdata partition. The bootloader
    /// treats it as a "first boot after flash" signal and wipes userdata automatically;
    /// without it, the bootloader asks the user to confirm before wiping.
    pub userdata_magic: bool,
}

impl From<&FlashArgs> for Config {
    fn from(a: &FlashArgs) -> (r: Self) {
        Config {
            image: a.image.clone(),
            rootfs_size_bytes: a.rootfs_size,
            reset_after_flash: a.reset_after_flash,
            userdata_magic: a.userdata_magic,
            target_partition: Partition::RootfsA,
        }
    }
}

impl vstd::std_specs::convert::FromSpecImpl<&FlashArgs> for Config {
    open spec fn obeys_from_spec() -> bool {
        true
    }

    open spec fn from_spec(a: &FlashArgs) -> Self {
        Config {
            image: a.image,
            rootfs_size_bytes: a.rootfs_size,
            reset_after_flash: a.reset_after_flash,
            userdata_magic: a.userdata_magic,
            target_partition: Partition::RootfsA,
        }
    }
}

/// How many digits `s` starts with.
pub open spec fn digit_run(s: Seq<char>) -> nat
    decreases s.len(),
{
    if s.len() > 0 && is_digit(s[0]) {
        1 + digit_run(s.skip(1))
    } else {
        0
    }
}

/// What a size unit, in small letters, multiplies by.
pub open spec fn unit_multiplier(unit: Seq<char>) -> Option<nat> {
    if unit == ""@ || unit == "b"@ {
        Some(1)
    } else if unit == "k"@ || unit == "kb"@ {
        Some(1_000)
    } else if unit == "kib"@ {
        Some(1024)
    } else if unit == "m"@ || unit == "mb"@ {
        Some(1_000_000)
    } else if unit == "mib"@ {
        Some(0x10_0000)
    } else if unit == "g"@ || unit == "gb"@ {
        Some(1_000_000_000)
    } else if unit == "gib"@ {
        Some(0x4000_0000)
    } else {
        None
    }
}

/// The bytes that a human-readable size stands for, or the text of the error.
pub open spec fn size_in_bytes(text: Seq<char>) -> Result<u64, Seq<char>> {
    let s = trimmed(text);
    let num = s.take(digit_run(s) as int);
    let unit = lowered(trimmed(s.skip(digit_run(s) as int)));
    match unsigned_value(num, u64::MAX as nat) {
        None => Err("invalid number: "@ + num),
        Some(n) => match unit_multiplier(unit) {
            None => Err("unknown size unit: "@ + unit),
            Some(mult) => if n * mult <= u64::MAX {
                Ok((n * mult) as u64)
            } else {
                Err("size overflow"@)
            },
        },
    }
}

/// The digit run is the longest prefix of digits.
pub proof fn lemma_digit_run(s: Seq<char>, n: nat)
    requires
        n <= s.len(),
        forall|i: int| 0 <= i < n ==> is_digit(#[trigger] s[i]),
        n == s.len() || !is_digit(s[n as int]),
    ensures
        digit_run(s) == n,
    decreases s.len(),
{
    if n > 0 {
        assert(is_digit(s[0]));
        let rest = s.skip(1);
        assert forall|i: int| 0 <= i < n - 1 implies is_digit(#[trigger] rest[i]) by {
            assert(rest[i] == s[i + 1]);
        }
        lemma_digit_run(rest, (n - 1) as nat);
    }
}

/// The least multiple of `align` that is no less than `value`; `value` itself for a zero
/// `align`.
pub open spec fn aligned(value: int, align: int) -> int {
    if align == 0 {
        value
    } else {
        (value + align - 1) / align * align
    }
}

/// The largest rootfs for a card: half of what the table's reservation leaves.
pub open spec fn max_rootfs(total: int) -> int {
    (if total > GPT_OVERHEAD_BYTES {
        total - GPT_OVERHEAD_BYTES
    } else {
        0
    }) / 2
}

/// The layout that slots of `rootfs` sectors give: each of the three parts starts at the next
/// aligned sector, and userdata takes all up to the backup table.
pub open spec fn layout_for(sectors: int, rootfs: int) -> Layout {
    let a_start = aligned(GPT_FIRST_USABLE_LBA as int, GPT_ALIGN_SECTORS as int);
    let b_start = aligned(a_start + rootfs, GPT_ALIGN_SECTORS as int);
    let user_start = aligned(b_start + rootfs, GPT_ALIGN_SECTORS as int);
    Layout {
        a_start: a_start as u64,
        a_end: (a_start + rootfs - 1) as u64,
        b_start: b_start as u64,
        b_end: (b_start + rootfs - 1) as u64,
        user_start: user_start as u64,
        user_end: (sectors - GPT_ENTRIES_SECTORS - 2) as u64,
    }
}

/// The layout of a card with `sectors` sectors and slots of `bytes` bytes, or why there is
/// none.
pub open spec fn layout_on(sectors: u64, bytes: u64) -> Result<Layout, LayoutError> {
    let layout = layout_for(sectors as int, bytes as int / SECTOR_SIZE as int);
    if sectors < GPT_ENTRIES_SECTORS + 2 {
        Err(LayoutError::DiskTooSmall)
    } else if layout.user_start >= layout.user_end {
        Err(LayoutError::NoRoomForUserdata)
    } else {
        Ok(layout)
    }
}

/// The least multiple that is no less than the value, computed by a rounding division.
fn ceil_to(value: u64, step: u64) -> (r: u64)
    requires
        step > 0,
        aligned(value as int, step as int) <= u64::MAX,
    ensures
        r == aligned(value as int, step as int),
{
    let rem: u64 = value % step;
    proof {
        lemma_aligned(value as int, step as int);
        lemma_fundamental_div_mod(value as int, step as int);
        let v = value as int;
        let s = step as int;
        assert(v == s * (v / s) + v % s);
        if rem == 0 {
            assert(aligned(v, s) == v) by {
                assert(v + s - 1 == s * (v / s) + (s - 1));
                lemma_mul_is_commutative(v / s, s);
                lemma_fundamental_div_mod_converse(v + s - 1, s, v / s, s - 1);
            }
        } else {
            assert(aligned(v, s) == v - v % s + s) by {
                assert(v + s - 1 == s * (v / s) + s + (v % s - 1));
                lemma_mul_is_distributive_add(s, v / s, 1);
                lemma_mul_is_commutative(v / s + 1, s);
                lemma_fundamental_div_mod_converse(v + s - 1, s, v / s + 1, v % s - 1);
            }
        }
    }
    if rem == 0 {
        value
    } else {
        value - rem + step
    }
}

/// Rounding up gives a multiple of the step, less than one step above the value.
pub proof fn lemma_aligned(value: int, step: int)
    requires
        step > 0,
    ensures
        aligned(value, step) % step == 0,
        value <= aligned(value, step) < value + step,
{
    let n = value + step - 1;
    lemma_fundamental_div_mod(n, step);
    lemma_mod_bound(n, step);
    lemma_mul_is_commutative(n / step, step);
    lemma_mod_multiples_basic(n / step, step);
}

/// Rounding up to a multiple.
pub fn align_up(value: u64, align: u64) -> (r: u64)
    requires
        aligned(value as int, align as int) <= u64::MAX,
    ensures
        r == aligned(value as int, align as int),
{
    if align == 0 {
        value
    } else {
        ceil_to(value, align)
    }
}

/// Largest single rootfs (A == B) that fits on a card of the given total size,
/// leaving GPT overhead and zero bytes for userdata. Anything larger is invalid.
pub fn max_rootfs_bytes(total_storage_bytes: u64) -> (r: u64)
    ensures
        r == max_rootfs(total_storage_bytes as int),
{
    total_storage_bytes.saturating_sub(GPT_OVERHEAD_BYTES) / 2
}

/// Compute the LBAs that a flash would write for a given disk +
/// rootfs size. Follows the partition table's defaults exactly so a comparison with
/// the existing on-disk GPT is meaningful.
pub fn expected_layout(total_sectors: u64, rootfs_size_bytes: u64) -> (r: Result<
    Layout,
    LayoutError,
>)
    ensures
        r == layout_on(total_sectors, rootfs_size_bytes),
{
    let rootfs_sectors: u64 = rootfs_size_bytes / SECTOR_SIZE;
    let last_usable: u64 = match total_sectors.checked_sub(GPT_ENTRIES_SECTORS + 2) {
        Some(n) => n,
        None => {
            return Err(LayoutError::DiskTooSmall);
        },
    };
    proof {
        lemma_aligned(GPT_FIRST_USABLE_LBA as int, GPT_ALIGN_SECTORS as int);
    }
    let a_start: u64 = align_up(GPT_FIRST_USABLE_LBA, GPT_ALIGN_SECTORS);
    let a_end: u64 = a_start + rootfs_sectors - 1;
    proof {
        lemma_aligned(a_end + 1, GPT_ALIGN_SECTORS as int);
    }
    let b_start: u64 = align_up(a_end + 1, GPT_ALIGN_SECTORS);
    let b_end: u64 = b_start + rootfs_sectors - 1;
    proof {
        lemma_aligned(b_end + 1, GPT_ALIGN_SECTORS as int);
    }
    let user_start: u64 = align_up(b_end + 1, GPT_ALIGN_SECTORS);
    let user_end: u64 = last_usable;
    if user_start >= user_end {
        return Err(LayoutError::NoRoomForUserdata);
    }
    Ok(Layout { a_start, a_end, b_start, b_end, user_start, user_end })
}

/// Round a byte count up to the nearest multiple of `granularity` MiB.
pub fn round_up_mib(bytes: u64, granularity_mib: u64) -> (r: u64)
    requires
        granularity_mib * MIB <= u64::MAX,
        aligned(bytes as int, granularity_mib * MIB) <= u64::MAX,
    ensures
        r == aligned(bytes as int, granularity_mib * MIB),
{
    let g: u64 = granularity_mib * MIB;
    align_up(bytes, g)
}

/// Parse human-readable sizes like "256MiB", "512M", "1GiB". Returns bytes.
pub fn parse_size(text: &str) -> (r: Result<u64, String>)
    ensures
        match r {
            Ok(n) => size_in_bytes(text@) == Ok::<u64, Seq<char>>(n),
            Err(e) => size_in_bytes(text@) == Err::<u64, Seq<char>>(e@),
        },
{
    let s: &str = trim(text);
    let chars: Vec<char> = chars_of(s);
    let mut split_at: usize = 0;
    while split_at < chars.len() && '0' <= chars[split_at] && chars[split_at] <= '9'
        invariant
            split_at <= chars.len(),
            forall|i: int| 0 <= i < split_at ==> is_digit(#[trigger] chars@[i]),
        decreases chars.len() - split_at,
    {
        split_at = split_at + 1;
    }
    proof {
        lemma_digit_run(s@, split_at as nat);
    }
    let num: &str = s.substring_char(0, split_at);
    let unit: &str = s.substring_char(split_at, chars.len());
    assert(num@ =~= s@.take(split_at as int));
    assert(unit@ =~= s@.skip(split_at as int));
    let n: u64 = match parse_unsigned(num, u64::MAX) {
        Some(n) => n,
        None => {
            let mut e: String = "invalid number: ".to_owned();
            e.append(num);
            return Err(e);
        },
    };
    let unit: String = lower_text(trim(unit));
    let mult: u64 = if same_text(&unit, "") || same_text(&unit, "b") {
        1
    } else if same_text(&unit, "k") || same_text(&unit, "kb") {
        1_000
    } else if same_text(&unit, "kib") {
        1024
    } else if same_text(&unit, "m") || same_text(&unit, "mb") {
        1_000_000
    } else if same_text(&unit, "mib") {
        0x10_0000
    } else if same_text(&unit, "g") || same_text(&unit, "gb") {
        1_000_000_000
    } else if same_text(&unit, "gib") {
        0x4000_0000
    } else {
        let mut e: String = "unknown size unit: ".to_owned();
        e.append(&unit);
        return Err(e);
    };
    match n.checked_mul(mult) {
        Some(bytes) => Ok(bytes),
        None => Err("size overflow".to_owned()),
    }
}

/// Whether the first two entries are the two rootfs slots.
pub open spec fn has_rootfs_slots(first: GptEntryView, second: GptEntryView) -> bool {
    &&& first.is_used()
    &&& second.is_used()
    &&& first.partition_name == rootfs_a_name()
    &&& second.partition_name == rootfs_b_name()
}

/// Whether the first two entries are the two rootfs slots.
pub fn rootfs_slots_present(first: &GptEntry, second: &GptEntry) -> (r: bool)
    ensures
        r == has_rootfs_slots(first@, second@),
{
    first.is_used() && second.is_used() && same_text(&first.partition_name, "rootfs_a")
        && same_text(&second.partition_name, "rootfs_b")
}

/// The layout that the first three entries of a table have: theirs if they are rootfs_a,
/// rootfs_b and userdata, none otherwise.
pub open spec fn layout_in(slots: GptSlotsView) -> Option<Layout> {
    if has_rootfs_slots(slots.first, slots.second) && slots.third.is_used()
        && slots.third.partition_name == userdata_name() {
        Some(
            Layout {
                a_start: slots.first.starting_lba,
                a_end: slots.first.ending_lba,
                b_start: slots.second.starting_lba,
                b_end: slots.second.ending_lba,
                user_start: slots.third.starting_lba,
                user_end: slots.third.ending_lba,
            },
        )
    } else {
        None
    }
}

/// The slot that is marked to start, if exactly one is.
pub open spec fn active_slot(a_active: bool, b_active: bool) -> Option<Partition> {
    if a_active && !b_active {
        Some(Partition::RootfsA)
    } else if b_active && !a_active {
        Some(Partition::RootfsB)
    } else {
        None
    }
}

/// The layout of a table that may be missing.
pub open spec fn existing_layout(slots: Option<GptSlots>) -> Option<Layout> {
    match slots {
        Some(s) => layout_in(s@),
        None => None,
    }
}

/// The layout of a table that may be missing, with the slot it starts from.
pub open spec fn existing_layout_info(slots: Option<GptSlots>) -> Option<LayoutInfo> {
    match existing_layout(slots) {
        Some(layout) => Some(
            LayoutInfo {
                layout,
                active: active_slot(
                    slots.unwrap()@.first.is_bootable(),
                    slots.unwrap()@.second.is_bootable(),
                ),
            },
        ),
        None => None,
    }
}

/// Look at the existing table and, if it has rootfs_a / rootfs_b / userdata
/// partitions in slots 1..=3, return their LBAs. Returns None when the
/// disk has no GPT, or has a GPT with different naming/slot usage.
pub fn read_existing_layout(slots: &Option<GptSlots>) -> (r: Option<Layout>)
    ensures
        r == existing_layout(*slots),
{
    match slots {
        None => None,
        Some(s) => if rootfs_slots_present(&s.first, &s.second) && s.third.is_used() && same_text(
            &s.third.partition_name,
            "userdata",
        ) {
            Some(
                Layout {
                    a_start: s.first.starting_lba,
                    a_end: s.first.ending_lba,
                    b_start: s.second.starting_lba,
                    b_end: s.second.ending_lba,
                    user_start: s.third.starting_lba,
                    user_end: s.third.ending_lba,
                },
            )
        } else {
            None
        },
    }
}

/// The same with the slot that is marked to start.
pub fn read_existing_layout_info(slots: &Option<GptSlots>) -> (r: Option<LayoutInfo>)
    ensures
        r == existing_layout_info(*slots),
{
    match (read_existing_layout(slots), slots) {
        (Some(layout), Some(s)) => {
            let a_active: bool = s.first.is_bootable();
            let b_active: bool = s.second.is_bootable();
            let active: Option<Partition> = if a_active && !b_active {
                Some(Partition::RootfsA)
            } else if b_active && !a_active {
                Some(Partition::RootfsB)
            } else {
                None
            };
            Some(LayoutInfo { layout, active })
        },
        _ => None,
    }
}

/// A size that is shown in whole MiB reads back as that many bytes.
pub proof fn law_size_text_reads_back(n: nat)
    requires
        n * MIB <= u64::MAX,
    ensures
        size_in_bytes(decimal(n) + "MiB"@) == Ok::<u64, Seq<char>>((n * MIB) as u64),
{
    reveal_strlit("MiB");
    reveal_strlit("mib");
    reveal_strlit("");
    reveal_strlit("b");
    reveal_strlit("k");
    reveal_strlit("kb");
    reveal_strlit("kib");
    reveal_strlit("m");
    reveal_strlit("mb");
    let num = decimal(n);
    let unit = "MiB"@;
    let text = num + unit;
    law_decimal_reads_back(n);
    assert(is_digit(num[0]));
    assert(text.last() == 'B');
    lemma_trimmed(text);
    assert forall|i: int| 0 <= i < num.len() implies is_digit(#[trigger] text[i]) by {
        assert(is_digit(num[i]));
    }
    assert(text[num.len() as int] == 'M');
    lemma_digit_run(text, num.len());
    assert(text.take(num.len() as int) =~= num);
    assert(text.skip(num.len() as int) =~= unit);
    lemma_trimmed(unit);
    assert(lowered(unit) =~= "mib"@);
    let small = "mib"@;
    assert(small[0] == 'm' && small.len() == 3);
    assert(small != "kib"@) by {
        assert("kib"@[0] == 'k');
    }
    assert(unit_multiplier(small) == Some(0x10_0000nat));
    assert(n <= u64::MAX);
}

/// Whether a text is nothing but small letters.
spec fn small_letters(s: Seq<char>) -> bool {
    forall|i: int| 0 <= i < s.len() ==> 'a' <= #[trigger] s[i] <= 'z'
}

/// A size unit is made of letters.
proof fn lemma_unit_letters(unit: Seq<char>)
    requires
        unit_multiplier(lowered(unit)) is Some,
    ensures
        forall|i: int|
            0 <= i < unit.len() ==> !is_digit(#[trigger] unit[i]) && !is_white_space(unit[i]),
{
    reveal_strlit("");
    reveal_strlit("b");
    reveal_strlit("k");
    reveal_strlit("kb");
    reveal_strlit("kib");
    reveal_strlit("m");
    reveal_strlit("mb");
    reveal_strlit("mib");
    reveal_strlit("g");
    reveal_strlit("gb");
    reveal_strlit("gib");
    let small = lowered(unit);
    assert(small_letters(""@) && small_letters("b"@));
    assert(small_letters("k"@) && small_letters("kb"@) && small_letters("kib"@));
    assert(small_letters("m"@) && small_letters("mb"@) && small_letters("mib"@));
    assert(small_letters("g"@) && small_letters("gb"@) && small_letters("gib"@));
    assert forall|i: int| 0 <= i < unit.len() implies !is_digit(#[trigger] unit[i])
        && !is_white_space(unit[i]) by {
        assert(small[i] == lower(unit[i]));
        assert('a' <= small[i] <= 'z');
    }
}

/// A size reads back in every unit, in large or small letters, with white space around the
/// number and the unit.
pub proof fn law_size_reads_back_in_every_unit(
    lead: Seq<char>,
    n: u64,
    gap: Seq<char>,
    unit: Seq<char>,
    tail: Seq<char>,
)
    requires
        all_white(lead),
        all_white(gap),
        all_white(tail),
        unit_multiplier(lowered(unit)) is Some,
    ensures
        ({
            let bytes = n * unit_multiplier(lowered(unit))->Some_0;
            size_in_bytes(lead + decimal(n as nat) + gap + unit + tail) == (if bytes <= u64::MAX {
                Ok::<u64, Seq<char>>(bytes as u64)
            } else {
                Err::<u64, Seq<char>>("size overflow"@)
            })
        }),
{
    let num = decimal(n as nat);
    let text = lead + num + gap + unit + tail;
    law_decimal_reads_back(n as nat);
    assert(is_digit(num[0]));
    assert(is_digit(num.last()));
    lemma_unit_letters(unit);
    let s = if unit.len() == 0 {
        num
    } else {
        num + gap + unit
    };
    if unit.len() == 0 {
        let behind = gap + tail;
        assert forall|i: int| 0 <= i < behind.len() implies is_white_space(
            #[trigger] behind[i],
        ) by {
            if i < gap.len() {
                assert(is_white_space(gap[i]));
            } else {
                assert(is_white_space(tail[i - gap.len()]));
            }
        }
        assert(text =~= lead + num + behind);
        lemma_trimmed_around(lead, num, behind);
    } else {
        assert(s[0] == num[0]);
        assert(s.last() == unit.last());
        assert(!is_white_space(unit[unit.len() - 1]));
        assert(text =~= lead + s + tail);
        lemma_trimmed_around(lead, s, tail);
    }
    assert(trimmed(text) == s);
    let k = num.len() as int;
    assert forall|i: int| 0 <= i < k implies is_digit(#[trigger] s[i]) by {
        assert(s[i] == num[i]);
        assert(is_digit(num[i]));
    }
    if unit.len() > 0 {
        if gap.len() > 0 {
            assert(s[k] == gap[0]);
            assert(is_white_space(gap[0]));
        } else {
            assert(s[k] == unit[0]);
            assert(!is_digit(unit[0]));
        }
    }
    lemma_digit_run(s, k as nat);
    assert(s.take(k) =~= num);
    let rest = s.skip(k);
    if unit.len() > 0 {
        assert(!is_white_space(unit[0]));
        assert(rest =~= gap + unit + Seq::<char>::empty());
        lemma_trimmed_around(gap, unit, Seq::empty());
    } else {
        assert(rest =~= unit);
        assert(trimmed(unit) =~= unit);
    }
}

} // verus!
