//! What sizes, layouts and tables of an SD card come down to, in numbers.

use crate::device::Capacity;
use crate::flash::{
    active_slot, aligned, existing_layout, existing_layout_info, layout_on, lemma_aligned,
    lemma_digit_run, max_rootfs, size_in_bytes, unit_multiplier, Config, ConfigView, FlashArgs,
    GptSlots, Layout, LayoutError, Partition, MIB,
};
use crate::gpt::{guid_is_used, linux_fs_guid, GptEntry};
use crate::plan::{
    card_layout_of, card_note, flash_layout, image_error, mib_text, mib_text_up, request_error,
    FlashError, Note,
};
use crate::text::{
    all_digits, all_white, decimal, digits_value, is_digit, is_white_space, lemma_trimmed_around,
    lowered, trimmed, unsigned_value,
};
use vstd::prelude::*;

verus! {

/// Rounding up gives the least multiple that is no less; without a step nothing is rounded.
pub proof fn law_rounding_up(value: int, step: int)
    requires
        step >= 0,
    ensures
        step == 0 ==> aligned(value, step) == value,
        step > 0 ==> value <= aligned(value, step) < value + step && aligned(value, step) % step
            == 0,
{
    if step > 0 {
        lemma_aligned(value, step);
    }
}

/// The largest rootfs fits twice into the card beside 4 MiB, and a larger one does not.
pub proof fn law_max_rootfs(total: int)
    requires
        total >= 0,
    ensures
        max_rootfs(total) >= 0,
        total >= 4194304 ==> 2 * max_rootfs(total) + 4194304 <= total < 2 * (max_rootfs(total) + 1)
            + 4194304,
        total <= 4194304 ==> max_rootfs(total) == 0,
{
}

/// The layout of a card, in sectors: A starts at 2048; B and userdata start at the first
/// multiple of 2048 behind the part before; A and B have the size asked for; userdata ends 34
/// sectors before the end of the card.
pub proof fn law_layout_in_numbers(sectors: u64, bytes: u64)
    ensures
        layout_on(sectors, bytes) matches Ok(l) ==> {
            &&& l.a_start == 2048
            &&& l.a_end + 1 - l.a_start == bytes / 512
            &&& l.b_end + 1 - l.b_start == bytes / 512
            &&& l.b_start % 2048 == 0
            &&& l.a_end + 1 <= l.b_start <= l.a_end + 2048
            &&& l.user_start % 2048 == 0
            &&& l.b_end + 1 <= l.user_start <= l.b_end + 2048
            &&& l.user_end + 34 == sectors
            &&& l.user_start < l.user_end
        },
{
    let r = bytes as int / 512;
    lemma_aligned(34, 2048);
    lemma_aligned(2048 + r, 2048);
    lemma_aligned(aligned(2048 + r, 2048) + r, 2048);
    assert(aligned(34, 2048) == 2048);
}

/// A card has no layout exactly if it has no room for the table, or if two slots in whole MiB
/// and the 1 MiB before them leave no two sectors for userdata.
pub proof fn law_layout_refusals(sectors: u64, bytes: u64)
    ensures
        layout_on(sectors, bytes) == Err::<Layout, LayoutError>(LayoutError::DiskTooSmall)
            <==> sectors < 34,
        layout_on(sectors, bytes) == Err::<Layout, LayoutError>(LayoutError::NoRoomForUserdata)
            <==> sectors >= 34 && 2048 + 2 * (2048 * ((bytes as int / 512 + 2047) / 2048)) >= sectors
            - 34,
{
    let r = bytes as int / 512;
    lemma_aligned(34, 2048);
    assert(aligned(34, 2048) == 2048);
    let slot = 2048 * ((r + 2047) / 2048);
    assert(aligned(2048 + r, 2048) == 2048 + slot);
    assert(aligned(2048 + slot + r, 2048) == 2048 + slot + slot);
}

/// A flash is refused for the first thing that is wrong, in this order: the size is zero, is no
/// whole number of sectors, is too small for the image; the card has no sectors, is too small
/// for the size, or has no layout for it.
pub proof fn law_flash_refusals(cfg: ConfigView, image_len: u64, card: Capacity)
    ensures
        ({
            let size = cfg.rootfs_size_bytes;
            let max = max_rootfs(card.bytes as int) as u64;
            let layout = layout_on(card.sectors as u64, size);
            flash_layout(cfg, image_len, card) == (if size == 0 {
                Err::<Layout, FlashError>(FlashError::ZeroRootfs)
            } else if size % 512 != 0 {
                Err(FlashError::UnalignedRootfs)
            } else if image_len > size {
                Err(FlashError::ImageTooLarge { image: image_len, rootfs: size })
            } else if card.sectors == 0 {
                Err(FlashError::NoSectors)
            } else if size > max {
                Err(FlashError::RootfsTooLarge { rootfs: size, max })
            } else {
                match layout {
                    Ok(l) => Ok(l),
                    Err(e) => Err(FlashError::Layout(e)),
                }
            })
        }),
{
}

/// The checks that are made one by one on the way find what the whole finds.
pub proof fn law_checks_agree_with_the_whole(cfg: ConfigView, image_len: u64, card: Capacity)
    ensures
        ({
            let whole = flash_layout(cfg, image_len, card);
            &&& request_error(cfg) matches Some(e) ==> whole == Err::<Layout, FlashError>(e)
            &&& request_error(cfg) is None ==> (image_error(cfg, image_len) matches Some(e) ==> whole
                == Err::<Layout, FlashError>(e))
            &&& request_error(cfg) is None && image_error(cfg, image_len) is None ==> whole
                == card_layout_of(cfg, card)
            &&& request_error(cfg) is None <==> cfg.rootfs_size_bytes > 0 && cfg.rootfs_size_bytes
                % 512 == 0
            &&& image_error(cfg, image_len) is None <==> image_len <= cfg.rootfs_size_bytes
            &&& card.sectors > 0 && cfg.rootfs_size_bytes <= max_rootfs(card.bytes as int) ==> (
            match layout_on(card.sectors as u64, cfg.rootfs_size_bytes) {
                Ok(l) => card_layout_of(cfg, card) == Ok::<Layout, FlashError>(l),
                Err(e) => card_layout_of(cfg, card) == Err::<Layout, FlashError>(
                    FlashError::Layout(e),
                ),
            })
            &&& card.sectors == 0 ==> card_layout_of(cfg, card) == Err::<Layout, FlashError>(
                FlashError::NoSectors,
            )
            &&& card.sectors > 0 && cfg.rootfs_size_bytes > max_rootfs(card.bytes as int)
                ==> card_layout_of(cfg, card) == Err::<Layout, FlashError>(
                FlashError::RootfsTooLarge {
                    rootfs: cfg.rootfs_size_bytes,
                    max: max_rootfs(card.bytes as int) as u64,
                },
            )
        }),
{
}

/// The message about a card gives its own size, and comes exactly if it has sectors.
pub proof fn law_card_note(card: Capacity)
    ensures
        card.sectors == 0 <==> card_note(card) is None,
        card_note(card) matches Some(n) ==> n == (Note::CardSize {
            bytes: card.bytes,
            sectors: card.sectors,
        }),
{
}

/// A number of bytes in MiB: rounded down in one text, rounded up in the other.
pub proof fn law_mib_texts(n: int)
    requires
        n >= 0,
    ensures
        mib_text(n) == decimal((n / 1048576) as nat),
        mib_text_up(n) == decimal(((n + 1048575) / 1048576) as nat),
        MIB == 1048576,
{
    lemma_aligned(n, 1048576);
}

/// What a unit in small letters multiplies by: a thousand and its powers for k, m and g, with
/// or without b; 1024 and its powers for kib, mib and gib; one for b and for nothing.
pub open spec fn unit_power(unit: Seq<char>) -> Option<int> {
    if unit.len() == 0 || unit == seq!['b'] {
        Some(1)
    } else if unit == seq!['k'] || unit == seq!['k', 'b'] {
        Some(1000)
    } else if unit == seq!['m'] || unit == seq!['m', 'b'] {
        Some(1_000_000)
    } else if unit == seq!['g'] || unit == seq!['g', 'b'] {
        Some(1_000_000_000)
    } else if unit == seq!['k', 'i', 'b'] {
        Some(1024)
    } else if unit == seq!['m', 'i', 'b'] {
        Some(1_048_576)
    } else if unit == seq!['g', 'i', 'b'] {
        Some(1_073_741_824)
    } else {
        None
    }
}

/// The units that sizes are read with are these.
proof fn lemma_unit_power(u: Seq<char>)
    ensures
        unit_multiplier(u) is Some <==> unit_power(u) is Some,
        unit_multiplier(u) is Some ==> unit_multiplier(u)->Some_0 == unit_power(u)->Some_0,
{
    reveal_strlit("");
    reveal_strlit("b");
    reveal_strlit("k");
    reveal_strlit("kb");
    reveal_strlit("kib");
    reveal_strlit("m");
    reveal_strlit("mb");
    reveal_strlit("mib");
    reveal_strlit("g");
    reveal_strlit("gb");
    reveal_strlit("gib");
    assert(""@ =~= Seq::<char>::empty());
    assert("b"@ =~= seq!['b']);
    assert("k"@ =~= seq!['k']);
    assert("kb"@ =~= seq!['k', 'b']);
    assert("kib"@ =~= seq!['k', 'i', 'b']);
    assert("m"@ =~= seq!['m']);
    assert("mb"@ =~= seq!['m', 'b']);
    assert("mib"@ =~= seq!['m', 'i', 'b']);
    assert("g"@ =~= seq!['g']);
    assert("gb"@ =~= seq!['g', 'b']);
    assert("gib"@ =~= seq!['g', 'i', 'b']);
    if u.len() == 0 {
        assert(u =~= Seq::<char>::empty());
    }
}

/// Every text is read in one way: the digits it starts with, then a unit in large or small
/// letters, with white space around both. Without digits, or with too many, there is no number;
/// a unit that is not known is quoted in small letters; a product beyond 64 bits overflows.
pub proof fn law_size_of_any_text(
    lead: Seq<char>,
    digits: Seq<char>,
    gap: Seq<char>,
    unit: Seq<char>,
    tail: Seq<char>,
)
    requires
        all_white(lead),
        all_white(gap),
        all_white(tail),
        forall|i: int| 0 <= i < digits.len() ==> 48 <= (#[trigger] digits[i]) as int <= 57,
        unit.len() > 0 ==> !is_white_space(unit[0]) && !is_white_space(unit.last()),
        unit.len() > 0 && gap.len() == 0 ==> !is_digit(unit[0]),
        digits.len() == 0 ==> gap.len() == 0,
    ensures
        size_in_bytes(lead + digits + gap + unit + tail) == (if digits.len() == 0 || digits_value(
            digits,
        ) > u64::MAX {
            Err::<u64, Seq<char>>("invalid number: "@ + digits)
        } else {
            match unit_power(lowered(unit)) {
                None => Err("unknown size unit: "@ + lowered(unit)),
                Some(m) => if digits_value(digits) * m > u64::MAX {
                    Err("size overflow"@)
                } else {
                    Ok((digits_value(digits) * m) as u64)
                },
            }
        }),
{
    lemma_unit_power(lowered(unit));
    let text = lead + digits + gap + unit + tail;
    let s = if unit.len() == 0 {
        digits
    } else {
        digits + gap + unit
    };
    assert forall|i: int| 0 <= i < digits.len() implies is_digit(#[trigger] digits[i]) by {
        assert(48 <= digits[i] as int <= 57);
    }
    if s.len() > 0 {
        if digits.len() > 0 {
            assert(is_digit(digits[0]));
            assert(is_digit(digits[digits.len() - 1]));
            assert(s[0] == digits[0]);
        }
        if unit.len() == 0 {
            let behind = gap + tail;
            assert forall|i: int| 0 <= i < behind.len() implies is_white_space(
                #[trigger] behind[i],
            ) by {
                if i < gap.len() {
                    assert(is_white_space(gap[i]));
                } else {
                    assert(is_white_space(tail[i - gap.len()]));
                }
            }
            assert(text =~= lead + s + behind);
            lemma_trimmed_around(lead, s, behind);
        } else {
            assert(s.last() == unit.last());
            assert(text =~= lead + s + tail);
            lemma_trimmed_around(lead, s, tail);
        }
    } else {
        let white = lead + tail;
        assert(text =~= white);
        assert forall|i: int| 0 <= i < white.len() implies is_white_space(#[trigger] white[i]) by {
            if i < lead.len() {
                assert(is_white_space(lead[i]));
            } else {
                assert(is_white_space(tail[i - lead.len()]));
            }
        }
        lemma_all_white_is_trimmed(white);
    }
    assert(trimmed(text) =~= s);
    let k = digits.len() as int;
    assert forall|i: int| 0 <= i < k implies is_digit(#[trigger] s[i]) by {
        assert(s[i] == digits[i]);
    }
    if unit.len() > 0 {
        if gap.len() > 0 {
            assert(s[k] == gap[0]);
            assert(is_white_space(gap[0]));
        } else {
            assert(s[k] == unit[0]);
        }
    }
    lemma_digit_run(s, k as nat);
    assert(s.take(k) =~= digits);
    let rest = s.skip(k);
    if unit.len() > 0 {
        assert(rest =~= gap + unit + Seq::<char>::empty());
        lemma_trimmed_around(gap, unit, Seq::empty());
    } else {
        assert(rest =~= unit);
        assert(trimmed(unit) =~= unit);
    }
    if digits.len() > 0 {
        assert(digits[0] != '+');
        assert(all_digits(digits));
    }
    assert(unsigned_value(digits, u64::MAX as nat) == (if digits.len() == 0 || digits_value(digits)
        > u64::MAX {
        None
    } else {
        Some(digits_value(digits))
    }));
}

/// Nothing is left of white space.
pub(crate) proof fn lemma_all_white_is_trimmed(s: Seq<char>)
    requires
        all_white(s),
    ensures
        trimmed(s).len() == 0,
    decreases s.len(),
{
    if s.len() > 0 {
        let rest = s.skip(1);
        assert(is_white_space(s[0]));
        assert forall|i: int| 0 <= i < rest.len() implies is_white_space(#[trigger] rest[i]) by {
            assert(rest[i] == s[i + 1]);
        }
        lemma_all_white_is_trimmed(rest);
    }
}

/// The bytes of rootfs_a: 512 for each sector from the first to the last.
pub proof fn law_rootfs_size(l: Layout)
    ensures
        l.a_end < l.a_start ==> l.spec_rootfs_size() == 0,
        l.a_end >= l.a_start && (l.a_end - l.a_start + 1) * 512 <= u64::MAX
            ==> l.spec_rootfs_size() == (l.a_end - l.a_start + 1) * 512,
        l.a_end >= l.a_start && (l.a_end - l.a_start + 1) * 512 > u64::MAX
            ==> l.spec_rootfs_size() == u64::MAX,
{
}

/// An entry is in use unless its type is sixteen zeros, and is marked to start by the third
/// lowest of its attribute bits.
pub proof fn law_entry_flags(e: GptEntry)
    ensures
        e@.is_used() <==> e.partition_type_guid@ != Seq::new(16, |i: int| 0u8),
        e@.is_bootable() <==> e.attribute_bits / 4 % 2 == 1,
{
    let guid = e.partition_type_guid@;
    let zeros = Seq::new(16, |i: int| 0u8);
    assert(guid.len() == 16);
    if guid_is_used(guid) {
        let i = choose|i: int| 0 <= i < guid.len() && #[trigger] guid[i] != 0;
        assert(zeros[i] == 0);
    } else {
        assert forall|i: int| 0 <= i < 16 implies guid[i] == zeros[i] by {}
        assert(guid =~= zeros);
    }
    let b = e.attribute_bits;
    assert((b & 4u64 != 0) <==> (b / 4 % 2 == 1)) by (bit_vector);
}

/// The name of an entry, its sectors and its bits are what is seen of it.
pub proof fn law_entry_view(e: GptEntry)
    ensures
        e@.partition_type_guid == e.partition_type_guid@,
        e@.starting_lba == e.starting_lba,
        e@.ending_lba == e.ending_lba,
        e@.attribute_bits == e.attribute_bits,
        e@.partition_name == e.partition_name@,
{
}

/// The type of a Linux filesystem is 0FC63DAF-8483-4772-8E79-3D69D8477DE4, with the first three
/// groups stored lowest byte first.
pub proof fn law_linux_guid()
    ensures
        ({
            let g = linux_fs_guid();
            &&& g.len() == 16
            &&& g[3] * 16777216 + g[2] * 65536 + g[1] * 256 + g[0] == 0x0FC63DAF
            &&& g[5] * 256 + g[4] == 0x8483
            &&& g[7] * 256 + g[6] == 0x4772
            &&& g[8] * 256 + g[9] == 0x8E79
            &&& g[10] * 256 + g[11] == 0x3D69
            &&& g[12] * 256 + g[13] == 0xD847
            &&& g[14] * 256 + g[15] == 0x7DE4
        }),
{
}

/// A card has the layout of its first three entries exactly if these are in use under the names
/// rootfs_a, rootfs_b and userdata, in this order.
pub proof fn law_layout_of_a_card(slots: GptSlots)
    ensures
        existing_layout(None) is None,
        existing_layout(Some(slots)) is Some <==> {
            &&& slots.first@.is_used() && slots.first.partition_name@ == "rootfs_a"@
            &&& slots.second@.is_used() && slots.second.partition_name@ == "rootfs_b"@
            &&& slots.third@.is_used() && slots.third.partition_name@ == "userdata"@
        },
        existing_layout(Some(slots)) matches Some(l) ==> {
            &&& l.a_start == slots.first.starting_lba && l.a_end == slots.first.ending_lba
            &&& l.b_start == slots.second.starting_lba && l.b_end == slots.second.ending_lba
            &&& l.user_start == slots.third.starting_lba && l.user_end == slots.third.ending_lba
        },
{
}

/// With the layout comes the slot that is marked to start, where exactly one of the two is.
pub proof fn law_active_slot_of_a_card(slots: GptSlots)
    ensures
        existing_layout_info(None) is None,
        existing_layout_info(Some(slots)) is Some <==> existing_layout(Some(slots)) is Some,
        existing_layout_info(Some(slots)) matches Some(info) ==> {
            let a = slots.first.attribute_bits / 4 % 2 == 1;
            let b = slots.second.attribute_bits / 4 % 2 == 1;
            &&& Some(info.layout) == existing_layout(Some(slots))
            &&& info.active == Some(Partition::RootfsA) <==> a && !b
            &&& info.active == Some(Partition::RootfsB) <==> b && !a
            &&& info.active is None <==> a == b
        },
        active_slot(true, false) == Some(Partition::RootfsA),
        active_slot(false, true) == Some(Partition::RootfsB),
        active_slot(true, true) is None,
        active_slot(false, false) is None,
{
    law_entry_flags(slots.first);
    law_entry_flags(slots.second);
}

/// The names of the choices of slots, and the slots that each of them covers.
pub proof fn law_partition_names(p: Partition)
    ensures
        Partition::RootfsA.spec_name() == "rootfs_a"@,
        Partition::RootfsB.spec_name() == "rootfs_b"@,
        Partition::Both.spec_name() == "both"@,
        p.covers_a() <==> p == Partition::RootfsA || p == Partition::Both,
        p.covers_b() <==> p == Partition::RootfsB || p == Partition::Both,
{
}

/// The command line asks for what it says, in slot A.
pub proof fn law_command_line(args: &FlashArgs, cfg: Config)
    requires
        call_ensures(<Config as From<&FlashArgs>>::from, (args,), cfg),
    ensures
        cfg.image@ == args.image@,
        cfg.rootfs_size_bytes == args.rootfs_size,
        cfg.reset_after_flash == args.reset_after_flash,
        cfg.userdata_magic == args.userdata_magic,
        cfg.target_partition == Partition::RootfsA,
{
}

/// What is seen of the inputs of a flash is what they hold.
pub proof fn law_config_view(cfg: Config, slots: GptSlots)
    ensures
        cfg@.image == cfg.image@,
        cfg@.rootfs_size_bytes == cfg.rootfs_size_bytes,
        cfg@.reset_after_flash == cfg.reset_after_flash,
        cfg@.userdata_magic == cfg.userdata_magic,
        cfg@.target_partition == cfg.target_partition,
        slots@.first == slots.first@,
        slots@.second == slots.second@,
        slots@.third == slots.third@,
{
}

} // verus!
