//! What holds of the flash workflow as a whole.

use crate::device::Capacity;
use crate::flash::{
    active_slot, existing_layout, existing_layout_info, max_rootfs, ConfigView, GptSlots, Layout,
    LayoutInfo, Partition, SECTOR_SIZE,
};
use crate::gpt::{guid_is_used, linux_fs_guid};
use crate::plan::{
    erase_chunks, erase_slot_steps, erase_slots_steps, erase_steps, erasing, flash_layout,
    flash_steps, image_steps, images_steps, is_plan, law_layout, law_max_rootfs_fits, layout_ok,
    lemma_erase_slots, lemma_images, marker_steps, new_table, reset_steps, slots_of, table_steps,
    EraseChunk, FlashError, Guids, Note, PartName, Step, Task, ERASE_CHUNK, USERDATA_MAGIC,
    USERDATA_MAGIC_LEN,
};
use vstd::prelude::*;

verus! {

/// Whether an erase command takes a sector.
pub open spec fn chunk_holds(c: EraseChunk, sector: int) -> bool {
    c.first <= sector < c.first + c.count
}

/// Erase commands that take the sectors from `first` to before `end`, each sector once, each
/// command at least one sector and at most `max`, in ascending order.
pub open spec fn tiled(chunks: Seq<EraseChunk>, first: int, end: int, max: int) -> bool {
    &&& forall|i: int|
        0 <= i < chunks.len() ==> 1 <= (#[trigger] chunks[i]).count <= max && first
            <= chunks[i].first && chunks[i].first + chunks[i].count <= end
    &&& forall|i: int, j: int|
        0 <= i < j < chunks.len() ==> (#[trigger] chunks[i]).first + chunks[i].count <= (
        #[trigger] chunks[j]).first
    &&& forall|sector: int|
        #![trigger sector_taken(chunks, sector)]
        first <= sector < end ==> sector_taken(chunks, sector)
}

/// Whether some erase command takes a sector.
pub open spec fn sector_taken(chunks: Seq<EraseChunk>, sector: int) -> bool {
    exists|i: int| 0 <= i < chunks.len() && chunk_holds(#[trigger] chunks[i], sector)
}

/// Erasing in chunks takes exactly the sectors asked for, each of them once.
pub proof fn law_erase_chunks(first: nat, count: nat, max: nat)
    requires
        0 < max <= u16::MAX,
        first + count <= u32::MAX + 1,
    ensures
        tiled(erase_chunks(first, count, max), first as int, (first + count) as int, max as int),
    decreases count,
{
    let chunks = erase_chunks(first, count, max);
    let end = (first + count) as int;
    if count > 0 {
        let n = if max < count {
            max
        } else {
            count
        };
        let rest = erase_chunks(first + n, (count - n) as nat, max);
        law_erase_chunks(first + n, (count - n) as nat, max);
        let head = EraseChunk { first: first as u32, count: n as u16 };
        if count == n {
            assert(rest =~= Seq::<EraseChunk>::empty());
            assert(erase_chunks(u32::MAX as nat, 0, max) =~= Seq::<EraseChunk>::empty());
        }
        assert(chunks =~= seq![head] + rest);
        assert forall|i: int| 0 <= i < chunks.len() implies 1 <= (#[trigger] chunks[i]).count <= max
            && first <= chunks[i].first && chunks[i].first + chunks[i].count <= end by {
            if i > 0 {
                assert(chunks[i] == rest[i - 1]);
            }
        }
        assert forall|i: int, j: int| 0 <= i < j < chunks.len() implies (
        #[trigger] chunks[i]).first + chunks[i].count <= (#[trigger] chunks[j]).first by {
            assert(chunks[j] == rest[j - 1]);
            if i > 0 {
                assert(chunks[i] == rest[i - 1]);
            }
        }
        assert forall|sector: int| first <= sector < end implies #[trigger] sector_taken(
            chunks,
            sector,
        ) by {
            if sector < first + n {
                assert(chunk_holds(chunks[0], sector));
            } else {
                assert(sector_taken(rest, sector));
                let i = choose|i: int|
                    0 <= i < rest.len() && chunk_holds(#[trigger] rest[i], sector);
                assert(chunks[i + 1] == rest[i]);
                assert(chunk_holds(chunks[i + 1], sector));
            }
        }
    }
}

/// Whether `len` bytes from byte `offset` on reach into a sector.
pub open spec fn reaches(offset: int, len: int, sector: int) -> bool {
    sector * SECTOR_SIZE < offset + len && offset < (sector + 1) * SECTOR_SIZE
}

/// Whether a step may change what a sector holds. A new table counts for every sector.
pub open spec fn may_change(step: Step, sector: int) -> bool {
    match step {
        Step::Erase(c) => chunk_holds(c, sector),
        Step::WriteTable => true,
        Step::WriteImage { offset, len } => reaches(offset as int, len as int, sector),
        Step::WriteMarker { offset } => reaches(offset as int, USERDATA_MAGIC_LEN as int, sector),
        _ => false,
    }
}

/// Whether a sector belongs to one of the chosen slots.
pub open spec fn in_target(layout: Layout, target: Partition, sector: int) -> bool {
    (target.covers_a() && layout.holds(PartName::RootfsA, sector)) || (target.covers_b()
        && layout.holds(PartName::RootfsB, sector))
}

/// Whether a sector is one of the two that hold a marker.
pub open spec fn is_marked(layout: Layout, magic: bool, sector: int) -> bool {
    magic && (sector == layout.user_start || sector == layout.user_end)
}

/// Whether all that the steps change lies in the chosen slots or holds a marker.
spec fn confined(steps: Seq<Step>, layout: Layout, cfg: ConfigView) -> bool {
    forall|i: int, sector: int|
        0 <= i < steps.len() && #[trigger] may_change(steps[i], sector) ==> in_target(
            layout,
            cfg.target_partition,
            sector,
        ) || is_marked(layout, cfg.userdata_magic, sector)
}

proof fn lemma_confined_join(a: Seq<Step>, b: Seq<Step>, layout: Layout, cfg: ConfigView)
    requires
        confined(a, layout, cfg),
        confined(b, layout, cfg),
    ensures
        confined(a + b, layout, cfg),
{
    let all = a + b;
    assert forall|i: int, sector: int|
        0 <= i < all.len() && #[trigger] may_change(all[i], sector) implies in_target(
        layout,
        cfg.target_partition,
        sector,
    ) || is_marked(layout, cfg.userdata_magic, sector) by {
        if i < a.len() {
            assert(may_change(a[i], sector));
        } else {
            assert(may_change(b[i - a.len()], sector));
        }
    }
}

proof fn lemma_erase_slot_confined(layout: Layout, slot: PartName, sectors: int, cfg: ConfigView)
    requires
        layout_ok(layout, sectors),
        sectors <= u32::MAX,
        forall|sector: int|
            layout.start_of(slot) <= sector <= layout.end_of(slot) ==> #[trigger] in_target(
                layout,
                cfg.target_partition,
                sector,
            ),
        layout.start_of(slot) <= layout.end_of(slot) < sectors,
    ensures
        confined(erase_slot_steps(layout, slot), layout, cfg),
{
    let first = layout.start_of(slot) as nat;
    let count = (layout.end_of(slot) - layout.start_of(slot) + 1) as nat;
    let chunks = erase_chunks(first, count, ERASE_CHUNK as nat);
    law_erase_chunks(first, count, ERASE_CHUNK as nat);
    let steps = erase_slot_steps(layout, slot);
    assert forall|i: int, sector: int|
        0 <= i < steps.len() && #[trigger] may_change(steps[i], sector) implies in_target(
        layout,
        cfg.target_partition,
        sector,
    ) by {
        if 0 < i < steps.len() - 1 {
            assert(steps[i] == Step::Erase(chunks[i - 1]));
        }
    }
}

proof fn lemma_image_confined(
    layout: Layout,
    slot: PartName,
    sectors: int,
    cfg: ConfigView,
    image_len: u64,
)
    requires
        layout_ok(layout, sectors),
        sectors <= u32::MAX,
        forall|sector: int|
            layout.start_of(slot) <= sector <= layout.end_of(slot) ==> #[trigger] in_target(
                layout,
                cfg.target_partition,
                sector,
            ),
        image_len <= (layout.end_of(slot) - layout.start_of(slot) + 1) * SECTOR_SIZE,
        layout.end_of(slot) < sectors,
    ensures
        confined(image_steps(layout, slot, image_len), layout, cfg),
{
    let steps = image_steps(layout, slot, image_len);
    assert forall|i: int, sector: int|
        0 <= i < steps.len() && #[trigger] may_change(steps[i], sector) implies in_target(
        layout,
        cfg.target_partition,
        sector,
    ) by {
        assert(layout.start_of(slot) <= sector <= layout.end_of(slot));
    }
}

/// Where the layout stays, a flash changes nothing but the chosen slots and, if the markers
/// are asked for, the first and the last sector of userdata. All else is preserved.
pub proof fn law_refresh_preserves_the_rest(
    steps: Seq<Step>,
    cfg: ConfigView,
    image_len: u64,
    card: Capacity,
    existing: Layout,
    guids: Guids,
    i: int,
    sector: int,
)
    requires
        is_plan(steps, cfg, image_len, card, Some(existing), guids),
        flash_layout(cfg, image_len, card) == Ok::<Layout, FlashError>(existing),
        0 <= i < steps.len(),
        may_change(steps[i], sector),
    ensures
        in_target(existing, cfg.target_partition, sector) || is_marked(
            existing,
            cfg.userdata_magic,
            sector,
        ),
{
    let layout = flash_layout(cfg, image_len, card)->Ok_0;
    law_layout(card.sectors as u64, cfg.rootfs_size_bytes);
    let target = cfg.target_partition;
    let sectors = card.sectors as int;
    lemma_erase_slots(layout, target);
    lemma_images(layout, target, image_len);
    if target.covers_a() {
        lemma_erase_slot_confined(layout, PartName::RootfsA, sectors, cfg);
        lemma_image_confined(layout, PartName::RootfsA, sectors, cfg, image_len);
    }
    if target.covers_b() {
        lemma_erase_slot_confined(layout, PartName::RootfsB, sectors, cfg);
        lemma_image_confined(layout, PartName::RootfsB, sectors, cfg, image_len);
    }
    if target == Partition::Both {
        lemma_confined_join(
            erase_slot_steps(layout, PartName::RootfsA),
            erase_slot_steps(layout, PartName::RootfsB),
            layout,
            cfg,
        );
        lemma_confined_join(
            image_steps(layout, PartName::RootfsA, image_len),
            image_steps(layout, PartName::RootfsB, image_len),
            layout,
            cfg,
        );
    }
    let note = seq![Step::Note(Note::KeepLayout { target })];
    let erased = erase_slots_steps(layout, slots_of(target));
    let pause = seq![Step::Pause { millis: 100 }];
    let images = images_steps(layout, slots_of(target), image_len);
    let markers = marker_steps(layout, cfg.userdata_magic);
    let reset = reset_steps(cfg.reset_after_flash);
    lemma_confined_join(note, erased, layout, cfg);
    lemma_confined_join(note + erased, pause, layout, cfg);
    lemma_confined_join(note + erased + pause, Seq::empty(), layout, cfg);
    lemma_confined_join(note + erased + pause + Seq::empty(), images, layout, cfg);
    lemma_confined_join(note + erased + pause + Seq::empty() + images, markers, layout, cfg);
    lemma_confined_join(
        note + erased + pause + Seq::empty() + images + markers,
        reset,
        layout,
        cfg,
    );
}

/// Whether every copy of the image among the steps goes to the start of a chosen slot.
spec fn copies_to_target(steps: Seq<Step>, layout: Layout, target: Partition, len: u64) -> bool {
    forall|i: int|
        0 <= i < steps.len() && (#[trigger] steps[i]) is WriteImage ==> steps[i]->len == len && ((
        target.covers_a() && steps[i]->WriteImage_offset == layout.a_start * SECTOR_SIZE) || (
        target.covers_b() && steps[i]->WriteImage_offset == layout.b_start * SECTOR_SIZE))
}

proof fn lemma_copies_join(
    a: Seq<Step>,
    b: Seq<Step>,
    layout: Layout,
    target: Partition,
    len: u64,
)
    requires
        copies_to_target(a, layout, target, len),
        copies_to_target(b, layout, target, len),
    ensures
        copies_to_target(a + b, layout, target, len),
{
    let all = a + b;
    assert forall|i: int| 0 <= i < all.len() && (#[trigger] all[i]) is WriteImage implies {
        &&& all[i]->len == len
        &&& (target.covers_a() && all[i]->WriteImage_offset == layout.a_start * SECTOR_SIZE) || (
        target.covers_b() && all[i]->WriteImage_offset == layout.b_start * SECTOR_SIZE)
    } by {
        if i < a.len() {
            assert(all[i] == a[i]);
        } else {
            assert(all[i] == b[i - a.len()]);
        }
    }
}

proof fn lemma_erase_copies(
    first: nat,
    count: nat,
    task: Task,
    layout: Layout,
    target: Partition,
    len: u64,
)
    ensures
        copies_to_target(erase_steps(first, count, task), layout, target, len),
{
    let steps = erase_steps(first, count, task);
    let chunks = erase_chunks(first, count, ERASE_CHUNK as nat);
    assert forall|i: int| 0 <= i < steps.len() implies !((#[trigger] steps[i]) is WriteImage) by {
        if 0 < i < steps.len() - 1 {
            assert(steps[i] == Step::Erase(chunks[i - 1]));
        }
    }
}

/// Every copy of the image stays inside a chosen slot, whether or not the layout stays.
pub proof fn law_image_stays_in_its_slot(
    steps: Seq<Step>,
    cfg: ConfigView,
    image_len: u64,
    card: Capacity,
    existing: Option<Layout>,
    guids: Guids,
    i: int,
    sector: int,
)
    requires
        is_plan(steps, cfg, image_len, card, existing, guids),
        0 <= i < steps.len(),
        steps[i] is WriteImage,
        may_change(steps[i], sector),
    ensures
        in_target(flash_layout(cfg, image_len, card)->Ok_0, cfg.target_partition, sector),
{
    let keep = existing == Some(flash_layout(cfg, image_len, card)->Ok_0);
    let layout = flash_layout(cfg, image_len, card)->Ok_0;
    law_layout(card.sectors as u64, cfg.rootfs_size_bytes);
    let target = cfg.target_partition;
    lemma_erase_slots(layout, target);
    lemma_images(layout, target, image_len);
    let a_first = layout.a_start as nat;
    let a_count = (layout.a_end - layout.a_start + 1) as nat;
    let b_first = layout.b_start as nat;
    let b_count = (layout.b_end - layout.b_start + 1) as nat;
    let a_task = Task::EraseSlot { slot: PartName::RootfsA };
    let b_task = Task::EraseSlot { slot: PartName::RootfsB };
    lemma_erase_copies(a_first, a_count, a_task, layout, target, image_len);
    lemma_erase_copies(b_first, b_count, b_task, layout, target, image_len);
    lemma_erase_copies(0, card.sectors as nat, Task::EraseCard, layout, target, image_len);
    lemma_copies_join(
        erase_slot_steps(layout, PartName::RootfsA),
        erase_slot_steps(layout, PartName::RootfsB),
        layout,
        target,
        image_len,
    );
    if target == Partition::Both {
        lemma_copies_join(
            image_steps(layout, PartName::RootfsA, image_len),
            image_steps(layout, PartName::RootfsB, image_len),
            layout,
            target,
            image_len,
        );
    }
    let images = images_steps(layout, slots_of(target), image_len);
    assert(copies_to_target(images, layout, target, image_len));
    let start = erasing(layout, target, keep, card.sectors);
    if keep {
        lemma_copies_join(
            seq![Step::Note(Note::KeepLayout { target })],
            erase_slots_steps(layout, slots_of(target)),
            layout,
            target,
            image_len,
        );
    } else {
        lemma_copies_join(
            seq![Step::Note(Note::EraseCard { sectors: card.sectors })],
            erase_steps(0, card.sectors as nat, Task::EraseCard),
            layout,
            target,
            image_len,
        );
    }
    let pause = seq![Step::Pause { millis: 100 }];
    let table = table_steps(layout, keep, guids);
    let markers = marker_steps(layout, cfg.userdata_magic);
    let reset = reset_steps(cfg.reset_after_flash);
    lemma_copies_join(start, pause, layout, target, image_len);
    lemma_copies_join(start + pause, table, layout, target, image_len);
    lemma_copies_join(start + pause + table, images, layout, target, image_len);
    lemma_copies_join(start + pause + table + images, markers, layout, target, image_len);
    lemma_copies_join(start + pause + table + images + markers, reset, layout, target, image_len);
}

/// Where the table stands among the steps of a flash that writes one.
pub open spec fn table_at(sectors: u32) -> int {
    erase_chunks(0, sectors as nat, ERASE_CHUNK as nat).len() as int + 7
}

/// Where the layout changes, every sector of the card is erased first, then the new table is
/// written, and nothing is erased any more.
pub proof fn law_full_flash_erases_then_writes_the_table(
    cfg: ConfigView,
    layout: Layout,
    image_len: u64,
    sectors: u32,
    guids: Guids,
)
    ensures
        ({
            let steps = flash_steps(cfg, layout, false, image_len, sectors, guids);
            let k = table_at(sectors);
            &&& 0 <= k < steps.len()
            &&& steps[k - 2] == Step::MakeTable(new_table(layout, guids))
            &&& steps[k] == Step::WriteTable
            &&& forall|sector: int|
                0 <= sector < sectors ==> #[trigger] erased_before(steps, k, sector)
            &&& forall|j: int| k < j < steps.len() ==> !((#[trigger] steps[j]) is Erase)
        }),
{
    let steps = flash_steps(cfg, layout, false, image_len, sectors, guids);
    let chunks = erase_chunks(0, sectors as nat, ERASE_CHUNK as nat);
    law_erase_chunks(0, sectors as nat, ERASE_CHUNK as nat);
    lemma_images(layout, cfg.target_partition, image_len);
    let k = table_at(sectors);
    let start = erasing(layout, cfg.target_partition, false, sectors);
    let pause = seq![Step::Pause { millis: 100 }];
    let table = table_steps(layout, false, guids);
    let images = images_steps(layout, slots_of(cfg.target_partition), image_len);
    let markers = marker_steps(layout, cfg.userdata_magic);
    let reset = reset_steps(cfg.reset_after_flash);
    let tail = images + markers + reset;
    assert(steps =~= start + pause + table + tail);
    assert(start.len() == chunks.len() + 3);
    assert(steps[k] == table[3]);
    assert(steps[k - 2] == table[1]);
    assert forall|sector: int| 0 <= sector < sectors implies #[trigger] erased_before(
        steps,
        k,
        sector,
    ) by {
        assert(sector_taken(chunks, sector));
        let i = choose|i: int| 0 <= i < chunks.len() && chunk_holds(#[trigger] chunks[i], sector);
        assert(start[i + 2] == Step::Erase(chunks[i]));
        assert(steps[i + 2] == Step::Erase(chunks[i]));
        assert(may_change(steps[i + 2], sector));
    }
    assert forall|j: int| 0 <= j < images.len() implies !((#[trigger] images[j]) is Erase) by {
        let a = image_steps(layout, PartName::RootfsA, image_len);
        let b = image_steps(layout, PartName::RootfsB, image_len);
        if cfg.target_partition == Partition::Both {
            if j < a.len() {
                assert(images[j] == a[j]);
            } else {
                assert(images[j] == b[j - a.len()]);
            }
        }
    }
    assert forall|j: int| k < j < steps.len() implies !((#[trigger] steps[j]) is Erase) by {
        let at = j - (start + pause).len();
        if at < table.len() {
            assert(steps[j] == table[at]);
        } else {
            assert(steps[j] == tail[at - table.len()]);
        }
    }
}

/// Whether some erase among the steps before the one with index `k` takes a sector.
pub open spec fn erased_before(steps: Seq<Step>, k: int, sector: int) -> bool {
    exists|i: int|
        0 <= i < k && (#[trigger] steps[i]) is Erase && may_change(steps[i], sector)
}

/// The image is copied into each chosen slot, behind the table where one is written.
pub proof fn law_image_goes_to_each_chosen_slot(
    cfg: ConfigView,
    layout: Layout,
    keep: bool,
    image_len: u64,
    sectors: u32,
    guids: Guids,
    slot: PartName,
)
    requires
        slots_of(cfg.target_partition).contains(slot),
    ensures
        ({
            let steps = flash_steps(cfg, layout, keep, image_len, sectors, guids);
            exists|j: int|
                (if keep {
                    0
                } else {
                    table_at(sectors)
                }) <= j < steps.len() && #[trigger] steps[j] == (Step::WriteImage {
                    offset: (layout.start_of(slot) * SECTOR_SIZE) as u64,
                    len: image_len,
                })
        }),
{
    let steps = flash_steps(cfg, layout, keep, image_len, sectors, guids);
    lemma_images(layout, cfg.target_partition, image_len);
    let start = erasing(layout, cfg.target_partition, keep, sectors);
    let pause = seq![Step::Pause { millis: 100 }];
    let table = table_steps(layout, keep, guids);
    let images = images_steps(layout, slots_of(cfg.target_partition), image_len);
    let markers = marker_steps(layout, cfg.userdata_magic);
    let reset = reset_steps(cfg.reset_after_flash);
    let head = start + pause + table;
    assert(steps =~= head + images + (markers + reset));
    let a = image_steps(layout, PartName::RootfsA, image_len);
    let at = if slot == PartName::RootfsB && cfg.target_partition == Partition::Both {
        a.len() as int + 2
    } else {
        2int
    };
    assert(images[at] == (Step::WriteImage {
        offset: (layout.start_of(slot) * SECTOR_SIZE) as u64,
        len: image_len,
    }));
    assert(steps[head.len() as int + at] == images[at]);
}

/// A look at a card whose entries are those of a new table finds the layout that the table
/// was made for, with slot A as the one to start.
pub proof fn law_table_reads_back(layout: Layout, guids: Guids, found: GptSlots)
    requires
        found@ == new_table(layout, guids).as_found(),
    ensures
        existing_layout(Some(found)) == Some(layout),
        existing_layout_info(Some(found)) == Some(
            LayoutInfo { layout, active: Some(Partition::RootfsA) },
        ),
{
    let guid = linux_fs_guid();
    assert(guid[0] != 0);
    assert(guid_is_used(guid));
    assert(4u64 & 4u64 != 0) by (bit_vector);
    assert(0u64 & 4u64 == 0) by (bit_vector);
    assert(active_slot(true, false) == Some(Partition::RootfsA));
}

/// The same flash once more finds the layout in place: it refreshes the chosen slots and
/// writes no table.
pub proof fn law_second_flash_refreshes(
    steps: Seq<Step>,
    cfg: ConfigView,
    image_len: u64,
    card: Capacity,
    found: GptSlots,
    guids: Guids,
    i: int,
)
    requires
        flash_layout(cfg, image_len, card) is Ok,
        found@ == new_table(flash_layout(cfg, image_len, card)->Ok_0, guids).as_found(),
        is_plan(steps, cfg, image_len, card, existing_layout(Some(found)), guids),
        0 <= i < steps.len(),
    ensures
        !(steps[i] is WriteTable),
{
    let layout = flash_layout(cfg, image_len, card)->Ok_0;
    law_table_reads_back(layout, guids, found);
    if steps[i] is WriteTable {
        let beyond = card.sectors as int;
        assert(may_change(steps[i], beyond));
        law_refresh_preserves_the_rest(steps, cfg, image_len, card, layout, guids, i, beyond);
        law_layout(card.sectors as u64, cfg.rootfs_size_bytes);
        assert(false);
    }
}

/// The marker is as long as the plan takes it to be.
pub proof fn law_marker_length()
    ensures
        USERDATA_MAGIC@.len() == USERDATA_MAGIC_LEN,
{
    reveal_strlit("LEAFKVMUSERDATAMAGIC");
}

/// On a card whose bytes are its sectors, a flash is accepted exactly if the size is not zero
/// and whole sectors, the image fits it, and the card has sectors and room for it.
pub proof fn law_flash_is_accepted_exactly(cfg: ConfigView, image_len: u64, card: Capacity)
    requires
        card.bytes == card.sectors * SECTOR_SIZE,
    ensures
        flash_layout(cfg, image_len, card) is Ok <==> {
            &&& cfg.rootfs_size_bytes > 0
            &&& cfg.rootfs_size_bytes % SECTOR_SIZE == 0
            &&& image_len <= cfg.rootfs_size_bytes
            &&& card.sectors > 0
            &&& cfg.rootfs_size_bytes <= max_rootfs(card.bytes as int)
        },
{
    if 0 < cfg.rootfs_size_bytes <= max_rootfs(card.bytes as int) {
        law_max_rootfs_fits(card.sectors as u64, cfg.rootfs_size_bytes);
    }
}

/// The first marker starts with userdata and the second one ends with it.
pub proof fn law_markers_bound_userdata(layout: Layout, sectors: u32)
    requires
        layout_ok(layout, sectors as int),
    ensures
        marker_steps(layout, true)[1] matches Step::WriteMarker { offset } && offset
            == layout.user_start * SECTOR_SIZE,
        marker_steps(layout, true)[2] matches Step::WriteMarker { offset } && offset
            + USERDATA_MAGIC_LEN == (layout.user_end + 1) * SECTOR_SIZE,
{
}

} // verus!
