//! What a flash leaves on the card, byte by byte, and what its steps are.

use crate::device::Capacity;
use crate::flash::{ConfigView, Layout, Partition};
use crate::plan::{
    erase_chunks, erase_slot_steps, erase_steps, erasing, flash_layout, image_steps, images_steps,
    is_plan, law_layout, lemma_erase_slots, lemma_images, marker_steps, reset_steps, slots_of,
    table_steps, EraseChunk, Guids, Note, PartName, Step, Task,
};
use vstd::prelude::*;

verus! {

/// What a byte of the card holds: what it held before, nothing, part of the table, or a byte of
/// the image or of the marker.
pub enum Content {
    Before,
    Erased,
    Table,
    Image(int),
    Marker(int),
}

/// What byte `x` of a card of `sectors` sectors holds after a step, if it held `was`. The table
/// takes the first 34 and the last 33 sectors; a marker has 20 bytes.
pub open spec fn content_by(step: Step, sectors: int, x: int, was: Content) -> Content {
    match step {
        Step::Erase(c) => if c.first * 512 <= x < (c.first + c.count) * 512 {
            Content::Erased
        } else {
            was
        },
        Step::WriteTable => if x < 34 * 512 || x >= (sectors - 33) * 512 {
            Content::Table
        } else {
            was
        },
        Step::WriteImage { offset, len } => if offset <= x < offset + len {
            Content::Image(x - offset)
        } else {
            was
        },
        Step::WriteMarker { offset } => if offset <= x < offset + 20 {
            Content::Marker(x - offset)
        } else {
            was
        },
        _ => was,
    }
}

/// What byte `x` holds after all steps.
pub open spec fn content_after(steps: Seq<Step>, sectors: int, x: int, was: Content) -> Content
    decreases steps.len(),
{
    if steps.len() == 0 {
        was
    } else {
        content_by(steps.last(), sectors, x, content_after(steps.drop_last(), sectors, x, was))
    }
}

proof fn lemma_content_push(steps: Seq<Step>, step: Step, sectors: int, x: int, was: Content)
    ensures
        content_after(steps.push(step), sectors, x, was) == content_by(
            step,
            sectors,
            x,
            content_after(steps, sectors, x, was),
        ),
{
    assert(steps.push(step).drop_last() =~= steps);
}

proof fn lemma_content_join(a: Seq<Step>, b: Seq<Step>, sectors: int, x: int, was: Content)
    ensures
        content_after(a + b, sectors, x, was) == content_after(
            b,
            sectors,
            x,
            content_after(a, sectors, x, was),
        ),
    decreases b.len(),
{
    if b.len() == 0 {
        assert(a + b =~= a);
    } else {
        assert((a + b).drop_last() =~= a + b.drop_last());
        lemma_content_join(a, b.drop_last(), sectors, x, was);
    }
}

proof fn lemma_content_one(step: Step, sectors: int, x: int, was: Content)
    ensures
        content_after(seq![step], sectors, x, was) == content_by(step, sectors, x, was),
{
    lemma_content_push(Seq::empty(), step, sectors, x, was);
    assert(content_after(Seq::<Step>::empty(), sectors, x, was) == was);
}

proof fn lemma_content_chunks(
    first: nat,
    count: nat,
    max: nat,
    sectors: int,
    x: int,
    was: Content,
)
    requires
        0 < max <= u16::MAX,
        first + count <= u32::MAX,
    ensures
        content_after(
            erase_chunks(first, count, max).map_values(|c: EraseChunk| Step::Erase(c)),
            sectors,
            x,
            was,
        ) == (if first * 512 <= x < (first + count) * 512 {
            Content::Erased
        } else {
            was
        }),
    decreases count,
{
    let f = |c: EraseChunk| Step::Erase(c);
    let chunks = erase_chunks(first, count, max);
    if count == 0 {
        assert(chunks.map_values(f) =~= Seq::<Step>::empty());
    } else {
        let n = if max < count {
            max
        } else {
            count
        };
        let head = EraseChunk { first: first as u32, count: n as u16 };
        let rest = erase_chunks(first + n, (count - n) as nat, max);
        assert(chunks =~= seq![head] + rest);
        assert(chunks.map_values(f) =~= seq![f(head)] + rest.map_values(f));
        lemma_content_join(seq![f(head)], rest.map_values(f), sectors, x, was);
        lemma_content_one(f(head), sectors, x, was);
        let mid = content_by(f(head), sectors, x, was);
        lemma_content_chunks(first + n, (count - n) as nat, max, sectors, x, mid);
    }
}

proof fn lemma_content_erase(
    first: nat,
    count: nat,
    task: Task,
    sectors: int,
    x: int,
    was: Content,
)
    requires
        first + count <= u32::MAX,
    ensures
        content_after(erase_steps(first, count, task), sectors, x, was) == (if first * 512 <= x < (
        first + count) * 512 {
            Content::Erased
        } else {
            was
        }),
{
    let begin = seq![Step::Begin { total: count as u64, task }];
    let erases = erase_chunks(first, count, 0x8000).map_values(|c: EraseChunk| Step::Erase(c));
    let finish = seq![Step::Finish];
    lemma_content_one(begin[0], sectors, x, was);
    lemma_content_join(begin, erases, sectors, x, was);
    lemma_content_chunks(first, count, 0x8000, sectors, x, was);
    let mid = content_after(begin + erases, sectors, x, was);
    lemma_content_join(begin + erases, finish, sectors, x, was);
    lemma_content_one(finish[0], sectors, x, mid);
}

proof fn lemma_content_table(
    layout: Layout,
    keep: bool,
    guids: Guids,
    sectors: int,
    x: int,
    was: Content,
)
    ensures
        content_after(table_steps(layout, keep, guids), sectors, x, was) == (if !keep && (x < 34
            * 512 || x >= (sectors - 33) * 512) {
            Content::Table
        } else {
            was
        }),
{
    if !keep {
        let s = table_steps(layout, keep, guids);
        lemma_content_one(s[0], sectors, x, was);
        let s1 = seq![s[0]];
        let s2 = s1.push(s[1]);
        let s3 = s2.push(s[2]);
        let s4 = s3.push(s[3]);
        let s5 = s4.push(s[4]);
        let s6 = s5.push(s[5]);
        let s7 = s6.push(s[6]);
        let s8 = s7.push(s[7]);
        lemma_content_push(s1, s[1], sectors, x, was);
        lemma_content_push(s2, s[2], sectors, x, was);
        lemma_content_push(s3, s[3], sectors, x, was);
        lemma_content_push(s4, s[4], sectors, x, was);
        lemma_content_push(s5, s[5], sectors, x, was);
        lemma_content_push(s6, s[6], sectors, x, was);
        lemma_content_push(s7, s[7], sectors, x, was);
        assert(s =~= s8);
    }
}

proof fn lemma_content_image(
    layout: Layout,
    slot: PartName,
    image_len: u64,
    sectors: int,
    x: int,
    was: Content,
)
    requires
        layout.start_of(slot) <= u32::MAX,
    ensures
        content_after(image_steps(layout, slot, image_len), sectors, x, was) == (if layout.start_of(
            slot,
        ) * 512 <= x < layout.start_of(slot) * 512 + image_len {
            Content::Image(x - layout.start_of(slot) * 512)
        } else {
            was
        }),
{
    let s = image_steps(layout, slot, image_len);
    lemma_content_one(s[0], sectors, x, was);
    let s1 = seq![s[0]];
    let s2 = s1.push(s[1]);
    let s3 = s2.push(s[2]);
    let s4 = s3.push(s[3]);
    let s5 = s4.push(s[4]);
    lemma_content_push(s1, s[1], sectors, x, was);
    lemma_content_push(s2, s[2], sectors, x, was);
    lemma_content_push(s3, s[3], sectors, x, was);
    lemma_content_push(s4, s[4], sectors, x, was);
    assert(s =~= s5);
}

proof fn lemma_content_markers(layout: Layout, magic: bool, sectors: int, x: int, was: Content)
    requires
        layout.user_start < layout.user_end <= u32::MAX,
    ensures
        ({
            let end = (layout.user_end + 1) * 512;
            content_after(marker_steps(layout, magic), sectors, x, was) == (if magic
                && layout.user_start * 512 <= x < layout.user_start * 512 + 20 {
                Content::Marker(x - layout.user_start * 512)
            } else if magic && end - 20 <= x < end {
                Content::Marker(x - (end - 20))
            } else {
                was
            })
        }),
{
    if magic {
        let s = marker_steps(layout, magic);
        lemma_content_one(s[0], sectors, x, was);
        let s1 = seq![s[0]];
        let s2 = s1.push(s[1]);
        let s3 = s2.push(s[2]);
        let s4 = s3.push(s[3]);
        lemma_content_push(s1, s[1], sectors, x, was);
        lemma_content_push(s2, s[2], sectors, x, was);
        lemma_content_push(s3, s[3], sectors, x, was);
        assert(s =~= s4);
    }
}

/// Whether a flash writes slot A.
pub open spec fn writes_a(target: Partition) -> bool {
    target == Partition::RootfsA || target == Partition::Both
}

/// Whether a flash writes slot B.
pub open spec fn writes_b(target: Partition) -> bool {
    target == Partition::RootfsB || target == Partition::Both
}

/// What a flash leaves in each byte of the card. A chosen slot holds the image from its first
/// byte on, and nothing behind it. With the markers asked for, the first and the last 20 bytes of
/// userdata hold one each. Everything else is as it was if the card had the layout already;
/// otherwise the table stands at both ends of the card and the rest is empty.
#[verifier::rlimit(40)]
pub proof fn law_what_a_flash_leaves(
    steps: Seq<Step>,
    cfg: ConfigView,
    image_len: u64,
    card: Capacity,
    existing: Option<Layout>,
    guids: Guids,
    x: int,
)
    requires
        is_plan(steps, cfg, image_len, card, existing, guids),
        0 <= x < card.sectors * 512,
    ensures
        flash_layout(cfg, image_len, card) is Ok,
        ({
            let l = flash_layout(cfg, image_len, card)->Ok_0;
            let size = cfg.rootfs_size_bytes;
            let user_end = (l.user_end + 1) * 512;
            content_after(steps, card.sectors as int, x, Content::Before) == (if writes_a(
                cfg.target_partition,
            ) && l.a_start * 512 <= x < l.a_start * 512 + size {
                if x - l.a_start * 512 < image_len {
                    Content::Image(x - l.a_start * 512)
                } else {
                    Content::Erased
                }
            } else if writes_b(cfg.target_partition) && l.b_start * 512 <= x < l.b_start * 512
                + size {
                if x - l.b_start * 512 < image_len {
                    Content::Image(x - l.b_start * 512)
                } else {
                    Content::Erased
                }
            } else if cfg.userdata_magic && l.user_start * 512 <= x < l.user_start * 512 + 20 {
                Content::Marker(x - l.user_start * 512)
            } else if cfg.userdata_magic && user_end - 20 <= x < user_end {
                Content::Marker(x - (user_end - 20))
            } else if existing == Some(l) {
                Content::Before
            } else if x < 34 * 512 || x >= (card.sectors - 33) * 512 {
                Content::Table
            } else {
                Content::Erased
            })
        }),
{
    let l = flash_layout(cfg, image_len, card)->Ok_0;
    law_layout(card.sectors as u64, cfg.rootfs_size_bytes);
    let keep = existing == Some(l);
    let target = cfg.target_partition;
    let n = card.sectors as int;
    let was = Content::Before;
    lemma_erase_slots(l, target);
    lemma_images(l, target, image_len);
    let note = if keep {
        Step::Note(Note::KeepLayout { target })
    } else {
        Step::Note(Note::EraseCard { sectors: card.sectors })
    };
    let start = erasing(l, target, keep, card.sectors);
    let erased = start.skip(1);
    assert(start =~= seq![note] + erased);
    lemma_content_one(note, n, x, was);
    lemma_content_join(seq![note], erased, n, x, was);
    let count = (l.a_end - l.a_start + 1) as nat;
    let a_task = Task::EraseSlot { slot: PartName::RootfsA };
    let b_task = Task::EraseSlot { slot: PartName::RootfsB };
    let a_erase = erase_slot_steps(l, PartName::RootfsA);
    let b_erase = erase_slot_steps(l, PartName::RootfsB);
    let a_image = image_steps(l, PartName::RootfsA, image_len);
    let b_image = image_steps(l, PartName::RootfsB, image_len);
    if keep {
        lemma_content_erase(l.a_start as nat, count, a_task, n, x, was);
        lemma_content_erase(l.b_start as nat, count, b_task, n, x, was);
        let mid = content_after(a_erase, n, x, was);
        lemma_content_erase(l.b_start as nat, count, b_task, n, x, mid);
        lemma_content_join(a_erase, b_erase, n, x, was);
        match target {
            Partition::RootfsA => {
                assert(erased =~= a_erase);
            },
            Partition::RootfsB => {
                assert(erased =~= b_erase);
            },
            Partition::Both => {
                assert(erased =~= a_erase + b_erase);
            },
        }
    } else {
        lemma_content_erase(0, card.sectors as nat, Task::EraseCard, n, x, was);
        assert(erased =~= erase_steps(0, card.sectors as nat, Task::EraseCard));
    }
    let pause = seq![Step::Pause { millis: 100 }];
    let table = table_steps(l, keep, guids);
    let images = images_steps(l, slots_of(target), image_len);
    let markers = marker_steps(l, cfg.userdata_magic);
    let reset = reset_steps(cfg.reset_after_flash);
    let c0 = content_after(start, n, x, was);
    lemma_content_join(start, pause, n, x, was);
    lemma_content_one(pause[0], n, x, c0);
    lemma_content_join(start + pause, table, n, x, was);
    lemma_content_table(l, keep, guids, n, x, c0);
    let c1 = content_after(start + pause + table, n, x, was);
    lemma_content_join(start + pause + table, images, n, x, was);
    lemma_content_image(l, PartName::RootfsA, image_len, n, x, c1);
    lemma_content_image(l, PartName::RootfsB, image_len, n, x, c1);
    lemma_content_join(a_image, b_image, n, x, c1);
    let c1a = content_after(a_image, n, x, c1);
    lemma_content_image(l, PartName::RootfsB, image_len, n, x, c1a);
    let c2 = content_after(start + pause + table + images, n, x, was);
    lemma_content_join(start + pause + table + images, markers, n, x, was);
    lemma_content_markers(l, cfg.userdata_magic, n, x, c2);
    let c3 = content_after(start + pause + table + images + markers, n, x, was);
    lemma_content_join(start + pause + table + images + markers, reset, n, x, was);
    if cfg.reset_after_flash {
        lemma_content_one(reset[0], n, x, c3);
        lemma_content_push(seq![reset[0]], reset[1], n, x, c3);
        assert(reset =~= seq![reset[0]].push(reset[1]));
    }
    assert(cfg.rootfs_size_bytes == count * 512);
    assert(steps == start + pause + table + images + markers + reset);
}

} // verus!
