//! Which steps a flash holds, how often, and in which order.

use crate::card_laws::{writes_a, writes_b};
use crate::device::Capacity;
use crate::flash::{ConfigView, Layout, Partition};
use crate::plan::{
    erase_chunks, erase_slot_steps, erase_slots_steps, erase_steps, erasing, flash_layout,
    image_steps, images_steps, is_plan, law_layout, lemma_erase_slots, lemma_images, marker_steps,
    reset_steps, slots_of, table_steps, EraseChunk, Guids, Note, PartName, Step, Task,
};
use vstd::prelude::*;

verus! {

/// The erase commands for sectors from `first` on: the i-th begins `i * max` sectors behind the
/// first, or at the last number there is, and takes `max` sectors, the last one what is left.
pub proof fn law_erase_commands(first: nat, count: nat, max: nat, i: int)
    requires
        0 < max <= u16::MAX,
        first <= u32::MAX,
    ensures
        (erase_chunks(first, count, max).len() - 1) * max < count || count == 0,
        erase_chunks(first, count, max).len() * max >= count,
        count == 0 ==> erase_chunks(first, count, max).len() == 0,
        0 <= i < erase_chunks(first, count, max).len() ==> {
            let c = erase_chunks(first, count, max)[i];
            &&& i * max < count
            &&& c.first == (if first + i * max > 4_294_967_295 {
                4_294_967_295
            } else {
                first + i * max
            })
            &&& c.count == (if count - i * max < max {
                count - i * max
            } else {
                max as int
            })
        },
    decreases count,
{
    if count > 0 {
        let n = if max < count {
            max
        } else {
            count
        };
        let next = if first + n <= u32::MAX {
            first + n
        } else {
            u32::MAX as nat
        };
        let rest = erase_chunks(next, (count - n) as nat, max);
        law_erase_commands(next, (count - n) as nat, max, i - 1);
        assert(erase_chunks(first, count, max).len() == rest.len() + 1);
        assert((rest.len() + 1) * max == rest.len() * max + max) by (nonlinear_arith);
        assert((rest.len() - 1) * max == rest.len() * max - max) by (nonlinear_arith);
        assert((i - 1) * max == i * max - max) by (nonlinear_arith);
        if count <= max {
            assert(rest.len() == 0);
            assert(rest.len() * max == 0) by (nonlinear_arith)
                requires
                    rest.len() == 0,
            ;
        }
        if i == 0 {
            assert(i * max == 0) by (nonlinear_arith)
                requires
                    i == 0,
            ;
        } else if 0 < i <= rest.len() {
            assert(erase_chunks(first, count, max)[i] == rest[i - 1]);
            assert((i - 1) * max >= 0) by (nonlinear_arith)
                requires
                    i >= 1,
                    max > 0,
            ;
        }
    }
}

/// Whether a step belongs to a flash with the settings `cfg` and the layout `l`.
pub open spec fn is_due(
    step: Step,
    cfg: ConfigView,
    l: Layout,
    keep: bool,
    image_len: u64,
    sectors: u32,
    guids: Guids,
) -> bool {
    let target = cfg.target_partition;
    match step {
        Step::Note(note) => match note {
            Note::KeepLayout { target: t } => keep && t == target,
            Note::EraseCard { sectors: n } => !keep && n == sectors,
            Note::GenerateTable => !keep,
            Note::WriteTable => !keep,
            Note::PartitionLine { index, name, mib, first, last } => !keep && (match name {
                PartName::RootfsA => index == 1 && first == l.a_start && last == l.a_end,
                PartName::RootfsB => index == 2 && first == l.b_start && last == l.b_end,
                PartName::Userdata => index == 3 && first == l.user_start && last == l.user_end,
            }) && mib == (last - first + 1) * 512 / 1_048_576,
            Note::WriteImage { slot, lba } => {
                ||| writes_a(target) && slot == PartName::RootfsA && lba == l.a_start
                ||| writes_b(target) && slot == PartName::RootfsB && lba == l.b_start
            },
            Note::WriteMarkers => cfg.userdata_magic,
            Note::Reset => cfg.reset_after_flash,
            _ => false,
        },
        Step::Begin { total, task } => match task {
            Task::EraseCard => !keep && total == sectors,
            Task::EraseSlot { slot } => keep && total * 512 == cfg.rootfs_size_bytes && {
                ||| writes_a(target) && slot == PartName::RootfsA
                ||| writes_b(target) && slot == PartName::RootfsB
            },
            Task::WriteImage => total == image_len,
        },
        Step::Erase(c) => 0 < c.count <= 32_768,
        Step::Finish => true,
        Step::Flush => true,
        Step::Pause { millis } => millis == 100,
        Step::MakeTable(t) => {
            &&& !keep
            &&& t.disk_guid == guids.disk
            &&& t.first.name == PartName::RootfsA && t.second.name == PartName::RootfsB
            &&& t.third.name == PartName::Userdata
            &&& t.first.unique_partition_guid == guids.rootfs_a
            &&& t.second.unique_partition_guid == guids.rootfs_b
            &&& t.third.unique_partition_guid == guids.userdata
            &&& t.first.starting_lba == l.a_start && t.first.ending_lba == l.a_end
            &&& t.second.starting_lba == l.b_start && t.second.ending_lba == l.b_end
            &&& t.third.starting_lba == l.user_start && t.third.ending_lba == l.user_end
            &&& t.first.attribute_bits == 4
            &&& t.second.attribute_bits == 0
            &&& t.third.attribute_bits == 0
        },
        Step::WriteTable => !keep,
        Step::WriteImage { offset, len } => len == image_len && {
            ||| writes_a(target) && offset == l.a_start * 512
            ||| writes_b(target) && offset == l.b_start * 512
        },
        Step::WriteMarker { offset } => cfg.userdata_magic && {
            ||| offset == l.user_start * 512
            ||| offset == (l.user_end + 1) * 512 - 20
        },
        Step::Reset => cfg.reset_after_flash,
    }
}

/// The steps whose number and order are told.
pub enum Kind {
    KeepLayout,
    EraseCard,
    BeginCard,
    BeginSlot(PartName),
    Erase,
    Finish,
    Pause,
    GenerateTable,
    MakeTable,
    AnnounceTable,
    WriteTable,
    Line(int),
    AnnounceImage(PartName),
    BeginImage,
    WriteImage,
    AnnounceMarkers,
    WriteMarker,
    AnnounceReset,
    Reset,
    Flush,
    Other,
}

pub open spec fn kind_of(step: Step) -> Kind {
    match step {
        Step::Note(note) => match note {
            Note::KeepLayout { target } => Kind::KeepLayout,
            Note::EraseCard { sectors } => Kind::EraseCard,
            Note::GenerateTable => Kind::GenerateTable,
            Note::WriteTable => Kind::AnnounceTable,
            Note::PartitionLine { index, name, mib, first, last } => Kind::Line(index as int),
            Note::WriteImage { slot, lba } => Kind::AnnounceImage(slot),
            Note::WriteMarkers => Kind::AnnounceMarkers,
            Note::Reset => Kind::AnnounceReset,
            _ => Kind::Other,
        },
        Step::Begin { total, task } => match task {
            Task::EraseCard => Kind::BeginCard,
            Task::EraseSlot { slot } => Kind::BeginSlot(slot),
            Task::WriteImage => Kind::BeginImage,
        },
        Step::Erase(c) => Kind::Erase,
        Step::Finish => Kind::Finish,
        Step::Pause { millis } => Kind::Pause,
        Step::MakeTable(t) => Kind::MakeTable,
        Step::WriteTable => Kind::WriteTable,
        Step::Flush => Kind::Flush,
        Step::WriteImage { offset, len } => Kind::WriteImage,
        Step::WriteMarker { offset } => Kind::WriteMarker,
        Step::Reset => Kind::Reset,
    }
}

/// How many steps of a kind there are.
pub open spec fn number_of(steps: Seq<Step>, kind: Kind) -> int
    decreases steps.len(),
{
    if steps.len() == 0 {
        0
    } else {
        number_of(steps.drop_last(), kind) + if kind_of(steps.last()) == kind {
            1int
        } else {
            0
        }
    }
}

proof fn lemma_number_push(steps: Seq<Step>, step: Step, kind: Kind)
    ensures
        number_of(steps.push(step), kind) == number_of(steps, kind) + if kind_of(step) == kind {
            1int
        } else {
            0
        },
{
    assert(steps.push(step).drop_last() =~= steps);
}

proof fn lemma_number_join(a: Seq<Step>, b: Seq<Step>, kind: Kind)
    ensures
        number_of(a + b, kind) == number_of(a, kind) + number_of(b, kind),
    decreases b.len(),
{
    if b.len() == 0 {
        assert(a + b =~= a);
    } else {
        assert((a + b).drop_last() =~= a + b.drop_last());
        lemma_number_join(a, b.drop_last(), kind);
    }
}

proof fn lemma_number_erases(chunks: Seq<EraseChunk>, kind: Kind)
    requires
        kind != Kind::Erase,
    ensures
        number_of(chunks.map_values(|c: EraseChunk| Step::Erase(c)), kind) == 0,
    decreases chunks.len(),
{
    let f = |c: EraseChunk| Step::Erase(c);
    if chunks.len() > 0 {
        assert(chunks.map_values(f).drop_last() =~= chunks.drop_last().map_values(f));
        lemma_number_erases(chunks.drop_last(), kind);
    }
}

proof fn lemma_number_erase_steps(first: nat, count: nat, task: Task, kind: Kind)
    requires
        kind != Kind::Erase,
    ensures
        number_of(erase_steps(first, count, task), kind) == (if kind == kind_of(
            Step::Begin { total: 0, task },
        ) || kind == Kind::Finish {
            1int
        } else {
            0
        }),
{
    let f = |c: EraseChunk| Step::Erase(c);
    let none = Seq::<Step>::empty();
    let begin = Step::Begin { total: count as u64, task };
    let chunks = erase_chunks(first, count, 0x8000);
    lemma_number_push(none, begin, kind);
    lemma_number_push(none, Step::Finish, kind);
    lemma_number_erases(chunks, kind);
    lemma_number_join(seq![begin], chunks.map_values(f), kind);
    lemma_number_join(seq![begin] + chunks.map_values(f), seq![Step::Finish], kind);
}

proof fn lemma_number_table(l: Layout, guids: Guids, kind: Kind)
    ensures
        number_of(table_steps(l, false, guids), kind) == (match kind {
            Kind::GenerateTable => 1int,
            Kind::MakeTable => 1,
            Kind::AnnounceTable => 1,
            Kind::WriteTable => 1,
            Kind::Flush => 1,
            Kind::Line(i) => if 1 <= i <= 3 {
                1
            } else {
                0
            },
            _ => 0,
        }),
{
    let s = table_steps(l, false, guids);
    let s0 = Seq::<Step>::empty();
    let s1 = s0.push(s[0]);
    let s2 = s1.push(s[1]);
    let s3 = s2.push(s[2]);
    let s4 = s3.push(s[3]);
    let s5 = s4.push(s[4]);
    let s6 = s5.push(s[5]);
    let s7 = s6.push(s[6]);
    assert(s =~= s7.push(s[7]));
    lemma_number_push(s0, s[0], kind);
    lemma_number_push(s1, s[1], kind);
    lemma_number_push(s2, s[2], kind);
    lemma_number_push(s3, s[3], kind);
    lemma_number_push(s4, s[4], kind);
    lemma_number_push(s5, s[5], kind);
    lemma_number_push(s6, s[6], kind);
    lemma_number_push(s7, s[7], kind);
}

proof fn lemma_number_image(l: Layout, slot: PartName, image_len: u64, kind: Kind)
    ensures
        number_of(image_steps(l, slot, image_len), kind) == (match kind {
            Kind::AnnounceImage(s) => if s == slot {
                1int
            } else {
                0
            },
            Kind::BeginImage => 1,
            Kind::WriteImage => 1,
            Kind::Flush => 1,
            Kind::Finish => 1,
            _ => 0,
        }),
{
    let s = image_steps(l, slot, image_len);
    let s0 = Seq::<Step>::empty();
    let s1 = s0.push(s[0]);
    let s2 = s1.push(s[1]);
    let s3 = s2.push(s[2]);
    let s4 = s3.push(s[3]);
    assert(s =~= s4.push(s[4]));
    lemma_number_push(s0, s[0], kind);
    lemma_number_push(s1, s[1], kind);
    lemma_number_push(s2, s[2], kind);
    lemma_number_push(s3, s[3], kind);
    lemma_number_push(s4, s[4], kind);
}

proof fn lemma_number_end(l: Layout, magic: bool, reset: bool, kind: Kind)
    ensures
        number_of(marker_steps(l, magic), kind) == (match kind {
            Kind::AnnounceMarkers => if magic {
                1int
            } else {
                0
            },
            Kind::WriteMarker => if magic {
                2
            } else {
                0
            },
            Kind::Flush => if magic {
                1
            } else {
                0
            },
            _ => 0,
        }),
        number_of(reset_steps(reset), kind) == (if reset && (kind == Kind::AnnounceReset || kind
            == Kind::Reset) {
            1int
        } else {
            0
        }),
{
    let s0 = Seq::<Step>::empty();
    if magic {
        let s = marker_steps(l, magic);
        let s1 = s0.push(s[0]);
        let s2 = s1.push(s[1]);
        let s3 = s2.push(s[2]);
        assert(s =~= s3.push(s[3]));
        lemma_number_push(s0, s[0], kind);
        lemma_number_push(s1, s[1], kind);
        lemma_number_push(s2, s[2], kind);
        lemma_number_push(s3, s[3], kind);
    }
    if reset {
        let s = reset_steps(reset);
        let s1 = s0.push(s[0]);
        assert(s =~= s1.push(s[1]));
        lemma_number_push(s0, s[0], kind);
        lemma_number_push(s1, s[1], kind);
    }
}

proof fn lemma_number_start(l: Layout, target: Partition, keep: bool, sectors: u32, kind: Kind)
    requires
        kind != Kind::Erase,
    ensures
        ({
            let a = if writes_a(target) {
                1int
            } else {
                0
            };
            let b = if writes_b(target) {
                1int
            } else {
                0
            };
            number_of(erasing(l, target, keep, sectors), kind) == (match kind {
                Kind::KeepLayout => if keep {
                    1int
                } else {
                    0
                },
                Kind::EraseCard => if keep {
                    0
                } else {
                    1
                },
                Kind::BeginCard => if keep {
                    0
                } else {
                    1
                },
                Kind::BeginSlot(slot) => if !keep || slot == PartName::Userdata {
                    0
                } else if slot == PartName::RootfsA {
                    a
                } else {
                    b
                },
                Kind::Finish => if keep {
                    a + b
                } else {
                    1
                },
                _ => 0,
            })
        }),
{
    let none = Seq::<Step>::empty();
    if keep {
        let note = Step::Note(Note::KeepLayout { target });
        let a_erase = erase_slot_steps(l, PartName::RootfsA);
        let b_erase = erase_slot_steps(l, PartName::RootfsB);
        lemma_erase_slots(l, target);
        lemma_number_push(none, note, kind);
        lemma_number_erase_steps(
            l.a_start as nat,
            (l.a_end - l.a_start + 1) as nat,
            Task::EraseSlot { slot: PartName::RootfsA },
            kind,
        );
        lemma_number_erase_steps(
            l.b_start as nat,
            (l.b_end - l.b_start + 1) as nat,
            Task::EraseSlot { slot: PartName::RootfsB },
            kind,
        );
        lemma_number_join(a_erase, b_erase, kind);
        lemma_number_join(seq![note], erase_slots_steps(l, slots_of(target)), kind);
    } else {
        let note = Step::Note(Note::EraseCard { sectors });
        lemma_number_push(none, note, kind);
        lemma_number_erase_steps(0, sectors as nat, Task::EraseCard, kind);
        lemma_number_join(seq![note], erase_steps(0, sectors as nat, Task::EraseCard), kind);
    }
}

proof fn lemma_number_images(l: Layout, target: Partition, image_len: u64, kind: Kind)
    ensures
        ({
            let a = if writes_a(target) {
                1int
            } else {
                0
            };
            let b = if writes_b(target) {
                1int
            } else {
                0
            };
            number_of(images_steps(l, slots_of(target), image_len), kind) == (match kind {
                Kind::AnnounceImage(slot) => match slot {
                    PartName::RootfsA => a,
                    PartName::RootfsB => b,
                    PartName::Userdata => 0,
                },
                Kind::BeginImage => a + b,
                Kind::WriteImage => a + b,
                Kind::Flush => a + b,
                Kind::Finish => a + b,
                _ => 0,
            })
        }),
{
    lemma_images(l, target, image_len);
    lemma_number_image(l, PartName::RootfsA, image_len, kind);
    lemma_number_image(l, PartName::RootfsB, image_len, kind);
    lemma_number_join(
        image_steps(l, PartName::RootfsA, image_len),
        image_steps(l, PartName::RootfsB, image_len),
        kind,
    );
}

/// How many steps of each kind a flash holds, erase commands aside. A new table is made and
/// written once, and not at all if the layout stays; the image is written once for each chosen
/// slot; there are two markers or none, and one reset or none; everything written is flushed.
pub open spec fn due_number(cfg: ConfigView, keep: bool, kind: Kind) -> int {
    let a = if writes_a(cfg.target_partition) {
        1int
    } else {
        0
    };
    let b = if writes_b(cfg.target_partition) {
        1int
    } else {
        0
    };
    let magic = if cfg.userdata_magic {
        1int
    } else {
        0
    };
    let reset = if cfg.reset_after_flash {
        1int
    } else {
        0
    };
    let fresh = if keep {
        0int
    } else {
        1
    };
    match kind {
        Kind::KeepLayout => 1 - fresh,
        Kind::EraseCard => fresh,
        Kind::BeginCard => fresh,
        Kind::BeginSlot(slot) => match slot {
            PartName::RootfsA => a * (1 - fresh),
            PartName::RootfsB => b * (1 - fresh),
            PartName::Userdata => 0,
        },
        Kind::Finish => a + b + if keep {
            a + b
        } else {
            1
        },
        Kind::Pause => 1,
        Kind::GenerateTable => fresh,
        Kind::MakeTable => fresh,
        Kind::AnnounceTable => fresh,
        Kind::WriteTable => fresh,
        Kind::Line(i) => if 1 <= i <= 3 {
            fresh
        } else {
            0
        },
        Kind::AnnounceImage(slot) => match slot {
            PartName::RootfsA => a,
            PartName::RootfsB => b,
            PartName::Userdata => 0,
        },
        Kind::BeginImage => a + b,
        Kind::WriteImage => a + b,
        Kind::AnnounceMarkers => magic,
        Kind::WriteMarker => 2 * magic,
        Kind::AnnounceReset => reset,
        Kind::Reset => reset,
        Kind::Flush => fresh + a + b + magic,
        _ => 0,
    }
}

/// A flash holds each kind of step as often as it should.
#[verifier::rlimit(40)]
pub proof fn law_number_of_steps(
    steps: Seq<Step>,
    cfg: ConfigView,
    image_len: u64,
    card: Capacity,
    existing: Option<Layout>,
    guids: Guids,
    kind: Kind,
)
    requires
        is_plan(steps, cfg, image_len, card, existing, guids),
        kind != Kind::Erase,
    ensures
        number_of(steps, kind) == due_number(
            cfg,
            existing == Some(flash_layout(cfg, image_len, card)->Ok_0),
            kind,
        ),
{
    let l = flash_layout(cfg, image_len, card)->Ok_0;
    let keep = existing == Some(l);
    let target = cfg.target_partition;
    let start = erasing(l, target, keep, card.sectors);
    let pause = Step::Pause { millis: 100 };
    let table = table_steps(l, keep, guids);
    let images = images_steps(l, slots_of(target), image_len);
    let markers = marker_steps(l, cfg.userdata_magic);
    let reset = reset_steps(cfg.reset_after_flash);
    lemma_number_start(l, target, keep, card.sectors, kind);
    lemma_number_push(Seq::empty(), pause, kind);
    if keep {
        assert(table =~= Seq::<Step>::empty());
    } else {
        lemma_number_table(l, guids, kind);
    }
    lemma_number_images(l, target, image_len, kind);
    lemma_number_end(l, cfg.userdata_magic, cfg.reset_after_flash, kind);
    let s1 = start + seq![pause];
    let s2 = s1 + table;
    let s3 = s2 + images;
    let s4 = s3 + markers;
    lemma_number_join(start, seq![pause], kind);
    lemma_number_join(s1, table, kind);
    lemma_number_join(s2, images, kind);
    lemma_number_join(s3, markers, kind);
    lemma_number_join(s4, reset, kind);
    assert(steps == s4 + reset);
}

/// The place of a step among the others; steps without one stand in several places.
pub open spec fn rank_of(step: Step) -> int {
    match kind_of(step) {
        Kind::KeepLayout => 0,
        Kind::EraseCard => 0,
        Kind::BeginCard => 1,
        Kind::BeginSlot(slot) => 1,
        Kind::Erase => 1,
        Kind::Pause => 2,
        Kind::GenerateTable => 3,
        Kind::MakeTable => 4,
        Kind::AnnounceTable => 5,
        Kind::WriteTable => 6,
        Kind::Line(i) => 6 + i,
        Kind::AnnounceImage(slot) => if slot == PartName::RootfsA {
            10
        } else {
            11
        },
        Kind::AnnounceMarkers => 12,
        Kind::WriteMarker => 13,
        Kind::AnnounceReset => 14,
        Kind::Reset => 15,
        _ => -1,
    }
}

/// Whether a step may stand right behind another.
pub open spec fn may_follow(a: Step, b: Step, l: Layout) -> bool {
    let k = kind_of(b);
    match kind_of(a) {
        Kind::KeepLayout => k is BeginSlot,
        Kind::EraseCard => k == Kind::BeginCard,
        Kind::BeginCard => k == Kind::Erase && b->Erase_0.first == 0,
        Kind::BeginSlot(slot) => k == Kind::Erase && b->Erase_0.first == (if slot
            == PartName::RootfsA {
            l.a_start
        } else {
            l.b_start
        }),
        Kind::Erase => k == Kind::Erase || k == Kind::Finish,
        Kind::Finish => k is BeginSlot || k == Kind::Pause || k is AnnounceImage || k
            == Kind::AnnounceMarkers || k == Kind::AnnounceReset,
        Kind::Pause => k == Kind::GenerateTable || k is AnnounceImage,
        Kind::GenerateTable => k == Kind::MakeTable,
        Kind::MakeTable => k == Kind::AnnounceTable,
        Kind::AnnounceTable => k == Kind::WriteTable,
        Kind::WriteTable => k == Kind::Flush,
        Kind::Line(i) => if i == 3 {
            k is AnnounceImage
        } else {
            k == Kind::Line(i + 1)
        },
        Kind::AnnounceImage(slot) => k == Kind::BeginImage,
        Kind::BeginImage => k == Kind::WriteImage,
        Kind::WriteImage => k == Kind::Flush,
        Kind::Flush => k == Kind::Line(1) || k == Kind::Finish || k == Kind::AnnounceReset,
        Kind::AnnounceMarkers => k == Kind::WriteMarker,
        Kind::WriteMarker => k == Kind::WriteMarker || k == Kind::Flush,
        Kind::AnnounceReset => k == Kind::Reset,
        _ => false,
    }
}

/// Whether each announced image is written where it is said to go.
pub open spec fn kept_word(steps: Seq<Step>, i: int) -> bool {
    kind_of(steps[i]) is AnnounceImage ==> {
        &&& i + 2 < steps.len()
        &&& kind_of(steps[i + 2]) == Kind::WriteImage
        &&& steps[i + 2]->WriteImage_offset == steps[i]->Note_0->WriteImage_lba * 512
    }
}

/// Steps that follow each other as they may, with places from `lo` to `hi` in order.
#[verifier::opaque]
spec fn in_line(steps: Seq<Step>, l: Layout, lo: int, hi: int) -> bool {
    &&& forall|i: int| 0 <= i < steps.len() ==> #[trigger] kept_word(steps, i)
    &&& forall|i: int|
        0 < i < steps.len() ==> may_follow(steps[i - 1], #[trigger] steps[i], l)
    &&& forall|i: int|
        0 <= i < steps.len() ==> rank_of(#[trigger] steps[i]) == -1 || lo <= rank_of(steps[i])
            <= hi
    &&& forall|i: int, j: int|
        #![trigger steps[i], steps[j]]
        0 <= i < j < steps.len() && rank_of(steps[j]) >= 0 ==> rank_of(steps[i]) <= rank_of(
            steps[j],
        )
}

proof fn lemma_in_line_join(a: Seq<Step>, b: Seq<Step>, l: Layout, lo: int, m: int, hi: int)
    requires
        in_line(a, l, lo, m),
        in_line(b, l, m, hi),
        lo <= m <= hi,
        a.len() > 0 && b.len() > 0 ==> may_follow(a.last(), b[0], l),
    ensures
        in_line(a + b, l, lo, hi),
        a.len() > 0 ==> (a + b)[0] == a[0],
        b.len() > 0 ==> (a + b).last() == b.last(),
        b.len() == 0 ==> a + b == a,
        (a + b).len() == a.len() + b.len(),
{
    reveal(in_line);
    let s = a + b;
    assert forall|i: int| 0 <= i < s.len() implies #[trigger] kept_word(s, i) by {
        if i < a.len() {
            assert(kept_word(a, i));
        } else {
            assert(kept_word(b, i - a.len()));
        }
    }
    assert forall|i: int| 0 < i < s.len() implies may_follow(s[i - 1], #[trigger] s[i], l) by {
        if i < a.len() {
            assert(may_follow(a[i - 1], a[i], l));
        } else if i > a.len() {
            assert(may_follow(b[i - a.len() - 1], b[i - a.len()], l));
        }
    }
    assert forall|i: int, j: int|
        #![trigger s[i], s[j]]
        0 <= i < j < s.len() && rank_of(s[j]) >= 0 implies rank_of(s[i]) <= rank_of(s[j]) by {
        if j < a.len() {
            assert(s[i] == a[i] && s[j] == a[j]);
        } else if i >= a.len() {
            assert(s[i] == b[i - a.len()] && s[j] == b[j - a.len()]);
        } else {
            assert(s[i] == a[i] && s[j] == b[j - a.len()]);
        }
    }
    if b.len() == 0 {
        assert(a + b =~= a);
    }
}

proof fn lemma_in_line_one(step: Step, l: Layout, lo: int, hi: int)
    requires
        lo <= rank_of(step) <= hi,
        !(kind_of(step) is AnnounceImage),
    ensures
        in_line(seq![step], l, lo, hi),
{
    reveal(in_line);
}

proof fn lemma_in_line_erase(first: nat, count: nat, task: Task, l: Layout)
    requires
        0 < count,
        first + count <= u32::MAX,
        match task {
            Task::EraseCard => first == 0,
            Task::EraseSlot { slot } => first == (if slot == PartName::RootfsA {
                l.a_start
            } else {
                l.b_start
            }),
            Task::WriteImage => false,
        },
    ensures
        in_line(erase_steps(first, count, task), l, 1, 1),
        erase_steps(first, count, task).len() >= 2,
        erase_steps(first, count, task).last() == Step::Finish,
        erase_steps(first, count, task)[0] == (Step::Begin { total: count as u64, task }),
{
    reveal(in_line);
    let s = erase_steps(first, count, task);
    let chunks = erase_chunks(first, count, 0x8000);
    law_erase_commands(first, count, 0x8000, 0);
    assert(s.len() == chunks.len() + 2);
    assert(chunks.len() > 0);
    assert forall|i: int| 0 < i < s.len() - 1 implies #[trigger] s[i] is Erase by {
        assert(s[i] == Step::Erase(chunks[i - 1]));
    }
    assert(s[1]->Erase_0.first == first);
}

proof fn lemma_in_line_table(l: Layout, keep: bool, guids: Guids)
    ensures
        in_line(table_steps(l, keep, guids), l, 2, 9),
        keep ==> table_steps(l, keep, guids).len() == 0,
        !keep ==> table_steps(l, keep, guids).len() == 8,
        !keep ==> kind_of(table_steps(l, keep, guids)[0]) == Kind::GenerateTable,
        !keep ==> kind_of(table_steps(l, keep, guids).last()) == Kind::Line(3),
{
    reveal(in_line);
}

proof fn lemma_in_line_image(l: Layout, slot: PartName, image_len: u64)
    requires
        slot != PartName::Userdata,
        l.start_of(slot) <= u32::MAX,
    ensures
        slot == PartName::RootfsA ==> in_line(image_steps(l, slot, image_len), l, 9, 10),
        slot == PartName::RootfsB ==> in_line(image_steps(l, slot, image_len), l, 10, 11),
        in_line(image_steps(l, slot, image_len), l, 9, 11),
        image_steps(l, slot, image_len).len() == 5,
        kind_of(image_steps(l, slot, image_len)[0]) is AnnounceImage,
        image_steps(l, slot, image_len).last() == Step::Finish,
{
    reveal(in_line);
    assert(kept_word(image_steps(l, slot, image_len), 0));
}

proof fn lemma_in_line_end(l: Layout, magic: bool, reset: bool)
    ensures
        in_line(marker_steps(l, magic), l, 11, 13),
        marker_steps(l, magic).len() == (if magic {
            4nat
        } else {
            0
        }),
        magic ==> kind_of(marker_steps(l, magic)[0]) == Kind::AnnounceMarkers,
        magic ==> marker_steps(l, magic).last() == Step::Flush,
        in_line(reset_steps(reset), l, 13, 15),
        reset_steps(reset).len() == (if reset {
            2nat
        } else {
            0
        }),
        reset ==> kind_of(reset_steps(reset)[0]) == Kind::AnnounceReset,
        reset ==> reset_steps(reset).last() == Step::Reset,
{
    reveal(in_line);
}

/// Whether all steps belong to the flash.
#[verifier::opaque]
spec fn all_due(
    steps: Seq<Step>,
    cfg: ConfigView,
    l: Layout,
    keep: bool,
    image_len: u64,
    sectors: u32,
    guids: Guids,
) -> bool {
    forall|i: int|
        0 <= i < steps.len() ==> is_due(
            #[trigger] steps[i],
            cfg,
            l,
            keep,
            image_len,
            sectors,
            guids,
        )
}

proof fn lemma_due_join(
    a: Seq<Step>,
    b: Seq<Step>,
    cfg: ConfigView,
    l: Layout,
    keep: bool,
    image_len: u64,
    sectors: u32,
    guids: Guids,
)
    requires
        all_due(a, cfg, l, keep, image_len, sectors, guids),
        all_due(b, cfg, l, keep, image_len, sectors, guids),
    ensures
        all_due(a + b, cfg, l, keep, image_len, sectors, guids),
{
    reveal(all_due);
    let s = a + b;
    assert forall|i: int| 0 <= i < s.len() implies is_due(
        #[trigger] s[i],
        cfg,
        l,
        keep,
        image_len,
        sectors,
        guids,
    ) by {
        if i < a.len() {
            assert(s[i] == a[i]);
        } else {
            assert(s[i] == b[i - a.len()]);
        }
    }
}

proof fn lemma_due_erase(
    first: nat,
    count: nat,
    task: Task,
    cfg: ConfigView,
    l: Layout,
    keep: bool,
    image_len: u64,
    sectors: u32,
    guids: Guids,
)
    requires
        first + count <= u32::MAX,
        is_due(
            Step::Begin { total: count as u64, task },
            cfg,
            l,
            keep,
            image_len,
            sectors,
            guids,
        ),
    ensures
        all_due(erase_steps(first, count, task), cfg, l, keep, image_len, sectors, guids),
{
    reveal(all_due);
    let s = erase_steps(first, count, task);
    let chunks = erase_chunks(first, count, 0x8000);
    assert forall|i: int| 0 <= i < s.len() implies is_due(
        #[trigger] s[i],
        cfg,
        l,
        keep,
        image_len,
        sectors,
        guids,
    ) by {
        if 0 < i < s.len() - 1 {
            law_erase_commands(first, count, 0x8000, i - 1);
            assert(s[i] == Step::Erase(chunks[i - 1]));
        }
    }
}

proof fn lemma_due_table(
    cfg: ConfigView,
    l: Layout,
    keep: bool,
    image_len: u64,
    sectors: u32,
    guids: Guids,
)
    requires
        l.a_start <= l.a_end <= u32::MAX,
        l.b_start <= l.b_end <= u32::MAX,
        l.user_start <= l.user_end <= u32::MAX,
    ensures
        all_due(table_steps(l, keep, guids), cfg, l, keep, image_len, sectors, guids),
{
    reveal(all_due);
}

proof fn lemma_due_image(
    slot: PartName,
    cfg: ConfigView,
    l: Layout,
    keep: bool,
    image_len: u64,
    sectors: u32,
    guids: Guids,
)
    requires
        l.start_of(slot) <= u32::MAX,
        writes_a(cfg.target_partition) && slot == PartName::RootfsA || writes_b(
            cfg.target_partition,
        ) && slot == PartName::RootfsB,
    ensures
        all_due(image_steps(l, slot, image_len), cfg, l, keep, image_len, sectors, guids),
{
    reveal(all_due);
}

proof fn lemma_due_end(
    cfg: ConfigView,
    l: Layout,
    keep: bool,
    image_len: u64,
    sectors: u32,
    guids: Guids,
)
    requires
        l.user_start <= l.user_end <= u32::MAX,
    ensures
        all_due(marker_steps(l, cfg.userdata_magic), cfg, l, keep, image_len, sectors, guids),
        all_due(reset_steps(cfg.reset_after_flash), cfg, l, keep, image_len, sectors, guids),
{
    reveal(all_due);
}

proof fn lemma_due_one(
    step: Step,
    cfg: ConfigView,
    l: Layout,
    keep: bool,
    image_len: u64,
    sectors: u32,
    guids: Guids,
)
    requires
        is_due(step, cfg, l, keep, image_len, sectors, guids),
    ensures
        all_due(seq![step], cfg, l, keep, image_len, sectors, guids),
{
    reveal(all_due);
}

/// Each step of a flash is one that the settings, the card and the image ask for, with the
/// numbers that they give.
#[verifier::rlimit(40)]
pub proof fn law_every_step_is_due(
    steps: Seq<Step>,
    cfg: ConfigView,
    image_len: u64,
    card: Capacity,
    existing: Option<Layout>,
    guids: Guids,
    i: int,
)
    requires
        is_plan(steps, cfg, image_len, card, existing, guids),
        0 <= i < steps.len(),
    ensures
        ({
            let l = flash_layout(cfg, image_len, card)->Ok_0;
            is_due(steps[i], cfg, l, existing == Some(l), image_len, card.sectors, guids)
        }),
{
    let l = flash_layout(cfg, image_len, card)->Ok_0;
    let n = card.sectors;
    let keep = existing == Some(l);
    let target = cfg.target_partition;
    law_layout(n as u64, cfg.rootfs_size_bytes);
    lemma_erase_slots(l, target);
    lemma_images(l, target, image_len);
    let start = erasing(l, target, keep, n);
    let count = (l.a_end - l.a_start + 1) as nat;
    let a_task = Task::EraseSlot { slot: PartName::RootfsA };
    let b_task = Task::EraseSlot { slot: PartName::RootfsB };
    let pause = Step::Pause { millis: 100 };
    let table = table_steps(l, keep, guids);
    let images = images_steps(l, slots_of(target), image_len);
    let markers = marker_steps(l, cfg.userdata_magic);
    let reset = reset_steps(cfg.reset_after_flash);
    let a_erase = erase_slot_steps(l, PartName::RootfsA);
    let b_erase = erase_slot_steps(l, PartName::RootfsB);
    let a_image = image_steps(l, PartName::RootfsA, image_len);
    let b_image = image_steps(l, PartName::RootfsB, image_len);
    if writes_a(target) {
        if keep {
            lemma_due_erase(
                l.a_start as nat,
                count,
                a_task,
                cfg,
                l,
                keep,
                image_len,
                n,
                guids,
            );
        }
        lemma_due_image(PartName::RootfsA, cfg, l, keep, image_len, n, guids);
    }
    if writes_b(target) {
        if keep {
            lemma_due_erase(
                l.b_start as nat,
                count,
                b_task,
                cfg,
                l,
                keep,
                image_len,
                n,
                guids,
            );
        }
        lemma_due_image(PartName::RootfsB, cfg, l, keep, image_len, n, guids);
    }
    if target == Partition::Both {
        if keep {
            lemma_due_join(a_erase, b_erase, cfg, l, keep, image_len, n, guids);
        }
        lemma_due_join(a_image, b_image, cfg, l, keep, image_len, n, guids);
    }
    if keep {
        let note = Step::Note(Note::KeepLayout { target });
        lemma_due_one(note, cfg, l, keep, image_len, n, guids);
        lemma_due_join(
            seq![note],
            erase_slots_steps(l, slots_of(target)),
            cfg,
            l,
            keep,
            image_len,
            n,
            guids,
        );
    } else {
        let note = Step::Note(Note::EraseCard { sectors: n });
        let all = erase_steps(0, n as nat, Task::EraseCard);
        lemma_due_one(note, cfg, l, keep, image_len, n, guids);
        lemma_due_erase(0, n as nat, Task::EraseCard, cfg, l, keep, image_len, n, guids);
        lemma_due_join(seq![note], all, cfg, l, keep, image_len, n, guids);
    }
    lemma_due_one(pause, cfg, l, keep, image_len, n, guids);
    lemma_due_table(cfg, l, keep, image_len, n, guids);
    lemma_due_end(cfg, l, keep, image_len, n, guids);
    let s1 = start + seq![pause];
    let s2 = s1 + table;
    let s3 = s2 + images;
    let s4 = s3 + markers;
    lemma_due_join(start, seq![pause], cfg, l, keep, image_len, n, guids);
    lemma_due_join(s1, table, cfg, l, keep, image_len, n, guids);
    lemma_due_join(s2, images, cfg, l, keep, image_len, n, guids);
    lemma_due_join(s3, markers, cfg, l, keep, image_len, n, guids);
    lemma_due_join(s4, reset, cfg, l, keep, image_len, n, guids);
    reveal(all_due);
}

#[verifier::rlimit(40)]
proof fn lemma_plan_in_line(
    steps: Seq<Step>,
    cfg: ConfigView,
    image_len: u64,
    card: Capacity,
    existing: Option<Layout>,
    guids: Guids,
)
    requires
        is_plan(steps, cfg, image_len, card, existing, guids),
    ensures
        steps.len() > 0,
        in_line(steps, flash_layout(cfg, image_len, card)->Ok_0, 0, 15),
        kind_of(steps[0]) == (if existing == Some(flash_layout(cfg, image_len, card)->Ok_0) {
            Kind::KeepLayout
        } else {
            Kind::EraseCard
        }),
        kind_of(steps.last()) == (if cfg.reset_after_flash {
            Kind::Reset
        } else if cfg.userdata_magic {
            Kind::Flush
        } else {
            Kind::Finish
        }),
{
    let l = flash_layout(cfg, image_len, card)->Ok_0;
    let keep = existing == Some(l);
    let target = cfg.target_partition;
    law_layout(card.sectors as u64, cfg.rootfs_size_bytes);
    lemma_erase_slots(l, target);
    lemma_images(l, target, image_len);
    let start = erasing(l, target, keep, card.sectors);
    let note = if keep {
        Step::Note(Note::KeepLayout { target })
    } else {
        Step::Note(Note::EraseCard { sectors: card.sectors })
    };
    let count = (l.a_end - l.a_start + 1) as nat;
    let a_task = Task::EraseSlot { slot: PartName::RootfsA };
    let b_task = Task::EraseSlot { slot: PartName::RootfsB };
    lemma_in_line_erase(l.a_start as nat, count, a_task, l);
    lemma_in_line_erase(l.b_start as nat, count, b_task, l);
    lemma_in_line_erase(0, card.sectors as nat, Task::EraseCard, l);
    let pause = Step::Pause { millis: 100 };
    let table = table_steps(l, keep, guids);
    let images = images_steps(l, slots_of(target), image_len);
    let markers = marker_steps(l, cfg.userdata_magic);
    let reset = reset_steps(cfg.reset_after_flash);
    let a_erase = erase_slot_steps(l, PartName::RootfsA);
    let b_erase = erase_slot_steps(l, PartName::RootfsB);
    let a_image = image_steps(l, PartName::RootfsA, image_len);
    let b_image = image_steps(l, PartName::RootfsB, image_len);
    lemma_in_line_join(a_erase, b_erase, l, 1, 1, 1);
    let erased = if keep {
        erase_slots_steps(l, slots_of(target))
    } else {
        erase_steps(0, card.sectors as nat, Task::EraseCard)
    };
    lemma_in_line_one(note, l, 0, 1);
    lemma_in_line_join(seq![note], erased, l, 0, 1, 1);
    lemma_in_line_one(pause, l, 1, 2);
    lemma_in_line_join(start, seq![pause], l, 0, 1, 2);
    lemma_in_line_table(l, keep, guids);
    let s1 = start + seq![pause];
    let s2 = s1 + table;
    let s3 = s2 + images;
    let s4 = s3 + markers;
    lemma_in_line_join(s1, table, l, 0, 2, 9);
    lemma_in_line_image(l, PartName::RootfsA, image_len);
    lemma_in_line_image(l, PartName::RootfsB, image_len);
    lemma_in_line_join(a_image, b_image, l, 9, 10, 11);
    lemma_in_line_join(s2, images, l, 0, 9, 11);
    lemma_in_line_end(l, cfg.userdata_magic, cfg.reset_after_flash);
    lemma_in_line_join(s3, markers, l, 0, 11, 13);
    lemma_in_line_join(s4, reset, l, 0, 13, 15);
}

/// The steps of a flash stand in order: what is erased comes before the pause, and behind it come
/// the table, the image for slot A, the image for slot B, the markers and the reset; each message
/// stands right before what it announces, and what is written is flushed at once. The first step
/// says what becomes of the layout.
pub proof fn law_steps_are_in_order(
    steps: Seq<Step>,
    cfg: ConfigView,
    image_len: u64,
    card: Capacity,
    existing: Option<Layout>,
    guids: Guids,
)
    requires
        is_plan(steps, cfg, image_len, card, existing, guids),
    ensures
        ({
            let l = flash_layout(cfg, image_len, card)->Ok_0;
            &&& kind_of(steps[0]) == (if existing == Some(l) {
                Kind::KeepLayout
            } else {
                Kind::EraseCard
            })
            &&& kind_of(steps.last()) == (if cfg.reset_after_flash {
                Kind::Reset
            } else if cfg.userdata_magic {
                Kind::Flush
            } else {
                Kind::Finish
            })
            &&& forall|i: int| 0 <= i < steps.len() ==> #[trigger] kept_word(steps, i)
            &&& forall|i: int|
                0 < i < steps.len() ==> may_follow(steps[i - 1], #[trigger] steps[i], l)
            &&& forall|i: int, j: int|
                #![trigger steps[i], steps[j]]
                0 <= i < j < steps.len() && rank_of(steps[j]) >= 0 ==> rank_of(steps[i])
                    <= rank_of(steps[j])
        }),
{
    lemma_plan_in_line(steps, cfg, image_len, card, existing, guids);
    reveal(in_line);
}

proof fn lemma_reset_is_last(steps: Seq<Step>, l: Layout)
    requires
        in_line(steps, l, 0, 15),
    ensures
        forall|i: int| 0 <= i < steps.len() - 1 ==> !(#[trigger] steps[i] is Reset),
{
    reveal(in_line);
    assert forall|i: int| 0 <= i < steps.len() - 1 implies !(#[trigger] steps[i] is Reset) by {
        let j = i + 1;
        assert(may_follow(steps[j - 1], steps[j], l));
    }
}

/// Where step `i` stands behind every step that writes the table or the image.
pub open spec fn behind_table_and_image(steps: Seq<Step>, i: int) -> bool {
    forall|j: int|
        i <= j < steps.len() ==> !(#[trigger] steps[j] is Erase) && !(steps[j] is MakeTable)
            && !(steps[j] is WriteTable) && !(steps[j] is WriteImage)
}

proof fn lemma_last_steps(before: Seq<Step>, l: Layout, reset: bool)
    requires
        l.user_start <= l.user_end <= u32::MAX,
    ensures
        ({
            let steps = before + marker_steps(l, true) + reset_steps(reset);
            let n = before.len() as int;
            &&& n + 3 < steps.len()
            &&& steps[n + 1] is WriteMarker
            &&& steps[n + 1]->WriteMarker_offset == l.user_start * 512
            &&& steps[n + 2] is WriteMarker
            &&& steps[n + 2]->WriteMarker_offset == (l.user_end + 1) * 512 - 20
            &&& behind_table_and_image(steps, n + 1)
        }),
{
    let markers = marker_steps(l, true);
    let steps = before + markers + reset_steps(reset);
    let n = before.len() as int;
    assert(steps[n + 1] == markers[1]);
    assert(steps[n + 2] == markers[2]);
    assert(steps[n + 3] == markers[3]);
    assert forall|j: int| n + 1 <= j < steps.len() implies !(#[trigger] steps[j] is Erase) && !(
    steps[j] is MakeTable) && !(steps[j] is WriteTable) && !(steps[j] is WriteImage) by {
        if j >= n + 4 {
            assert(steps[j] == reset_steps(reset)[j - n - 4]);
        }
    }
}

/// Whether or not the layout stays: if the markers are asked for, one is written at the first
/// byte of userdata and one in its last 20 bytes, both behind the table and the image; if not,
/// none is written. The last step is a reset exactly if a reset is asked for.
pub proof fn law_markers_and_reset(
    steps: Seq<Step>,
    cfg: ConfigView,
    image_len: u64,
    card: Capacity,
    existing: Option<Layout>,
    guids: Guids,
)
    requires
        is_plan(steps, cfg, image_len, card, existing, guids),
    ensures
        ({
            let l = flash_layout(cfg, image_len, card)->Ok_0;
            &&& cfg.userdata_magic ==> exists|i: int, j: int|
                #![trigger steps[i], steps[j]]
                {
                    &&& 0 <= i < j < steps.len()
                    &&& steps[i] is WriteMarker
                    &&& steps[i]->WriteMarker_offset == l.user_start * 512
                    &&& steps[j] is WriteMarker
                    &&& steps[j]->WriteMarker_offset == (l.user_end + 1) * 512 - 20
                    &&& behind_table_and_image(steps, i)
                }
            &&& !cfg.userdata_magic ==> forall|i: int|
                0 <= i < steps.len() ==> !(#[trigger] steps[i] is WriteMarker)
            &&& steps.last() is Reset <==> cfg.reset_after_flash
            &&& forall|i: int|
                0 <= i < steps.len() - 1 ==> !(#[trigger] steps[i] is Reset)
        }),
{
    let l = flash_layout(cfg, image_len, card)->Ok_0;
    law_layout(card.sectors as u64, cfg.rootfs_size_bytes);
    let keep = existing == Some(l);
    let markers = marker_steps(l, cfg.userdata_magic);
    let reset = reset_steps(cfg.reset_after_flash);
    let before = erasing(l, cfg.target_partition, keep, card.sectors)
        + seq![Step::Pause { millis: 100 }] + table_steps(l, keep, guids) + images_steps(
        l,
        slots_of(cfg.target_partition),
        image_len,
    );
    assert(steps == before + markers + reset);
    lemma_plan_in_line(steps, cfg, image_len, card, existing, guids);
    if cfg.userdata_magic {
        lemma_last_steps(before, l, cfg.reset_after_flash);
    } else {
        assert forall|i: int| 0 <= i < steps.len() implies !(#[trigger] steps[i] is WriteMarker) by {
            law_every_step_is_due(steps, cfg, image_len, card, existing, guids, i);
        }
    }
    lemma_reset_is_last(steps, l);
}

} // verus!
