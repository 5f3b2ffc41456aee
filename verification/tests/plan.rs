use leaflash::device::Capacity;
use leaflash::flash::{Config, Layout, LayoutError, Partition};
use leaflash::plan::{
    card_layout, check_image, check_request, chunk_erase, done_text, erase_in_chunks, flash_image,
    plan_flash, reset_warning, EraseChunk, FlashError, Guids, Note, PartName, Step, Task,
    USERDATA_MAGIC,
};

const MIB: u64 = 1024 * 1024;

fn config(target: Partition) -> Config {
    Config {
        image: "rootfs.img".to_string(),
        rootfs_size_bytes: 64 * MIB,
        reset_after_flash: false,
        userdata_magic: false,
        target_partition: target,
    }
}

fn card() -> Capacity {
    Capacity { sectors: 1_000_000, bytes: 512_000_000 }
}

fn guids() -> Guids {
    Guids { disk: [1; 16], rootfs_a: [2; 16], rootfs_b: [3; 16], userdata: [4; 16] }
}

fn layout() -> Layout {
    card_layout(&config(Partition::RootfsA), card()).layout.unwrap()
}

fn names(steps: &[Step]) -> Vec<String> {
    steps
        .iter()
        .map(|s| match s {
            Step::Note(n) => n.text("rootfs.img"),
            Step::Begin { total, task } => format!("begin {total} {}", task.text()),
            Step::Erase(c) => format!("erase {}+{}", c.first, c.count),
            Step::Finish => "finish".to_string(),
            Step::Pause { millis } => format!("pause {millis}"),
            Step::MakeTable(t) => format!(
                "table {} {} {}",
                t.first.name.text(),
                t.second.name.text(),
                t.third.name.text()
            ),
            Step::WriteTable => "write table".to_string(),
            Step::Flush => "flush".to_string(),
            Step::WriteImage { offset, len } => format!("image {len} at {offset}"),
            Step::WriteMarker { offset } => format!("marker at {offset}"),
            Step::Reset => "reset".to_string(),
        })
        .collect()
}

#[test]
fn requests_are_checked() {
    let mut cfg = config(Partition::RootfsA);
    assert_eq!(check_request(&cfg), Ok(()));
    cfg.rootfs_size_bytes = 0;
    assert_eq!(check_request(&cfg), Err(FlashError::ZeroRootfs));
    cfg.rootfs_size_bytes = 513;
    assert_eq!(check_request(&cfg), Err(FlashError::UnalignedRootfs));
    cfg.rootfs_size_bytes = 512;
    assert_eq!(check_image(&cfg, 512), Ok(()));
    assert_eq!(
        check_image(&cfg, 513),
        Err(FlashError::ImageTooLarge { image: 513, rootfs: 512 })
    );
}

#[test]
fn error_texts_are_exact() {
    assert_eq!(FlashError::ZeroRootfs.message(), "rootfs size must be > 0");
    assert_eq!(
        FlashError::UnalignedRootfs.message(),
        "rootfs size must be a multiple of 512 bytes"
    );
    assert_eq!(
        FlashError::ImageTooLarge { image: 3 * MIB + 1, rootfs: 2 * MIB }.message(),
        "image is 3 MiB (3145729 bytes) but rootfs partition is 2 MiB (2097152 bytes); \
         pick --rootfs-size >= 4 MiB"
    );
    assert_eq!(FlashError::NoSectors.message(), "SD card reports 0 sectors");
    assert_eq!(
        FlashError::RootfsTooLarge { rootfs: 300 * MIB, max: 200 * MIB }.message(),
        "rootfs size 300 MiB > 200 MiB (half of SD minus GPT overhead). \
         Pick --rootfs-size <= 200 MiB or use a larger card."
    );
    assert_eq!(
        FlashError::Layout(LayoutError::DiskTooSmall).message(),
        "disk too small for a GPT"
    );
}

#[test]
fn cards_are_looked_at() {
    let cfg = config(Partition::RootfsA);
    let none = card_layout(&cfg, Capacity { sectors: 0, bytes: 0 });
    assert!(none.note.is_none());
    assert_eq!(none.layout, Err(FlashError::NoSectors));
    let small = card_layout(&cfg, Capacity { sectors: 200_000, bytes: 102_400_000 });
    assert_eq!(
        small.note.unwrap().text(""),
        "SD card: 97 MiB (200000 sectors)"
    );
    assert_eq!(
        small.layout,
        Err(FlashError::RootfsTooLarge { rootfs: 64 * MIB, max: 49_102_848 })
    );
    assert_eq!(layout().a_start, 2048);
    assert_eq!(layout().b_start, 2048 + 131_072);
    assert_eq!(layout().user_end, 999_966);
}

#[test]
fn erasing_in_chunks_takes_each_sector_once() {
    assert_eq!(
        chunk_erase(10, 0x8000 + 5),
        vec![
            EraseChunk { first: 10, count: 0x8000 },
            EraseChunk { first: 10 + 0x8000, count: 5 },
        ]
    );
    assert!(chunk_erase(7, 0).is_empty());
    let chunks = erase_in_chunks(3, 2500, 1024);
    let mut next = 3;
    for c in &chunks {
        assert_eq!(c.first, next);
        assert!(1 <= c.count && c.count <= 1024);
        next += c.count as u32;
    }
    assert_eq!(next, 2503);
}

#[test]
fn full_flash_erases_everything_then_writes_the_table_and_the_image() {
    let steps = plan_flash(&config(Partition::RootfsA), 1000, card(), None, &guids()).unwrap();
    let text = names(&steps);
    assert_eq!(text[0], "Erasing whole card (1000000 sectors)...");
    assert_eq!(text[1], "begin 1000000 Erasing card...");
    assert_eq!(text[2], "erase 0+32768");
    assert_eq!(text[32], "erase 983040+16960");
    assert_eq!(
        text[33..],
        [
            "finish",
            "pause 100",
            "Generating GPT (rootfs_a / rootfs_b / userdata)...",
            "table rootfs_a rootfs_b userdata",
            "Writing protective MBR + primary/backup GPT...",
            "write table",
            "flush",
            "  partition 1: rootfs_a 64 MiB (LBA 2048..=133119)",
            "  partition 2: rootfs_b 64 MiB (LBA 133120..=264191)",
            "  partition 3: userdata 359 MiB (LBA 264192..=999966)",
            "Writing image rootfs.img -> rootfs_a (LBA 2048)...",
            "begin 1000 Writing image...",
            "image 1000 at 1048576",
            "flush",
            "finish",
        ]
    );
}

#[test]
fn new_table_starts_from_slot_a() {
    let steps = plan_flash(&config(Partition::RootfsB), 1000, card(), None, &guids()).unwrap();
    let mut seen = 0;
    for s in &steps {
        if let Step::MakeTable(t) = s {
            seen += 1;
            assert_eq!(t.disk_guid, [1; 16]);
            assert_eq!(t.first.unique_partition_guid, [2; 16]);
            assert_eq!(t.first.attribute_bits, 4);
            assert_eq!(t.first.type_guid()[0], 0xAF);
            assert_eq!(t.first.type_guid()[15], 0xE4);
            assert_eq!(t.second.unique_partition_guid, [3; 16]);
            assert_eq!(t.second.attribute_bits, 0);
            assert_eq!(t.third.unique_partition_guid, [4; 16]);
            assert_eq!(
                (t.third.starting_lba, t.third.ending_lba),
                (264_192, 999_966)
            );
        }
    }
    assert_eq!(seen, 1);
}

#[test]
fn refresh_touches_only_the_chosen_slot() {
    let steps =
        plan_flash(&config(Partition::RootfsA), 1000, card(), Some(layout()), &guids()).unwrap();
    assert_eq!(
        names(&steps),
        [
            "Existing GPT matches; preserving rootfs_b and userdata, refreshing rootfs_a only.",
            "begin 131072 Erasing rootfs_a...",
            "erase 2048+32768",
            "erase 34816+32768",
            "erase 67584+32768",
            "erase 100352+32768",
            "finish",
            "pause 100",
            "Writing image rootfs.img -> rootfs_a (LBA 2048)...",
            "begin 1000 Writing image...",
            "image 1000 at 1048576",
            "flush",
            "finish",
        ]
    );
}

#[test]
fn refresh_of_both_slots_erases_and_writes_both() {
    let steps =
        plan_flash(&config(Partition::Both), 1000, card(), Some(layout()), &guids()).unwrap();
    let text = names(&steps);
    assert_eq!(
        text[0],
        "Existing GPT matches; preserving userdata, refreshing rootfs_a and rootfs_b."
    );
    assert!(text.contains(&"begin 131072 Erasing rootfs_b...".to_string()));
    assert!(text.contains(&"erase 133120+32768".to_string()));
    assert!(text.contains(&"image 1000 at 1048576".to_string()));
    assert!(text.contains(&"image 1000 at 68157440".to_string()));
    for s in &steps {
        if let Step::Erase(c) = s {
            let last = c.first as u64 + c.count as u64 - 1;
            assert!(layout().a_start <= c.first as u64 && last <= layout().b_end);
        }
    }
}

#[test]
fn markers_bound_userdata_and_reset_comes_last() {
    let mut cfg = config(Partition::RootfsB);
    cfg.userdata_magic = true;
    cfg.reset_after_flash = true;
    let steps = plan_flash(&cfg, 1000, card(), Some(layout()), &guids()).unwrap();
    let text = names(&steps);
    let n = text.len();
    assert_eq!(
        text[n - 6..],
        [
            "Writing userdata magic markers (bootloader will auto-wipe userdata on next boot)...",
            "marker at 135266304",
            "marker at 511983084",
            "flush",
            "Resetting device...",
            "reset",
        ]
    );
    assert_eq!(USERDATA_MAGIC.len(), 20);
    assert_eq!(511_983_084 + 20, (layout().user_end + 1) * 512);
}

#[test]
fn flash_is_refused_in_order() {
    let mut cfg = config(Partition::RootfsA);
    cfg.rootfs_size_bytes = 0;
    let none = Capacity { sectors: 0, bytes: 0 };
    assert_eq!(
        flash_image(&cfg, u64::MAX, none, None).unwrap_err(),
        FlashError::ZeroRootfs
    );
    cfg.rootfs_size_bytes = 512;
    assert_eq!(
        flash_image(&cfg, u64::MAX, none, None).unwrap_err(),
        FlashError::ImageTooLarge { image: u64::MAX, rootfs: 512 }
    );
    assert_eq!(flash_image(&cfg, 1, none, None).unwrap_err(), FlashError::NoSectors);
    let cfg = config(Partition::RootfsA);
    assert!(flash_image(&cfg, 1, card(), None).is_ok());
}

#[test]
fn random_table_identifiers_are_drawn() {
    let table = |steps: &Vec<Step>| {
        let mut found = None;
        for s in steps {
            if let Step::MakeTable(t) = s {
                found = Some((t.disk_guid, t.first.unique_partition_guid));
            }
        }
        found.unwrap()
    };
    let cfg = config(Partition::RootfsA);
    let one = table(&flash_image(&cfg, 1, card(), None).unwrap());
    let two = table(&flash_image(&cfg, 1, card(), None).unwrap());
    assert_ne!(one, two);
    assert_ne!(one.0, one.1);
}

#[test]
fn remaining_texts_are_exact() {
    assert_eq!(Note::SwitchToSd.text(""), "Switching storage to SD...");
    assert_eq!(
        Note::KeepLayout { target: Partition::RootfsB }.text(""),
        "Existing GPT matches; preserving rootfs_a and userdata, refreshing rootfs_b only."
    );
    assert_eq!(
        Task::EraseSlot { slot: PartName::Userdata }.text(),
        "Erasing userdata..."
    );
    assert_eq!(done_text(true), "Done. Device reset.");
    assert_eq!(done_text(false), "Done.");
    assert_eq!(
        reset_warning("timeout"),
        "Reset returned timeout (often expected — USB disconnects mid-call)"
    );
}
