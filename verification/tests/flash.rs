use leaflash::flash::{
    align_up, expected_layout, max_rootfs_bytes, parse_size, read_existing_layout,
    read_existing_layout_info, round_up_mib, Config, FlashArgs, GptSlots, Layout, LayoutError,
    Partition,
};
use leaflash::gpt::{random_guid, GptEntry};

const LINUX: [u8; 16] = [
    0xAF, 0x3D, 0xC6, 0x0F, 0x83, 0x84, 0x72, 0x47, 0x8E, 0x79, 0x3D, 0x69, 0xD8, 0x47, 0x7D, 0xE4,
];

fn entry(name: &str, first: u64, last: u64, bits: u64) -> GptEntry {
    GptEntry {
        partition_type_guid: LINUX,
        starting_lba: first,
        ending_lba: last,
        attribute_bits: bits,
        partition_name: name.to_string(),
    }
}

fn slots() -> GptSlots {
    GptSlots {
        first: entry("rootfs_a", 2048, 4095, 4),
        second: entry("rootfs_b", 4096, 6143, 0),
        third: entry("userdata", 6144, 9000, 0),
    }
}

#[test]
fn sizes_are_human_readable() {
    assert_eq!(parse_size("256MiB"), Ok(268_435_456));
    assert_eq!(parse_size("512M"), Ok(512_000_000));
    assert_eq!(parse_size("1GiB"), Ok(1_073_741_824));
    assert_eq!(parse_size(" 2 kib "), Ok(2048));
    assert_eq!(parse_size("3KB"), Ok(3000));
    assert_eq!(parse_size("7"), Ok(7));
    assert_eq!(parse_size("7b"), Ok(7));
    assert_eq!(parse_size("2g"), Ok(2_000_000_000));
}

#[test]
fn bad_sizes_are_refused() {
    assert_eq!(parse_size("MiB"), Err("invalid number: ".to_string()));
    assert_eq!(parse_size("-1"), Err("invalid number: ".to_string()));
    assert_eq!(
        parse_size("18446744073709551616"),
        Err("invalid number: 18446744073709551616".to_string())
    );
    assert_eq!(parse_size("1 XiB"), Err("unknown size unit: xib".to_string()));
    assert_eq!(
        parse_size("18446744073709551615k"),
        Err("size overflow".to_string())
    );
}

#[test]
fn size_text_reads_back() {
    for n in [0u64, 1, 9, 10, 128, 4095] {
        assert_eq!(parse_size(&format!("{n}MiB")), Ok(n * 1024 * 1024));
    }
}

#[test]
fn sizes_read_back_in_every_unit() {
    for (unit, mult) in [
        ("", 1),
        ("B", 1),
        ("Kb", 1_000),
        ("kIb", 1 << 10),
        ("mB", 1_000_000),
        ("MIB", 1 << 20),
        ("G", 1_000_000_000),
        ("GiB", 1u64 << 30),
    ] {
        assert_eq!(parse_size(&format!("\t12 {unit} \n")), Ok(12 * mult));
        assert_eq!(parse_size(&format!("12{unit}")), Ok(12 * mult));
    }
}

#[test]
fn rounding_goes_up_to_the_granularity() {
    assert_eq!(round_up_mib(0, 128), 0);
    assert_eq!(round_up_mib(1, 128), 128 << 20);
    assert_eq!(round_up_mib(128 << 20, 128), 128 << 20);
    assert_eq!(round_up_mib(5, 0), 5);
    assert_eq!(align_up(34, 2048), 2048);
    assert_eq!(align_up(34, 0), 34);
}

#[test]
fn largest_rootfs_is_half_of_what_the_table_leaves() {
    assert_eq!(max_rootfs_bytes(4 << 20), 0);
    assert_eq!(max_rootfs_bytes(0), 0);
    assert_eq!(max_rootfs_bytes(1 << 30), ((1 << 30) - (4 << 20)) / 2);
}

#[test]
fn layout_is_aligned_and_fills_the_card() {
    let layout = expected_layout(100_000, 512 * 100).unwrap();
    assert_eq!(
        layout,
        Layout {
            a_start: 2048,
            a_end: 2147,
            b_start: 4096,
            b_end: 4195,
            user_start: 6144,
            user_end: 99_966,
        }
    );
    assert_eq!(layout.rootfs_size_bytes(), 51_200);
}

#[test]
fn largest_rootfs_still_leaves_userdata() {
    let sectors = 1_000_000u64;
    let max = max_rootfs_bytes(sectors * 512);
    assert!(expected_layout(sectors, max / 512 * 512).is_ok());
}

#[test]
fn cards_that_are_too_small_are_refused() {
    assert_eq!(expected_layout(33, 512), Err(LayoutError::DiskTooSmall));
    assert_eq!(expected_layout(6144, 512), Err(LayoutError::NoRoomForUserdata));
    assert_eq!(LayoutError::DiskTooSmall.message(), "disk too small for a GPT");
    assert_eq!(
        LayoutError::NoRoomForUserdata.message(),
        "no room for userdata after rootfs_a + rootfs_b"
    );
}

#[test]
fn layout_of_a_card_is_found() {
    let found = Some(slots());
    let layout = read_existing_layout(&found).unwrap();
    assert_eq!((layout.a_start, layout.b_end, layout.user_end), (2048, 6143, 9000));
    let info = read_existing_layout_info(&found).unwrap();
    assert_eq!(info.layout, layout);
    assert_eq!(info.active, Some(Partition::RootfsA));
}

#[test]
fn other_tables_have_no_layout() {
    assert_eq!(read_existing_layout(&None), None);
    let mut s = slots();
    s.third.partition_name = "data".to_string();
    assert_eq!(read_existing_layout(&Some(s)), None);
    let mut s = slots();
    s.second.partition_type_guid = [0; 16];
    assert_eq!(read_existing_layout(&Some(s)), None);
    let mut s = slots();
    s.first.partition_name = "rootfs_b".to_string();
    assert_eq!(read_existing_layout(&Some(s)), None);
}

#[test]
fn active_slot_needs_exactly_one_mark() {
    let mut s = slots();
    s.second.attribute_bits = 6;
    assert_eq!(read_existing_layout_info(&Some(s)).unwrap().active, None);
    let mut s = slots();
    s.first.attribute_bits = 3;
    s.second.attribute_bits = 4;
    assert_eq!(
        read_existing_layout_info(&Some(s)).unwrap().active,
        Some(Partition::RootfsB)
    );
}

#[test]
fn rootfs_size_of_a_reversed_or_huge_slot_is_bounded() {
    let mut layout = expected_layout(100_000, 51_200).unwrap();
    layout.a_end = 0;
    assert_eq!(layout.rootfs_size_bytes(), 0);
    layout.a_start = 0;
    layout.a_end = u64::MAX;
    assert_eq!(layout.rootfs_size_bytes(), u64::MAX);
}

#[test]
fn command_line_flashes_slot_a() {
    let args = FlashArgs {
        image: "rootfs.img".to_string(),
        rootfs_size: 1024,
        reset_after_flash: true,
        userdata_magic: false,
    };
    let cfg = Config::from(&args);
    assert_eq!(cfg.image, "rootfs.img");
    assert_eq!(cfg.rootfs_size_bytes, 1024);
    assert!(cfg.reset_after_flash);
    assert!(!cfg.userdata_magic);
    assert_eq!(cfg.target_partition, Partition::RootfsA);
    assert_eq!(Partition::RootfsA.name(), "rootfs_a");
    assert_eq!(Partition::RootfsB.name(), "rootfs_b");
    assert_eq!(Partition::Both.name(), "both");
}

#[test]
fn random_identifiers_differ() {
    assert_ne!(random_guid(), random_guid());
}
