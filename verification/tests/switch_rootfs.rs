use leaflash::flash::Partition;
use leaflash::gpt::GptEntry;
use leaflash::switch_rootfs::{
    no_table_text, parse_partition, storage_refusal, switch, Action, Active, SwitchError,
};

fn entry(name: &str, bits: u64) -> GptEntry {
    GptEntry {
        partition_type_guid: [7; 16],
        starting_lba: 2048,
        ending_lba: 4095,
        attribute_bits: bits,
        partition_name: name.to_string(),
    }
}

fn slots(a: u64, b: u64) -> (GptEntry, GptEntry) {
    (entry("rootfs_a", a), entry("rootfs_b", b))
}

#[test]
fn slots_are_named() {
    for s in ["rootfs_a", "a", "A"] {
        assert_eq!(parse_partition(s), Ok(Partition::RootfsA));
    }
    for s in ["rootfs_b", "b", "B"] {
        assert_eq!(parse_partition(s), Ok(Partition::RootfsB));
    }
    assert_eq!(
        parse_partition("both"),
        Err("expected rootfs_a or rootfs_b for switch-rootfs, got both".to_string())
    );
}

#[test]
fn switch_goes_to_the_inactive_slot_and_back() {
    let (a, b) = slots(4, 0);
    let s = switch(&a, &b, None).unwrap();
    assert_eq!(s.active, Active::RootfsA);
    assert_eq!(s.target, Partition::RootfsB);
    assert_eq!(s.warning(), None);
    assert_eq!(s.action, Ok(Action::Write { a_bits: 0, b_bits: 4 }));
    assert_eq!(s.announcement(), "Active slot: rootfs_a -> switching to rootfs_b");
    assert_eq!(s.done_text(), "Done. Next boot will use rootfs_b.");
    let (a, b) = slots(0, 4);
    let s = switch(&a, &b, None).unwrap();
    assert_eq!(s.active, Active::RootfsB);
    assert_eq!(s.action, Ok(Action::Write { a_bits: 4, b_bits: 0 }));
}

#[test]
fn unclear_marks_default_to_slot_a() {
    let (a, b) = slots(4, 4);
    let s = switch(&a, &b, None).unwrap();
    assert_eq!(
        s.warning(),
        Some("warning: both rootfs_a and rootfs_b are marked active; defaulting to rootfs_a")
    );
    assert_eq!(s.announcement(), "Active slot: both -> switching to rootfs_a");
    assert_eq!(s.action, Ok(Action::Write { a_bits: 4, b_bits: 0 }));
    let (a, b) = slots(0, 0);
    let s = switch(&a, &b, None).unwrap();
    assert_eq!(
        s.warning(),
        Some("warning: neither rootfs_a nor rootfs_b is marked active; defaulting to rootfs_a")
    );
    assert_eq!(s.announcement(), "Active slot: neither -> switching to rootfs_a");
    // A choice of slot needs no warning.
    assert_eq!(switch(&a, &b, Some(Partition::RootfsB)).unwrap().warning(), None);
}

#[test]
fn switching_to_the_only_active_slot_does_nothing() {
    let (a, b) = slots(4, 0);
    let s = switch(&a, &b, Some(Partition::RootfsA)).unwrap();
    assert_eq!(s.action, Ok(Action::Nothing));
    assert_eq!(
        s.nothing_text(),
        "Nothing to do; rootfs_a is already the only active slot."
    );
    // Other attribute bits are cleared.
    let (a, b) = slots(6, 0);
    let s = switch(&a, &b, Some(Partition::RootfsA)).unwrap();
    assert_eq!(s.action, Ok(Action::Write { a_bits: 4, b_bits: 0 }));
}

#[test]
fn both_slots_cannot_be_active() {
    let (a, b) = slots(4, 0);
    let s = switch(&a, &b, Some(Partition::Both)).unwrap();
    assert_eq!(s.announcement(), "Active slot: rootfs_a -> switching to both");
    assert_eq!(s.action, Err(SwitchError::BothRequested));
    assert_eq!(
        SwitchError::BothRequested.message(),
        "switch-rootfs only supports rootfs_a or rootfs_b"
    );
}

#[test]
fn other_layouts_are_refused() {
    let (a, _) = slots(4, 0);
    let data = entry("data", 0);
    assert_eq!(switch(&a, &data, None).unwrap_err(), SwitchError::NoLayout);
    let mut unused = entry("rootfs_b", 0);
    unused.partition_type_guid = [0; 16];
    assert_eq!(switch(&a, &unused, None).unwrap_err(), SwitchError::NoLayout);
    assert_eq!(
        SwitchError::NoLayout.message(),
        "SD card does not have a leaflash A/B layout (rootfs_a + rootfs_b in slots 1 and 2); \
         flash one with `leaflash flash` first"
    );
    assert_eq!(
        storage_refusal("Emmc"),
        "failed to switch storage to SD; current: Emmc"
    );
    assert_eq!(
        no_table_text("invalid"),
        "no readable GPT on the SD card: invalid"
    );
}
