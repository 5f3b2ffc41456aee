use std::io::Cursor;

use gptman::{GPTPartitionEntry, GPT};
use leaflash::device::Capacity;
use leaflash::flash::{
    read_existing_layout, read_existing_layout_info, Config, GptSlots, Partition,
};
use leaflash::gpt::GptEntry;
use leaflash::plan::{card_layout, plan_flash, Guids, NewEntry, NewTable, Step};

const SECTORS: u32 = 20_000;

fn config() -> Config {
    Config {
        image: "rootfs.img".to_string(),
        rootfs_size_bytes: 1024 * 1024,
        reset_after_flash: false,
        userdata_magic: false,
        target_partition: Partition::RootfsA,
    }
}

fn card() -> Capacity {
    Capacity { sectors: SECTORS, bytes: SECTORS as u64 * 512 }
}

fn guids() -> Guids {
    Guids { disk: [1; 16], rootfs_a: [2; 16], rootfs_b: [3; 16], userdata: [4; 16] }
}

fn blank_disk() -> Cursor<Vec<u8>> {
    Cursor::new(vec![0u8; SECTORS as usize * 512])
}

fn new_entry(e: &NewEntry) -> GPTPartitionEntry {
    GPTPartitionEntry {
        partition_type_guid: e.type_guid(),
        unique_partition_guid: e.unique_partition_guid,
        starting_lba: e.starting_lba,
        ending_lba: e.ending_lba,
        attribute_bits: e.attribute_bits,
        partition_name: e.name.text().into(),
    }
}

fn entry(e: &GPTPartitionEntry) -> GptEntry {
    GptEntry {
        partition_type_guid: e.partition_type_guid,
        starting_lba: e.starting_lba,
        ending_lba: e.ending_lba,
        attribute_bits: e.attribute_bits,
        partition_name: e.partition_name.as_str().to_string(),
    }
}

fn planned_table() -> NewTable {
    let steps = plan_flash(&config(), 1, card(), None, &guids()).unwrap();
    for s in steps {
        if let Step::MakeTable(t) = s {
            return t;
        }
    }
    panic!("no table")
}

#[test]
fn layout_follows_the_defaults_of_a_new_table() {
    let mut disk = blank_disk();
    let gpt = GPT::new_from(&mut disk, 512, [9; 16]).unwrap();
    let layout = card_layout(&config(), card()).layout.unwrap();
    assert_eq!(gpt.header.first_usable_lba, 34);
    assert_eq!(gpt.header.last_usable_lba, layout.user_end);
    assert_eq!(gpt.align, 2048);
    assert_eq!(gpt.find_first_place(1), Some(layout.a_start));
}

#[test]
fn written_table_is_found_again() {
    let table = planned_table();
    let mut disk = blank_disk();
    let mut gpt = GPT::new_from(&mut disk, 512, table.disk_guid).unwrap();
    gpt[1] = new_entry(&table.first);
    gpt[2] = new_entry(&table.second);
    gpt[3] = new_entry(&table.third);
    gpt.write_into(&mut disk).unwrap();

    let gpt = GPT::find_from(&mut disk).unwrap();
    let found = Some(GptSlots {
        first: entry(&gpt[1]),
        second: entry(&gpt[2]),
        third: entry(&gpt[3]),
    });
    let layout = card_layout(&config(), card()).layout.unwrap();
    assert_eq!(read_existing_layout(&found), Some(layout));
    let info = read_existing_layout_info(&found).unwrap();
    assert_eq!(info.active, Some(Partition::RootfsA));

    // The same flash once more writes no table.
    let again = plan_flash(&config(), 1, card(), read_existing_layout(&found), &guids()).unwrap();
    assert!(!again.iter().any(|s| matches!(s, Step::MakeTable(_) | Step::WriteTable)));
}

#[test]
fn blank_disk_has_no_table() {
    assert!(GPT::find_from(&mut blank_disk()).is_err());
}
