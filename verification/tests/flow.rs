use leaflash::device::{Capacity, DeviceSummary, SdProbe};
use leaflash::flash::{max_rootfs_bytes, Config, LayoutInfo, Partition};
use leaflash::plan::{
    card_layout, check_image, check_request, flash_image, FlashError, Step,
};
use leaflash::tui::App;

const MIB: u64 = 1024 * 1024;

fn card() -> Capacity {
    Capacity { sectors: 1_000_000, bytes: 512_000_000 }
}

fn probed(existing: Option<LayoutInfo>) -> App {
    let device = DeviceSummary { bus: 1, address: 2, available: true };
    let mut app = App::new();
    app.refresh_devices(Ok(vec![device]));
    app.probe_done(
        device,
        Ok(SdProbe {
            total_bytes: card().bytes,
            total_sectors: card().sectors as u64,
            existing,
        }),
    );
    app
}

fn config(rootfs_size_bytes: u64) -> Config {
    Config {
        image: "rootfs.img".to_string(),
        rootfs_size_bytes,
        reset_after_flash: true,
        userdata_magic: false,
        target_partition: Partition::RootfsA,
    }
}

#[test]
fn confirmed_inputs_pass_the_flash_checks() {
    let mut app = probed(None);
    app.on_image_selected("rootfs.img", Some(200 * MIB));
    assert_eq!(app.size_input, "242MiB");
    app.open_confirmation(Some(200 * MIB)).unwrap();
    let cfg = app.pending_confirm.unwrap().cfg;
    assert_eq!(check_request(&cfg), Ok(()));
    assert_eq!(check_image(&cfg, 200 * MIB), Ok(()));
    assert!(flash_image(&cfg, 200 * MIB, card(), None).is_ok());
}

#[test]
fn dialog_foresees_the_refresh() {
    let layout = card_layout(&config(64 * MIB), card()).layout.unwrap();
    let mut app = probed(Some(LayoutInfo { layout, active: Some(Partition::RootfsB) }));
    app.on_image_selected("rootfs.img", None);
    for (size, kept) in [("64MiB", true), ("65MiB", false)] {
        app.size_input = size.to_string();
        app.open_confirmation(Some(MIB)).unwrap();
        let pc = app.pending_confirm.as_ref().unwrap();
        assert_eq!(pc.layout_matches, kept);
        let steps = flash_image(&pc.cfg, MIB, card(), Some(layout)).unwrap();
        assert_eq!(!steps.iter().any(|s| matches!(s, Step::WriteTable)), kept);
    }
}

#[test]
fn largest_rootfs_is_accepted_and_the_next_is_not() {
    let max = max_rootfs_bytes(card().bytes) / 512 * 512;
    assert!(flash_image(&config(max), 1, card(), None).is_ok());
    assert!(matches!(
        flash_image(&config(max + 512), 1, card(), None),
        Err(FlashError::RootfsTooLarge { .. })
    ));
}

#[test]
fn refresh_changes_no_sector_outside_the_target() {
    let mut cfg = config(64 * MIB);
    cfg.target_partition = Partition::RootfsB;
    cfg.userdata_magic = true;
    let layout = card_layout(&cfg, card()).layout.unwrap();
    let steps = flash_image(&cfg, 64 * MIB, card(), Some(layout)).unwrap();
    let inside = |first: u64, last: u64| {
        (layout.b_start <= first && last <= layout.b_end)
            || (first == last && (first == layout.user_start || first == layout.user_end))
    };
    for s in steps {
        match s {
            Step::Erase(c) => {
                let first = c.first as u64;
                assert!(inside(first, first + c.count as u64 - 1));
            }
            Step::WriteImage { offset, len } => {
                assert!(inside(offset / 512, (offset + len - 1) / 512));
            }
            Step::WriteMarker { offset } => assert!(inside(offset / 512, (offset + 19) / 512)),
            Step::MakeTable(_) | Step::WriteTable => panic!("table written"),
            _ => {}
        }
    }
}

#[test]
fn full_flash_erases_every_sector_before_the_table() {
    let steps = flash_image(&config(64 * MIB), 1, card(), None).unwrap();
    let table = steps.iter().position(|s| matches!(s, Step::WriteTable)).unwrap();
    let mut next = 0;
    for s in &steps[..table] {
        if let Step::Erase(c) = s {
            assert_eq!(c.first, next);
            next += c.count as u32;
        }
    }
    assert_eq!(next, card().sectors);
    assert!(!steps[table..].iter().any(|s| matches!(s, Step::Erase(_))));
}
