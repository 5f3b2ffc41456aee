use leaflash::device::{DeviceSummary, SdProbe};
use leaflash::flash::{expected_layout, LayoutInfo, Partition};
use leaflash::tui::{next_partition, App, Effect, Event, Focus, KeyCode, KeyEvent};

const MIB: u64 = 1024 * 1024;

fn press(code: KeyCode) -> Event {
    Event::Key(KeyEvent { code, control: false, press: true })
}

fn key(c: char) -> Event {
    press(KeyCode::Char(c))
}

fn device(bus: u8, address: u8) -> DeviceSummary {
    DeviceSummary { bus, address, available: true }
}

/// An app with one device, a card of 512 MB and an image.
fn ready() -> App {
    let mut app = App::new();
    app.refresh_devices(Ok(vec![device(1, 2)]));
    app.probe_done(
        device(1, 2),
        Ok(SdProbe { total_bytes: 512_000_000, total_sectors: 1_000_000, existing: None }),
    );
    app.on_image_selected("rootfs.img", Some(10 * MIB));
    app
}

#[test]
fn starts_with_its_defaults() {
    let app = App::new();
    assert_eq!(app.size_input, "256MiB");
    assert_eq!(app.focus, Focus::Picker);
    assert!(app.reset_after_flash && !app.userdata_magic && !app.flashing);
    assert_eq!(app.target_partition, Partition::RootfsA);
}

#[test]
fn ctrl_c_always_quits() {
    let ctrl_c = Event::Key(KeyEvent {
        code: KeyCode::Char('c'),
        control: true,
        press: true,
    });
    let mut app = App::new();
    app.flashing = true;
    app.show_error("oops".to_string());
    assert!(matches!(app.handle_event(ctrl_c, false), Effect::Quit));
    assert!(app.error_msg.is_some());
}

#[test]
fn plain_keys_do_not_quit_mid_flash() {
    let mut app = App::new();
    app.flashing = true;
    for e in [key('q'), press(KeyCode::Esc), key('c'), press(KeyCode::Enter), Event::Other] {
        assert!(matches!(app.handle_event(e, true), Effect::Continue));
    }
    app.flashing = false;
    assert!(matches!(app.handle_event(key('q'), false), Effect::Quit));
    assert!(matches!(app.handle_event(press(KeyCode::Esc), false), Effect::Quit));
}

#[test]
fn releases_and_other_events_do_nothing() {
    let mut app = App::new();
    let release = Event::Key(KeyEvent {
        code: KeyCode::Char('q'),
        control: false,
        press: false,
    });
    assert!(matches!(app.handle_event(release, false), Effect::Continue));
    assert!(matches!(app.handle_event(Event::Other, false), Effect::Continue));
}

#[test]
fn any_key_dismisses_the_overlays() {
    let mut app = App::new();
    app.show_error("oops".to_string());
    app.success_banner = true;
    assert!(matches!(app.handle_event(key('q'), false), Effect::Continue));
    assert!(app.error_msg.is_none() && app.success_banner);
    assert!(matches!(app.handle_event(key('q'), false), Effect::Continue));
    assert!(!app.success_banner);
    assert!(matches!(app.handle_event(key('q'), false), Effect::Quit));
}

#[test]
fn tab_cycles_and_toggles_undo_themselves() {
    let mut app = App::new();
    let mut seen = vec![];
    for _ in 0..3 {
        app.handle_event(press(KeyCode::Tab), false);
        seen.push(app.focus);
    }
    assert_eq!(seen, [Focus::Size, Focus::FlashButton, Focus::Picker]);
    app.handle_event(key('b'), false);
    app.handle_event(key('m'), false);
    assert!(!app.reset_after_flash && app.userdata_magic);
    app.handle_event(key('b'), false);
    app.handle_event(key('m'), false);
    assert!(app.reset_after_flash && !app.userdata_magic);
    app.handle_event(key('p'), false);
    assert_eq!(app.target_partition, Partition::RootfsB);
    assert_eq!(next_partition(Partition::RootfsB), Partition::Both);
    assert_eq!(next_partition(Partition::Both), Partition::RootfsA);
}

#[test]
fn size_box_takes_letters() {
    let mut app = App::new();
    app.focus = Focus::Size;
    for c in "bmpr1".chars() {
        app.handle_event(key(c), false);
    }
    assert_eq!(app.size_input, "256MiBbmpr1");
    for _ in 0..20 {
        app.handle_event(press(KeyCode::Backspace), false);
    }
    assert_eq!(app.size_input, "");
    app.handle_event(press(KeyCode::Enter), false);
    assert_eq!(app.focus, Focus::FlashButton);
}

#[test]
fn picker_and_button_ask_for_their_effects() {
    let mut app = App::new();
    assert!(matches!(app.handle_event(press(KeyCode::Enter), true), Effect::SelectImage));
    assert!(matches!(app.handle_event(press(KeyCode::Enter), false), Effect::Explore));
    assert!(matches!(app.handle_event(key('j'), true), Effect::Explore));
    assert!(matches!(app.handle_event(key('r'), true), Effect::Refresh));
    app.focus = Focus::FlashButton;
    assert!(matches!(app.handle_event(press(KeyCode::Enter), true), Effect::Confirm));
    assert!(matches!(app.handle_event(key(' '), true), Effect::Confirm));
    assert!(matches!(app.handle_event(key('x'), true), Effect::Continue));
}

#[test]
fn digits_select_devices() {
    let mut app = App::new();
    app.refresh_devices(Ok(vec![device(1, 2), device(1, 3)]));
    assert!(matches!(app.handle_event(key('2'), false), Effect::Probe));
    assert_eq!(app.selected_device, 1);
    assert!(matches!(app.handle_event(key('2'), false), Effect::Continue));
    assert!(matches!(app.handle_event(key('3'), false), Effect::Continue));
    assert!(matches!(app.handle_event(key('0'), false), Effect::Explore));
}

#[test]
fn listing_keeps_the_selection_where_it_can() {
    let mut app = App::new();
    app.selected_device = 1;
    assert_eq!(
        app.refresh_devices(Ok(vec![device(1, 2), device(1, 3)])),
        Some(device(1, 3))
    );
    assert_eq!(app.refresh_devices(Ok(vec![device(1, 2)])), Some(device(1, 2)));
    app.refresh_done();
    assert_eq!(app.log[0], "Refreshed: 1 RockUSB device found");
    assert_eq!(app.refresh_devices(Err("no usb".to_string())), None);
    app.refresh_done();
    assert_eq!(app.log[1], "Refreshed: 0 RockUSB devices found");
    assert_eq!(app.device_err.as_deref(), Some("no usb"));
    assert!(app.devices.is_empty() && app.reprobe_selected().is_none());
}

#[test]
fn probe_seeds_target_and_size() {
    let layout = expected_layout(1_000_000, 64 * MIB).unwrap();
    let mut app = App::new();
    app.refresh_devices(Ok(vec![device(1, 2)]));
    let probe = |active| SdProbe {
        total_bytes: 512_000_000,
        total_sectors: 1_000_000,
        existing: Some(LayoutInfo { layout, active }),
    };
    app.probe_done(device(1, 2), Ok(probe(Some(Partition::RootfsB))));
    assert_eq!(app.target_partition, Partition::RootfsB);
    assert_eq!(app.size_input, "64MiB");
    assert_eq!(
        app.log[0],
        "Probed device 1:2: SD 488 MiB (existing leaflash GPT, active = rootfs_b)"
    );
    app.probe_done(device(1, 2), Ok(probe(None)));
    assert_eq!(app.target_partition, Partition::RootfsB);
    assert_eq!(app.log[1], "Probed device 1:2: SD 488 MiB (existing leaflash GPT)");
    app.probe_done(device(1, 2), Err("timeout".to_string()));
    assert_eq!(app.log[2], "Could not probe device 1:2: timeout");
    app.reprobe_selected();
    assert_eq!((app.sd_total_bytes, app.sd_total_sectors), (None, None));
}

#[test]
fn image_gets_a_suggested_size() {
    let mut app = App::new();
    app.on_image_selected("a.img", None);
    assert_eq!(app.selected_image.as_deref(), Some("a.img"));
    assert_eq!(app.size_input, "256MiB");
    assert_eq!(app.focus, Focus::Size);
    app.on_image_selected("a.img", Some(129 * MIB));
    assert_eq!(app.size_input, "256MiB");
    app.on_image_selected("a.img", Some(1));
    assert_eq!(app.size_input, "128MiB");
}

#[test]
fn suggested_size_is_capped_by_the_card() {
    // 512 MB leave 242 MiB for each rootfs.
    let mut app = ready();
    assert_eq!(app.size_input, "128MiB");
    app.on_image_selected("a.img", Some(130 * MIB));
    assert_eq!(app.size_input, "242MiB");
    assert_eq!(
        app.log[app.log.len() - 1],
        "Default 128-MiB round-up wouldn't fit; capped rootfs at 242 MiB."
    );
    app.on_image_selected("a.img", Some(300 * MIB));
    assert_eq!(app.size_input, "242MiB");
    assert_eq!(
        app.error_msg.as_deref(),
        Some(
            "Image is 300 MiB but SD only fits a 242 MiB rootfs (half of SD - GPT).\n\
             Pick a smaller image or use a larger card."
        )
    );
}

#[test]
fn bad_inputs_are_not_confirmed() {
    let mut app = App::new();
    assert_eq!(
        app.open_confirmation(None),
        Err("Select an image first (focus the file picker, press Enter)".to_string())
    );
    let mut app = ready();
    let mut refused = |size: &str, len: Option<u64>| {
        app.size_input = size.to_string();
        let e = app.open_confirmation(len).unwrap_err();
        assert!(app.pending_confirm.is_none());
        e
    };
    assert_eq!(refused("x", None), "Invalid size: invalid number: ");
    assert_eq!(refused("0", None), "Rootfs size must be > 0");
    assert_eq!(
        refused("1000", None),
        "Size 1000 bytes is not a multiple of sector size 512"
    );
    assert_eq!(
        refused("300MiB", None),
        "Rootfs size 300 MiB > 242 MiB (half of SD - GPT). Won't fit."
    );
    assert_eq!(
        refused("2MiB", Some(2 * MIB + 1)),
        "Image is 2 MiB but rootfs partition is only 2 MiB; pick rootfs >= 3 MiB."
    );
}

#[test]
fn full_erase_turns_the_markers_on() {
    let mut app = ready();
    assert_eq!(app.open_confirmation(Some(10 * MIB)), Ok(()));
    let pc = app.pending_confirm.as_ref().unwrap();
    assert!(!pc.layout_matches && pc.magic_auto && pc.cfg.userdata_magic);
    assert_eq!(pc.cfg.rootfs_size_bytes, 128 * MIB);
    assert_eq!(pc.cfg.image, "rootfs.img");
    assert!(!app.userdata_magic);
    app.handle_event(key('m'), false);
    let pc = app.pending_confirm.as_ref().unwrap();
    assert!(!pc.cfg.userdata_magic && !pc.magic_auto);
}

#[test]
fn matching_layout_keeps_the_markers_off() {
    let mut app = ready();
    let layout = expected_layout(1_000_000, 64 * MIB).unwrap();
    app.sd_existing = Some(LayoutInfo { layout, active: None });
    app.size_input = "64MiB".to_string();
    assert_eq!(app.open_confirmation(None), Ok(()));
    let pc = app.pending_confirm.as_ref().unwrap();
    assert!(pc.layout_matches && !pc.magic_auto && !pc.cfg.userdata_magic);
}

#[test]
fn dialog_toggles_the_held_inputs() {
    let mut app = ready();
    app.open_confirmation(None).unwrap();
    app.handle_event(key('B'), false);
    app.handle_event(key('p'), false);
    app.handle_event(key('x'), false);
    let pc = app.pending_confirm.as_ref().unwrap();
    assert!(!pc.cfg.reset_after_flash && !app.reset_after_flash);
    assert_eq!(pc.cfg.target_partition, Partition::RootfsB);
    app.handle_event(press(KeyCode::Esc), false);
    assert!(app.pending_confirm.is_none());
}

#[test]
fn confirming_starts_the_flash() {
    let mut app = ready();
    app.open_confirmation(None).unwrap();
    let effect = app.handle_event(press(KeyCode::Enter), false);
    match effect {
        Effect::Flash { bus, address, cfg } => {
            assert_eq!((bus, address), (1, 2));
            assert_eq!(cfg.image, "rootfs.img");
        }
        _ => panic!("no flash"),
    }
    assert!(app.flashing && app.pending_confirm.is_none());
    assert_eq!(
        app.log[app.log.len() - 1],
        "Starting flash: device=1:2 image=rootfs.img target=rootfs_a \
         rootfs_size=134217728 bytes reset=true userdata_magic=true"
    );
}

#[test]
fn confirming_without_a_device_is_an_error() {
    let mut app = ready();
    app.open_confirmation(None).unwrap();
    app.refresh_devices(Ok(vec![]));
    assert!(matches!(app.handle_event(key('y'), false), Effect::Continue));
    assert_eq!(app.error_msg.as_deref(), Some("No device selected"));
    assert!(!app.flashing && app.pending_confirm.is_none());
}

#[test]
fn progress_is_followed() {
    let mut app = App::new();
    app.progress_inc(5);
    assert!(app.progress.is_none());
    app.progress_begin(10, "Writing image...");
    app.progress_inc(4);
    assert_eq!(app.progress.as_ref().unwrap().cur, 4);
    app.progress_inc(u64::MAX);
    assert_eq!(app.progress.as_ref().unwrap().cur, 10);
    app.progress_finish("Writing image...");
    assert!(app.progress.is_none());
    assert_eq!(app.log, vec!["Writing image...: done".to_string()]);
    app.stage("next");
    assert_eq!(app.log[1], "next");
}

#[test]
fn end_of_a_flash_is_shown() {
    let mut app = App::new();
    app.flashing = true;
    app.progress_begin(1, "x");
    app.finish_flash(Ok(()));
    assert!(app.success_banner && !app.flashing && app.progress.is_none());
    assert_eq!(app.log[0], "Flash completed.");
    app.flashing = true;
    app.finish_flash(Err("no card".to_string()));
    assert!(!app.flashing);
    assert_eq!(app.log[1], "Flash failed: no card");
    assert_eq!(app.error_msg.as_deref(), Some("Flash failed:\nno card"));
}
