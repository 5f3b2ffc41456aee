use leaflash::device::DeviceSummary;
use leaflash::flash::{expected_layout, Config, LayoutInfo, Partition};
use leaflash::tui::{App, Focus, PendingConfirm};
use leaflash::view::{
    border_style, button_label, button_style, button_title, centered_rect, confirm_lines,
    confirm_rect, device_lines, devices_line_count, error_lines, error_rect, lines_of, log_lines,
    picker_title, place_confirm, size_text, size_title, success_lines, success_rect, Color, Line,
    Rect, Span, Style, DEVICES_TITLE,
};

const MIB: u64 = 1024 * 1024;

const SCREEN: Rect = Rect { x: 0, y: 0, width: 100, height: 40 };

fn text(line: &Line) -> String {
    line.spans.iter().map(|s| s.text.as_str()).collect()
}

fn texts(lines: &[Line]) -> Vec<String> {
    lines.iter().map(text).collect()
}

fn fg(line: &Line) -> (Color, bool) {
    let s = &line.spans[line.spans.len() - 1].style;
    (s.fg, s.bold)
}

fn line(s: &str) -> Line {
    Line {
        spans: vec![Span {
            text: s.to_string(),
            style: Style { fg: Color::Plain, bg: Color::Plain, bold: false },
        }],
    }
}

fn pending() -> PendingConfirm {
    PendingConfirm {
        cfg: Config {
            image: "rootfs.img".to_string(),
            rootfs_size_bytes: 64 * MIB,
            reset_after_flash: true,
            userdata_magic: true,
            target_partition: Partition::RootfsA,
        },
        layout_matches: false,
        magic_auto: true,
    }
}

#[test]
fn device_list_shows_devices_card_and_warning() {
    let mut app = App::new();
    assert_eq!(texts(&device_lines(&app)), ["No RockUSB devices found"]);
    assert_eq!(devices_line_count(&app), 1);
    app.devices = vec![
        DeviceSummary { bus: 1, address: 2, available: true },
        DeviceSummary { bus: 1, address: 3, available: false },
    ];
    app.sd_total_bytes = Some(512_000_000);
    app.userdata_magic = true;
    let lines = device_lines(&app);
    assert_eq!(
        texts(&lines),
        [
            "> 1) RockUSB bus 1 addr 2 (ok)",
            "  2) RockUSB bus 1 addr 3 (unavailable)",
            "SD: 488 MiB",
            "WARNING: userdata-magic ON — userdata will be auto-wiped on next boot.",
        ]
    );
    assert_eq!(fg(&lines[0]), (Color::Yellow, true));
    assert_eq!(fg(&lines[1]), (Color::Plain, false));
    assert_eq!(fg(&lines[3]), (Color::Red, true));
    assert_eq!(devices_line_count(&app) as usize, lines.len());
    app.device_err = Some("no usb".to_string());
    let lines = device_lines(&app);
    assert_eq!(text(&lines[0]), "Device discovery error: no usb");
    assert_eq!(fg(&lines[0]), (Color::Red, false));
    assert_eq!(devices_line_count(&app), 3);
    assert!(DEVICES_TITLE.starts_with("Devices  (Tab cycles · q/Esc/Ctrl-C quits"));
}

#[test]
fn titles_follow_the_state() {
    let mut app = App::new();
    assert_eq!(picker_title(&app), "Image (Enter to pick)");
    app.selected_image = Some("a.img".to_string());
    assert_eq!(picker_title(&app), "Image (selected: a.img)");
    assert_eq!(size_text("1KiB"), "1KiB = 1024 bytes (2 sectors)");
    assert_eq!(size_text("1x"), "1x (invalid: unknown size unit: x)");
    assert_eq!(
        size_title(),
        "rootfs size (each of A and B), default rounded to 128 MiB"
    );
    assert_eq!(button_label(&app), "[ Flash ]");
    assert_eq!(
        button_title(&app),
        "Flash (Enter)  ·  target(p): rootfs_a  ·  reboot(b): ON  ·  magic(m): off"
    );
    assert_eq!(
        button_style(&app),
        Style { fg: Color::Plain, bg: Color::Plain, bold: true }
    );
    app.flashing = true;
    app.focus = Focus::FlashButton;
    assert_eq!(button_label(&app), "[ Flashing... ]");
    assert_eq!(
        button_style(&app),
        Style { fg: Color::Black, bg: Color::Yellow, bold: true }
    );
    assert_eq!(border_style(true).fg, Color::Yellow);
    assert_eq!(border_style(false).fg, Color::Plain);
}

#[test]
fn log_shows_progress_and_the_last_messages() {
    let mut app = App::new();
    for i in 0..25 {
        app.stage(&format!("message {i}"));
    }
    let lines = texts(&log_lines(&app));
    assert_eq!(lines.len(), 20);
    assert_eq!(lines[0], "message 5");
    assert_eq!(lines[19], "message 24");
    app.progress_begin(200, "Erasing card...");
    app.progress_inc(15);
    let lines = texts(&log_lines(&app));
    assert_eq!(lines.len(), 21);
    assert_eq!(lines[0], "[  7%] Erasing card...: 15/200");
    app.progress_begin(0, "x");
    assert_eq!(texts(&log_lines(&app))[0], "[  0%] x: 0/0");
}

#[test]
fn overlays_are_centered() {
    assert_eq!(
        centered_rect(SCREEN, 41, 5),
        Rect { x: 29, y: 17, width: 41, height: 5 }
    );
    assert_eq!(centered_rect(SCREEN, 200, 200), SCREEN);
    let mut app = App::new();
    assert_eq!(
        success_rect(&app, SCREEN),
        Rect { x: 29, y: 17, width: 42, height: 5 }
    );
    let lines = success_lines(&app);
    assert_eq!(
        texts(&lines),
        ["", "Flash completed and device rebooted.", "press any key to dismiss"]
    );
    assert_eq!(fg(&lines[1]), (Color::Green, true));
    app.reset_after_flash = false;
    assert_eq!(success_rect(&app, SCREEN).width, 40);
    assert_eq!(text(&success_lines(&app)[1]), "Flash completed.");
}

#[test]
fn overlays_need_a_corner_only() {
    // The far half of this area has no coordinates, but a popup as large as it starts at its
    // own corner.
    let far = Rect { x: 65_500, y: 65_500, width: 100, height: 100 };
    assert_eq!(centered_rect(far, 100, 100), far);
    assert_eq!(
        centered_rect(far, 60, 90),
        Rect { x: 65_520, y: 65_505, width: 60, height: 90 }
    );
    assert_eq!(confirm_rect(&vec![line("x")], far), None);
    let lines: Vec<Line> = (0..80).map(|_| line("x")).collect();
    assert_eq!(
        confirm_rect(&lines, far),
        Some(Rect { x: 65_510, y: 65_509, width: 80, height: 82 })
    );
}

#[test]
fn text_is_split_into_lines() {
    assert_eq!(lines_of("a\nb\r\n\nc\r"), ["a", "b", "", "c\r"]);
    assert!(lines_of("").is_empty());
    assert_eq!(lines_of("a\n"), ["a"]);
    for s in ["", "\n", "a", "a\r\nb", "a\n\n", "\r\n"] {
        let expected: Vec<String> = s.lines().map(|l| l.to_string()).collect();
        assert_eq!(lines_of(s), expected);
    }
}

#[test]
fn error_overlay_fits_its_text() {
    let msg = "Flash failed:\nthe card is gone and nobody knows where";
    let lines = error_lines(msg);
    assert_eq!(
        texts(&lines),
        [
            "Flash failed:",
            "the card is gone and nobody knows where",
            "",
            "press any key to dismiss",
        ]
    );
    assert_eq!(fg(&lines[0]), (Color::Red, false));
    assert_eq!(
        error_rect(msg, SCREEN),
        Rect { x: 27, y: 17, width: 45, height: 6 }
    );
    assert_eq!(error_rect("", SCREEN).width, 46);
    assert_eq!(error_rect("x", SCREEN), Rect { x: 35, y: 17, width: 30, height: 5 });
    // Width is counted in bytes.
    assert_eq!(error_rect("ääääääääääääääää", SCREEN).width, 38);
    let small = Rect { x: 0, y: 0, width: 34, height: 7 };
    assert_eq!(error_rect(msg, small).width, 30);
    assert_eq!(error_rect(msg, small).height, 5);
}

#[test]
fn confirm_dialog_tells_everything() {
    let mut app = App::new();
    app.devices = vec![DeviceSummary { bus: 1, address: 2, available: true }];
    app.sd_total_bytes = Some(512_000_000);
    let lines = confirm_lines(&app, &pending(), Some(10 * MIB));
    assert_eq!(
        texts(&lines),
        [
            "Confirm flash",
            "",
            "  image                 rootfs.img",
            "  image size            10 MiB (10485760 bytes)",
            "  target partition      rootfs_a",
            "  rootfs A size         64 MiB",
            "  rootfs B size         64 MiB",
            "  userdata (approx)     356 MiB",
            "  SD total              488 MiB",
            "  device                RockUSB bus 1 addr 2",
            "  reboot-after-flash    ON",
            "  userdata-magic        ON (GPT Layout Change)",
            "",
            "WARNING: this erases the entire SD card.",
            "WARNING: userdata-magic is ON — userdata will be auto-wiped on next boot.",
            "",
            "[y/Enter] confirm  [n/Esc] cancel  [p] target  [b] reboot  [m] magic",
        ]
    );
    assert_eq!(lines[2].spans[0].style.fg, Color::DarkGray);
    assert_eq!(fg(&lines[13]), (Color::Red, true));
}

#[test]
fn confirm_dialog_tells_what_is_kept() {
    let mut app = App::new();
    let layout = expected_layout(1_000_000, 64 * MIB).unwrap();
    app.sd_existing = Some(LayoutInfo { layout, active: Some(Partition::RootfsB) });
    let mut pc = pending();
    pc.layout_matches = true;
    pc.magic_auto = false;
    pc.cfg.userdata_magic = false;
    pc.cfg.reset_after_flash = false;
    pc.cfg.target_partition = Partition::RootfsB;
    let lines = confirm_lines(&app, &pc, None);
    assert_eq!(
        texts(&lines)[3..],
        [
            "  target partition      rootfs_b (active)",
            "  rootfs A size         64 MiB",
            "  rootfs B size         64 MiB",
            "  reboot-after-flash    off",
            "  userdata-magic        off",
            "",
            "Existing GPT matches: only rootfs_b will be erased + rewritten; \
             rootfs_a and userdata preserved.",
            "",
            "[y/Enter] confirm  [n/Esc] cancel  [p] target  [b] reboot  [m] magic",
        ]
    );
    assert_eq!(fg(&lines[3]), (Color::Green, true));
    pc.cfg.target_partition = Partition::Both;
    let lines = texts(&confirm_lines(&app, &pc, None));
    assert!(lines.contains(
        &"Existing GPT matches: rootfs_a and rootfs_b will be erased + rewritten; \
          userdata preserved."
            .to_string()
    ));
}

#[test]
fn confirm_dialog_is_as_high_as_its_wrapped_lines() {
    // 80 columns leave 78 inside the frame.
    let lines = vec![line(""), line(&"x".repeat(78)), line(&"x".repeat(79))];
    assert_eq!(
        confirm_rect(&lines, SCREEN),
        Some(Rect { x: 10, y: 17, width: 80, height: 6 })
    );
    // Wide characters take two columns each.
    let wide = vec![line(&"漢".repeat(40))];
    assert_eq!(confirm_rect(&wide, SCREEN).unwrap().height, 4);
    let small = Rect { x: 0, y: 0, width: 50, height: 5 };
    assert_eq!(
        confirm_rect(&lines, small),
        Some(Rect { x: 2, y: 1, width: 46, height: 3 })
    );
    assert_eq!(place_confirm(&vec![0, 78, 79], SCREEN).height, 6);
    let tiny = Rect { x: 0, y: 0, width: 10, height: 1 };
    assert_eq!(place_confirm(&vec![1], tiny), Rect { x: 0, y: 0, width: 10, height: 0 });
}

#[test]
fn rows_beyond_counting_have_no_place() {
    let long = vec![line(&"x".repeat(78 * 65534))];
    assert_eq!(confirm_rect(&long, SCREEN), None);
}
