//! What each key does to the interface, and what leaves everything else as it was.

use crate::device::{DeviceSummary, SdProbe};
use crate::flash::{
    layout_on, max_rootfs, size_in_bytes, Config, ConfigView, Layout, LayoutError, Partition,
};
use crate::text::decimal;
use crate::tui::{
    advanced, after_event, confirmation, finished, image_selected, initial, listed, probed,
    refreshed_line, selected, start_line, unprobed, unprobed_line, App, AppView, Effect, Event,
    Focus, KeyCode, KeyEvent, PendingConfirm, PendingConfirmView, Progress, ProgressView,
};
use vstd::prelude::*;

verus! {

/// A key that goes down.
pub open spec fn key_down(code: KeyCode, control: bool) -> Event {
    Event::Key(KeyEvent { code, control, press: true })
}

/// Whether a key is Ctrl-C.
pub open spec fn is_ctrl_c(code: KeyCode, control: bool) -> bool {
    control && code == KeyCode::Char('c')
}

/// Only a key that goes down does anything.
pub proof fn law_other_events_do_nothing(app: AppView, code: KeyCode, control: bool, on_file: bool)
    ensures
        after_event(app, Event::Other, on_file) == (app, Effect::<ConfigView>::Continue),
        after_event(app, Event::Key(KeyEvent { code, control, press: false }), on_file) == (
            app,
            Effect::<ConfigView>::Continue,
        ),
{
}

/// A key that goes down leaves the interface (Ctrl-C), closes the error, else the banner, or
/// does nothing while a flash runs without a dialog.
pub proof fn law_keys_in_the_way(app: AppView, code: KeyCode, control: bool, on_file: bool)
    ensures
        ({
            let r = after_event(app, key_down(code, control), on_file);
            if is_ctrl_c(code, control) {
                r == (app, Effect::<ConfigView>::Quit)
            } else if app.error_msg is Some {
                r == (AppView { error_msg: None, ..app }, Effect::<ConfigView>::Continue)
            } else if app.success_banner {
                r == (AppView { success_banner: false, ..app }, Effect::<ConfigView>::Continue)
            } else if app.pending_confirm is None && app.flashing {
                r == (app, Effect::<ConfigView>::Continue)
            } else {
                true
            }
        }),
{
}

/// What the keys of the dialog do: y and Enter start the flash on the selected device, n, q and
/// Esc close the dialog, b, m and p change one setting, and no other key does anything.
pub proof fn law_dialog_keys(
    app: AppView,
    pc: PendingConfirmView,
    code: KeyCode,
    control: bool,
    on_file: bool,
)
    requires
        !is_ctrl_c(code, control),
        app.error_msg is None,
        !app.success_banner,
        app.pending_confirm == Some(pc),
    ensures
        ({
            let r = after_event(app, key_down(code, control), on_file);
            let i = app.selected_device as int;
            let go_on = Effect::<ConfigView>::Continue;
            if code == KeyCode::Enter || code == KeyCode::Char('y') || code == KeyCode::Char('Y') {
                if i < app.devices.len() {
                    r == (
                        AppView {
                            pending_confirm: None,
                            flashing: true,
                            log: app.log.push(start_line(app.devices[i], pc.cfg)),
                            ..app
                        },
                        Effect::Flash {
                            bus: app.devices[i].bus,
                            address: app.devices[i].address,
                            cfg: pc.cfg,
                        },
                    )
                } else {
                    r == (
                        AppView {
                            pending_confirm: None,
                            error_msg: Some("No device selected"@),
                            ..app
                        },
                        go_on,
                    )
                }
            } else if code == KeyCode::Esc || code == KeyCode::Char('n') || code == KeyCode::Char(
                'N',
            ) || code == KeyCode::Char('q') {
                r == (AppView { pending_confirm: None, ..app }, go_on)
            } else if code == KeyCode::Char('b') || code == KeyCode::Char('B') {
                r == (
                    AppView {
                        reset_after_flash: !app.reset_after_flash,
                        pending_confirm: Some(
                            PendingConfirmView {
                                cfg: ConfigView {
                                    reset_after_flash: !app.reset_after_flash,
                                    ..pc.cfg
                                },
                                layout_matches: pc.layout_matches,
                                magic_auto: pc.magic_auto,
                            },
                        ),
                        ..app
                    },
                    go_on,
                )
            } else if code == KeyCode::Char('m') || code == KeyCode::Char('M') {
                r == (
                    AppView {
                        userdata_magic: !pc.cfg.userdata_magic,
                        pending_confirm: Some(
                            PendingConfirmView {
                                cfg: ConfigView {
                                    userdata_magic: !pc.cfg.userdata_magic,
                                    ..pc.cfg
                                },
                                layout_matches: pc.layout_matches,
                                magic_auto: false,
                            },
                        ),
                        ..app
                    },
                    go_on,
                )
            } else if code == KeyCode::Char('p') || code == KeyCode::Char('P') {
                let p = match app.target_partition {
                    Partition::RootfsA => Partition::RootfsB,
                    Partition::RootfsB => Partition::Both,
                    Partition::Both => Partition::RootfsA,
                };
                r == (
                    AppView {
                        target_partition: p,
                        pending_confirm: Some(
                            PendingConfirmView {
                                cfg: ConfigView { target_partition: p, ..pc.cfg },
                                layout_matches: pc.layout_matches,
                                magic_auto: pc.magic_auto,
                            },
                        ),
                        ..app
                    },
                    go_on,
                )
            } else {
                r == (app, go_on)
            }
        }),
{
}

/// Whether nothing stands between the keys and the parts of the screen.
pub open spec fn is_idle(app: AppView) -> bool {
    app.error_msg is None && !app.success_banner && app.pending_confirm is None && !app.flashing
}

/// Everywhere on the screen q and Esc leave, and Tab goes on from the picker to the size box, to
/// the button, and back.
pub proof fn law_leaving_and_tab(app: AppView, code: KeyCode, control: bool, on_file: bool)
    requires
        !is_ctrl_c(code, control),
        is_idle(app),
    ensures
        ({
            let r = after_event(app, key_down(code, control), on_file);
            &&& code == KeyCode::Char('q') || code == KeyCode::Esc ==> r == (
                app,
                Effect::<ConfigView>::Quit,
            )
            &&& code == KeyCode::Tab && app.focus == Focus::Picker ==> r == (
                AppView { focus: Focus::Size, ..app },
                Effect::<ConfigView>::Continue,
            )
            &&& code == KeyCode::Tab && app.focus == Focus::Size ==> r == (
                AppView { focus: Focus::FlashButton, ..app },
                Effect::<ConfigView>::Continue,
            )
            &&& code == KeyCode::Tab && app.focus == Focus::FlashButton ==> r == (
                AppView { focus: Focus::Picker, ..app },
                Effect::<ConfigView>::Continue,
            )
        }),
{
}

/// In the size box every other character is typed, Backspace takes the last one back, Enter goes
/// on to the button, and no other key does anything.
pub proof fn law_size_box_keys(app: AppView, code: KeyCode, control: bool, on_file: bool)
    requires
        !is_ctrl_c(code, control),
        is_idle(app),
        app.focus == Focus::Size,
        code != KeyCode::Char('q'),
        code != KeyCode::Esc,
        code != KeyCode::Tab,
    ensures
        ({
            let r = after_event(app, key_down(code, control), on_file);
            let n = app.size_input.len();
            &&& r.1 == Effect::<ConfigView>::Continue
            &&& code matches KeyCode::Char(c) ==> r.0 == (AppView {
                size_input: app.size_input + seq![c],
                ..app
            })
            &&& code == KeyCode::Backspace && n > 0 ==> r.0 == (AppView {
                size_input: app.size_input.take(n - 1),
                ..app
            })
            &&& code == KeyCode::Backspace && n == 0 ==> r.0 == app
            &&& code == KeyCode::Enter ==> r.0 == (AppView { focus: Focus::FlashButton, ..app })
            &&& code == KeyCode::Other ==> r.0 == app
        }),
{
    let n = app.size_input.len();
    if n > 0 {
        assert(app.size_input.drop_last() =~= app.size_input.take(n - 1));
    }
    if code is Char {
        let c = code->Char_0;
        assert(app.size_input.push(c) =~= app.size_input + seq![c]);
        assert(after_event(app, key_down(code, control), on_file).0 =~= (AppView {
            size_input: app.size_input + seq![c],
            ..app
        }));
    }
}

/// Outside the size box b, m and p change a setting, r asks for the devices, and a digit from 1
/// on selects the device with that number, if there is one and it is another.
pub proof fn law_setting_keys(app: AppView, code: KeyCode, control: bool, on_file: bool)
    requires
        !is_ctrl_c(code, control),
        is_idle(app),
        app.focus != Focus::Size,
    ensures
        ({
            let r = after_event(app, key_down(code, control), on_file);
            let go_on = Effect::<ConfigView>::Continue;
            &&& code == KeyCode::Char('b') ==> r == (
                AppView { reset_after_flash: !app.reset_after_flash, ..app },
                go_on,
            )
            &&& code == KeyCode::Char('m') ==> r == (
                AppView { userdata_magic: !app.userdata_magic, ..app },
                go_on,
            )
            &&& code == KeyCode::Char('p') ==> r == (
                AppView {
                    target_partition: match app.target_partition {
                        Partition::RootfsA => Partition::RootfsB,
                        Partition::RootfsB => Partition::Both,
                        Partition::Both => Partition::RootfsA,
                    },
                    ..app
                },
                go_on,
            )
            &&& code == KeyCode::Char('r') ==> r == (app, Effect::<ConfigView>::Refresh)
            &&& forall|k: int|
                1 <= k <= 9 && code == KeyCode::Char(#[trigger] ((48 + k) as char)) ==> {
                    if k <= app.devices.len() && app.selected_device != k - 1 {
                        r == (
                            AppView { selected_device: (k - 1) as usize, ..app },
                            Effect::<ConfigView>::Probe,
                        )
                    } else {
                        r == (app, go_on)
                    }
                }
        }),
{
}

/// The keys that the picker and the button leave to themselves.
pub open spec fn is_setting_key(code: KeyCode) -> bool {
    match code {
        KeyCode::Char(c) => c == 'q' || c == 'b' || c == 'm' || c == 'p' || c == 'r' || 49
            <= c as int <= 57,
        KeyCode::Esc => true,
        KeyCode::Tab => true,
        _ => false,
    }
}

/// All other keys go to the picker, where Enter on a file takes it as the image, or to the
/// button, which Enter and the space bar press.
pub proof fn law_picker_and_button_keys(
    app: AppView,
    code: KeyCode,
    control: bool,
    on_file: bool,
)
    requires
        !is_ctrl_c(code, control),
        is_idle(app),
        !is_setting_key(code),
    ensures
        ({
            let r = after_event(app, key_down(code, control), on_file);
            &&& app.focus == Focus::Picker && code == KeyCode::Enter && on_file ==> r == (
                app,
                Effect::<ConfigView>::SelectImage,
            )
            &&& app.focus == Focus::Picker && !(code == KeyCode::Enter && on_file) ==> r == (
                app,
                Effect::<ConfigView>::Explore,
            )
            &&& app.focus == Focus::FlashButton && (code == KeyCode::Enter || code
                == KeyCode::Char(' ')) ==> r == (app, Effect::<ConfigView>::Confirm)
            &&& app.focus == Focus::FlashButton && code != KeyCode::Enter && code
                != KeyCode::Char(' ') ==> r == (app, Effect::<ConfigView>::Continue)
        }),
{
}

/// The dialog offers what the screen shows: the selected image, the size that was typed, the
/// slots and the reset that are set. The markers are on if they are set or the table on the card
/// is not the one that would be written; in the second case they count as switched on for the
/// occasion.
pub proof fn law_dialog_offers_the_settings(app: AppView, len: Option<u64>)
    ensures
        confirmation(app, len) matches Ok(pc) ==> {
            let size = size_in_bytes(app.size_input)->Ok_0;
            let same = app.sd_total_sectors is Some && app.sd_existing is Some && layout_on(
                app.sd_total_sectors->Some_0,
                size,
            ) == Ok::<Layout, LayoutError>(app.sd_existing->Some_0.layout);
            &&& app.selected_image == Some(pc.cfg.image)
            &&& size_in_bytes(app.size_input) is Ok
            &&& pc.cfg.rootfs_size_bytes == size
            &&& pc.cfg.target_partition == app.target_partition
            &&& pc.cfg.reset_after_flash == app.reset_after_flash
            &&& pc.layout_matches <==> same
            &&& pc.cfg.userdata_magic <==> app.userdata_magic || !same
            &&& pc.magic_auto <==> !app.userdata_magic && !same
        },
{
}

/// The dialog opens exactly if there is an image, the size reads as a number above 0 of whole
/// sectors, the card, where it is known, takes it, and the image, where its length is known, fits
/// in it. Else the first of these that fails is told.
pub proof fn law_dialog_is_refused(app: AppView, len: Option<u64>)
    ensures
        ({
            let r = confirmation(app, len);
            let size = size_in_bytes(app.size_input);
            let n = size->Ok_0;
            let max = max_rootfs(app.sd_total_bytes->Some_0 as int);
            if app.selected_image is None {
                r is Err && r->Err_0
                    == "Select an image first (focus the file picker, press Enter)"@
            } else if size is Err {
                r is Err && r->Err_0 == "Invalid size: "@ + size->Err_0
            } else if n == 0 {
                r is Err && r->Err_0 == "Rootfs size must be > 0"@
            } else if n % 512 != 0 {
                r is Err && r->Err_0 == "Size "@ + decimal(n as nat)
                    + " bytes is not a multiple of sector size "@ + decimal(512)
            } else if app.sd_total_bytes is Some && n > max {
                r is Err && r->Err_0 == "Rootfs size "@ + decimal((n / 1_048_576) as nat)
                    + " MiB > "@ + decimal((max / 1_048_576) as nat)
                    + " MiB (half of SD - GPT). Won't fit."@
            } else if len is Some && len->Some_0 > n {
                r is Err && r->Err_0 == "Image is "@ + decimal((len->Some_0 / 1_048_576) as nat)
                    + " MiB but rootfs partition is only "@ + decimal((n / 1_048_576) as nat)
                    + " MiB; pick rootfs >= "@ + decimal(
                    ((len->Some_0 + 1_048_575) / 1_048_576) as nat,
                ) + " MiB."@
            } else {
                r is Ok
            }
        }),
{
    if len is Some {
        let m = len->Some_0 as int;
        crate::flash::lemma_aligned(m, 1_048_576);
        assert(crate::flash::aligned(m, 1_048_576) / 1_048_576 == (m + 1_048_575) / 1_048_576);
    }
}

/// An image is taken under its path, and the keys go to the size box. If its length is known,
/// the size box shows the length rounded up to 128 MiB, or the largest whole MiB that the card
/// takes, which the log tells; an image that is too large for the card is refused.
pub proof fn law_image_is_taken(app: AppView, path: Seq<char>, len: Option<u64>)
    ensures
        ({
            let r = image_selected(app, path, len);
            let n = len->Some_0 as int;
            let up = (n + 134_217_727) / 134_217_728 * 128;
            let max = max_rootfs(app.sd_total_bytes->Some_0 as int);
            let whole = max / 1_048_576;
            if len is None {
                r == (AppView { selected_image: Some(path), focus: Focus::Size, ..app })
            } else if app.sd_total_bytes is Some && n > max {
                r == (AppView {
                    selected_image: Some(path),
                    focus: Focus::Size,
                    error_msg: Some(
                        "Image is "@ + decimal((n / 1_048_576) as nat) + " MiB but SD only fits a "@
                            + decimal(whole as nat)
                            + " MiB rootfs (half of SD - GPT).\nPick a smaller image or use a larger card."@,
                    ),
                    ..app
                })
            } else if app.sd_total_bytes is Some && up * 1_048_576 > max {
                r == (AppView {
                    selected_image: Some(path),
                    focus: Focus::Size,
                    size_input: decimal(whole as nat) + "MiB"@,
                    log: app.log.push(
                        "Default 128-MiB round-up wouldn't fit; capped rootfs at "@ + decimal(
                            whole as nat,
                        ) + " MiB."@,
                    ),
                    ..app
                })
            } else {
                r == (AppView {
                    selected_image: Some(path),
                    focus: Focus::Size,
                    size_input: decimal(up as nat) + "MiB"@,
                    ..app
                })
            }
        }),
{
    if len is Some {
        let n = len->Some_0 as int;
        let step = 134_217_728int;
        crate::flash::lemma_aligned(n, step);
        assert(crate::flash::DEFAULT_ROUND_MIB * crate::flash::MIB == step);
        let up = (n + 134_217_727) / 134_217_728;
        assert(crate::flash::aligned(n, step) == up * step);
        assert(up * step == up * 128 * 1_048_576);
        assert((up * 128 * 1_048_576) / 1_048_576 == up * 128);
        let max = max_rootfs(app.sd_total_bytes->Some_0 as int);
        assert((max / 1_048_576 * 1_048_576) / 1_048_576 == max / 1_048_576);
    }
}

/// A new list of devices replaces the old one and forgets the card. The selection stays where
/// there is such a device, and goes to the first otherwise.
pub proof fn law_devices_are_listed(
    app: AppView,
    devices: Seq<DeviceSummary>,
    error: Option<Seq<char>>,
)
    ensures
        listed(app, devices, error) == (AppView {
            devices,
            device_err: error,
            selected_device: if app.selected_device < devices.len() {
                app.selected_device
            } else {
                0
            },
            sd_total_bytes: None,
            sd_total_sectors: None,
            sd_existing: None,
            ..app
        }),
        unprobed(app) == (AppView {
            sd_total_bytes: None,
            sd_total_sectors: None,
            sd_existing: None,
            ..app
        }),
        selected(app) is Some <==> app.selected_device < app.devices.len(),
        selected(app) matches Some(d) ==> d == app.devices[app.selected_device as int],
        refreshed_line(1) == "Refreshed: "@ + decimal(1) + " RockUSB device"@ + ""@ + " found"@,
        devices.len() != 1 ==> refreshed_line(devices.len()) == "Refreshed: "@ + decimal(
            devices.len(),
        ) + " RockUSB device"@ + "s"@ + " found"@,
{
}

/// A probe of the card is taken over: its size and its table; the slot that is marked to start
/// becomes the target; and the size box shows the size of the slots on the card, if it is a MiB
/// or more.
pub proof fn law_probe_is_taken_over(app: AppView, d: DeviceSummary, p: SdProbe)
    ensures
        ({
            let mib = p.existing->Some_0.layout.spec_rootfs_size() / 1_048_576;
            let found = if p.existing is None {
                ""@
            } else if p.existing->Some_0.active is None {
                " (existing leaflash GPT)"@
            } else {
                " (existing leaflash GPT, active = "@
                    + p.existing->Some_0.active->Some_0.spec_name() + ")"@
            };
            probed(app, d, p) == (AppView {
                sd_total_bytes: Some(p.total_bytes),
                sd_total_sectors: Some(p.total_sectors),
                sd_existing: p.existing,
                target_partition: if p.existing is Some && p.existing->Some_0.active is Some {
                    p.existing->Some_0.active->Some_0
                } else {
                    app.target_partition
                },
                size_input: if p.existing is Some && mib > 0 {
                    decimal(mib as nat) + "MiB"@
                } else {
                    app.size_input
                },
                log: app.log.push(
                    "Probed device "@ + decimal(d.bus as nat) + ":"@ + decimal(d.address as nat)
                        + ": SD "@ + decimal((p.total_bytes / 1_048_576) as nat) + " MiB"@ + found,
                ),
                ..app
            })
        }),
{
}

/// The log grows by one line at its end.
pub proof fn law_log_grows(app: AppView, line: Seq<char>)
    ensures
        app.logged(line) == (AppView { log: app.log + seq![line], ..app }),
{
    assert(app.log.push(line) =~= app.log + seq![line]);
}

/// The end of a flash clears the bar, is logged, and shows the banner or the error.
pub proof fn law_flash_ends(app: AppView, error: Seq<char>)
    ensures
        finished(app, None) == (AppView {
            flashing: false,
            progress: None,
            success_banner: true,
            log: app.log.push("Flash completed."@),
            ..app
        }),
        finished(app, Some(error)) == (AppView {
            flashing: false,
            progress: None,
            error_msg: Some("Flash failed:\n"@ + error),
            log: app.log.push("Flash failed: "@ + error),
            ..app
        }),
{
}

/// A progress bar advances by what is done, up to its total.
pub proof fn law_progress_advances(p: ProgressView, delta: u64)
    ensures
        advanced(None, delta) is None,
        advanced(Some(p), delta) matches Some(q) && {
            &&& q.total == p.total
            &&& q.msg == p.msg
            &&& p.cur + delta <= p.total ==> q.cur == p.cur + delta
            &&& p.cur + delta > p.total ==> q.cur == p.total
        },
{
}

/// At the start nothing is selected or known, the size is 256 MiB, the flash goes to slot A and
/// resets the device.
pub proof fn law_start()
    ensures
        ({
            let app = initial();
            &&& app.selected_image is None
            &&& app.size_input == "256MiB"@
            &&& app.focus == Focus::Picker
            &&& app.log.len() == 0
            &&& app.progress is None
            &&& !app.flashing
            &&& app.devices.len() == 0
            &&& app.device_err is None
            &&& app.selected_device == 0
            &&& app.sd_total_sectors is None
            &&& app.sd_total_bytes is None
            &&& app.sd_existing is None
            &&& !app.success_banner
            &&& app.reset_after_flash
            &&& !app.userdata_magic
            &&& app.target_partition == Partition::RootfsA
            &&& app.pending_confirm is None
            &&& app.error_msg is None
        }),
{
}

/// The line for the start of a flash tells all of the request.
pub proof fn law_start_is_logged(d: DeviceSummary, cfg: ConfigView)
    ensures
        ({
            let target = if cfg.target_partition == Partition::RootfsA {
                "rootfs_a"@
            } else if cfg.target_partition == Partition::RootfsB {
                "rootfs_b"@
            } else {
                "both"@
            };
            let reset = if cfg.reset_after_flash {
                "true"@
            } else {
                "false"@
            };
            let magic = if cfg.userdata_magic {
                "true"@
            } else {
                "false"@
            };
            start_line(d, cfg) == "Starting flash: device="@ + decimal(d.bus as nat) + ":"@
                + decimal(d.address as nat) + " image="@ + cfg.image + " target="@ + target
                + " rootfs_size="@ + decimal(cfg.rootfs_size_bytes as nat) + " bytes reset="@
                + reset + " userdata_magic="@ + magic
        }),
{
}

/// A card that cannot be probed is told with the device and the reason.
pub proof fn law_failed_probe_is_logged(d: DeviceSummary, reason: Seq<char>)
    ensures
        unprobed_line(d, reason) == "Could not probe device "@ + decimal(d.bus as nat) + ":"@
            + decimal(d.address as nat) + ": "@ + reason,
{
}

/// What is seen of the interface is what it holds.
pub proof fn law_app_view(app: App, i: int)
    ensures
        app.selected_image is None <==> app@.selected_image is None,
        app.selected_image matches Some(s) ==> app@.selected_image == Some(s@),
        app@.size_input == app.size_input@,
        app@.focus == app.focus,
        app@.log.len() == app.log@.len(),
        0 <= i < app.log@.len() ==> app@.log[i] == app.log@[i]@,
        app.progress is None <==> app@.progress is None,
        app.progress matches Some(p) ==> app@.progress == Some(p@),
        app@.flashing == app.flashing,
        app@.devices == app.devices@,
        app.device_err is None <==> app@.device_err is None,
        app.device_err matches Some(s) ==> app@.device_err == Some(s@),
        app@.selected_device == app.selected_device,
        app@.sd_total_sectors == app.sd_total_sectors,
        app@.sd_total_bytes == app.sd_total_bytes,
        app@.sd_existing == app.sd_existing,
        app@.success_banner == app.success_banner,
        app@.reset_after_flash == app.reset_after_flash,
        app@.userdata_magic == app.userdata_magic,
        app@.target_partition == app.target_partition,
        app.pending_confirm is None <==> app@.pending_confirm is None,
        app.pending_confirm matches Some(p) ==> app@.pending_confirm == Some(p@),
        app.error_msg is None <==> app@.error_msg is None,
        app.error_msg matches Some(s) ==> app@.error_msg == Some(s@),
{
}

/// What is seen of a dialog, a progress bar and an effect is what they hold.
pub proof fn law_parts_view(pc: PendingConfirm, p: Progress, e: Effect<Config>)
    ensures
        pc@.cfg == pc.cfg@,
        pc@.layout_matches == pc.layout_matches,
        pc@.magic_auto == pc.magic_auto,
        p@.cur == p.cur,
        p@.total == p.total,
        p@.msg == p.msg@,
        e is Continue <==> e@ is Continue,
        e is Quit <==> e@ is Quit,
        e is Refresh <==> e@ is Refresh,
        e is Probe <==> e@ is Probe,
        e is SelectImage <==> e@ is SelectImage,
        e is Explore <==> e@ is Explore,
        e is Confirm <==> e@ is Confirm,
        e matches Effect::Flash { bus, address, cfg } ==> e@ == (Effect::Flash {
            bus,
            address,
            cfg: cfg@,
        }),
{
}

} // verus!
