//! What the functions of the interface do to its state, and what they show of it.

use crate::device::{DeviceSummary, SdProbe};
use crate::flash::{Config, Partition};
use crate::screen_laws::is_row;
use crate::text::{decimal, texts};
use crate::tui::{
    advanced, after_event, finished, image_selected, initial, listed, next_partition, probed,
    refreshed_line, unprobed, unprobed_line, App, AppView, Effect, Event, Focus, PendingConfirm,
    ProgressView,
};
use crate::view::{
    all_columns, as_ints, border_style, button_label, button_style, button_title, centered,
    centered_rect, clamped, confirm_fits, confirm_lines, confirm_list, confirm_place, confirm_rect,
    device_lines, device_list, devices_line_count, error_height, error_lines, error_list,
    error_rect, error_width, line_count, lines_of, lines_view, log_lines, log_list, picker_label,
    picker_title, place_confirm, size_row, size_text, size_title, success_label, success_lines,
    success_rect, text_lines, Color, Line, Rect, Style,
};
use vstd::prelude::*;

verus! {

/// An event changes the state, and gives the effect, that [`after_event`] tells.
pub proof fn law_handled_event(app: &mut App, event: Event, on_file: bool, r: Effect<Config>)
    requires
        call_ensures(App::handle_event, (app, event, on_file), r),
    ensures
        final(app)@ == after_event(old(app)@, event, on_file).0,
        r@ == after_event(old(app)@, event, on_file).1,
{
}

/// The choice of slots goes from A to B, to both, and back to A; the state at the start is
/// [`initial`].
pub proof fn law_start_functions(p: Partition, q: Partition, app: App)
    ensures
        call_ensures(next_partition, (p,), q) ==> q == (match p {
            Partition::RootfsA => Partition::RootfsB,
            Partition::RootfsB => Partition::Both,
            Partition::Both => Partition::RootfsA,
        }),
        call_ensures(App::new, (), app) ==> app@ == initial(),
{
}

/// A line goes to the end of the log, and an error to the overlay.
pub proof fn law_telling_functions(app: &mut App, line: &str, error: String)
    ensures
        call_ensures(App::stage, (app, line), ()) ==> final(app)@ == (AppView {
            log: old(app)@.log.push(line@),
            ..old(app)@
        }),
        call_ensures(App::show_error, (app, error), ()) ==> final(app)@ == (AppView {
            error_msg: Some(error@),
            ..old(app)@
        }),
{
}

/// An image is taken as [`image_selected`] tells.
pub proof fn law_taken_image(app: &mut App, path: &str, len: Option<u64>)
    requires
        call_ensures(App::on_image_selected, (app, path, len), ()),
        len matches Some(n) ==> n <= u64::MAX - 134_217_728,
    ensures
        final(app)@ == image_selected(old(app)@, path@, len),
{
    if len is Some {
        crate::flash_laws::law_rounding_up(len->Some_0 as int, 134_217_728);
    }
}

/// Devices are listed and probed; the device whose card is to be probed is the selected one, if
/// there is one.
pub proof fn law_probing_functions(
    app: &mut App,
    list: Result<Vec<DeviceSummary>, String>,
    d: DeviceSummary,
    outcome: Result<SdProbe, String>,
    r: Option<DeviceSummary>,
)
    ensures
        call_ensures(App::refresh_devices, (app, list), r) ==> {
            &&& list matches Ok(v) ==> final(app)@ == listed(old(app)@, v@, None)
            &&& list matches Err(e) ==> final(app)@ == listed(old(app)@, Seq::empty(), Some(e@))
        },
        call_ensures(App::reprobe_selected, (app,), r) ==> final(app)@ == unprobed(old(app)@),
        call_ensures(App::refresh_devices, (app, list), r) || call_ensures(
            App::reprobe_selected,
            (app,),
            r,
        ) ==> {
            &&& r is Some <==> final(app)@.selected_device < final(app)@.devices.len()
            &&& r matches Some(found) ==> found
                == final(app)@.devices[final(app)@.selected_device as int]
        },
        call_ensures(App::probe_done, (app, d, outcome), ()) ==> {
            &&& outcome matches Ok(p) ==> final(app)@ == probed(old(app)@, d, p)
            &&& outcome matches Err(e) ==> final(app)@ == (AppView {
                log: old(app)@.log.push(unprobed_line(d, e@)),
                ..old(app)@
            })
        },
        call_ensures(App::refresh_done, (app,), ()) ==> final(app)@ == (AppView {
            log: old(app)@.log.push(refreshed_line(old(app)@.devices.len())),
            ..old(app)@
        }),
{
}

/// A flash ends, and its progress bar begins, advances and ends.
pub proof fn law_progress_functions(
    app: &mut App,
    outcome: Result<(), String>,
    total: u64,
    delta: u64,
    msg: &str,
)
    ensures
        call_ensures(App::finish_flash, (app, outcome), ()) ==> {
            &&& outcome is Ok ==> final(app)@ == finished(old(app)@, None)
            &&& outcome matches Err(e) ==> final(app)@ == finished(old(app)@, Some(e@))
        },
        call_ensures(App::progress_begin, (app, total, msg), ()) ==> final(app)@ == (AppView {
            progress: Some(ProgressView { cur: 0, total, msg: msg@ }),
            ..old(app)@
        }),
        call_ensures(App::progress_inc, (app, delta), ()) ==> final(app)@ == (AppView {
            progress: advanced(old(app)@.progress, delta),
            ..old(app)@
        }),
        call_ensures(App::progress_finish, (app, msg), ()) ==> final(app)@ == (AppView {
            progress: None,
            log: old(app)@.log.push(msg@ + ": done"@),
            ..old(app)@
        }),
{
}

/// The parts of the screen show the state.
pub proof fn law_screen_functions(
    app: &App,
    input: &str,
    active: bool,
    n: u16,
    v: Vec<Line>,
    r: String,
    w: &'static str,
    s: Style,
)
    ensures
        call_ensures(border_style, (active,), s) ==> s == (Style {
            fg: if active {
                Color::Yellow
            } else {
                Color::Plain
            },
            bg: Color::Plain,
            bold: false,
        }),
        call_ensures(devices_line_count, (app,), n) ==> n == line_count(app@),
        call_ensures(device_lines, (app,), v) ==> lines_view(v@) == device_list(app@),
        call_ensures(picker_title, (app,), r) ==> r@ == picker_label(app@),
        call_ensures(size_text, (input,), r) ==> r@ == size_row(input@),
        call_ensures(size_title, (), r) ==> r@
            == "rootfs size (each of A and B), default rounded to "@ + decimal(128) + " MiB"@,
        call_ensures(button_label, (app,), w) ==> w@ == (if app.flashing {
            "[ Flashing... ]"@
        } else {
            "[ Flash ]"@
        }),
        call_ensures(button_style, (app,), s) ==> s == (if app.focus == Focus::FlashButton {
            Style { fg: Color::Black, bg: Color::Yellow, bold: true }
        } else {
            Style { fg: Color::Plain, bg: Color::Plain, bold: true }
        }),
        call_ensures(button_title, (app,), r) ==> ({
            let target = if app.target_partition == Partition::RootfsA {
                "rootfs_a"@
            } else if app.target_partition == Partition::RootfsB {
                "rootfs_b"@
            } else {
                "both"@
            };
            let reset = if app.reset_after_flash {
                "ON"@
            } else {
                "off"@
            };
            let magic = if app.userdata_magic {
                "ON"@
            } else {
                "off"@
            };
            r@ == "Flash (Enter)  \u{b7}  target(p): "@ + target + "  \u{b7}  reboot(b): "@ + reset
                + "  \u{b7}  magic(m): "@ + magic
        }),
        call_ensures(log_lines, (app,), v) ==> lines_view(v@) == log_list(app@),
{
}

/// The overlays show the success, the error and the request, in the middle of the screen.
pub proof fn law_overlay_functions(
    app: &App,
    msg: &str,
    pc: &PendingConfirm,
    len: Option<u64>,
    area: Rect,
    width: u16,
    height: u16,
    lines: &Vec<Line>,
    columns: &Vec<usize>,
    place: Rect,
    v: Vec<Line>,
    t: Vec<String>,
    o: Option<Rect>,
)
    ensures
        call_ensures(centered_rect, (area, width, height), place) ==> place == centered(
            area,
            width as int,
            height as int,
        ),
        call_ensures(success_rect, (app, area), place) ==> place == centered(
            area,
            if app.reset_after_flash {
                42
            } else {
                40
            },
            5,
        ),
        call_ensures(success_lines, (app,), v) ==> ({
            let list = lines_view(v@);
            &&& list.len() == 3
            &&& is_row(list[0], ""@, Color::Plain, false)
            &&& is_row(list[1], success_label(app@), Color::Green, true)
            &&& is_row(list[2], "press any key to dismiss"@, Color::DarkGray, false)
        }),
        call_ensures(lines_of, (msg,), t) ==> texts(t@) == text_lines(msg@),
        call_ensures(error_rect, (msg, area), place) ==> place == centered(
            area,
            clamped(error_width(msg@), 30, area.width - 4),
            clamped(error_height(msg@), 5, area.height - 2),
        ),
        call_ensures(error_lines, (msg,), v) ==> lines_view(v@) == error_list(msg@),
        call_ensures(confirm_lines, (app, pc, len), v) ==> lines_view(v@) == confirm_list(
            app@,
            pc@,
            len,
        ),
        call_ensures(place_confirm, (columns, area), place) ==> place == confirm_place(
            as_ints(columns@),
            area,
        ),
        call_ensures(confirm_rect, (lines, area), o) ==> ({
            let c = all_columns(lines_view(lines@));
            &&& o is Some <==> confirm_fits(c, area)
            &&& o matches Some(found) ==> found == confirm_place(c, area)
        }),
{
    reveal_strlit("Flash completed and device rebooted.");
    reveal_strlit("Flash completed.");
}

} // verus!
