//! What holds of the terminal interface as a whole.

use crate::device::{Capacity, DeviceSummary};
use crate::flash::{
    aligned, law_size_text_reads_back, lemma_aligned, size_in_bytes, ConfigView, Partition,
    DEFAULT_ROUND_MIB, MIB, SECTOR_SIZE,
};
use crate::plan::{flash_layout, image_error, law_max_rootfs_fits, request_error};
use crate::tui::{
    advanced, after_event, confirmation, finished, image_selected, listed, max_for, partition_after,
    selected, suggested_size, AppView, Effect, Event, Focus, KeyCode, KeyEvent, ProgressView,
};
use vstd::prelude::*;

verus! {

/// A key press.
pub open spec fn pressed(code: KeyCode) -> Event {
    Event::Key(KeyEvent { code, control: false, press: true })
}

/// Whether keys go to the screen: no overlay is shown and no flash is running.
pub open spec fn at_rest(app: AppView) -> bool {
    app.error_msg is None && !app.success_banner && app.pending_confirm is None && !app.flashing
}

/// Ctrl-C always exits, even mid-flash, and changes nothing.
pub proof fn law_ctrl_c_quits(app: AppView, on_file: bool)
    ensures
        after_event(
            app,
            Event::Key(KeyEvent { code: KeyCode::Char('c'), control: true, press: true }),
            on_file,
        ) == (app, Effect::<ConfigView>::Quit),
{
}

/// While a flash is running no other event exits.
pub proof fn law_no_quit_mid_flash(app: AppView, event: Event, on_file: bool)
    requires
        app.flashing,
        !(event matches Event::Key(k) && k.control && k.code == KeyCode::Char('c')),
    ensures
        after_event(app, event, on_file).1 != Effect::<ConfigView>::Quit,
{
}

/// While a flash is running, no event starts another one unless a dialog is open, and no
/// dialog opens.
pub proof fn law_one_flash_at_a_time(app: AppView, event: Event, on_file: bool)
    requires
        app.flashing,
        app.pending_confirm is None,
    ensures
        !(after_event(app, event, on_file).1 is Flash),
        !(after_event(app, event, on_file).1 is Confirm),
        after_event(app, event, on_file).0.pending_confirm is None,
        after_event(app, event, on_file).0.flashing,
{
}

/// Any key dismisses the error overlay, and does nothing else.
pub proof fn law_any_key_dismisses_an_error(app: AppView, code: KeyCode, on_file: bool)
    requires
        app.error_msg is Some,
    ensures
        after_event(app, pressed(code), on_file) == (
            AppView { error_msg: None, ..app },
            Effect::<ConfigView>::Continue,
        ),
{
}

/// Any key dismisses the success banner, and does nothing else.
pub proof fn law_any_key_dismisses_the_banner(app: AppView, code: KeyCode, on_file: bool)
    requires
        app.error_msg is None,
        app.success_banner,
    ensures
        after_event(app, pressed(code), on_file) == (
            AppView { success_banner: false, ..app },
            Effect::<ConfigView>::Continue,
        ),
{
}

/// Tab cycles through the three parts of the screen.
pub proof fn law_tab_cycles(app: AppView, on_file: bool)
    requires
        at_rest(app),
    ensures
        ({
            let once = after_event(app, pressed(KeyCode::Tab), on_file).0;
            let twice = after_event(once, pressed(KeyCode::Tab), on_file).0;
            let thrice = after_event(twice, pressed(KeyCode::Tab), on_file).0;
            &&& once.focus != app.focus
            &&& twice.focus != app.focus
            &&& twice.focus != once.focus
            &&& thrice == app
        }),
{
}

/// The choice of slots cycles through all three.
pub proof fn law_partition_cycles(p: Partition)
    ensures
        partition_after(p) != p,
        partition_after(partition_after(p)) != p,
        partition_after(partition_after(p)) != partition_after(p),
        partition_after(partition_after(partition_after(p))) == p,
{
}

/// Pressing 'b', or 'm', twice changes nothing.
pub proof fn law_toggles_undo_themselves(app: AppView, code: KeyCode, on_file: bool)
    requires
        at_rest(app),
        app.focus != Focus::Size,
        code == KeyCode::Char('b') || code == KeyCode::Char('m'),
    ensures
        ({
            let once = after_event(app, pressed(code), on_file).0;
            &&& once != app
            &&& after_event(once, pressed(code), on_file).0 == app
        }),
{
    let once = after_event(app, pressed(code), on_file).0;
    assert(once.reset_after_flash != app.reset_after_flash || once.userdata_magic
        != app.userdata_magic);
}

/// In the size box Backspace takes back a character that was typed.
pub proof fn law_backspace_takes_back(app: AppView, c: char, on_file: bool)
    requires
        at_rest(app),
        app.focus == Focus::Size,
        c != 'q',
    ensures
        ({
            let typed = after_event(app, pressed(KeyCode::Char(c)), on_file).0;
            &&& typed.size_input == app.size_input.push(c)
            &&& after_event(typed, pressed(KeyCode::Backspace), on_file).0 == app
        }),
{
    let typed = after_event(app, pressed(KeyCode::Char(c)), on_file).0;
    assert(typed.size_input.drop_last() =~= app.size_input);
}

/// Cancelling the dialog only closes it.
pub proof fn law_cancel_only_closes_the_dialog(app: AppView, code: KeyCode, on_file: bool)
    requires
        app.error_msg is None,
        !app.success_banner,
        app.pending_confirm is Some,
        code == KeyCode::Esc || code == KeyCode::Char('n') || code == KeyCode::Char('q'),
    ensures
        after_event(app, pressed(code), on_file) == (
            AppView { pending_confirm: None, ..app },
            Effect::<ConfigView>::Continue,
        ),
{
}

/// Only the confirm dialog starts a flash, and with exactly the inputs that it shows.
pub proof fn law_a_flash_is_confirmed(app: AppView, event: Event, on_file: bool)
    requires
        after_event(app, event, on_file).1 is Flash,
    ensures
        app.pending_confirm is Some,
        after_event(app, event, on_file).1->cfg == app.pending_confirm->Some_0.cfg,
        selected(app) is Some,
        after_event(app, event, on_file).1->bus == selected(app)->Some_0.bus,
        after_event(app, event, on_file).1->address == selected(app)->Some_0.address,
        after_event(app, event, on_file).0.pending_confirm is None,
        after_event(app, event, on_file).0.flashing,
{
}

/// In the dialog the preferences and the held inputs agree on the reset and on the slots, and
/// no key changes the size or the image.
pub proof fn law_dialog_keeps_the_request(app: AppView, code: KeyCode, on_file: bool)
    requires
        app.error_msg is None,
        !app.success_banner,
        app.pending_confirm matches Some(pc) && pc.cfg.reset_after_flash == app.reset_after_flash
            && pc.cfg.target_partition == app.target_partition,
    ensures
        after_event(app, pressed(code), on_file).0.pending_confirm matches Some(after) ==> {
            let after_app = after_event(app, pressed(code), on_file).0;
            &&& after.cfg.image == app.pending_confirm->Some_0.cfg.image
            &&& after.cfg.rootfs_size_bytes == app.pending_confirm->Some_0.cfg.rootfs_size_bytes
            &&& after.layout_matches == app.pending_confirm->Some_0.layout_matches
            &&& after.cfg.reset_after_flash == after_app.reset_after_flash
            &&& after.cfg.target_partition == after_app.target_partition
        },
{
}

/// What the dialog offers passes the checks of the flash itself: the size, the image of the
/// length that was found out, and, on the probed card, the largest rootfs.
pub proof fn law_confirmed_inputs_pass_the_flash_checks(app: AppView, len: u64, card: Capacity)
    requires
        confirmation(app, Some(len)) is Ok,
        app.sd_total_bytes == Some(card.bytes),
        app.sd_total_sectors == Some(card.sectors as u64),
        card.bytes == card.sectors * SECTOR_SIZE,
    ensures
        ({
            let cfg = confirmation(app, Some(len))->Ok_0.cfg;
            &&& request_error(cfg) is None
            &&& image_error(cfg, len) is None
            &&& flash_layout(cfg, len, card) is Ok
        }),
{
    let cfg = confirmation(app, Some(len))->Ok_0.cfg;
    law_max_rootfs_fits(card.sectors as u64, cfg.rootfs_size_bytes);
}

/// The dialog promises to preserve the rest of the card exactly where the flash does.
pub proof fn law_dialog_foresees_the_refresh(app: AppView, len: u64, card: Capacity)
    requires
        confirmation(app, Some(len)) is Ok,
        app.sd_total_bytes == Some(card.bytes),
        app.sd_total_sectors == Some(card.sectors as u64),
        card.bytes == card.sectors * SECTOR_SIZE,
    ensures
        ({
            let pc = confirmation(app, Some(len))->Ok_0;
            let found = match app.sd_existing {
                Some(info) => Some(info.layout),
                None => None,
            };
            pc.layout_matches == (found == Some(flash_layout(pc.cfg, len, card)->Ok_0))
        }),
{
    law_confirmed_inputs_pass_the_flash_checks(app, len, card);
}

/// Where the whole card is going to be erased, the markers are on unless the user turns them
/// off in the dialog.
pub proof fn law_full_erase_defaults_to_markers(app: AppView, len: Option<u64>)
    requires
        confirmation(app, len) is Ok,
        !confirmation(app, len)->Ok_0.layout_matches,
    ensures
        confirmation(app, len)->Ok_0.cfg.userdata_magic,
        confirmation(app, len)->Ok_0.magic_auto == !app.userdata_magic,
{
}

/// The size that is suggested for an image reads back from the size box as whole MiB, takes
/// the image and fits the card, unless only part of a MiB would be left for the image.
pub proof fn law_suggested_size_works(app: AppView, path: Seq<char>, len: u64)
    requires
        aligned(len as int, DEFAULT_ROUND_MIB * MIB) <= u64::MAX,
        max_for(app.sd_total_bytes) matches Some(max) ==> len <= max as int / MIB as int * MIB,
    ensures
        ({
            let after = image_selected(app, path, Some(len));
            let size = size_in_bytes(after.size_input);
            &&& after.error_msg == app.error_msg
            &&& size is Ok
            &&& size->Ok_0 >= len
            &&& size->Ok_0 % MIB == 0
            &&& max_for(app.sd_total_bytes) matches Some(max) ==> size->Ok_0 <= max
        }),
{
    let max = max_for(app.sd_total_bytes);
    let (size, capped) = suggested_size(len, max);
    let step = DEFAULT_ROUND_MIB * MIB;
    assert(step == 0x800_0000);
    lemma_aligned(len as int, step);
    let rounded = aligned(len as int, step);
    assert(rounded % 0x800_0000 == 0);
    assert(rounded % 0x10_0000 == 0);
    assert(size % 0x10_0000 == 0);
    assert(len <= size <= u64::MAX);
    let n = (size / MIB as int) as nat;
    assert(n * MIB == size);
    law_size_text_reads_back(n);
}

/// A progress bar never goes beyond its total.
pub proof fn law_progress_stays_within(p: ProgressView, delta: u64)
    ensures
        advanced(Some(p), delta)->Some_0.cur <= p.total,
        advanced(Some(p), delta)->Some_0.total == p.total,
        p.cur <= p.total ==> advanced(Some(p), delta)->Some_0.cur >= p.cur,
{
}

/// What the dialog offers leaves room for the approximate userdata to be worked out.
pub proof fn law_confirmed_size_fits_twice(app: AppView, len: Option<u64>)
    requires
        confirmation(app, len) is Ok,
        app.sd_total_bytes is Some,
    ensures
        2 * confirmation(app, len)->Ok_0.cfg.rootfs_size_bytes <= app.sd_total_bytes->Some_0,
{
}

/// Whether the selection is a device of the list, or the start of an empty one.
pub open spec fn selection_ok(app: AppView) -> bool {
    app.selected_device < app.devices.len() || app.selected_device == 0
}

/// No event moves the selection off the list.
pub proof fn law_selection_stays_valid(app: AppView, event: Event, on_file: bool)
    requires
        selection_ok(app),
    ensures
        selection_ok(after_event(app, event, on_file).0),
{
}

/// A new list of devices has a valid selection, which stays where it can; with one device it
/// is that one.
pub proof fn law_listing_selects(
    app: AppView,
    devices: Seq<DeviceSummary>,
    error: Option<Seq<char>>,
)
    ensures
        selection_ok(listed(app, devices, error)),
        app.selected_device < devices.len() ==> listed(app, devices, error).selected_device
            == app.selected_device,
        devices.len() == 1 ==> selected(listed(app, devices, error)) == Some(devices[0]),
{
}

/// A dialog is never open while a flash is running.
pub proof fn law_dialog_and_flash_exclude_each_other(app: AppView, event: Event, on_file: bool)
    requires
        !(app.flashing && app.pending_confirm is Some),
    ensures
        ({
            let after = after_event(app, event, on_file).0;
            !(after.flashing && after.pending_confirm is Some)
        }),
{
}

/// Pressing 'm' in the dialog turns the markers over, marks them as the user's own choice and
/// takes that as the preference.
pub proof fn law_markers_can_be_turned_off(app: AppView, on_file: bool)
    requires
        app.error_msg is None,
        !app.success_banner,
        app.pending_confirm is Some,
    ensures
        ({
            let before = app.pending_confirm->Some_0;
            let after = after_event(app, pressed(KeyCode::Char('m')), on_file).0;
            &&& after.pending_confirm matches Some(pc) && pc.cfg.userdata_magic
                == !before.cfg.userdata_magic && !pc.magic_auto
            &&& after.userdata_magic == !before.cfg.userdata_magic
        }),
{
}

/// The end of a flash lets the next one start, and shows how it went.
pub proof fn law_end_of_a_flash_is_shown(app: AppView, error: Option<Seq<char>>)
    ensures
        ({
            let after = finished(app, error);
            &&& !after.flashing
            &&& after.progress is None
            &&& error is None ==> after.success_banner
            &&& error is Some ==> after.error_msg is Some
            &&& after.log.len() == app.log.len() + 1
        }),
{
}

} // verus!
