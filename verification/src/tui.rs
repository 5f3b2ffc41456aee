//! The state of the terminal interface, and what it does with a key, a probe of the card, or
//! news from a running flash.

use crate::device::{DeviceSummary, SdProbe};
use crate::flash::{
    aligned, expected_layout, layout_on, max_rootfs, max_rootfs_bytes, parse_size, round_up_mib,
    size_in_bytes, Config, ConfigView, Layout, LayoutError, LayoutInfo, Partition,
    DEFAULT_ROUND_MIB, MIB, SECTOR_SIZE,
};
use crate::plan::{mib_text, mib_text_up, mib_up};
use crate::text::{decimal, decimal_text, optional_text, texts};
use vstd::prelude::*;

verus! {

/// The part of the screen that takes the keys.
#[derive(Debug, Clone, Copy, PartialEq, Eq, Structural)]
pub enum Focus {
    Picker,
    Size,
    FlashButton,
}

/// The keys that the interface tells apart.
#[derive(Debug, Clone, Copy, PartialEq, Eq, Structural)]
pub enum KeyCode {
    Char(char),
    Enter,
    Esc,
    Tab,
    Backspace,
    Other,
}

/// A key that was pressed, held or released.
#[derive(Debug, Clone, Copy, PartialEq, Eq, Structural)]
pub struct KeyEvent {
    pub code: KeyCode,
    pub control: bool,
    pub press: bool,
}

/// What the terminal reports.
#[derive(Debug, Clone, Copy, PartialEq, Eq, Structural)]
pub enum Event {
    Key(KeyEvent),
    Other,
}

/// What is to be done after an event. `C` is the type of a flash's inputs.
#[derive(Debug)]
pub enum Effect<C> {
    Continue,
    Quit,
    /// List the devices anew and probe the card.
    Refresh,
    /// Probe the card of the selected device.
    Probe,
    /// Take the file under the cursor as the image.
    SelectImage,
    /// Hand the event to the file picker.
    Explore,
    /// Check the inputs and open the confirm dialog.
    Confirm,
    /// Start the flash on the given device.
    Flash { bus: u8, address: u8, cfg: C },
}

impl View for Effect<Config> {
    type V = Effect<ConfigView>;

    open spec fn view(&self) -> Effect<ConfigView> {
        match self {
            Effect::Continue => Effect::Continue,
            Effect::Quit => Effect::Quit,
            Effect::Refresh => Effect::Refresh,
            Effect::Probe => Effect::Probe,
            Effect::SelectImage => Effect::SelectImage,
            Effect::Explore => Effect::Explore,
            Effect::Confirm => Effect::Confirm,
            Effect::Flash { bus, address, cfg } => Effect::Flash {
                bus: *bus,
                address: *address,
                cfg: cfg@,
            },
        }
    }
}

/// What's queued behind the confirm dialog: the validated Config, plus
/// whether the existing on-disk GPT already matches, used to drop the
/// SD-erase warning when nothing destructive is going to happen to
/// rootfs_b / userdata.
#[derive(Debug)]
pub struct PendingConfirm {
    pub cfg: Config,
    pub layout_matches: bool,
    /// True when userdata-magic was implicitly turned on for this flash
    /// because the GPT layout is going to change anyway (full-erase
    /// path), so making the bootloader auto-wipe userdata is consistent
    /// with what we're already doing. The user can still flip 'm' to
    /// turn it off; that clears this flag.
    pub magic_auto: bool,
}

/// What a [`PendingConfirm`] holds.
#[verifier::ext_equal]
pub struct PendingConfirmView {
    pub cfg: ConfigView,
    pub layout_matches: bool,
    pub magic_auto: bool,
}

impl View for PendingConfirm {
    type V = PendingConfirmView;

    open spec fn view(&self) -> PendingConfirmView {
        PendingConfirmView {
            cfg: self.cfg@,
            layout_matches: self.layout_matches,
            magic_auto: self.magic_auto,
        }
    }
}

/// A progress bar: how far it is, its total and its label.
#[derive(Debug)]
pub struct Progress {
    pub cur: u64,
    pub total: u64,
    pub msg: String,
}

/// What a [`Progress`] holds.
#[verifier::ext_equal]
pub struct ProgressView {
    pub cur: u64,
    pub total: u64,
    pub msg: Seq<char>,
}

impl View for Progress {
    type V = ProgressView;

    open spec fn view(&self) -> ProgressView {
        ProgressView { cur: self.cur, total: self.total, msg: self.msg@ }
    }
}

/// The state of the interface.
#[derive(Debug)]
pub struct App {
    pub selected_image: Option<String>,
    pub size_input: String,
    pub focus: Focus,
    pub log: Vec<String>,
    pub progress: Option<Progress>,
    pub flashing: bool,
    pub devices: Vec<DeviceSummary>,
    pub device_err: Option<String>,
    /// Index into `devices` of the device the next probe / flash will
    /// target. Stays at 0 when only one device is attached.
    pub selected_device: usize,
    pub sd_total_sectors: Option<u64>,
    pub sd_total_bytes: Option<u64>,
    pub sd_existing: Option<LayoutInfo>,
    pub success_banner: bool,
    pub reset_after_flash: bool,
    pub userdata_magic: bool,
    pub target_partition: Partition,
    /// When Some, the centered confirm dialog is shown.
    pub pending_confirm: Option<PendingConfirm>,
    /// When Some, a red error overlay is shown. Any key dismisses it.
    pub error_msg: Option<String>,
}

/// What an [`App`] holds.
#[verifier::ext_equal]
pub struct AppView {
    pub selected_image: Option<Seq<char>>,
    pub size_input: Seq<char>,
    pub focus: Focus,
    pub log: Seq<Seq<char>>,
    pub progress: Option<ProgressView>,
    pub flashing: bool,
    pub devices: Seq<DeviceSummary>,
    pub device_err: Option<Seq<char>>,
    pub selected_device: usize,
    pub sd_total_sectors: Option<u64>,
    pub sd_total_bytes: Option<u64>,
    pub sd_existing: Option<LayoutInfo>,
    pub success_banner: bool,
    pub reset_after_flash: bool,
    pub userdata_magic: bool,
    pub target_partition: Partition,
    pub pending_confirm: Option<PendingConfirmView>,
    pub error_msg: Option<Seq<char>>,
}

/// What an optional progress bar holds.
pub open spec fn progress_view(p: Option<Progress>) -> Option<ProgressView> {
    match p {
        Some(p) => Some(p@),
        None => None,
    }
}

/// What an optional dialog holds.
pub open spec fn pending_view(p: Option<PendingConfirm>) -> Option<PendingConfirmView> {
    match p {
        Some(p) => Some(p@),
        None => None,
    }
}

impl View for App {
    type V = AppView;

    open spec fn view(&self) -> AppView {
        AppView {
            selected_image: optional_text(self.selected_image),
            size_input: self.size_input@,
            focus: self.focus,
            log: texts(self.log@),
            progress: progress_view(self.progress),
            flashing: self.flashing,
            devices: self.devices@,
            device_err: optional_text(self.device_err),
            selected_device: self.selected_device,
            sd_total_sectors: self.sd_total_sectors,
            sd_total_bytes: self.sd_total_bytes,
            sd_existing: self.sd_existing,
            success_banner: self.success_banner,
            reset_after_flash: self.reset_after_flash,
            userdata_magic: self.userdata_magic,
            target_partition: self.target_partition,
            pending_confirm: pending_view(self.pending_confirm),
            error_msg: optional_text(self.error_msg),
        }
    }
}

impl AppView {
    /// The state with one more line in the log.
    pub open spec fn logged(self, line: Seq<char>) -> AppView {
        AppView { log: self.log.push(line), ..self }
    }
}

/// The state at the start.
pub open spec fn initial() -> AppView {
    AppView {
        selected_image: None,
        size_input: "256MiB"@,
        focus: Focus::Picker,
        log: Seq::empty(),
        progress: None,
        flashing: false,
        devices: Seq::empty(),
        device_err: None,
        selected_device: 0,
        sd_total_sectors: None,
        sd_total_bytes: None,
        sd_existing: None,
        success_banner: false,
        reset_after_flash: true,
        userdata_magic: false,
        target_partition: Partition::RootfsA,
        pending_confirm: None,
        error_msg: None,
    }
}

/// Cycle order for the 'p' toggle: A, B, Both, A.
pub open spec fn partition_after(p: Partition) -> Partition {
    match p {
        Partition::RootfsA => Partition::RootfsB,
        Partition::RootfsB => Partition::Both,
        Partition::Both => Partition::RootfsA,
    }
}

/// Cycle order for the Tab key.
pub open spec fn focus_after(f: Focus) -> Focus {
    match f {
        Focus::Picker => Focus::Size,
        Focus::Size => Focus::FlashButton,
        Focus::FlashButton => Focus::Picker,
    }
}

/// The text for an option that is on or off.
pub open spec fn bool_text(b: bool) -> Seq<char> {
    if b {
        "true"@
    } else {
        "false"@
    }
}

/// The line that is logged when a flash starts.
pub open spec fn start_line(d: DeviceSummary, cfg: ConfigView) -> Seq<char> {
    "Starting flash: device="@ + decimal(d.bus as nat) + ":"@ + decimal(d.address as nat)
        + " image="@ + cfg.image + " target="@ + cfg.target_partition.spec_name() + " rootfs_size="@
        + decimal(cfg.rootfs_size_bytes as nat) + " bytes reset="@ + bool_text(
        cfg.reset_after_flash,
    ) + " userdata_magic="@ + bool_text(cfg.userdata_magic)
}

/// Starting a flash: it needs a selected device.
pub open spec fn kicked_off(app: AppView, cfg: ConfigView) -> (AppView, Effect<ConfigView>) {
    if app.selected_device < app.devices.len() {
        let d = app.devices[app.selected_device as int];
        (
            AppView { flashing: true, ..app }.logged(start_line(d, cfg)),
            Effect::Flash { bus: d.bus, address: d.address, cfg },
        )
    } else {
        (AppView { error_msg: Some("No device selected"@), ..app }, Effect::Continue)
    }
}

/// What a key does in the confirm dialog.
pub open spec fn after_confirm_key(app: AppView, pc: PendingConfirmView, code: KeyCode) -> (
    AppView,
    Effect<ConfigView>,
) {
    if code == KeyCode::Char('y') || code == KeyCode::Char('Y') || code == KeyCode::Enter {
        kicked_off(AppView { pending_confirm: None, ..app }, pc.cfg)
    } else if code == KeyCode::Char('n') || code == KeyCode::Char('N') || code == KeyCode::Esc
        || code == KeyCode::Char('q') {
        (AppView { pending_confirm: None, ..app }, Effect::Continue)
    } else if code == KeyCode::Char('b') || code == KeyCode::Char('B') {
        // The preference is toggled and the held config follows it.
        let reset_after_flash = !app.reset_after_flash;
        let cfg = ConfigView { reset_after_flash, ..pc.cfg };
        (
            AppView {
                reset_after_flash,
                pending_confirm: Some(PendingConfirmView { cfg, ..pc }),
                ..app
            },
            Effect::Continue,
        )
    } else if code == KeyCode::Char('m') || code == KeyCode::Char('M') {
        // The dialog's value is toggled and the preference follows it.
        let userdata_magic = !pc.cfg.userdata_magic;
        let cfg = ConfigView { userdata_magic, ..pc.cfg };
        (
            AppView {
                userdata_magic,
                pending_confirm: Some(PendingConfirmView { cfg, magic_auto: false, ..pc }),
                ..app
            },
            Effect::Continue,
        )
    } else if code == KeyCode::Char('p') || code == KeyCode::Char('P') {
        let target_partition = partition_after(app.target_partition);
        let cfg = ConfigView { target_partition, ..pc.cfg };
        (
            AppView {
                target_partition,
                pending_confirm: Some(PendingConfirmView { cfg, ..pc }),
                ..app
            },
            Effect::Continue,
        )
    } else {
        (app, Effect::Continue)
    }
}

/// What a key does in the focused part of the screen. `on_file` tells whether the picker's
/// cursor is on a file.
pub open spec fn after_focus_key(app: AppView, code: KeyCode, on_file: bool) -> (
    AppView,
    Effect<ConfigView>,
) {
    match app.focus {
        Focus::Picker => if code == KeyCode::Enter && on_file {
            (app, Effect::SelectImage)
        } else {
            (app, Effect::Explore)
        },
        Focus::Size => match code {
            KeyCode::Char(c) => (
                AppView { size_input: app.size_input.push(c), ..app },
                Effect::Continue,
            ),
            KeyCode::Backspace => (
                AppView {
                    size_input: if app.size_input.len() == 0 {
                        app.size_input
                    } else {
                        app.size_input.drop_last()
                    },
                    ..app
                },
                Effect::Continue,
            ),
            KeyCode::Enter => (AppView { focus: Focus::FlashButton, ..app }, Effect::Continue),
            _ => (app, Effect::Continue),
        },
        Focus::FlashButton => if code == KeyCode::Enter || code == KeyCode::Char(' ') {
            (app, Effect::Confirm)
        } else {
            (app, Effect::Continue)
        },
    }
}

/// The number that a digit key other than 0 selects, counted from zero.
pub open spec fn device_digit(code: KeyCode) -> Option<int> {
    match code {
        KeyCode::Char(c) => if '1' <= c <= '9' {
            Some(c as int - '1' as int)
        } else {
            None
        },
        _ => None,
    }
}

/// What a key does when no overlay is shown and no flash is running.
pub open spec fn after_plain_key(app: AppView, code: KeyCode, on_file: bool) -> (
    AppView,
    Effect<ConfigView>,
) {
    if code == KeyCode::Char('q') || code == KeyCode::Esc {
        (app, Effect::Quit)
    } else if code == KeyCode::Tab {
        (AppView { focus: focus_after(app.focus), ..app }, Effect::Continue)
    } else if app.focus == Focus::Size {
        after_focus_key(app, code, on_file)
    } else if code == KeyCode::Char('b') {
        (AppView { reset_after_flash: !app.reset_after_flash, ..app }, Effect::Continue)
    } else if code == KeyCode::Char('m') {
        (AppView { userdata_magic: !app.userdata_magic, ..app }, Effect::Continue)
    } else if code == KeyCode::Char('p') {
        (
            AppView { target_partition: partition_after(app.target_partition), ..app },
            Effect::Continue,
        )
    } else if code == KeyCode::Char('r') {
        (app, Effect::Refresh)
    } else {
        match device_digit(code) {
            Some(i) => if i < app.devices.len() && i != app.selected_device {
                (AppView { selected_device: i as usize, ..app }, Effect::Probe)
            } else {
                (app, Effect::Continue)
            },
            None => after_focus_key(app, code, on_file),
        }
    }
}

/// What an event does. Ctrl-C always exits, even mid-flash. Overlays consume input first. A
/// running flash is not left by a plain key, which would corrupt the SD card.
pub open spec fn after_event(app: AppView, event: Event, on_file: bool) -> (
    AppView,
    Effect<ConfigView>,
) {
    match event {
        Event::Other => (app, Effect::Continue),
        Event::Key(key) => if !key.press {
            (app, Effect::Continue)
        } else if key.control && key.code == KeyCode::Char('c') {
            (app, Effect::Quit)
        } else if app.error_msg is Some {
            (AppView { error_msg: None, ..app }, Effect::Continue)
        } else if app.success_banner {
            (AppView { success_banner: false, ..app }, Effect::Continue)
        } else {
            match app.pending_confirm {
                Some(pc) => after_confirm_key(app, pc, key.code),
                None => if app.flashing {
                    (app, Effect::Continue)
                } else {
                    after_plain_key(app, key.code, on_file)
                },
            }
        },
    }
}

/// Cycle order for the 'p' toggle: A, B, Both, A.
pub fn next_partition(p: Partition) -> (r: Partition)
    ensures
        r == partition_after(p),
{
    match p {
        Partition::RootfsA => Partition::RootfsB,
        Partition::RootfsB => Partition::Both,
        Partition::Both => Partition::RootfsA,
    }
}

/// The text for an option that is on or off.
fn text_of_bool(b: bool) -> (r: &'static str)
    ensures
        r@ == bool_text(b),
{
    if b {
        "true"
    } else {
        "false"
    }
}

/// The line that is logged when a flash starts.
fn start_text(d: &DeviceSummary, cfg: &Config) -> (r: String)
    ensures
        r@ == start_line(*d, cfg@),
{
    let mut r: String = "Starting flash: device=".to_owned();
    r.append(&decimal_text(d.bus as u64));
    r.append(":");
    r.append(&decimal_text(d.address as u64));
    r.append(" image=");
    r.append(&cfg.image);
    r.append(" target=");
    r.append(cfg.target_partition.name());
    r.append(" rootfs_size=");
    r.append(&decimal_text(cfg.rootfs_size_bytes));
    r.append(" bytes reset=");
    r.append(text_of_bool(cfg.reset_after_flash));
    r.append(" userdata_magic=");
    r.append(text_of_bool(cfg.userdata_magic));
    r
}

impl App {
    /// The state at the start.
    pub fn new() -> (r: Self)
        ensures
            r@ == initial(),
    {
        let r: App = App {
            selected_image: None,
            size_input: "256MiB".to_owned(),
            focus: Focus::Picker,
            log: Vec::new(),
            progress: None,
            flashing: false,
            devices: Vec::new(),
            device_err: None,
            selected_device: 0,
            sd_total_sectors: None,
            sd_total_bytes: None,
            sd_existing: None,
            success_banner: false,
            reset_after_flash: true,
            userdata_magic: false,
            target_partition: Partition::RootfsA,
            pending_confirm: None,
            error_msg: None,
        };
        assert(r@ =~= initial());
        r
    }

    /// Add a line to the log.
    pub fn stage(&mut self, line: &str)
        ensures
            final(self)@ == old(self)@.logged(line@),
    {
        let ghost before = self.log@;
        self.log.push(line.to_owned());
        assert(texts(self.log@) =~= texts(before).push(line@));
        assert(self@ =~= old(self)@.logged(line@));
    }

    /// Show an error.
    pub fn show_error(&mut self, text: String)
        ensures
            final(self)@ == (AppView { error_msg: Some(text@), ..old(self)@ }),
    {
        self.error_msg = Some(text);
    }

    /// Start a flash, if a device is selected.
    fn kickoff_flash(&mut self, cfg: Config) -> (r: Effect<Config>)
        ensures
            (final(self)@, r@) == kicked_off(old(self)@, cfg@),
    {
        if self.selected_device < self.devices.len() {
            let d: DeviceSummary = self.devices[self.selected_device];
            self.flashing = true;
            let line: String = start_text(&d, &cfg);
            self.stage(&line);
            Effect::Flash { bus: d.bus, address: d.address, cfg }
        } else {
            self.error_msg = Some("No device selected".to_owned());
            Effect::Continue
        }
    }

    /// Handle a key in the confirm dialog.
    fn handle_confirm_key(&mut self, code: KeyCode) -> (r: Effect<Config>)
        requires
            old(self).pending_confirm is Some,
        ensures
            (final(self)@, r@) == after_confirm_key(
                old(self)@,
                old(self)@.pending_confirm->Some_0,
                code,
            ),
    {
        let ghost before = self@;
        let mut held: Option<PendingConfirm> = None;
        std::mem::swap(&mut held, &mut self.pending_confirm);
        let pc: PendingConfirm = match held {
            Some(pc) => pc,
            None => {
                return Effect::Continue;
            },
        };
        let ghost taken = self@;
        assert(taken =~= (AppView { pending_confirm: None, ..before }));
        match code {
            KeyCode::Char('y') | KeyCode::Char('Y') | KeyCode::Enter => {
                return self.kickoff_flash(pc.cfg);
            },
            KeyCode::Char('n') | KeyCode::Char('N') | KeyCode::Esc | KeyCode::Char('q') => {},
            KeyCode::Char('b') | KeyCode::Char('B') => {
                self.reset_after_flash = !self.reset_after_flash;
                let mut pc: PendingConfirm = pc;
                pc.cfg.reset_after_flash = self.reset_after_flash;
                self.pending_confirm = Some(pc);
            },
            KeyCode::Char('m') | KeyCode::Char('M') => {
                let mut pc: PendingConfirm = pc;
                pc.cfg.userdata_magic = !pc.cfg.userdata_magic;
                pc.magic_auto = false;
                self.userdata_magic = pc.cfg.userdata_magic;
                self.pending_confirm = Some(pc);
            },
            KeyCode::Char('p') | KeyCode::Char('P') => {
                self.target_partition = next_partition(self.target_partition);
                let mut pc: PendingConfirm = pc;
                pc.cfg.target_partition = self.target_partition;
                self.pending_confirm = Some(pc);
            },
            _ => {
                self.pending_confirm = Some(pc);
            },
        }
        assert(self@ =~= after_confirm_key(before, before.pending_confirm->Some_0, code).0);
        Effect::Continue
    }

    /// Handle a key in the focused part of the screen.
    fn handle_focus_key(&mut self, code: KeyCode, on_file: bool) -> (r: Effect<Config>)
        ensures
            (final(self)@, r@) == after_focus_key(old(self)@, code, on_file),
    {
        let ghost before = self@;
        match self.focus {
            Focus::Picker => if code == KeyCode::Enter && on_file {
                Effect::SelectImage
            } else {
                Effect::Explore
            },
            Focus::Size => {
                match code {
                    KeyCode::Char(c) => {
                        self.size_input.push(c);
                    },
                    KeyCode::Backspace => {
                        let _ = self.size_input.pop();
                    },
                    KeyCode::Enter => {
                        self.focus = Focus::FlashButton;
                    },
                    _ => {},
                }
                assert(self@ =~= after_focus_key(before, code, on_file).0);
                Effect::Continue
            },
            Focus::FlashButton => if code == KeyCode::Enter || code == KeyCode::Char(' ') {
                Effect::Confirm
            } else {
                Effect::Continue
            },
        }
    }

    /// Handle a key when no overlay is shown and no flash is running.
    fn handle_plain_key(&mut self, code: KeyCode, on_file: bool) -> (r: Effect<Config>)
        ensures
            (final(self)@, r@) == after_plain_key(old(self)@, code, on_file),
    {
        let ghost before = self@;
        match code {
            KeyCode::Char('q') | KeyCode::Esc => {
                return Effect::Quit;
            },
            KeyCode::Tab => {
                self.focus = match self.focus {
                    Focus::Picker => Focus::Size,
                    Focus::Size => Focus::FlashButton,
                    Focus::FlashButton => Focus::Picker,
                };
                assert(self@ =~= after_plain_key(before, code, on_file).0);
                return Effect::Continue;
            },
            _ => {},
        }
        if self.focus == Focus::Size {
            return self.handle_focus_key(code, on_file);
        }
        match code {
            KeyCode::Char('b') => {
                self.reset_after_flash = !self.reset_after_flash;
                Effect::Continue
            },
            KeyCode::Char('m') => {
                self.userdata_magic = !self.userdata_magic;
                Effect::Continue
            },
            KeyCode::Char('p') => {
                self.target_partition = next_partition(self.target_partition);
                Effect::Continue
            },
            KeyCode::Char('r') => Effect::Refresh,
            KeyCode::Char(c) => if '1' <= c && c <= '9' {
                let idx: usize = c as usize - '1' as usize;
                if idx < self.devices.len() && idx != self.selected_device {
                    self.selected_device = idx;
                    Effect::Probe
                } else {
                    Effect::Continue
                }
            } else {
                self.handle_focus_key(code, on_file)
            },
            _ => self.handle_focus_key(code, on_file),
        }
    }

    /// Handle an event. `on_file` tells whether the picker's cursor is on a file.
    pub fn handle_event(&mut self, event: Event, on_file: bool) -> (r: Effect<Config>)
        ensures
            (final(self)@, r@) == after_event(old(self)@, event, on_file),
    {
        let key: KeyEvent = match event {
            Event::Key(key) => key,
            Event::Other => {
                return Effect::Continue;
            },
        };
        if !key.press {
            return Effect::Continue;
        }
        if key.control && key.code == KeyCode::Char('c') {
            return Effect::Quit;
        }
        if self.error_msg.is_some() {
            self.error_msg = None;
            return Effect::Continue;
        }
        if self.success_banner {
            self.success_banner = false;
            return Effect::Continue;
        }
        if self.pending_confirm.is_some() {
            return self.handle_confirm_key(key.code);
        }
        if self.flashing {
            return Effect::Continue;
        }
        self.handle_plain_key(key.code, on_file)
    }
}

/// The size that is suggested for an image, and whether it had to be capped: the image's
/// length rounded up, and where that is too large for the card, the largest whole MiB.
pub open spec fn suggested_size(len: u64, max: Option<u64>) -> (int, bool) {
    let rounded = aligned(len as int, DEFAULT_ROUND_MIB * MIB);
    match max {
        Some(max) => if rounded > max {
            (max as int / MIB as int * MIB, true)
        } else {
            (rounded, false)
        },
        None => (rounded, false),
    }
}

/// The largest rootfs for the card, where its size is known.
pub open spec fn max_for(total: Option<u64>) -> Option<u64> {
    match total {
        Some(t) => Some(max_rootfs(t as int) as u64),
        None => None,
    }
}

/// The error about an image that no slot of the card can take.
pub open spec fn too_large_for_card(len: u64, max: u64) -> Seq<char> {
    "Image is "@ + mib_text(len as int) + " MiB but SD only fits a "@ + mib_text(max as int)
        + " MiB rootfs (half of SD - GPT).\nPick a smaller image or use a larger card."@
}

/// The line about a suggested size that had to be capped.
pub open spec fn capped_line(size: int) -> Seq<char> {
    "Default 128-MiB round-up wouldn't fit; capped rootfs at "@ + mib_text(size) + " MiB."@
}

/// A size in whole MiB, as it stands in the size box.
pub open spec fn size_box(size: int) -> Seq<char> {
    mib_text(size) + "MiB"@
}

/// What choosing an image does. `len` is the length of the file, if it could be found out.
pub open spec fn image_selected(app: AppView, path: Seq<char>, len: Option<u64>) -> AppView {
    let chosen = AppView { selected_image: Some(path), focus: Focus::Size, ..app };
    let max = max_for(app.sd_total_bytes);
    match len {
        None => chosen,
        Some(len) => if max matches Some(m) && len > m {
            AppView { error_msg: Some(too_large_for_card(len, max->Some_0)), ..chosen }
        } else {
            let (size, capped) = suggested_size(len, max);
            let sized = AppView { size_input: size_box(size), ..chosen };
            if capped {
                sized.logged(capped_line(size))
            } else {
                sized
            }
        },
    }
}

/// Whether the table found on the card is the one that a flash would write.
pub open spec fn layout_matches(
    total_sectors: Option<u64>,
    existing: Option<LayoutInfo>,
    size: u64,
) -> bool {
    match (total_sectors, existing) {
        (Some(sectors), Some(found)) => layout_on(sectors, size) == Ok::<Layout, LayoutError>(
            found.layout,
        ),
        _ => false,
    }
}

/// What is put into the confirm dialog, or the error that is shown instead. `len` is the
/// length of the image, if it could be found out.
pub open spec fn confirmation(app: AppView, len: Option<u64>) -> Result<
    PendingConfirmView,
    Seq<char>,
> {
    let max = max_for(app.sd_total_bytes);
    match app.selected_image {
        None => Err("Select an image first (focus the file picker, press Enter)"@),
        Some(image) => match size_in_bytes(app.size_input) {
            Err(e) => Err("Invalid size: "@ + e),
            Ok(size) => if size == 0 {
                Err("Rootfs size must be > 0"@)
            } else if size % SECTOR_SIZE != 0 {
                Err(
                    "Size "@ + decimal(size as nat) + " bytes is not a multiple of sector size "@
                        + decimal(SECTOR_SIZE as nat),
                )
            } else if max matches Some(m) && size > m {
                Err(
                    "Rootfs size "@ + mib_text(size as int) + " MiB > "@ + mib_text(
                        max->Some_0 as int,
                    ) + " MiB (half of SD - GPT). Won't fit."@,
                )
            } else if len matches Some(n) && n > size {
                Err(
                    "Image is "@ + mib_text(len->Some_0 as int)
                        + " MiB but rootfs partition is only "@ + mib_text(size as int)
                        + " MiB; pick rootfs >= "@ + mib_text_up(len->Some_0 as int) + " MiB."@,
                )
            } else {
                let matches = layout_matches(app.sd_total_sectors, app.sd_existing, size);
                let magic_auto = !matches && !app.userdata_magic;
                Ok(
                    PendingConfirmView {
                        cfg: ConfigView {
                            image,
                            rootfs_size_bytes: size,
                            reset_after_flash: app.reset_after_flash,
                            userdata_magic: app.userdata_magic || magic_auto,
                            target_partition: app.target_partition,
                        },
                        layout_matches: matches,
                        magic_auto,
                    },
                )
            },
        },
    }
}

/// The state without what was known of the card.
pub open spec fn unprobed(app: AppView) -> AppView {
    AppView { sd_total_bytes: None, sd_total_sectors: None, sd_existing: None, ..app }
}

/// The device that is selected.
pub open spec fn selected(app: AppView) -> Option<DeviceSummary> {
    if app.selected_device < app.devices.len() {
        Some(app.devices[app.selected_device as int])
    } else {
        None
    }
}

/// The state once the devices were listed. The selection stays where there is such a device.
pub open spec fn listed(
    app: AppView,
    devices: Seq<DeviceSummary>,
    device_err: Option<Seq<char>>,
) -> AppView {
    unprobed(
        AppView {
            devices,
            device_err,
            selected_device: if app.selected_device >= devices.len() {
                0
            } else {
                app.selected_device
            },
            ..app
        },
    )
}

/// The line that closes a listing.
pub open spec fn refreshed_line(n: nat) -> Seq<char> {
    "Refreshed: "@ + decimal(n) + " RockUSB device"@ + (if n == 1 {
        ""@
    } else {
        "s"@
    }) + " found"@
}

/// What the log says of the table on a probed card.
pub open spec fn existing_text(existing: Option<LayoutInfo>) -> Seq<char> {
    match existing {
        Some(info) => match info.active {
            Some(active) => " (existing leaflash GPT, active = "@ + active.spec_name() + ")"@,
            None => " (existing leaflash GPT)"@,
        },
        None => ""@,
    }
}

/// The line about a probed card.
pub open spec fn probed_line(d: DeviceSummary, p: SdProbe) -> Seq<char> {
    "Probed device "@ + decimal(d.bus as nat) + ":"@ + decimal(d.address as nat) + ": SD "@
        + mib_text(p.total_bytes as int) + " MiB"@ + existing_text(p.existing)
}

/// The state once a card was probed: the flash goes to the slot that is marked, and the size
/// box shows the size on the card, so the user doesn't have to retype it.
pub open spec fn probed(app: AppView, d: DeviceSummary, p: SdProbe) -> AppView {
    AppView {
        sd_total_bytes: Some(p.total_bytes),
        sd_total_sectors: Some(p.total_sectors),
        sd_existing: p.existing,
        target_partition: match p.existing {
            Some(info) => match info.active {
                Some(active) => active,
                None => app.target_partition,
            },
            None => app.target_partition,
        },
        size_input: match p.existing {
            Some(info) => if info.layout.spec_rootfs_size() / MIB as int > 0 {
                size_box(info.layout.spec_rootfs_size())
            } else {
                app.size_input
            },
            None => app.size_input,
        },
        ..app
    }.logged(probed_line(d, p))
}

/// The line about a card that could not be probed.
pub open spec fn unprobed_line(d: DeviceSummary, reason: Seq<char>) -> Seq<char> {
    "Could not probe device "@ + decimal(d.bus as nat) + ":"@ + decimal(d.address as nat) + ": "@
        + reason
}

/// The state once a flash has ended.
pub open spec fn finished(app: AppView, error: Option<Seq<char>>) -> AppView {
    let idle = AppView { flashing: false, progress: None, ..app };
    match error {
        None => AppView { success_banner: true, ..idle }.logged("Flash completed."@),
        Some(e) => AppView { error_msg: Some("Flash failed:\n"@ + e), ..idle }.logged(
            "Flash failed: "@ + e,
        ),
    }
}

/// A progress bar that is advanced, never beyond its total.
pub open spec fn advanced(p: Option<ProgressView>, delta: u64) -> Option<ProgressView> {
    match p {
        Some(p) => Some(
            ProgressView {
                cur: if p.cur + delta < p.total {
                    (p.cur + delta) as u64
                } else {
                    p.total
                },
                ..p
            },
        ),
        None => None,
    }
}

/// A size in whole MiB, as it stands in the size box.
fn size_box_text(size: u64) -> (r: String)
    ensures
        r@ == size_box(size as int),
{
    let mut r: String = decimal_text(size / MIB);
    r.append("MiB");
    r
}

impl App {
    /// Take a file as the image. `len` is its length, if it could be found out.
    pub fn on_image_selected(&mut self, path: &str, len: Option<u64>)
        requires
            len matches Some(n) ==> aligned(n as int, DEFAULT_ROUND_MIB * MIB) <= u64::MAX,
        ensures
            final(self)@ == image_selected(old(self)@, path@, len),
    {
        let ghost before = self@;
        self.selected_image = Some(path.to_owned());
        self.focus = Focus::Size;
        let ghost chosen = AppView {
            selected_image: Some(path@),
            focus: Focus::Size,
            ..before
        };
        assert(self@ =~= chosen);
        let img_len: u64 = match len {
            Some(n) => n,
            None => {
                return ;
            },
        };
        let mut rounded: u64 = round_up_mib(img_len, DEFAULT_ROUND_MIB);
        let mut capped: bool = false;
        if let Some(total) = self.sd_total_bytes {
            let max: u64 = max_rootfs_bytes(total);
            if img_len > max {
                let mut e: String = "Image is ".to_owned();
                e.append(&decimal_text(img_len / MIB));
                e.append(" MiB but SD only fits a ");
                e.append(&decimal_text(max / MIB));
                e.append(
                    " MiB rootfs (half of SD - GPT).\nPick a smaller image or use a larger card.",
                );
                self.error_msg = Some(e);
                assert(self@ =~= image_selected(before, path@, len));
                return ;
            }
            if rounded > max {
                rounded = max / MIB * MIB;
                capped = true;
            }
        }
        assert((rounded as int, capped) == suggested_size(img_len, max_for(before.sd_total_bytes)));
        self.size_input = size_box_text(rounded);
        if capped {
            let mut line: String =
                "Default 128-MiB round-up wouldn't fit; capped rootfs at ".to_owned();
            line.append(&decimal_text(rounded / MIB));
            line.append(" MiB.");
            self.stage(&line);
        }
        assert(self@ =~= image_selected(before, path@, len));
    }

    /// Check the inputs, and say what goes into the confirm dialog.
    fn check_inputs(&self, len: Option<u64>) -> (r: Result<PendingConfirm, String>)
        ensures
            match r {
                Ok(pc) => confirmation(self@, len) == Ok::<PendingConfirmView, Seq<char>>(pc@),
                Err(e) => confirmation(self@, len) == Err::<PendingConfirmView, Seq<char>>(e@),
            },
    {
        let image: String = match &self.selected_image {
            Some(image) => image.clone(),
            None => {
                return Err(
                    "Select an image first (focus the file picker, press Enter)".to_owned(),
                );
            },
        };
        let size: u64 = match parse_size(&self.size_input) {
            Ok(size) => size,
            Err(e) => {
                let mut m: String = "Invalid size: ".to_owned();
                m.append(&e);
                return Err(m);
            },
        };
        if size == 0 {
            return Err("Rootfs size must be > 0".to_owned());
        }
        if size % SECTOR_SIZE != 0 {
            let mut m: String = "Size ".to_owned();
            m.append(&decimal_text(size));
            m.append(" bytes is not a multiple of sector size ");
            m.append(&decimal_text(SECTOR_SIZE));
            return Err(m);
        }
        if let Some(total) = self.sd_total_bytes {
            let max: u64 = max_rootfs_bytes(total);
            if size > max {
                let mut m: String = "Rootfs size ".to_owned();
                m.append(&decimal_text(size / MIB));
                m.append(" MiB > ");
                m.append(&decimal_text(max / MIB));
                m.append(" MiB (half of SD - GPT). Won't fit.");
                return Err(m);
            }
        }
        if let Some(n) = len {
            if n > size {
                let mut m: String = "Image is ".to_owned();
                m.append(&decimal_text(n / MIB));
                m.append(" MiB but rootfs partition is only ");
                m.append(&decimal_text(size / MIB));
                m.append(" MiB; pick rootfs >= ");
                m.append(&mib_up(n));
                m.append(" MiB.");
                return Err(m);
            }
        }
        let matches: bool = match (self.sd_total_sectors, self.sd_existing) {
            (Some(sectors), Some(found)) => match expected_layout(sectors, size) {
                Ok(layout) => layout == found.layout,
                Err(_) => false,
            },
            _ => false,
        };
        let magic_auto: bool = !matches && !self.userdata_magic;
        Ok(
            PendingConfirm {
                cfg: Config {
                    image,
                    rootfs_size_bytes: size,
                    reset_after_flash: self.reset_after_flash,
                    userdata_magic: self.userdata_magic || magic_auto,
                    target_partition: self.target_partition,
                },
                layout_matches: matches,
                magic_auto,
            },
        )
    }

    /// Validate inputs and stage a Config in `pending_confirm`. `len` is the length of the
    /// image, if it could be found out.
    pub fn open_confirmation(&mut self, len: Option<u64>) -> (r: Result<(), String>)
        ensures
            match confirmation(old(self)@, len) {
                Ok(pc) => r is Ok && final(self)@ == (AppView {
                    pending_confirm: Some(pc),
                    ..old(self)@
                }),
                Err(e) => r is Err && r->Err_0@ == e && final(self)@ == old(self)@,
            },
    {
        match self.check_inputs(len) {
            Ok(pc) => {
                self.pending_confirm = Some(pc);
                Ok(())
            },
            Err(e) => Err(e),
        }
    }

    /// Take a new list of devices, or the error of listing them, and return the device whose
    /// card is to be probed.
    pub fn refresh_devices(&mut self, list: Result<Vec<DeviceSummary>, String>) -> (r: Option<
        DeviceSummary,
    >)
        ensures
            final(self)@ == (match list {
                Ok(devices) => listed(old(self)@, devices@, None),
                Err(e) => listed(old(self)@, Seq::empty(), Some(e@)),
            }),
            r == selected(final(self)@),
    {
        match list {
            Ok(devices) => {
                self.devices = devices;
                self.device_err = None;
            },
            Err(e) => {
                self.devices = Vec::new();
                self.device_err = Some(e);
            },
        }
        if self.selected_device >= self.devices.len() {
            self.selected_device = 0;
        }
        self.reprobe_selected()
    }

    /// Forget what was known of the card, and return the device whose card is to be probed.
    pub fn reprobe_selected(&mut self) -> (r: Option<DeviceSummary>)
        ensures
            final(self)@ == unprobed(old(self)@),
            r == selected(final(self)@),
    {
        self.sd_total_bytes = None;
        self.sd_total_sectors = None;
        self.sd_existing = None;
        if self.selected_device < self.devices.len() {
            Some(self.devices[self.selected_device])
        } else {
            None
        }
    }

    /// Take what a probe of a device's card found, or why it failed.
    pub fn probe_done(&mut self, d: DeviceSummary, outcome: Result<SdProbe, String>)
        ensures
            final(self)@ == (match outcome {
                Ok(p) => probed(old(self)@, d, p),
                Err(e) => old(self)@.logged(unprobed_line(d, e@)),
            }),
    {
        let ghost before = self@;
        match outcome {
            Ok(p) => {
                self.sd_total_bytes = Some(p.total_bytes);
                self.sd_total_sectors = Some(p.total_sectors);
                self.sd_existing = p.existing;
                let mut line: String = "Probed device ".to_owned();
                line.append(&decimal_text(d.bus as u64));
                line.append(":");
                line.append(&decimal_text(d.address as u64));
                line.append(": SD ");
                line.append(&decimal_text(p.total_bytes / MIB));
                line.append(" MiB");
                let ghost start = line@;
                match p.existing {
                    Some(info) => {
                        match info.active {
                            Some(active) => {
                                self.target_partition = active;
                                line.append(" (existing leaflash GPT, active = ");
                                line.append(active.name());
                                line.append(")");
                            },
                            None => {
                                line.append(" (existing leaflash GPT)");
                            },
                        }
                        let size: u64 = info.layout.rootfs_size_bytes();
                        if size / MIB > 0 {
                            self.size_input = size_box_text(size);
                        }
                    },
                    None => {
                        line.append("");
                    },
                }
                assert(line@ =~= start + existing_text(p.existing));
                self.stage(&line);
                assert(self@ =~= probed(before, d, p));
            },
            Err(e) => {
                let mut line: String = "Could not probe device ".to_owned();
                line.append(&decimal_text(d.bus as u64));
                line.append(":");
                line.append(&decimal_text(d.address as u64));
                line.append(": ");
                line.append(&e);
                self.stage(&line);
            },
        }
    }

    /// Log that the devices were listed.
    pub fn refresh_done(&mut self)
        ensures
            final(self)@ == old(self)@.logged(refreshed_line(old(self)@.devices.len())),
    {
        let n: usize = self.devices.len();
        let mut line: String = "Refreshed: ".to_owned();
        line.append(&decimal_text(n as u64));
        line.append(" RockUSB device");
        if n == 1 {
            line.append("");
        } else {
            line.append("s");
        }
        line.append(" found");
        self.stage(&line);
    }

    /// Take the end of a flash: nothing, or the error it failed with.
    pub fn finish_flash(&mut self, outcome: Result<(), String>)
        ensures
            final(self)@ == finished(
                old(self)@,
                match outcome {
                    Ok(_) => None,
                    Err(e) => Some(e@),
                },
            ),
    {
        let ghost before = self@;
        match outcome {
            Ok(()) => {
                self.stage("Flash completed.");
                self.success_banner = true;
            },
            Err(e) => {
                let mut line: String = "Flash failed: ".to_owned();
                line.append(&e);
                self.stage(&line);
                let mut shown: String = "Flash failed:\n".to_owned();
                shown.append(&e);
                self.error_msg = Some(shown);
            },
        }
        self.flashing = false;
        self.progress = None;
        assert(self@ =~= finished(
            before,
            match outcome {
                Ok(_) => None,
                Err(e) => Some(e@),
            },
        ));
    }

    /// Start a progress bar.
    pub fn progress_begin(&mut self, total: u64, msg: &str)
        ensures
            final(self)@ == (AppView {
                progress: Some(ProgressView { cur: 0, total, msg: msg@ }),
                ..old(self)@
            }),
    {
        self.progress = Some(Progress { cur: 0, total, msg: msg.to_owned() });
    }

    /// Advance the progress bar, never beyond its total.
    pub fn progress_inc(&mut self, delta: u64)
        ensures
            final(self)@ == (AppView {
                progress: advanced(old(self)@.progress, delta),
                ..old(self)@
            }),
    {
        let mut held: Option<Progress> = None;
        std::mem::swap(&mut held, &mut self.progress);
        if let Some(p) = held {
            let next: u64 = p.cur.saturating_add(delta);
            let cur: u64 = if next < p.total {
                next
            } else {
                p.total
            };
            self.progress = Some(Progress { cur, total: p.total, msg: p.msg });
        }
    }

    /// Close the progress bar with the given label.
    pub fn progress_finish(&mut self, msg: &str)
        ensures
            final(self)@ == (AppView { progress: None, ..old(self)@ }).logged(msg@ + ": done"@),
    {
        self.progress = None;
        let mut line: String = msg.to_owned();
        line.append(": done");
        self.stage(&line);
    }
}

} // verus!
