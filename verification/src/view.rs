//! What the terminal interface shows: the lines of each part of the screen with their styles,
//! and the places of the overlays.

use crate::device::DeviceSummary;
use crate::flash::{
    parse_size, size_in_bytes, Partition, DEFAULT_ROUND_MIB, GPT_OVERHEAD_BYTES, MIB, SECTOR_SIZE,
};
use crate::plan::mib_text;
use crate::text::{
    chars_of, decimal, decimal_text, first_index, lemma_first_index_is, lemma_first_index_none,
    pad_left, pad_right, padded_left, padded_right, texts,
};
use crate::tui::{selected, App, AppView, Focus, PendingConfirm, PendingConfirmView, ProgressView};
use vstd::prelude::*;
use vstd::utf8::*;

verus! {

/// The colours in use; `Plain` is the terminal's own.
#[derive(Debug, Clone, Copy, PartialEq, Eq, Structural)]
pub enum Color {
    Plain,
    Black,
    Red,
    Green,
    Yellow,
    DarkGray,
}

/// How a piece of text looks.
#[derive(Debug, Clone, Copy, PartialEq, Eq, Structural)]
pub struct Style {
    pub fg: Color,
    pub bg: Color,
    pub bold: bool,
}

/// Text as the terminal has it.
pub open spec fn plain() -> Style {
    Style { fg: Color::Plain, bg: Color::Plain, bold: false }
}

/// Text in a colour.
pub open spec fn colored(fg: Color) -> Style {
    Style { fg, bg: Color::Plain, bold: false }
}

/// Bold text in a colour.
pub open spec fn bold(fg: Color) -> Style {
    Style { fg, bg: Color::Plain, bold: true }
}

/// Text in a colour.
fn style(fg: Color, bold: bool) -> (r: Style)
    ensures
        r == (Style { fg, bg: Color::Plain, bold }),
{
    Style { fg, bg: Color::Plain, bold }
}

/// A piece of text with its style.
#[derive(Debug)]
pub struct Span {
    pub text: String,
    pub style: Style,
}

/// What a [`Span`] holds.
#[verifier::ext_equal]
pub struct SpanView {
    pub text: Seq<char>,
    pub style: Style,
}

impl View for Span {
    type V = SpanView;

    open spec fn view(&self) -> SpanView {
        SpanView { text: self.text@, style: self.style }
    }
}

/// A line of the screen.
#[derive(Debug)]
pub struct Line {
    pub spans: Vec<Span>,
}

impl View for Line {
    type V = Seq<SpanView>;

    open spec fn view(&self) -> Seq<SpanView> {
        self.spans@.map_values(|s: Span| s@)
    }
}

/// What the lines hold.
pub open spec fn lines_view(lines: Seq<Line>) -> Seq<Seq<SpanView>> {
    lines.map_values(|l: Line| l@)
}

/// A line in one style.
pub open spec fn row(text: Seq<char>, style: Style) -> Seq<SpanView> {
    seq![SpanView { text, style }]
}

/// A line with a name and a value.
pub open spec fn named_row(name: Seq<char>, value: Seq<char>, style: Style) -> Seq<SpanView> {
    seq![
        SpanView { text: "  "@ + padded_right(name, 22), style: colored(Color::DarkGray) },
        SpanView { text: value, style },
    ]
}

/// Add a line in one style.
fn push_row(lines: &mut Vec<Line>, text: String, style: Style)
    ensures
        lines_view(final(lines)@) == lines_view(old(lines)@).push(row(text@, style)),
{
    let ghost before = lines@;
    let mut spans: Vec<Span> = Vec::new();
    spans.push(Span { text, style });
    let line: Line = Line { spans };
    assert(line@ =~= row(text@, style));
    lines.push(line);
    assert(lines_view(lines@) =~= lines_view(before).push(row(text@, style)));
}

/// Add a line with a name and a value.
fn push_named(lines: &mut Vec<Line>, name: &str, value: String, style: Style)
    ensures
        lines_view(final(lines)@) == lines_view(old(lines)@).push(
            named_row(name@, value@, style),
        ),
{
    let ghost before = lines@;
    let mut key: String = "  ".to_owned();
    key.append(&pad_right(name, 22));
    let mut spans: Vec<Span> = Vec::new();
    let gray: Style = Style { fg: Color::DarkGray, bg: Color::Plain, bold: false };
    spans.push(Span { text: key, style: gray });
    spans.push(Span { text: value, style });
    let line: Line = Line { spans };
    assert(line@ =~= named_row(name@, value@, style));
    lines.push(line);
    assert(lines_view(lines@) =~= lines_view(before).push(named_row(name@, value@, style)));
}

/// The style of a border.
pub fn border_style(active: bool) -> (r: Style)
    ensures
        r == (if active {
            colored(Color::Yellow)
        } else {
            plain()
        }),
{
    if active {
        style(Color::Yellow, false)
    } else {
        style(Color::Plain, false)
    }
}

/// How many lines the device list takes, without the cap at sixteen bits.
pub open spec fn line_count(app: AppView) -> int {
    let listed = if app.device_err is Some || app.devices.len() == 0 {
        1
    } else {
        (app.devices.len() as u16) as int
    };
    let n = listed + (if app.sd_total_bytes is Some {
        1int
    } else {
        0
    }) + (if app.userdata_magic {
        1int
    } else {
        0
    });
    if n < 1 {
        1
    } else {
        n
    }
}

/// How many lines the device list takes.
pub fn devices_line_count(app: &App) -> (r: u16)
    requires
        line_count(app@) <= u16::MAX,
    ensures
        r == line_count(app@),
{
    let mut n: u16 = if app.device_err.is_some() || app.devices.len() == 0 {
        1
    } else {
        #[verifier::truncate] (app.devices.len() as u16)
    };
    if app.sd_total_bytes.is_some() {
        n = n + 1;
    }
    if app.userdata_magic {
        n = n + 1;
    }
    if n < 1 {
        1
    } else {
        n
    }
}

/// The title of the device list.
pub const DEVICES_TITLE: &'static str =
    "Devices  (Tab cycles \u{b7} q/Esc/Ctrl-C quits \u{b7} r=refresh \u{b7} 1-9=select \u{b7} b=reboot \u{b7} m=magic \u{b7} p=partition)";

/// The line about an attached device.
pub open spec fn device_row(d: DeviceSummary, i: int, is_selected: bool) -> Seq<SpanView> {
    row(
        (if is_selected {
            ">"@
        } else {
            " "@
        }) + " "@ + decimal((i + 1) as nat) + ") RockUSB bus "@ + decimal(d.bus as nat) + " addr "@
            + decimal(d.address as nat) + " ("@ + (if d.available {
            "ok"@
        } else {
            "unavailable"@
        }) + ")"@,
        if is_selected {
            bold(Color::Yellow)
        } else {
            plain()
        },
    )
}

/// The lines about the attached devices.
pub open spec fn device_rows(app: AppView) -> Seq<Seq<SpanView>> {
    if app.device_err is Some {
        seq![
            row("Device discovery error: "@ + app.device_err->Some_0, colored(Color::Red)),
        ]
    } else if app.devices.len() == 0 {
        seq![row("No RockUSB devices found"@, plain())]
    } else {
        Seq::new(
            app.devices.len(),
            |i: int| device_row(app.devices[i], i, i == app.selected_device),
        )
    }
}

/// The lines of the device list.
pub open spec fn device_list(app: AppView) -> Seq<Seq<SpanView>> {
    let devices = device_rows(app);
    let sized = match app.sd_total_bytes {
        Some(total) => devices.push(row("SD: "@ + mib_text(total as int) + " MiB"@, plain())),
        None => devices,
    };
    if app.userdata_magic {
        sized.push(
            row(
                "WARNING: userdata-magic ON \u{2014} userdata will be auto-wiped on next boot."@,
                bold(Color::Red),
            ),
        )
    } else {
        sized
    }
}

/// The text about an attached device.
fn device_text(d: &DeviceSummary, i: usize, is_selected: bool) -> (r: String)
    requires
        i < usize::MAX,
    ensures
        row(
            r@,
            if is_selected {
                bold(Color::Yellow)
            } else {
                plain()
            },
        ) == device_row(*d, i as int, is_selected),
{
    let mut r: String = if is_selected {
        ">".to_owned()
    } else {
        " ".to_owned()
    };
    r.append(" ");
    r.append(&decimal_text(i as u64 + 1));
    r.append(") RockUSB bus ");
    r.append(&decimal_text(d.bus as u64));
    r.append(" addr ");
    r.append(&decimal_text(d.address as u64));
    r.append(" (");
    r.append(
        if d.available {
            "ok"
        } else {
            "unavailable"
        },
    );
    r.append(")");
    r
}

/// The lines of the device list.
pub fn device_lines(app: &App) -> (r: Vec<Line>)
    ensures
        lines_view(r@) == device_list(app@),
{
    let mut lines: Vec<Line> = Vec::new();
    assert(lines_view(lines@) =~= Seq::<Seq<SpanView>>::empty());
    if let Some(err) = &app.device_err {
        let mut text: String = "Device discovery error: ".to_owned();
        text.append(err);
        push_row(&mut lines, text, style(Color::Red, false));
    } else if app.devices.len() == 0 {
        push_row(&mut lines, "No RockUSB devices found".to_owned(), style(Color::Plain, false));
    } else {
        let mut i: usize = 0;
        let n: usize = app.devices.len();
        while i < n
            invariant
                i <= n == app.devices@.len(),
                n > 0,
                app.device_err is None,
                lines_view(lines@) == device_rows(app@).take(i as int),
            decreases n - i,
        {
            let is_selected: bool = i == app.selected_device;
            let look: Style = if is_selected {
                style(Color::Yellow, true)
            } else {
                style(Color::Plain, false)
            };
            let text: String = device_text(&app.devices[i], i, is_selected);
            push_row(&mut lines, text, look);
            assert(device_rows(app@).take(i + 1) =~= device_rows(app@).take(i as int).push(
                device_rows(app@)[i as int],
            ));
            i = i + 1;
        }
        assert(device_rows(app@).take(i as int) =~= device_rows(app@));
    }
    assert(lines_view(lines@) =~= device_rows(app@));
    if let Some(total) = app.sd_total_bytes {
        let mut text: String = "SD: ".to_owned();
        text.append(&decimal_text(total / MIB));
        text.append(" MiB");
        push_row(&mut lines, text, style(Color::Plain, false));
    }
    if app.userdata_magic {
        push_row(
            &mut lines,
            "WARNING: userdata-magic ON \u{2014} userdata will be auto-wiped on next boot.".to_owned(),
            style(Color::Red, true),
        );
    }
    lines
}

/// The title of the file picker.
pub open spec fn picker_label(app: AppView) -> Seq<char> {
    match app.selected_image {
        Some(path) => "Image (selected: "@ + path + ")"@,
        None => "Image (Enter to pick)"@,
    }
}

/// The title of the file picker.
pub fn picker_title(app: &App) -> (r: String)
    ensures
        r@ == picker_label(app@),
{
    match &app.selected_image {
        Some(path) => {
            let mut r: String = "Image (selected: ".to_owned();
            r.append(path);
            r.append(")");
            r
        },
        None => "Image (Enter to pick)".to_owned(),
    }
}

/// The line of the size box.
pub open spec fn size_row(input: Seq<char>) -> Seq<char> {
    input + (match size_in_bytes(input) {
        Ok(b) => " = "@ + decimal(b as nat) + " bytes ("@ + decimal((b / SECTOR_SIZE) as nat)
            + " sectors)"@,
        Err(e) => " (invalid: "@ + e + ")"@,
    })
}

/// The line of the size box.
pub fn size_text(input: &str) -> (r: String)
    ensures
        r@ == size_row(input@),
{
    let mut r: String = input.to_owned();
    match parse_size(input) {
        Ok(b) => {
            r.append(" = ");
            r.append(&decimal_text(b));
            r.append(" bytes (");
            r.append(&decimal_text(b / SECTOR_SIZE));
            r.append(" sectors)");
        },
        Err(e) => {
            r.append(" (invalid: ");
            r.append(&e);
            r.append(")");
        },
    }
    assert(r@ =~= size_row(input@));
    r
}

/// The title of the size box.
pub fn size_title() -> (r: String)
    ensures
        r@ == "rootfs size (each of A and B), default rounded to "@ + decimal(
            DEFAULT_ROUND_MIB as nat,
        ) + " MiB"@,
{
    let mut r: String = "rootfs size (each of A and B), default rounded to ".to_owned();
    r.append(&decimal_text(DEFAULT_ROUND_MIB));
    r.append(" MiB");
    r
}

/// The text on the button.
pub fn button_label(app: &App) -> (r: &'static str)
    ensures
        r@ == (if app@.flashing {
            "[ Flashing... ]"@
        } else {
            "[ Flash ]"@
        }),
{
    if app.flashing {
        "[ Flashing... ]"
    } else {
        "[ Flash ]"
    }
}

/// The style of the button.
pub fn button_style(app: &App) -> (r: Style)
    ensures
        r == (if app@.focus == Focus::FlashButton {
            Style { fg: Color::Black, bg: Color::Yellow, bold: true }
        } else {
            bold(Color::Plain)
        }),
{
    if app.focus == Focus::FlashButton {
        Style { fg: Color::Black, bg: Color::Yellow, bold: true }
    } else {
        style(Color::Plain, true)
    }
}

/// The text for an option that is on or off.
pub open spec fn on_off(b: bool) -> Seq<char> {
    if b {
        "ON"@
    } else {
        "off"@
    }
}

/// The text for an option that is on or off.
fn on_off_text(b: bool) -> (r: &'static str)
    ensures
        r@ == on_off(b),
{
    if b {
        "ON"
    } else {
        "off"
    }
}

/// The title of the button.
pub fn button_title(app: &App) -> (r: String)
    ensures
        r@ == "Flash (Enter)  \u{b7}  target(p): "@ + app@.target_partition.spec_name()
            + "  \u{b7}  reboot(b): "@ + on_off(app@.reset_after_flash)
            + "  \u{b7}  magic(m): "@ + on_off(app@.userdata_magic),
{
    let mut r: String = "Flash (Enter)  \u{b7}  target(p): ".to_owned();
    r.append(app.target_partition.name());
    r.append("  \u{b7}  reboot(b): ");
    r.append(on_off_text(app.reset_after_flash));
    r.append("  \u{b7}  magic(m): ");
    r.append(on_off_text(app.userdata_magic));
    r
}

/// How far a progress bar is, in percent; an empty one is at zero.
pub open spec fn percent(p: ProgressView) -> nat {
    if p.total == 0 {
        0
    } else if p.cur * 100 / p.total as int > 100 {
        100
    } else {
        (p.cur * 100 / p.total as int) as nat
    }
}

/// The line about a progress bar.
pub open spec fn progress_row(p: ProgressView) -> Seq<char> {
    "["@ + padded_left(decimal(percent(p)), 3) + "%] "@ + p.msg + ": "@ + decimal(p.cur as nat)
        + "/"@ + decimal(p.total as nat)
}

/// The last twenty lines of the log.
pub open spec fn log_tail(log: Seq<Seq<char>>) -> Seq<Seq<char>> {
    if log.len() > 20 {
        log.skip(log.len() - 20)
    } else {
        log
    }
}

/// The lines of the log: the progress bar, if there is one, and the last twenty messages.
pub open spec fn log_list(app: AppView) -> Seq<Seq<SpanView>> {
    (match app.progress {
        Some(p) => seq![row(progress_row(p), plain())],
        None => Seq::empty(),
    }) + log_tail(app.log).map_values(|s: Seq<char>| row(s, plain()))
}

/// The lines of the log.
pub fn log_lines(app: &App) -> (r: Vec<Line>)
    requires
        app@.progress matches Some(p) ==> p.cur * 100 <= u64::MAX,
    ensures
        lines_view(r@) == log_list(app@),
{
    let mut lines: Vec<Line> = Vec::new();
    assert(lines_view(lines@) =~= Seq::<Seq<SpanView>>::empty());
    if let Some(p) = &app.progress {
        let pct: u64 = if p.total == 0 {
            0
        } else {
            let n: u64 = p.cur * 100 / p.total;
            if n > 100 {
                100
            } else {
                n
            }
        };
        let mut text: String = "[".to_owned();
        text.append(&pad_left(&decimal_text(pct), 3));
        text.append("%] ");
        text.append(&p.msg);
        text.append(": ");
        text.append(&decimal_text(p.cur));
        text.append("/");
        text.append(&decimal_text(p.total));
        push_row(&mut lines, text, style(Color::Plain, false));
    }
    let ghost head = lines_view(lines@);
    assert(head =~= (match app@.progress {
        Some(p) => seq![row(progress_row(p), plain())],
        None => Seq::empty(),
    }));
    let ghost tail = log_tail(app@.log).map_values(|s: Seq<char>| row(s, plain()));
    let n: usize = app.log.len();
    let first: usize = n.saturating_sub(20);
    let mut i: usize = first;
    assert(head + tail.take(0) =~= head);
    while i < n
        invariant
            first <= i <= n == app.log@.len(),
            first == (if n > 20 {
                n - 20
            } else {
                0
            }),
            tail == log_tail(app@.log).map_values(|s: Seq<char>| row(s, plain())),
            lines_view(lines@) == head + tail.take(i - first),
        decreases n - i,
    {
        push_row(&mut lines, app.log[i].clone(), style(Color::Plain, false));
        assert(tail[i - first] == row(app.log@[i as int]@, plain()));
        assert(tail.take(i + 1 - first) =~= tail.take(i - first).push(tail[i - first]));
        assert(lines_view(lines@) =~= head + tail.take(i + 1 - first));
        i = i + 1;
    }
    assert(tail.take(i - first) =~= tail);
    lines
}

/// A part of the screen.
#[derive(Debug, Clone, Copy, PartialEq, Eq, Structural)]
pub struct Rect {
    pub x: u16,
    pub y: u16,
    pub width: u16,
    pub height: u16,
}

pub open spec fn min_of(a: int, b: int) -> int {
    if a < b {
        a
    } else {
        b
    }
}

pub open spec fn max_of(a: int, b: int) -> int {
    if a < b {
        b
    } else {
        a
    }
}

/// A part of the given size in the middle of an area, no larger than it.
pub open spec fn centered(area: Rect, w: int, h: int) -> Rect {
    let width = min_of(w, area.width as int);
    let height = min_of(h, area.height as int);
    Rect {
        x: (area.x + (area.width - width) / 2) as u16,
        y: (area.y + (area.height - height) / 2) as u16,
        width: width as u16,
        height: height as u16,
    }
}

/// Whether the corner of such a part has coordinates.
pub open spec fn has_place(area: Rect, w: int, h: int) -> bool {
    &&& area.x + (area.width - min_of(w, area.width as int)) / 2 <= u16::MAX
    &&& area.y + (area.height - min_of(h, area.height as int)) / 2 <= u16::MAX
}

/// A part of the given size in the middle of an area, no larger than it.
pub fn centered_rect(area: Rect, w: u16, h: u16) -> (r: Rect)
    requires
        has_place(area, w as int, h as int),
    ensures
        r == centered(area, w as int, h as int),
{
    let w: u16 = if w < area.width {
        w
    } else {
        area.width
    };
    let h: u16 = if h < area.height {
        h
    } else {
        area.height
    };
    Rect {
        x: area.x + (area.width - w) / 2,
        y: area.y + (area.height - h) / 2,
        width: w,
        height: h,
    }
}

/// A part in the middle lies inside the area, with as much room on one side as on the other,
/// but for one cell.
pub proof fn law_centered_lies_inside(area: Rect, w: u16, h: u16)
    requires
        has_place(area, w as int, h as int),
    ensures
        ({
            let r = centered(area, w as int, h as int);
            let left = r.x - area.x;
            let right = area.x + area.width - (r.x + r.width);
            let above = r.y - area.y;
            let below = area.y + area.height - (r.y + r.height);
            &&& 0 <= left <= right <= left + 1
            &&& 0 <= above <= below <= above + 1
            &&& r.width == min_of(w as int, area.width as int)
            &&& r.height == min_of(h as int, area.height as int)
        }),
{
}

/// The message of the success overlay.
pub open spec fn success_label(app: AppView) -> Seq<char> {
    if app.reset_after_flash {
        "Flash completed and device rebooted."@
    } else {
        "Flash completed."@
    }
}

/// The message of the success overlay.
fn success_text(app: &App) -> (r: &'static str)
    ensures
        r@ == success_label(app@),
        r@.len() <= 36,
{
    proof {
        reveal_strlit("Flash completed and device rebooted.");
        reveal_strlit("Flash completed.");
    }
    if app.reset_after_flash {
        "Flash completed and device rebooted."
    } else {
        "Flash completed."
    }
}

/// The place of the success overlay.
pub fn success_rect(app: &App, area: Rect) -> (r: Rect)
    requires
        has_place(area, max_of(success_label(app@).len() as int + 6, 40), 5),
    ensures
        r == centered(area, max_of(success_label(app@).len() as int + 6, 40), 5),
{
    let n: u16 = success_text(app).unicode_len() as u16;
    let w: u16 = if n + 6 < 40 {
        40
    } else {
        n + 6
    };
    centered_rect(area, w, 5)
}

/// The lines of the success overlay.
pub fn success_lines(app: &App) -> (r: Vec<Line>)
    ensures
        lines_view(r@) == seq![
            row(""@, plain()),
            row(success_label(app@), bold(Color::Green)),
            row("press any key to dismiss"@, colored(Color::DarkGray)),
        ],
{
    let mut lines: Vec<Line> = Vec::new();
    push_row(&mut lines, "".to_owned(), style(Color::Plain, false));
    push_row(&mut lines, success_text(app).to_owned(), style(Color::Green, true));
    push_row(&mut lines, "press any key to dismiss".to_owned(), style(Color::DarkGray, false));
    assert(lines_view(lines@) =~= seq![
        row(""@, plain()),
        row(success_label(app@), bold(Color::Green)),
        row("press any key to dismiss"@, colored(Color::DarkGray)),
    ]);
    lines
}

/// A line without the carriage return before its line feed.
pub open spec fn without_return(s: Seq<char>) -> Seq<char> {
    if s.len() > 0 && s.last() == '\r' {
        s.drop_last()
    } else {
        s
    }
}

/// The lines of a text. A line feed ends a line, with or without a carriage return before it;
/// behind the last one there is a line only if there is text.
pub open spec fn text_lines(s: Seq<char>) -> Seq<Seq<char>>
    decreases s.len(),
{
    match first_index(s, '\n') {
        Some(i) => if 0 <= i < s.len() {
            seq![without_return(s.take(i))] + text_lines(s.skip(i + 1))
        } else {
            Seq::empty()
        },
        None => if s.len() == 0 {
            Seq::empty()
        } else {
            seq![s]
        },
    }
}

/// The lines of a text.
pub fn lines_of(s: &str) -> (r: Vec<String>)
    ensures
        texts(r@) == text_lines(s@),
{
    let chars: Vec<char> = chars_of(s);
    let n: usize = chars.len();
    let mut r: Vec<String> = Vec::new();
    let mut start: usize = 0;
    let mut i: usize = 0;
    assert(s@.skip(0) =~= s@);
    assert(texts(r@) + text_lines(s@) =~= text_lines(s@));
    while i < n
        invariant
            start <= i <= n == chars.len(),
            chars@ == s@,
            texts(r@) + text_lines(s@.skip(start as int)) == text_lines(s@),
            forall|k: int| start <= k < i ==> #[trigger] s@[k] != '\n',
        decreases n - i,
    {
        if chars[i] == '\n' {
            let end: usize = if start < i && chars[i - 1] == '\r' {
                i - 1
            } else {
                i
            };
            let line: &str = s.substring_char(start, end);
            let ghost before = r@;
            r.push(line.to_owned());
            proof {
                let rest = s@.skip(start as int);
                let at = i - start;
                assert forall|j: int| 0 <= j < at implies #[trigger] rest[j] != '\n' by {
                    assert(s@[start + j] != '\n');
                }
                lemma_first_index_is(rest, '\n', at);
                assert(rest.skip(at + 1) =~= s@.skip(i + 1));
                assert(without_return(rest.take(at)) =~= line@);
                let tail = text_lines(s@.skip(i + 1));
                assert(text_lines(rest) == seq![line@] + tail);
                assert(texts(r@) =~= texts(before).push(line@));
                assert(texts(before) + (seq![line@] + tail) =~= texts(r@) + tail);
            }
            start = i + 1;
        }
        i = i + 1;
    }
    proof {
        let rest = s@.skip(start as int);
        assert forall|j: int| 0 <= j < rest.len() implies #[trigger] rest[j] != '\n' by {
            assert(s@[start + j] != '\n');
        }
        lemma_first_index_none(rest, '\n');
    }
    if start < n {
        let line: &str = s.substring_char(start, n);
        let ghost before = r@;
        r.push(line.to_owned());
        proof {
            assert(line@ =~= s@.skip(start as int));
            assert(texts(r@) =~= texts(before).push(line@));
            assert(texts(before) + seq![line@] =~= texts(r@));
        }
    } else {
        assert(texts(r@) + Seq::<Seq<char>>::empty() =~= texts(r@));
    }
    r
}

/// The bytes of a line, counted in sixteen bits.
pub open spec fn byte_width(line: Seq<char>) -> u16 {
    (encode_utf8(line).len() as usize) as u16
}

/// The largest width of the lines.
pub open spec fn widest(lines: Seq<Seq<char>>) -> Option<u16>
    decreases lines.len(),
{
    if lines.len() == 0 {
        None
    } else {
        match widest(lines.drop_last()) {
            Some(w) => if byte_width(lines.last()) >= w {
                Some(byte_width(lines.last()))
            } else {
                Some(w)
            },
            None => Some(byte_width(lines.last())),
        }
    }
}

/// The height of the error overlay, without the cap at sixteen bits and at the screen.
pub open spec fn error_height(msg: Seq<char>) -> int {
    (text_lines(msg).len() as u16) + 4
}

/// The width of the error overlay, before it is held against the screen.
pub open spec fn error_width(msg: Seq<char>) -> int {
    min_of(
        (match widest(text_lines(msg)) {
            Some(w) => w as int,
            None => 40,
        }) + 6,
        u16::MAX as int,
    )
}

/// `n`, but no less than `low` and no more than `high`.
pub open spec fn clamped(n: int, low: int, high: int) -> int {
    if n < low {
        low
    } else if n > high {
        high
    } else {
        n
    }
}

/// `n`, but no less than `low` and no more than `high`.
fn clamp_to(n: u16, low: u16, high: u16) -> (r: u16)
    ensures
        r == clamped(n as int, low as int, high as int),
{
    if n < low {
        low
    } else if n > high {
        high
    } else {
        n
    }
}

/// The place of the error overlay. It takes a screen of 34 columns and 7 rows.
pub fn error_rect(msg: &str, area: Rect) -> (r: Rect)
    requires
        area.width >= 34,
        area.height >= 7,
        error_height(msg@) <= u16::MAX,
        has_place(
            area,
            clamped(error_width(msg@), 30, area.width - 4),
            clamped(error_height(msg@), 5, area.height - 2),
        ),
    ensures
        r == centered(
            area,
            clamped(error_width(msg@), 30, area.width - 4),
            clamped(error_height(msg@), 5, area.height - 2),
        ),
{
    let lines: Vec<String> = lines_of(msg);
    let count: u16 = #[verifier::truncate] (lines.len() as u16);
    let h: u16 = clamp_to(count + 4, 5, area.height - 2);
    let mut width: Option<u16> = None;
    let mut i: usize = 0;
    while i < lines.len()
        invariant
            i <= lines.len(),
            texts(lines@) == text_lines(msg@),
            width == widest(text_lines(msg@).take(i as int)),
        decreases lines.len() - i,
    {
        let bytes: usize = lines[i].as_str().len();
        let w: u16 = #[verifier::truncate] (bytes as u16);
        proof {
            let all = text_lines(msg@);
            assert(all[i as int] == lines@[i as int]@);
            assert(all.take(i + 1).drop_last() =~= all.take(i as int));
            assert(w == byte_width(all[i as int]));
        }
        width = match width {
            Some(best) => if w >= best {
                Some(w)
            } else {
                Some(best)
            },
            None => Some(w),
        };
        i = i + 1;
    }
    assert(text_lines(msg@).take(i as int) =~= text_lines(msg@));
    let widest: u16 = match width {
        Some(w) => w,
        None => 40,
    };
    let w: u16 = clamp_to(widest.saturating_add(6), 30, area.width - 4);
    centered_rect(area, w, h)
}

/// The lines of the error overlay.
pub open spec fn error_list(msg: Seq<char>) -> Seq<Seq<SpanView>> {
    text_lines(msg).map_values(|l: Seq<char>| row(l, colored(Color::Red))).push(
        row(""@, plain()),
    ).push(row("press any key to dismiss"@, colored(Color::DarkGray)))
}

/// The lines of the error overlay.
pub fn error_lines(msg: &str) -> (r: Vec<Line>)
    ensures
        lines_view(r@) == error_list(msg@),
{
    let texts_of: Vec<String> = lines_of(msg);
    let mut lines: Vec<Line> = Vec::new();
    let ghost all = text_lines(msg@).map_values(|l: Seq<char>| row(l, colored(Color::Red)));
    let mut i: usize = 0;
    assert(lines_view(lines@) =~= all.take(0));
    while i < texts_of.len()
        invariant
            i <= texts_of.len(),
            texts(texts_of@) == text_lines(msg@),
            all == text_lines(msg@).map_values(|l: Seq<char>| row(l, colored(Color::Red))),
            lines_view(lines@) == all.take(i as int),
        decreases texts_of.len() - i,
    {
        push_row(&mut lines, texts_of[i].clone(), style(Color::Red, false));
        assert(text_lines(msg@)[i as int] == texts_of@[i as int]@);
        assert(all.take(i + 1) =~= all.take(i as int).push(all[i as int]));
        i = i + 1;
    }
    assert(all.take(i as int) =~= all);
    push_row(&mut lines, "".to_owned(), style(Color::Plain, false));
    push_row(&mut lines, "press any key to dismiss".to_owned(), style(Color::DarkGray, false));
    lines
}

/// The value of the line about the chosen slots.
pub open spec fn target_row(app: AppView, target: Partition) -> Seq<SpanView> {
    let active = app.sd_existing matches Some(info) && info.active == Some(target);
    if active {
        named_row(
            "target partition"@,
            target.spec_name() + " (active)"@,
            bold(Color::Green),
        )
    } else {
        named_row("target partition"@, target.spec_name(), plain())
    }
}

/// What is left for userdata, approximately.
pub open spec fn userdata_estimate(total: u64, rootfs: u64) -> int {
    max_of(total - 2 * rootfs - GPT_OVERHEAD_BYTES, 0)
}

/// The lines of the confirm dialog that tell what is going to be flashed.
pub open spec fn request_rows(app: AppView, pc: PendingConfirmView, len: Option<u64>) -> Seq<
    Seq<SpanView>,
> {
    let cfg = pc.cfg;
    let size = mib_text(cfg.rootfs_size_bytes as int) + " MiB"@;
    let a = seq![
        row("Confirm flash"@, bold(Color::Yellow)),
        row(""@, plain()),
        named_row("image"@, cfg.image, plain()),
    ];
    let b = match len {
        Some(n) => a.push(
            named_row(
                "image size"@,
                mib_text(n as int) + " MiB ("@ + decimal(n as nat) + " bytes)"@,
                plain(),
            ),
        ),
        None => a,
    };
    let c = b.push(target_row(app, cfg.target_partition)).push(
        named_row("rootfs A size"@, size, plain()),
    ).push(named_row("rootfs B size"@, size, plain()));
    let d = match app.sd_total_bytes {
        Some(total) => c.push(
            named_row(
                "userdata (approx)"@,
                mib_text(userdata_estimate(total, cfg.rootfs_size_bytes)) + " MiB"@,
                plain(),
            ),
        ).push(named_row("SD total"@, mib_text(total as int) + " MiB"@, plain())),
        None => c,
    };
    let e = match selected(app) {
        Some(dev) => d.push(
            named_row(
                "device"@,
                "RockUSB bus "@ + decimal(dev.bus as nat) + " addr "@ + decimal(dev.address as nat),
                plain(),
            ),
        ),
        None => d,
    };
    let f = e.push(named_row("reboot-after-flash"@, on_off(cfg.reset_after_flash), plain()));
    if cfg.userdata_magic {
        f.push(
            named_row(
                "userdata-magic"@,
                if pc.magic_auto {
                    "ON (GPT Layout Change)"@
                } else {
                    "ON"@
                },
                bold(Color::Yellow),
            ),
        )
    } else {
        f.push(named_row("userdata-magic"@, "off"@, plain()))
    }
}

/// What is kept of a card whose table matches.
pub open spec fn kept_text(target: Partition) -> Seq<char> {
    match target {
        Partition::RootfsA =>
            "Existing GPT matches: only rootfs_a will be erased + rewritten; rootfs_b and userdata preserved."@,
        Partition::RootfsB =>
            "Existing GPT matches: only rootfs_b will be erased + rewritten; rootfs_a and userdata preserved."@,
        Partition::Both =>
            "Existing GPT matches: rootfs_a and rootfs_b will be erased + rewritten; userdata preserved."@,
    }
}

/// The line that warns of the card being erased.
pub open spec fn erase_warning() -> Seq<SpanView> {
    row("WARNING: this erases the entire SD card."@, bold(Color::Red))
}

/// The line that warns of userdata being wiped.
pub open spec fn wipe_warning() -> Seq<SpanView> {
    row(
        "WARNING: userdata-magic is ON \u{2014} userdata will be auto-wiped on next boot."@,
        bold(Color::Red),
    )
}

/// The lines of the confirm dialog. Warnings come before the key-hint line so they survive
/// any height clamping. The SD-erase warning is shown unless the device already has the exact
/// GPT; the userdata-magic warning whenever the markers are on.
pub open spec fn confirm_list(app: AppView, pc: PendingConfirmView, len: Option<u64>) -> Seq<
    Seq<SpanView>,
> {
    let a = request_rows(app, pc, len).push(row(""@, plain()));
    let b = if pc.layout_matches {
        a.push(row(kept_text(pc.cfg.target_partition), colored(Color::Green)))
    } else {
        a.push(erase_warning())
    };
    let c = if pc.cfg.userdata_magic {
        b.push(wipe_warning())
    } else {
        b
    };
    c.push(row(""@, plain())).push(
        row(
            "[y/Enter] confirm  [n/Esc] cancel  [p] target  [b] reboot  [m] magic"@,
            colored(Color::DarkGray),
        ),
    )
}

/// `n` bytes in whole MiB, with the unit.
fn mib_label(n: u64) -> (r: String)
    ensures
        r@ == mib_text(n as int) + " MiB"@,
{
    let mut r: String = decimal_text(n / MIB);
    r.append(" MiB");
    r
}

/// The lines of the confirm dialog that tell what is going to be flashed.
fn request_lines(app: &App, pc: &PendingConfirm, len: Option<u64>) -> (r: Vec<Line>)
    requires
        app.sd_total_bytes is Some ==> 2 * pc.cfg.rootfs_size_bytes <= u64::MAX,
    ensures
        lines_view(r@) == request_rows(app@, pc@, len),
{
    let cfg = &pc.cfg;
    let mut lines: Vec<Line> = Vec::new();
    push_row(&mut lines, "Confirm flash".to_owned(), style(Color::Yellow, true));
    push_row(&mut lines, "".to_owned(), style(Color::Plain, false));
    push_named(&mut lines, "image", cfg.image.clone(), style(Color::Plain, false));
    assert(lines_view(lines@) =~= seq![
        row("Confirm flash"@, bold(Color::Yellow)),
        row(""@, plain()),
        named_row("image"@, cfg.image@, plain()),
    ]);
    if let Some(n) = len {
        let mut text: String = decimal_text(n / MIB);
        text.append(" MiB (");
        text.append(&decimal_text(n));
        text.append(" bytes)");
        push_named(&mut lines, "image size", text, style(Color::Plain, false));
    }
    let active: bool = match app.sd_existing {
        Some(info) => match info.active {
            Some(p) => p == cfg.target_partition,
            None => false,
        },
        None => false,
    };
    if active {
        let mut text: String = cfg.target_partition.name().to_owned();
        text.append(" (active)");
        push_named(&mut lines, "target partition", text, style(Color::Green, true));
    } else {
        push_named(
            &mut lines,
            "target partition",
            cfg.target_partition.name().to_owned(),
            style(Color::Plain, false),
        );
    }
    let rootfs: u64 = cfg.rootfs_size_bytes;
    push_named(&mut lines, "rootfs A size", mib_label(rootfs), style(Color::Plain, false));
    push_named(&mut lines, "rootfs B size", mib_label(rootfs), style(Color::Plain, false));
    if let Some(total) = app.sd_total_bytes {
        let left: u64 = total.saturating_sub(2 * rootfs).saturating_sub(GPT_OVERHEAD_BYTES);
        push_named(&mut lines, "userdata (approx)", mib_label(left), style(Color::Plain, false));
        push_named(&mut lines, "SD total", mib_label(total), style(Color::Plain, false));
    }
    if app.selected_device < app.devices.len() {
        let d: DeviceSummary = app.devices[app.selected_device];
        let mut text: String = "RockUSB bus ".to_owned();
        text.append(&decimal_text(d.bus as u64));
        text.append(" addr ");
        text.append(&decimal_text(d.address as u64));
        push_named(&mut lines, "device", text, style(Color::Plain, false));
    }
    push_named(
        &mut lines,
        "reboot-after-flash",
        on_off_text(cfg.reset_after_flash).to_owned(),
        style(Color::Plain, false),
    );
    if cfg.userdata_magic {
        let value: String = if pc.magic_auto {
            "ON (GPT Layout Change)".to_owned()
        } else {
            "ON".to_owned()
        };
        push_named(&mut lines, "userdata-magic", value, style(Color::Yellow, true));
    } else {
        push_named(&mut lines, "userdata-magic", "off".to_owned(), style(Color::Plain, false));
    }
    lines
}

/// What is kept of a card whose table matches.
fn kept_line(target: Partition) -> (r: &'static str)
    ensures
        r@ == kept_text(target),
{
    match target {
        Partition::RootfsA =>
            "Existing GPT matches: only rootfs_a will be erased + rewritten; rootfs_b and userdata preserved.",
        Partition::RootfsB =>
            "Existing GPT matches: only rootfs_b will be erased + rewritten; rootfs_a and userdata preserved.",
        Partition::Both =>
            "Existing GPT matches: rootfs_a and rootfs_b will be erased + rewritten; userdata preserved.",
    }
}

/// The lines of the confirm dialog. `len` is the length of the image, if it could be found
/// out.
pub fn confirm_lines(app: &App, pc: &PendingConfirm, len: Option<u64>) -> (r: Vec<Line>)
    requires
        app@.sd_total_bytes is Some ==> 2 * pc@.cfg.rootfs_size_bytes <= u64::MAX,
    ensures
        lines_view(r@) == confirm_list(app@, pc@, len),
{
    let mut lines: Vec<Line> = request_lines(app, pc, len);
    push_row(&mut lines, "".to_owned(), style(Color::Plain, false));
    if pc.layout_matches {
        let text: String = kept_line(pc.cfg.target_partition).to_owned();
        push_row(&mut lines, text, style(Color::Green, false));
    } else {
        push_row(
            &mut lines,
            "WARNING: this erases the entire SD card.".to_owned(),
            style(Color::Red, true),
        );
    }
    if pc.cfg.userdata_magic {
        push_row(
            &mut lines,
            "WARNING: userdata-magic is ON \u{2014} userdata will be auto-wiped on next boot.".to_owned(),
            style(Color::Red, true),
        );
    }
    push_row(&mut lines, "".to_owned(), style(Color::Plain, false));
    push_row(
        &mut lines,
        "[y/Enter] confirm  [n/Esc] cancel  [p] target  [b] reboot  [m] magic".to_owned(),
        style(Color::DarkGray, false),
    );
    lines
}

/// The columns that `ratatui::text::Span::width` counts for a text.
pub uninterp spec fn columns(text: Seq<char>) -> usize;

/// `ratatui::text::Span::width`: the columns that the text takes on the screen, a function of
/// the text alone.
#[verifier::external_body]
fn text_columns(text: &str) -> (r: usize)
    ensures
        r == columns(text@),
{
    ratatui::text::Span::raw(text).width()
}

/// The columns of the pieces of a line, added up; never more than fit.
pub open spec fn line_columns(line: Seq<SpanView>) -> int
    decreases line.len(),
{
    if line.len() == 0 {
        0
    } else {
        min_of(line_columns(line.drop_last()) + columns(line.last().text), usize::MAX as int)
    }
}

/// The columns of each line.
pub open spec fn all_columns(lines: Seq<Seq<SpanView>>) -> Seq<int> {
    lines.map_values(|l: Seq<SpanView>| line_columns(l))
}

/// The width of the confirm dialog: 80 so the long warning lines don't wrap, less if the
/// screen is narrower, but no less than 40.
pub open spec fn confirm_width(area: Rect) -> int {
    max_of(min_of(80, area.width - 4), 40)
}

/// The rows that a line of the given columns takes; an empty line takes one.
pub open spec fn rows_of(columns: int, inner: int) -> int {
    (max_of(columns, 1) + inner - 1) / inner
}

/// The rows that the lines take, each counted in sixteen bits, together no more than fit.
pub open spec fn rows_needed(columns: Seq<int>, inner: int) -> int
    decreases columns.len(),
{
    if columns.len() == 0 {
        0
    } else {
        min_of(
            rows_needed(columns.drop_last(), inner) + ((rows_of(
                columns.last(),
                inner,
            ) as usize) as u16),
            u16::MAX as int,
        )
    }
}

/// The height of the confirm dialog with lines of the given columns: the wrapped content fits,
/// unless the screen is lower.
pub open spec fn confirm_height(columns: Seq<int>, area: Rect) -> int {
    min_of(rows_needed(columns, confirm_width(area) - 2) + 2, max_of(area.height - 2, 0))
}

/// The place of the confirm dialog with lines of the given columns.
pub open spec fn confirm_place(columns: Seq<int>, area: Rect) -> Rect {
    centered(area, confirm_width(area), confirm_height(columns, area))
}

/// Whether the confirm dialog has a place: its rows can be counted and its corner has
/// coordinates.
pub open spec fn confirm_fits(columns: Seq<int>, area: Rect) -> bool {
    &&& rows_needed(columns, confirm_width(area) - 2) + 2 <= u16::MAX
    &&& has_place(area, confirm_width(area), confirm_height(columns, area))
}

/// The columns as mathematical integers.
pub open spec fn as_ints(v: Seq<usize>) -> Seq<int> {
    v.map_values(|n: usize| n as int)
}

/// The width of the confirm dialog.
fn confirm_columns(area: Rect) -> (r: u16)
    ensures
        r == confirm_width(area),
        40 <= r <= 80,
{
    let room: u16 = area.width.saturating_sub(4);
    let w: u16 = if room < 80 {
        room
    } else {
        80
    };
    if w < 40 {
        40
    } else {
        w
    }
}

/// The rows that lines of the given columns take.
fn count_rows(columns: &Vec<usize>, inner: usize) -> (r: u16)
    requires
        1 < inner <= 78,
    ensures
        r == rows_needed(as_ints(columns@), inner as int),
{
    let mut needed: u16 = 0;
    let mut i: usize = 0;
    let ghost all = as_ints(columns@);
    while i < columns.len()
        invariant
            i <= columns.len(),
            1 < inner <= 78,
            all == as_ints(columns@),
            needed == rows_needed(all.take(i as int), inner as int),
        decreases columns.len() - i,
    {
        let lw: usize = if columns[i] < 1 {
            1
        } else {
            columns[i]
        };
        proof {
            vstd::arithmetic::div_mod::lemma_div_decreases(lw as int, inner as int);
        }
        let rows: usize = if lw % inner == 0 {
            lw / inner
        } else {
            lw / inner + 1
        };
        proof {
            assert(all.take(i + 1).drop_last() =~= all.take(i as int));
            assert(all.take(i + 1).last() == columns@[i as int]);
            lemma_rows(lw as int, inner as int);
        }
        let counted: u16 = #[verifier::truncate] (rows as u16);
        needed = needed.saturating_add(counted);
        i = i + 1;
    }
    assert(all.take(i as int) =~= all);
    needed
}

/// Rounding division, by the remainder.
proof fn lemma_rows(n: int, inner: int)
    requires
        n >= 1,
        inner > 0,
    ensures
        (n + inner - 1) / inner == (if n % inner == 0 {
            n / inner
        } else {
            n / inner + 1
        }),
{
    let q = n / inner;
    let m = n % inner;
    vstd::arithmetic::div_mod::lemma_fundamental_div_mod(n, inner);
    if m == 0 {
        assert(n + inner - 1 == inner * q + (inner - 1));
        vstd::arithmetic::div_mod::lemma_fundamental_div_mod_converse(
            n + inner - 1,
            inner,
            q,
            inner - 1,
        );
    } else {
        assert(n + inner - 1 == inner * (q + 1) + (m - 1)) by {
            vstd::arithmetic::mul::lemma_mul_is_distributive_add(inner, q, 1);
        }
        vstd::arithmetic::div_mod::lemma_fundamental_div_mod_converse(
            n + inner - 1,
            inner,
            q + 1,
            m - 1,
        );
    }
}

/// The place of the confirm dialog with lines of the given columns.
pub fn place_confirm(columns: &Vec<usize>, area: Rect) -> (r: Rect)
    requires
        confirm_fits(as_ints(columns@), area),
    ensures
        r == confirm_place(as_ints(columns@), area),
{
    let w: u16 = confirm_columns(area);
    let needed: u16 = count_rows(columns, (w - 2) as usize);
    let room: u16 = area.height.saturating_sub(2);
    let h: u16 = if needed + 2 < room {
        needed + 2
    } else {
        room
    };
    centered_rect(area, w, h)
}

/// The columns of a line.
fn count_columns(line: &Line) -> (r: usize)
    ensures
        r == line_columns(line@),
{
    let mut sum: usize = 0;
    let mut i: usize = 0;
    while i < line.spans.len()
        invariant
            i <= line.spans.len(),
            sum == line_columns(line@.take(i as int)),
        decreases line.spans.len() - i,
    {
        let n: usize = text_columns(&line.spans[i].text);
        sum = sum.saturating_add(n);
        assert(line@.take(i + 1).drop_last() =~= line@.take(i as int));
        assert(line@.take(i + 1).last() == line.spans@[i as int]@);
        i = i + 1;
    }
    assert(line@.take(i as int) =~= line@);
    sum
}

/// The place of the confirm dialog with the given lines, none if they take more rows than can
/// be counted or its corner has no coordinates.
pub fn confirm_rect(lines: &Vec<Line>, area: Rect) -> (r: Option<Rect>)
    ensures
        r == (if confirm_fits(all_columns(lines_view(lines@)), area) {
            Some(confirm_place(all_columns(lines_view(lines@)), area))
        } else {
            None
        }),
{
    let mut columns: Vec<usize> = Vec::new();
    let mut i: usize = 0;
    let ghost all = all_columns(lines_view(lines@));
    assert(as_ints(columns@) =~= all.take(0));
    while i < lines.len()
        invariant
            i <= lines.len(),
            all == all_columns(lines_view(lines@)),
            as_ints(columns@) == all.take(i as int),
        decreases lines.len() - i,
    {
        let ghost before = columns@;
        let n: usize = count_columns(&lines[i]);
        columns.push(n);
        assert(all[i as int] == n);
        assert(all.take(i + 1) =~= all.take(i as int).push(n as int));
        assert(as_ints(columns@) =~= as_ints(before).push(n as int));
        i = i + 1;
    }
    assert(all.take(i as int) =~= all);
    let w: u16 = confirm_columns(area);
    let needed: u16 = count_rows(&columns, (w - 2) as usize);
    if needed > 65533 {
        return None;
    }
    let room: u16 = area.height.saturating_sub(2);
    let h: u16 = if needed + 2 < room {
        needed + 2
    } else {
        room
    };
    let left: u16 = area.width.saturating_sub(w) / 2;
    let above: u16 = area.height.saturating_sub(h) / 2;
    if area.x > u16::MAX - left || area.y > u16::MAX - above {
        return None;
    }
    Some(place_confirm(&columns, area))
}

/// The frame of the device list has a row for every line of it.
pub proof fn law_device_list_fits_its_frame(app: AppView)
    requires
        app.devices.len() <= u16::MAX,
    ensures
        line_count(app) == device_list(app).len(),
{
}

/// The lines that tell what is going to be flashed hold no warning.
proof fn lemma_request_rows(app: AppView, pc: PendingConfirmView, len: Option<u64>, i: int)
    requires
        0 <= i < request_rows(app, pc, len).len(),
    ensures
        request_rows(app, pc, len)[i].len() > 0,
        request_rows(app, pc, len)[i][0].style != bold(Color::Red),
{
}

/// The dialog warns that the whole card is erased exactly where that is going to happen, and
/// that userdata is wiped exactly where the markers are on. The line that names the keys comes
/// last.
pub proof fn law_dialog_warns(app: AppView, pc: PendingConfirmView, len: Option<u64>)
    ensures
        confirm_list(app, pc, len).contains(erase_warning()) <==> !pc.layout_matches,
        confirm_list(app, pc, len).contains(wipe_warning()) <==> pc.cfg.userdata_magic,
        confirm_list(app, pc, len).last() == row(
            "[y/Enter] confirm  [n/Esc] cancel  [p] target  [b] reboot  [m] magic"@,
            colored(Color::DarkGray),
        ),
{
    reveal_strlit("WARNING: this erases the entire SD card.");
    reveal_strlit(
        "WARNING: userdata-magic is ON \u{2014} userdata will be auto-wiped on next boot.",
    );
    let lines = confirm_list(app, pc, len);
    let n = request_rows(app, pc, len).len() as int;
    assert(erase_warning()[0].text.len() != wipe_warning()[0].text.len());
    assert(erase_warning()[0].style == bold(Color::Red));
    assert(wipe_warning()[0].style == bold(Color::Red));
    assert forall|i: int| 0 <= i < lines.len() implies {
        &&& lines[i] == erase_warning() ==> !pc.layout_matches
        &&& lines[i] == wipe_warning() ==> pc.cfg.userdata_magic
    } by {
        if i < n {
            lemma_request_rows(app, pc, len, i);
            assert(lines[i] == request_rows(app, pc, len)[i]);
        } else {
            assert(lines[i].len() == 1);
        }
    }
    if !pc.layout_matches {
        assert(lines[n + 1] == erase_warning());
    }
    if pc.cfg.userdata_magic {
        assert(lines[n + 2] == wipe_warning());
    }
}

} // verus!
