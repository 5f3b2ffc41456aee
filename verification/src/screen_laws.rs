//! What stands on the screen, line by line.

use crate::flash::{size_in_bytes, Partition};
use crate::text::{decimal, lemma_first_index_is, lemma_first_index_none, padded_left, padded_right};
use crate::tui::{AppView, PendingConfirmView, ProgressView};
use crate::view::{
    all_columns, as_ints, byte_width, centered, clamped, columns, confirm_fits, confirm_height,
    confirm_list, confirm_place, confirm_width, device_list, error_height, error_list, error_width,
    has_place, line_columns, line_count, lines_view, log_list, percent, picker_label, progress_row,
    request_rows, rows_needed, rows_of, size_row, success_label, text_lines, widest, Color, Line,
    Rect, Span, SpanView, Style, DEVICES_TITLE,
};
use vstd::prelude::*;
use vstd::utf8::*;

verus! {

/// Whether a line is one piece of text with the given looks.
pub open spec fn is_row(line: Seq<SpanView>, text: Seq<char>, fg: Color, bold: bool) -> bool {
    &&& line.len() == 1
    &&& line[0].text == text
    &&& line[0].style == (Style { fg, bg: Color::Plain, bold })
}

/// Whether a line is a name in gray and a value with the given looks.
pub open spec fn is_named_row(
    line: Seq<SpanView>,
    name: Seq<char>,
    value: Seq<char>,
    fg: Color,
    bold: bool,
) -> bool {
    &&& line.len() == 2
    &&& line[0].text == "  "@ + padded_right(name, 22)
    &&& line[0].style == (Style { fg: Color::DarkGray, bg: Color::Plain, bold: false })
    &&& line[1].text == value
    &&& line[1].style == (Style { fg, bg: Color::Plain, bold })
}

/// What is seen of pieces of text and of lines is what they hold.
pub proof fn law_line_view(s: Span, l: Line, lines: Seq<Line>, i: int)
    ensures
        s@.text == s.text@,
        s@.style == s.style,
        l@.len() == l.spans@.len(),
        0 <= i < l.spans@.len() ==> l@[i] == l.spans@[i]@,
        lines_view(lines).len() == lines.len(),
        0 <= i < lines.len() ==> lines_view(lines)[i] == lines[i]@,
{
}

/// How many lines tell of the devices.
pub open spec fn device_line_number(app: AppView) -> int {
    if app.device_err is Some || app.devices.len() == 0 {
        1
    } else {
        app.devices.len() as int
    }
}

/// The device list tells the error, or that there is no device, or each device with its number,
/// its place and its state, the selected one with an arrow; then the size of the card, if it is
/// known, and the warning about the markers, if they are on.
pub proof fn law_device_lines(app: AppView, i: int)
    ensures
        ({
            let list = device_list(app);
            let n = device_line_number(app);
            let sd = if app.sd_total_bytes is Some {
                1int
            } else {
                0
            };
            let magic = if app.userdata_magic {
                1int
            } else {
                0
            };
            &&& list.len() == n + sd + magic
            &&& app.device_err is Some ==> is_row(
                list[0],
                "Device discovery error: "@ + app.device_err->Some_0,
                Color::Red,
                false,
            )
            &&& app.device_err is None && app.devices.len() == 0 ==> is_row(
                list[0],
                "No RockUSB devices found"@,
                Color::Plain,
                false,
            )
            &&& app.device_err is None && 0 <= i < app.devices.len() ==> {
                let d = app.devices[i];
                let state = if d.available {
                    "ok"@
                } else {
                    "unavailable"@
                };
                &&& app.selected_device == i ==> is_row(
                    list[i],
                    ">"@ + " "@ + decimal((i + 1) as nat) + ") RockUSB bus "@ + decimal(
                        d.bus as nat,
                    ) + " addr "@ + decimal(d.address as nat) + " ("@ + state + ")"@,
                    Color::Yellow,
                    true,
                )
                &&& app.selected_device != i ==> is_row(
                    list[i],
                    " "@ + " "@ + decimal((i + 1) as nat) + ") RockUSB bus "@ + decimal(
                        d.bus as nat,
                    ) + " addr "@ + decimal(d.address as nat) + " ("@ + state + ")"@,
                    Color::Plain,
                    false,
                )
            }
            &&& app.sd_total_bytes is Some ==> is_row(
                list[n],
                "SD: "@ + decimal((app.sd_total_bytes->Some_0 / 1_048_576) as nat) + " MiB"@,
                Color::Plain,
                false,
            )
            &&& app.userdata_magic ==> is_row(
                list[n + sd],
                "WARNING: userdata-magic ON \u{2014} userdata will be auto-wiped on next boot."@,
                Color::Red,
                true,
            )
        }),
{
}

/// The titles of the picker and the line of the size box.
pub proof fn law_titles(app: AppView, input: Seq<char>)
    ensures
        app.selected_image matches Some(path) ==> picker_label(app) == "Image (selected: "@ + path
            + ")"@,
        app.selected_image is None ==> picker_label(app) == "Image (Enter to pick)"@,
        size_in_bytes(input) matches Ok(b) ==> size_row(input) == input + (" = "@ + decimal(
            b as nat,
        ) + " bytes ("@ + decimal((b / 512) as nat) + " sectors)"@),
        size_in_bytes(input) matches Err(e) ==> size_row(input) == input + (" (invalid: "@ + e
            + ")"@),
        DEVICES_TITLE@
            == "Devices  (Tab cycles \u{b7} q/Esc/Ctrl-C quits \u{b7} r=refresh \u{b7} 1-9=select \u{b7} b=reboot \u{b7} m=magic \u{b7} p=partition)"@,
        app.reset_after_flash ==> success_label(app) == "Flash completed and device rebooted."@,
        !app.reset_after_flash ==> success_label(app) == "Flash completed."@,
{
}

/// The percentage of a progress bar is rounded down, and never above 100; an empty bar is at 0.
pub proof fn law_percent(p: ProgressView)
    ensures
        p.total == 0 ==> percent(p) == 0,
        p.total > 0 && p.cur >= p.total ==> percent(p) == 100,
        p.cur < p.total ==> percent(p) * p.total <= p.cur * 100 < (percent(p) + 1) * p.total,
        progress_row(p) == "["@ + padded_left(decimal(percent(p)), 3) + "%] "@ + p.msg + ": "@
            + decimal(p.cur as nat) + "/"@ + decimal(p.total as nat),
{
    if p.total > 0 {
        let n = p.cur * 100;
        let t = p.total as int;
        let q = n / t;
        assert(q * t <= n < (q + 1) * t) by (nonlinear_arith)
            requires
                t > 0,
                q == n / t,
        ;
        if p.cur >= p.total {
            assert(q >= 100) by (nonlinear_arith)
                requires
                    n < (q + 1) * t,
                    n >= 100 * t,
                    t > 0,
            ;
        } else {
            assert(q < 100) by (nonlinear_arith)
                requires
                    q * t <= n,
                    n < 100 * t,
                    t > 0,
            ;
        }
    }
}

/// The log shows the progress bar, if there is one, and behind it the last 20 messages, the
/// newest last.
pub proof fn law_log_lines(app: AppView, i: int)
    ensures
        ({
            let list = log_list(app);
            let bar = if app.progress is Some {
                1int
            } else {
                0
            };
            let shown = if app.log.len() > 20 {
                20int
            } else {
                app.log.len() as int
            };
            &&& list.len() == bar + shown
            &&& app.progress is Some ==> is_row(
                list[0],
                progress_row(app.progress->Some_0),
                Color::Plain,
                false,
            )
            &&& 1 <= i <= shown ==> is_row(
                list[list.len() - i],
                app.log[app.log.len() - i],
                Color::Plain,
                false,
            )
        }),
{
}

/// A text without a line feed is one line, or none if it is empty. In front of a line feed stands
/// the first line, without the carriage return at its end.
pub proof fn law_text_lines(line: Seq<char>, rest: Seq<char>)
    requires
        !line.contains('\n'),
    ensures
        line.len() == 0 ==> text_lines(line).len() == 0,
        line.len() > 0 ==> text_lines(line) == seq![line],
        text_lines(line + seq!['\r', '\n'] + rest) == seq![line] + text_lines(rest),
        line.len() == 0 || line.last() != '\r' ==> text_lines(line + seq!['\n'] + rest) == seq![
            line,
        ] + text_lines(rest),
{
    assert forall|j: int| 0 <= j < line.len() implies #[trigger] line[j] != '\n' by {
        assert(line.contains(line[j]));
    }
    lemma_first_index_none(line, '\n');
    let n = line.len() as int;
    let a = line + seq!['\n'] + rest;
    assert forall|j: int| 0 <= j < n implies #[trigger] a[j] != '\n' by {
        assert(a[j] == line[j]);
    }
    lemma_first_index_is(a, '\n', n);
    assert(a.take(n) =~= line);
    assert(a.skip(n + 1) =~= rest);
    let b = line + seq!['\r', '\n'] + rest;
    assert forall|j: int| 0 <= j < n + 1 implies #[trigger] b[j] != '\n' by {
        if j < n {
            assert(b[j] == line[j]);
        }
    }
    lemma_first_index_is(b, '\n', n + 1);
    assert(b.take(n + 1) =~= line.push('\r'));
    assert(line.push('\r').drop_last() =~= line);
    assert(b.skip(n + 2) =~= rest);
}

/// The widest line is one of the lines, and none is wider.
pub proof fn law_widest(lines: Seq<Seq<char>>)
    ensures
        lines.len() == 0 <==> widest(lines) is None,
        widest(lines) matches Some(w) ==> {
            &&& forall|i: int| 0 <= i < lines.len() ==> byte_width(#[trigger] lines[i]) <= w
            &&& exists|i: int| 0 <= i < lines.len() && byte_width(#[trigger] lines[i]) == w
        },
    decreases lines.len(),
{
    if lines.len() > 0 {
        let front = lines.drop_last();
        law_widest(front);
        let w = widest(lines)->Some_0;
        let n = lines.len() - 1;
        assert forall|i: int| 0 <= i < lines.len() implies byte_width(#[trigger] lines[i]) <= w by {
            if i < n {
                assert(lines[i] == front[i]);
            }
        }
        if front.len() > 0 && byte_width(lines[n]) < w {
            let i = choose|i: int|
                0 <= i < front.len() && byte_width(#[trigger] front[i]) == widest(front)->Some_0;
            assert(lines[i] == front[i]);
            assert(byte_width(lines[i]) == w);
        } else {
            assert(byte_width(lines[n]) == w);
        }
    }
}

/// A count in sixteen bits is what is left of it by 65536.
proof fn lemma_sixteen_bits(n: usize)
    ensures
        (n as u16) == n % 65536,
{
    assert((n as u16) == n % 65536) by (bit_vector);
}

/// The error overlay has a row for every line and four more, and six columns more than the
/// widest line has bytes, or 46 without one; both are counted in sixteen bits, and held against
/// the screen.
pub proof fn law_error_size(msg: Seq<char>, line: Seq<char>, n: int, low: int, high: int)
    requires
        encode_utf8(line).len() <= usize::MAX,
        text_lines(msg).len() <= usize::MAX,
    ensures
        byte_width(line) == encode_utf8(line).len() % 65536,
        error_height(msg) == text_lines(msg).len() % 65536 + 4,
        widest(text_lines(msg)) is None ==> error_width(msg) == 46,
        widest(text_lines(msg)) matches Some(w) ==> error_width(msg) == (if w + 6 > 65535 {
            65535
        } else {
            w + 6
        }),
        low <= n <= high ==> clamped(n, low, high) == n,
        n < low <= high ==> clamped(n, low, high) == low,
        low <= high < n ==> clamped(n, low, high) == high,
{
    lemma_sixteen_bits(encode_utf8(line).len() as usize);
    lemma_sixteen_bits(text_lines(msg).len() as usize);
}

/// The frame of the device list has a row for each of its lines, the devices counted in sixteen
/// bits.
pub proof fn law_device_rows(app: AppView)
    requires
        app.devices.len() <= usize::MAX,
    ensures
        ({
            let sd = if app.sd_total_bytes is Some {
                1int
            } else {
                0
            };
            let magic = if app.userdata_magic {
                1int
            } else {
                0
            };
            let n = (device_line_number(app) as nat) % 65536 + sd + magic;
            line_count(app) == (if n == 0 {
                1
            } else {
                n
            })
        }),
{
    lemma_sixteen_bits(app.devices.len() as usize);
}

/// The error overlay shows the lines of the error in red, and how to close it.
pub proof fn law_error_lines(msg: Seq<char>, i: int)
    ensures
        ({
            let list = error_list(msg);
            let n = text_lines(msg).len() as int;
            &&& list.len() == n + 2
            &&& 0 <= i < n ==> is_row(list[i], text_lines(msg)[i], Color::Red, false)
            &&& is_row(list[n], ""@, Color::Plain, false)
            &&& is_row(list[n + 1], "press any key to dismiss"@, Color::DarkGray, false)
        }),
{
}

/// A size in whole MiB, with the unit.
pub open spec fn mib(n: int) -> Seq<char> {
    decimal((n / 1_048_576) as nat) + " MiB"@
}

#[verifier::rlimit(40)]
proof fn lemma_request(app: AppView, pc: PendingConfirmView, len: Option<u64>)
    ensures
        ({
            let list = request_rows(app, pc, len);
            let cfg = pc.cfg;
            let known = if len is Some {
                1int
            } else {
                0
            };
            let sd = if app.sd_total_bytes is Some {
                2int
            } else {
                0
            };
            let dev = if app.selected_device < app.devices.len() {
                1int
            } else {
                0
            };
            let t = 3 + known;
            let d = t + 3 + sd;
            let r = d + dev;
            let target = if cfg.target_partition == Partition::RootfsA {
                "rootfs_a"@
            } else if cfg.target_partition == Partition::RootfsB {
                "rootfs_b"@
            } else {
                "both"@
            };
            let active = app.sd_existing is Some && app.sd_existing->Some_0.active == Some(
                cfg.target_partition,
            );
            let total = app.sd_total_bytes->Some_0;
            let left = total - 2 * cfg.rootfs_size_bytes - 4_194_304;
            let device = app.devices[app.selected_device as int];
            &&& list.len() == r + 2
            &&& is_row(list[0], "Confirm flash"@, Color::Yellow, true)
            &&& is_row(list[1], ""@, Color::Plain, false)
            &&& is_named_row(list[2], "image"@, cfg.image, Color::Plain, false)
            &&& len is Some ==> is_named_row(
                list[3],
                "image size"@,
                decimal((len->Some_0 / 1_048_576) as nat) + " MiB ("@ + decimal(
                    len->Some_0 as nat,
                ) + " bytes)"@,
                Color::Plain,
                false,
            )
            &&& active ==> is_named_row(
                list[t],
                "target partition"@,
                target + " (active)"@,
                Color::Green,
                true,
            )
            &&& !active ==> is_named_row(
                list[t],
                "target partition"@,
                target,
                Color::Plain,
                false,
            )
            &&& is_named_row(
                list[t + 1],
                "rootfs A size"@,
                mib(cfg.rootfs_size_bytes as int),
                Color::Plain,
                false,
            )
            &&& is_named_row(
                list[t + 2],
                "rootfs B size"@,
                mib(cfg.rootfs_size_bytes as int),
                Color::Plain,
                false,
            )
            &&& app.sd_total_bytes is Some ==> is_named_row(
                list[t + 3],
                "userdata (approx)"@,
                mib(
                    if left < 0 {
                        0
                    } else {
                        left
                    },
                ),
                Color::Plain,
                false,
            )
            &&& app.sd_total_bytes is Some ==> is_named_row(
                list[t + 4],
                "SD total"@,
                mib(total as int),
                Color::Plain,
                false,
            )
            &&& app.selected_device < app.devices.len() ==> is_named_row(
                list[d],
                "device"@,
                "RockUSB bus "@ + decimal(device.bus as nat) + " addr "@ + decimal(
                    device.address as nat,
                ),
                Color::Plain,
                false,
            )
            &&& is_named_row(
                list[r],
                "reboot-after-flash"@,
                if cfg.reset_after_flash {
                    "ON"@
                } else {
                    "off"@
                },
                Color::Plain,
                false,
            )
            &&& cfg.userdata_magic ==> is_named_row(
                list[r + 1],
                "userdata-magic"@,
                if pc.magic_auto {
                    "ON (GPT Layout Change)"@
                } else {
                    "ON"@
                },
                Color::Yellow,
                true,
            )
            &&& !cfg.userdata_magic ==> is_named_row(
                list[r + 1],
                "userdata-magic"@,
                "off"@,
                Color::Plain,
                false,
            )
        }),
{
    if len is Some {
        if app.sd_total_bytes is Some {
            if app.selected_device < app.devices.len() {
            } else {
            }
        } else {
            if app.selected_device < app.devices.len() {
            } else {
            }
        }
    } else {
        if app.sd_total_bytes is Some {
            if app.selected_device < app.devices.len() {
            } else {
            }
        } else {
            if app.selected_device < app.devices.len() {
            } else {
            }
        }
    }
}

proof fn lemma_request_first(app: AppView, pc: PendingConfirmView, len: Option<u64>)
    ensures
        ({
            let list = confirm_list(app, pc, len);
            let first = request_rows(app, pc, len);
            &&& list.len() >= first.len()
            &&& forall|i: int| 0 <= i < first.len() ==> #[trigger] list[i] == first[i]
        }),
{
}

/// The dialog shows the request that it holds: the image and its length, the slots, the size of
/// each, what is left, the device, the reset and the markers.
pub proof fn law_dialog_shows_the_request(app: AppView, pc: PendingConfirmView, len: Option<u64>)
    ensures
        ({
            let list = confirm_list(app, pc, len);
            let cfg = pc.cfg;
            let known = if len is Some {
                1int
            } else {
                0
            };
            let sd = if app.sd_total_bytes is Some {
                2int
            } else {
                0
            };
            let dev = if app.selected_device < app.devices.len() {
                1int
            } else {
                0
            };
            let t = 3 + known;
            let d = t + 3 + sd;
            let r = d + dev;
            let target = if cfg.target_partition == Partition::RootfsA {
                "rootfs_a"@
            } else if cfg.target_partition == Partition::RootfsB {
                "rootfs_b"@
            } else {
                "both"@
            };
            let active = app.sd_existing is Some && app.sd_existing->Some_0.active == Some(
                cfg.target_partition,
            );
            let total = app.sd_total_bytes->Some_0;
            let left = total - 2 * cfg.rootfs_size_bytes - 4_194_304;
            let device = app.devices[app.selected_device as int];
            &&& is_row(list[0], "Confirm flash"@, Color::Yellow, true)
            &&& is_row(list[1], ""@, Color::Plain, false)
            &&& is_named_row(list[2], "image"@, cfg.image, Color::Plain, false)
            &&& len is Some ==> is_named_row(
                list[3],
                "image size"@,
                decimal((len->Some_0 / 1_048_576) as nat) + " MiB ("@ + decimal(
                    len->Some_0 as nat,
                ) + " bytes)"@,
                Color::Plain,
                false,
            )
            &&& active ==> is_named_row(
                list[t],
                "target partition"@,
                target + " (active)"@,
                Color::Green,
                true,
            )
            &&& !active ==> is_named_row(
                list[t],
                "target partition"@,
                target,
                Color::Plain,
                false,
            )
            &&& is_named_row(
                list[t + 1],
                "rootfs A size"@,
                mib(cfg.rootfs_size_bytes as int),
                Color::Plain,
                false,
            )
            &&& is_named_row(
                list[t + 2],
                "rootfs B size"@,
                mib(cfg.rootfs_size_bytes as int),
                Color::Plain,
                false,
            )
            &&& app.sd_total_bytes is Some ==> is_named_row(
                list[t + 3],
                "userdata (approx)"@,
                mib(
                    if left < 0 {
                        0
                    } else {
                        left
                    },
                ),
                Color::Plain,
                false,
            )
            &&& app.sd_total_bytes is Some ==> is_named_row(
                list[t + 4],
                "SD total"@,
                mib(total as int),
                Color::Plain,
                false,
            )
            &&& app.selected_device < app.devices.len() ==> is_named_row(
                list[d],
                "device"@,
                "RockUSB bus "@ + decimal(device.bus as nat) + " addr "@ + decimal(
                    device.address as nat,
                ),
                Color::Plain,
                false,
            )
            &&& is_named_row(
                list[r],
                "reboot-after-flash"@,
                if cfg.reset_after_flash {
                    "ON"@
                } else {
                    "off"@
                },
                Color::Plain,
                false,
            )
            &&& cfg.userdata_magic ==> is_named_row(
                list[r + 1],
                "userdata-magic"@,
                if pc.magic_auto {
                    "ON (GPT Layout Change)"@
                } else {
                    "ON"@
                },
                Color::Yellow,
                true,
            )
            &&& !cfg.userdata_magic ==> is_named_row(
                list[r + 1],
                "userdata-magic"@,
                "off"@,
                Color::Plain,
                false,
            )
        }),
{
    lemma_request(app, pc, len);
    lemma_request_first(app, pc, len);
}

#[verifier::rlimit(40)]
proof fn lemma_dialog_end(app: AppView, pc: PendingConfirmView, len: Option<u64>)
    ensures
        ({
            let list = confirm_list(app, pc, len);
            let cfg = pc.cfg;
            let wipe = if cfg.userdata_magic {
                1int
            } else {
                0
            };
            let r = request_rows(app, pc, len).len() - 2;
            &&& list.len() == r + 6 + wipe
            &&& is_row(list[r + 2], ""@, Color::Plain, false)
            &&& !pc.layout_matches ==> is_row(
                list[r + 3],
                "WARNING: this erases the entire SD card."@,
                Color::Red,
                true,
            )
            &&& pc.layout_matches && cfg.target_partition == Partition::RootfsA ==> is_row(
                list[r + 3],
                "Existing GPT matches: only rootfs_a will be erased + rewritten; rootfs_b and userdata preserved."@,
                Color::Green,
                false,
            )
            &&& pc.layout_matches && cfg.target_partition == Partition::RootfsB ==> is_row(
                list[r + 3],
                "Existing GPT matches: only rootfs_b will be erased + rewritten; rootfs_a and userdata preserved."@,
                Color::Green,
                false,
            )
            &&& pc.layout_matches && cfg.target_partition == Partition::Both ==> is_row(
                list[r + 3],
                "Existing GPT matches: rootfs_a and rootfs_b will be erased + rewritten; userdata preserved."@,
                Color::Green,
                false,
            )
            &&& cfg.userdata_magic ==> is_row(
                list[r + 4],
                "WARNING: userdata-magic is ON \u{2014} userdata will be auto-wiped on next boot."@,
                Color::Red,
                true,
            )
            &&& is_row(list[r + 4 + wipe], ""@, Color::Plain, false)
            &&& is_row(
                list[r + 5 + wipe],
                "[y/Enter] confirm  [n/Esc] cancel  [p] target  [b] reboot  [m] magic"@,
                Color::DarkGray,
                false,
            )
        }),
{
}

/// Behind the request the dialog tells what becomes of the card, and the keys.
pub proof fn law_dialog_lines(app: AppView, pc: PendingConfirmView, len: Option<u64>)
    ensures
        ({
            let list = confirm_list(app, pc, len);
            let cfg = pc.cfg;
            let known = if len is Some {
                1int
            } else {
                0
            };
            let sd = if app.sd_total_bytes is Some {
                2int
            } else {
                0
            };
            let dev = if app.selected_device < app.devices.len() {
                1int
            } else {
                0
            };
            let wipe = if cfg.userdata_magic {
                1int
            } else {
                0
            };
            let r = 6 + known + sd + dev;
            &&& list.len() == r + 6 + wipe
            &&& is_row(list[r + 2], ""@, Color::Plain, false)
            &&& !pc.layout_matches ==> is_row(
                list[r + 3],
                "WARNING: this erases the entire SD card."@,
                Color::Red,
                true,
            )
            &&& pc.layout_matches && cfg.target_partition == Partition::RootfsA ==> is_row(
                list[r + 3],
                "Existing GPT matches: only rootfs_a will be erased + rewritten; rootfs_b and userdata preserved."@,
                Color::Green,
                false,
            )
            &&& pc.layout_matches && cfg.target_partition == Partition::RootfsB ==> is_row(
                list[r + 3],
                "Existing GPT matches: only rootfs_b will be erased + rewritten; rootfs_a and userdata preserved."@,
                Color::Green,
                false,
            )
            &&& pc.layout_matches && cfg.target_partition == Partition::Both ==> is_row(
                list[r + 3],
                "Existing GPT matches: rootfs_a and rootfs_b will be erased + rewritten; userdata preserved."@,
                Color::Green,
                false,
            )
            &&& cfg.userdata_magic ==> is_row(
                list[r + 4],
                "WARNING: userdata-magic is ON \u{2014} userdata will be auto-wiped on next boot."@,
                Color::Red,
                true,
            )
            &&& is_row(list[r + 4 + wipe], ""@, Color::Plain, false)
            &&& is_row(
                list[r + 5 + wipe],
                "[y/Enter] confirm  [n/Esc] cancel  [p] target  [b] reboot  [m] magic"@,
                Color::DarkGray,
                false,
            )
        }),
{
    lemma_request(app, pc, len);
    lemma_dialog_end(app, pc, len);
}

/// The columns of a line are those of its pieces together, and those of the dialog are the ones
/// of each line.
pub proof fn law_columns(
    line: Seq<SpanView>,
    s: SpanView,
    lines: Seq<Seq<SpanView>>,
    v: Seq<usize>,
    i: int,
)
    ensures
        line_columns(Seq::empty()) == 0,
        line_columns(line) + columns(s.text) <= usize::MAX ==> line_columns(line.push(s))
            == line_columns(line) + columns(s.text),
        line_columns(line) + columns(s.text) > usize::MAX ==> line_columns(line.push(s))
            == usize::MAX,
        all_columns(lines).len() == lines.len(),
        0 <= i < lines.len() ==> all_columns(lines)[i] == line_columns(lines[i]),
        as_ints(v).len() == v.len(),
        0 <= i < v.len() ==> as_ints(v)[i] == v[i],
{
    assert(line.push(s).drop_last() =~= line);
}

/// A line takes as many rows as its columns need, one at least. The rows of the lines, each
/// counted in sixteen bits, add up, to 65535 at most.
pub proof fn law_rows(n: int, inner: int, before: Seq<int>)
    requires
        inner > 0,
        0 <= n <= usize::MAX,
    ensures
        rows_of(n, inner) >= 1,
        n <= 1 ==> rows_of(n, inner) == 1,
        n > 1 ==> (rows_of(n, inner) - 1) * inner < n <= rows_of(n, inner) * inner,
        rows_needed(Seq::empty(), inner) == 0,
        rows_needed(before.push(n), inner) == (if rows_needed(before, inner) + rows_of(n, inner)
            % 65536 > 65535 {
            65535
        } else {
            rows_needed(before, inner) + rows_of(n, inner) % 65536
        }),
{
    let m = if n < 1 {
        1
    } else {
        n
    };
    let q = (m + inner - 1) / inner;
    assert(q * inner <= m + inner - 1 < (q + 1) * inner) by (nonlinear_arith)
        requires
            inner > 0,
            q == (m + inner - 1) / inner,
    ;
    assert((q - 1) * inner < m <= q * inner) by (nonlinear_arith)
        requires
            q * inner <= m + inner - 1 < (q + 1) * inner,
    ;
    assert(q >= 1) by (nonlinear_arith)
        requires
            m <= q * inner,
            m >= 1,
            inner > 0,
    ;
    if n <= 1 {
        assert(q <= 1) by (nonlinear_arith)
            requires
                (q - 1) * inner < m,
                m == 1,
                inner > 0,
        ;
    }
    assert(before.push(n).drop_last() =~= before);
    assert(q <= m) by (nonlinear_arith)
        requires
            (q - 1) * inner < m,
            m >= 1,
            inner > 0,
    ;
    lemma_sixteen_bits(q as usize);
}

/// A part in the middle has half of the room that it leaves before it, rounded down; it has a
/// place if that is a number of 16 bits.
pub proof fn law_middle(area: Rect, w: int, h: int)
    ensures
        ({
            let width = if w < area.width {
                w
            } else {
                area.width as int
            };
            let height = if h < area.height {
                h
            } else {
                area.height as int
            };
            let x = area.x + (area.width - width) / 2;
            let y = area.y + (area.height - height) / 2;
            &&& has_place(area, w, h) <==> x <= 65535 && y <= 65535
            &&& 0 <= w && 0 <= h && x <= 65535 && y <= 65535 ==> {
                &&& centered(area, w, h).x == x
                &&& centered(area, w, h).y == y
                &&& centered(area, w, h).width == width
                &&& centered(area, w, h).height == height
            }
        }),
{
}

/// The dialog is 80 columns wide, or four less than the screen, but 40 at least; it is two rows
/// higher than its lines, or two less than the screen. It stands in the middle, if that place has
/// coordinates of 16 bits.
pub proof fn law_dialog_place(c: Seq<int>, area: Rect)
    ensures
        area.width >= 84 ==> confirm_width(area) == 80,
        44 <= area.width < 84 ==> confirm_width(area) == area.width - 4,
        area.width < 44 ==> confirm_width(area) == 40,
        ({
            let need = rows_needed(c, confirm_width(area) - 2) + 2;
            let h = confirm_height(c, area);
            &&& need + 2 <= area.height ==> h == need
            &&& need + 2 > area.height >= 2 ==> h == area.height - 2
            &&& area.height < 2 && need >= 0 ==> h == 0
            &&& confirm_place(c, area) == centered(area, confirm_width(area), h)
            &&& confirm_fits(c, area) <==> need <= 65535 && has_place(
                area,
                confirm_width(area),
                h,
            )
        }),
{
}

} // verus!
