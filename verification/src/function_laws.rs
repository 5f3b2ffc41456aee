//! What each function returns, or leaves behind, of what it is given.

use crate::device::{
    addr_in, addr_message, at_message, capacity, device_at, find_at, open_at, open_single,
    parse_addr, parse_device_addr, probe_with, single, single_message, AddrError, Capacity,
    DeviceAddr, DeviceSummary, OpenError, SdProbe, Storage,
};
use crate::device;
use crate::flash::{
    align_up, existing_layout, existing_layout_info, expected_layout, layout_on, max_rootfs_bytes,
    read_existing_layout, read_existing_layout_info, rootfs_slots_present, round_up_mib,
    size_in_bytes, Config, GptSlots, Layout, LayoutError, LayoutInfo, Partition,
};
use crate::flash;
use crate::flash_laws::law_entry_flags;
use crate::gpt::GptEntry;
use crate::mtdparts::{parsed, MtdError};
use crate::mtdparts;
use crate::plan::{
    card_layout, card_layout_of, card_note, check_image, check_request, chunk_erase, done_text,
    erase_chunks, erase_in_chunks, mib_text_up, mib_up, reset_warning, CardCheck, EraseChunk,
    FlashError, NewEntry, Note, PartName, Task, USERDATA_MAGIC,
};
use crate::rkfw;
use crate::search::{no_env_text, pending_after, Dir, EnvSearch};
use crate::switch_laws::are_the_slots;
use crate::switch_rootfs::{
    no_table_text, parse_partition, partition_in, storage_refusal, Active, Switch, SwitchError,
};
use crate::text::{
    decimal, hexadecimal, is_white_space, lemma_first_index, lowered, padded_left, padded_right,
    pieces, trimmed, unsigned_value,
};
use crate::text;
use crate::uboot::{
    candidate_names, check_flash, erase_mode, job_line, job_text, job_views, jobs_at, jobs_for,
    mode_for, mtdparts_from, mtdparts_in, mtdparts_of, order_jobs, range_message, size_line,
    skip_text, sort_jobs, BuiltJobs, EnvImageError, EraseMode, Job, JobError, PartFile, RangeError,
};
use crate::uboot;
use crate::uboot_env::{crc32_of, env_with_crc, lookup, EnvError, UbootEnv};
use crate::uboot_env;
use crate::usb::{choice, choose_device, device_message, parse_device, ChoiceError};
use vstd::prelude::*;
use vstd::utf8::*;

verus! {

/// Texts are compared, trimmed, split, padded and put into small letters character by character.
pub proof fn law_text_functions(
    s: &str,
    t: &str,
    c: char,
    w: usize,
    b: bool,
    v: Vec<char>,
    trimmed_to: &str,
    parts: Vec<&str>,
    r: String,
)
    ensures
        call_ensures(text::chars_of, (s,), v) ==> v@ == s@,
        call_ensures(text::same_text, (s, t), b) ==> (b <==> s@ == t@),
        call_ensures(text::white_space, (c,), b) ==> (b <==> is_white_space(c)),
        call_ensures(text::trim, (s,), trimmed_to) ==> trimmed_to@ == trimmed(s@),
        call_ensures(text::split, (s, c), parts) ==> parts@.len() == pieces(s@, c).len() && forall|
            i: int,
        |
            0 <= i < parts@.len() ==> (#[trigger] parts@[i])@ == pieces(s@, c)[i],
        call_ensures(text::lower_text, (s,), r) ==> r@ == lowered(s@),
        call_ensures(text::pad_right, (s, w), r) ==> r@ == padded_right(s@, w as nat),
        call_ensures(text::pad_left, (s, w), r) ==> r@ == padded_left(s@, w as nat),
{
}

/// Numbers are written and read digit by digit, or byte by byte.
pub proof fn law_number_functions(
    s: &str,
    bytes: &[u8],
    at: usize,
    max: u64,
    n: u64,
    m: u32,
    w: u32,
    o: Option<u64>,
    r: String,
    x: u32,
)
    requires
        at + 4 <= bytes@.len(),
    ensures
        call_ensures(text::parse_unsigned, (s, max), o) ==> (o is None <==> unsigned_value(
            s@,
            max as nat,
        ) is None),
        call_ensures(text::parse_unsigned, (s, max), o) && o is Some ==> unsigned_value(
            s@,
            max as nat,
        ) == Some(o->Some_0 as nat),
        call_ensures(text::decimal_text, (n,), r) ==> r@ == decimal(n as nat),
        call_ensures(text::hex_text, (m, w), r) ==> r@ == hexadecimal(m as nat, w as nat),
        call_ensures(text::read_le32, (bytes, at), x) ==> x == bytes@[at as int] + bytes@[at + 1]
            * 256 + bytes@[at + 2] * 65536 + bytes@[at + 3] * 16777216,
        call_ensures(text::read_be32, (bytes, at), x) ==> x == bytes@[at + 3] + bytes@[at + 2] * 256
            + bytes@[at + 1] * 65536 + bytes@[at as int] * 16777216,
{
}

/// What is looked for is found where it first occurs.
pub proof fn law_find_functions(
    s: &Vec<char>,
    c: char,
    bytes: &[u8],
    from: usize,
    x: u8,
    r: Option<usize>,
)
    requires
        from <= bytes@.len(),
    ensures
        call_ensures(text::find_char, (s, c), r) ==> match r {
            Some(i) => i < s@.len() && s@[i as int] == c && forall|j: int|
                0 <= j < i ==> #[trigger] s@[j] != c,
            None => forall|j: int| 0 <= j < s@.len() ==> #[trigger] s@[j] != c,
        },
        call_ensures(text::find_byte, (bytes, from, x), r) ==> match r {
            Some(i) => from + i < bytes@.len() && bytes@[from + i] == x && forall|j: int|
                from <= j < from + i ==> #[trigger] bytes@[j] != x,
            None => forall|j: int| from <= j < bytes@.len() ==> #[trigger] bytes@[j] != x,
        },
{
    lemma_first_index(s@, c);
    let rest = bytes@.skip(from as int);
    lemma_first_index(rest, x);
    if call_ensures(text::find_byte, (bytes, from, x), r) {
        let end = match r {
            Some(i) => from + i,
            None => bytes@.len() as int,
        };
        assert forall|j: int| from <= j < end implies #[trigger] bytes@[j] != x by {
            assert(rest[j - from] == bytes@[j]);
        }
    }
}

/// Sizes: rounding up, the largest rootfs, the layout, and the size in a text.
pub proof fn law_size_functions(
    value: u64,
    step: u64,
    text: &str,
    r: u64,
    l: Result<Layout, LayoutError>,
    n: Result<u64, String>,
    layout: &Layout,
)
    requires
        step > 0,
        value + step <= u64::MAX,
    ensures
        call_ensures(align_up, (value, step), r) ==> value <= r < value + step && r % step == 0,
        call_ensures(round_up_mib, (value, step), r) && step * 1_048_576 <= u64::MAX - value
            ==> value <= r < value + step * 1_048_576 && r as int % (step * 1_048_576) == 0,
        call_ensures(max_rootfs_bytes, (value,), r) ==> {
            &&& value >= 4_194_304 ==> 2 * r + 4_194_304 <= value <= 2 * r + 4_194_305
            &&& value < 4_194_304 ==> r == 0
        },
        call_ensures(expected_layout, (value, step), l) ==> l == layout_on(value, step),
        call_ensures(flash::parse_size, (text,), n) ==> match n {
            Ok(b) => size_in_bytes(text@) == Ok::<u64, Seq<char>>(b),
            Err(e) => size_in_bytes(text@) == Err::<u64, Seq<char>>(e@),
        },
        call_ensures(Layout::rootfs_size_bytes, (layout,), r) && layout.a_start <= layout.a_end && (
        layout.a_end - layout.a_start + 1) * 512 <= u64::MAX ==> r == (layout.a_end - layout.a_start
            + 1) * 512,
        call_ensures(Layout::rootfs_size_bytes, (layout,), r) && layout.a_end < layout.a_start
            ==> r == 0,
{
    crate::flash_laws::law_rounding_up(value as int, step as int);
    crate::flash_laws::law_rounding_up(value as int, step * 1_048_576);
}

/// Tables: whether an entry is in use or marked, whether the slots are there, and the layout.
pub proof fn law_table_functions(
    e: &GptEntry,
    first: &GptEntry,
    second: &GptEntry,
    slots: &Option<GptSlots>,
    b: bool,
    l: Option<Layout>,
    info: Option<LayoutInfo>,
)
    ensures
        call_ensures(GptEntry::is_used, (e,), b) ==> (b <==> e.partition_type_guid@ != Seq::new(
            16,
            |i: int| 0u8,
        )),
        call_ensures(GptEntry::is_bootable, (e,), b) ==> (b <==> e.attribute_bits / 4 % 2 == 1),
        call_ensures(rootfs_slots_present, (first, second), b) ==> (b <==> are_the_slots(
            *first,
            *second,
        )),
        call_ensures(read_existing_layout, (slots,), l) ==> l == existing_layout(*slots),
        call_ensures(read_existing_layout_info, (slots,), info) ==> info == existing_layout_info(
            *slots,
        ),
{
    law_entry_flags(*e);
    law_entry_flags(*first);
    law_entry_flags(*second);
}

/// Devices are found by their place, or alone.
pub proof fn law_device_functions(
    devices: &Vec<DeviceSummary>,
    bus: u8,
    address: u8,
    wanted: Option<DeviceAddr>,
    o: Option<usize>,
    r: Result<usize, OpenError>,
    c: Result<usize, ChoiceError>,
)
    ensures
        call_ensures(find_at, (devices, bus, address), o) ==> match o {
            Some(i) => i < devices@.len() && devices@[i as int].bus == bus
                && devices@[i as int].address == address && forall|j: int|
                0 <= j < i ==> (#[trigger] devices@[j]).bus != bus || devices@[j].address
                    != address,
            None => forall|j: int|
                0 <= j < devices@.len() ==> (#[trigger] devices@[j]).bus != bus
                    || devices@[j].address != address,
        },
        call_ensures(open_at, (devices, bus, address), r) ==> r == device_at(
            devices@,
            bus,
            address,
        ),
        call_ensures(open_single, (devices,), r) ==> r == single(devices@),
        call_ensures(choose_device, (devices, wanted), c) ==> c == choice(devices@, wanted),
{
    device::lemma_first_at(devices@, bus, address);
    if call_ensures(find_at, (devices, bus, address), o) {
        let end = match o {
            Some(i) => i as int,
            None => devices@.len() as int,
        };
        assert forall|j: int| 0 <= j < end implies (#[trigger] devices@[j]).bus != bus
            || devices@[j].address != address by {
            assert(!device::is_at(devices@[j], bus, address));
        }
    }
}

/// Addresses are read, and what is wrong with them is told.
pub proof fn law_addr_functions(
    s: &str,
    r: Result<DeviceAddr, AddrError>,
    t: Result<DeviceAddr, String>,
)
    ensures
        call_ensures(parse_addr, (s,), r) ==> r == addr_in(s@),
        call_ensures(parse_device_addr, (s,), t) ==> match t {
            Ok(a) => addr_in(s@) == Ok::<DeviceAddr, AddrError>(a),
            Err(m) => addr_in(s@) is Err && m@ == addr_message(addr_in(s@)->Err_0),
        },
        call_ensures(parse_device, (s,), t) ==> match t {
            Ok(a) => addr_in(s@) == Ok::<DeviceAddr, AddrError>(a),
            Err(m) => addr_in(s@) is Err && m@ == device_message(addr_in(s@)->Err_0),
        },
{
}

/// A storage is told by its number, and its size is in the answer of the device.
pub proof fn law_storage_functions(
    storage: &Storage,
    current: u8,
    name: &str,
    info: &[u8; 11],
    slots: &Option<GptSlots>,
    n: u8,
    b: bool,
    r: String,
    c: Capacity,
    p: SdProbe,
)
    ensures
        call_ensures(Storage::index, (storage,), n) ==> n == (if *storage == Storage::Sd {
            2u8
        } else {
            9
        }),
        call_ensures(Storage::is_selected, (storage, current), b) ==> (b <==> current == (if *storage
            == Storage::Sd {
            2u8
        } else {
            9
        })),
        call_ensures(Storage::refusal, (storage, name), r) ==> r@ == storage.spec_refusal(name@),
        call_ensures(capacity, (info,), c) ==> c.sectors == info@[0] + info@[1] * 256 + info@[2]
            * 65536 + info@[3] * 16777216 && c.bytes == c.sectors * 512,
        call_ensures(probe_with, (info, slots), p) ==> {
            &&& p.total_sectors == info@[0] + info@[1] * 256 + info@[2] * 65536 + info@[3]
                * 16777216
            &&& p.total_bytes == p.total_sectors * 512
            &&& p.existing == existing_layout_info(*slots)
        },
{
}

/// Texts for devices, storages, tables and the end of a flash.
pub proof fn law_message_functions(
    open: &OpenError,
    choose: &ChoiceError,
    bus: u8,
    address: u8,
    s: &str,
    t: &str,
    b: bool,
    r: String,
    w: &'static str,
)
    ensures
        call_ensures(OpenError::message_single, (open, s, t), r) ==> r@ == single_message(
            *open,
            s@,
            t@,
        ),
        call_ensures(OpenError::message_at, (open, bus, address, s), r) ==> r@ == at_message(
            *open,
            bus,
            address,
            s@,
        ),
        call_ensures(ChoiceError::message, (choose,), w) ==> w@ == choose.spec_message(),
        call_ensures(storage_refusal, (s,), r) ==> r@ == "failed to switch storage to SD; current: "@
            + s@,
        call_ensures(no_table_text, (s,), r) ==> r@ == "no readable GPT on the SD card: "@ + s@,
        call_ensures(no_env_text, (s,), r) ==> r@ == "no env.img found under "@ + s@
            + " (searched 4 levels deep)"@,
        call_ensures(done_text, (b,), w) ==> (b ==> w@ == "Done. Device reset."@) && (!b ==> w@
            == "Done."@),
        call_ensures(reset_warning, (s,), r) ==> r@ == "Reset returned "@ + s@
            + " (often expected \u{2014} USB disconnects mid-call)"@,
{
}

/// The texts of a flash tell its numbers.
pub proof fn law_flash_texts(
    n: u64,
    m: u64,
    k: u64,
    sectors: u32,
    i: u32,
    name: PartName,
    slot: PartName,
    image: Seq<char>,
)
    ensures
        PartName::RootfsA.spec_text() == "rootfs_a"@,
        PartName::RootfsB.spec_text() == "rootfs_b"@,
        PartName::Userdata.spec_text() == "userdata"@,
        LayoutError::DiskTooSmall.spec_message() == "disk too small for a GPT"@,
        LayoutError::NoRoomForUserdata.spec_message()
            == "no room for userdata after rootfs_a + rootfs_b"@,
        FlashError::ZeroRootfs.spec_message() == "rootfs size must be > 0"@,
        FlashError::UnalignedRootfs.spec_message()
            == "rootfs size must be a multiple of 512 bytes"@,
        (FlashError::ImageTooLarge { image: n, rootfs: m }).spec_message() == "image is "@ + decimal(
            (n / 1_048_576) as nat,
        ) + " MiB ("@ + decimal(n as nat) + " bytes) but rootfs partition is "@ + decimal(
            (m / 1_048_576) as nat,
        ) + " MiB ("@ + decimal(m as nat) + " bytes); pick --rootfs-size >= "@ + mib_text_up(
            n as int,
        ) + " MiB"@,
        FlashError::NoSectors.spec_message() == "SD card reports 0 sectors"@,
        (FlashError::RootfsTooLarge { rootfs: n, max: m }).spec_message() == "rootfs size "@
            + decimal((n / 1_048_576) as nat) + " MiB > "@ + decimal((m / 1_048_576) as nat)
            + " MiB (half of SD minus GPT overhead). Pick --rootfs-size <= "@ + decimal(
            (m / 1_048_576) as nat,
        ) + " MiB or use a larger card."@,
        Note::SwitchToSd.spec_text(image) == "Switching storage to SD..."@,
        (Note::CardSize { bytes: n, sectors }).spec_text(image) == "SD card: "@ + decimal(
            (n / 1_048_576) as nat,
        ) + " MiB ("@ + decimal(sectors as nat) + " sectors)"@,
        (Note::KeepLayout { target: Partition::RootfsA }).spec_text(image)
            == "Existing GPT matches; preserving rootfs_b and userdata, refreshing rootfs_a only."@,
        (Note::KeepLayout { target: Partition::RootfsB }).spec_text(image)
            == "Existing GPT matches; preserving rootfs_a and userdata, refreshing rootfs_b only."@,
        (Note::KeepLayout { target: Partition::Both }).spec_text(image)
            == "Existing GPT matches; preserving userdata, refreshing rootfs_a and rootfs_b."@,
        (Note::EraseCard { sectors }).spec_text(image) == "Erasing whole card ("@ + decimal(
            sectors as nat,
        ) + " sectors)..."@,
        Note::GenerateTable.spec_text(image)
            == "Generating GPT (rootfs_a / rootfs_b / userdata)..."@,
        Note::WriteTable.spec_text(image) == "Writing protective MBR + primary/backup GPT..."@,
        (Note::PartitionLine { index: i, name, mib: n, first: m, last: k }).spec_text(image)
            == "  partition "@ + decimal(i as nat) + ": "@ + name.spec_text() + " "@ + decimal(
            n as nat,
        ) + " MiB (LBA "@ + decimal(m as nat) + "..="@ + decimal(k as nat) + ")"@,
        (Note::WriteImage { slot, lba: n }).spec_text(image) == "Writing image "@ + image + " -> "@
            + slot.spec_text() + " (LBA "@ + decimal(n as nat) + ")..."@,
        Note::WriteMarkers.spec_text(image)
            == "Writing userdata magic markers (bootloader will auto-wipe userdata on next boot)..."@,
        Note::Reset.spec_text(image) == "Resetting device..."@,
        Task::EraseCard.spec_text() == "Erasing card..."@,
        (Task::EraseSlot { slot }).spec_text() == "Erasing "@ + slot.spec_text() + "..."@,
        Task::WriteImage.spec_text() == "Writing image..."@,
        USERDATA_MAGIC@ == "LEAFKVMUSERDATAMAGIC"@,
{
}

/// The functions that give these texts.
pub proof fn law_flash_text_functions(
    part: &PartName,
    choice_of: &Partition,
    le: &LayoutError,
    fe: &FlashError,
    note: &Note,
    task: &Task,
    image: &str,
    n: u64,
    entry: &NewEntry,
    r: String,
    w: &'static str,
    g: [u8; 16],
)
    ensures
        call_ensures(PartName::text, (part,), w) ==> w@ == part.spec_text(),
        call_ensures(Partition::name, (choice_of,), w) ==> w@ == choice_of.spec_name(),
        call_ensures(LayoutError::message, (le,), r) ==> r@ == le.spec_message(),
        call_ensures(FlashError::message, (fe,), r) ==> r@ == fe.spec_message(),
        call_ensures(Note::text, (note, image), r) ==> r@ == note.spec_text(image@),
        call_ensures(Task::text, (task,), r) ==> r@ == task.spec_text(),
        call_ensures(mib_up, (n,), r) ==> r@ == decimal(((n + 1_048_575) / 1_048_576) as nat),
        call_ensures(NewEntry::type_guid, (entry,), g) ==> g@ == crate::gpt::linux_fs_guid(),
{
    crate::flash_laws::law_mib_texts(n as int);
}

/// The checks of a flash, and the erase commands.
pub proof fn law_plan_functions(
    cfg: &Config,
    image_len: u64,
    card: Capacity,
    first: u32,
    count: u32,
    max: u32,
    u: Result<(), FlashError>,
    c: CardCheck,
    v: Vec<EraseChunk>,
    l: &Layout,
    n: u64,
)
    requires
        0 < max <= u16::MAX,
    ensures
        call_ensures(check_request, (cfg,), u) ==> match u {
            Ok(_) => cfg.rootfs_size_bytes > 0 && cfg.rootfs_size_bytes % 512 == 0,
            Err(e) => if cfg.rootfs_size_bytes == 0 {
                e == FlashError::ZeroRootfs
            } else {
                cfg.rootfs_size_bytes % 512 != 0 && e == FlashError::UnalignedRootfs
            },
        },
        call_ensures(check_image, (cfg, image_len), u) ==> match u {
            Ok(_) => image_len <= cfg.rootfs_size_bytes,
            Err(e) => image_len > cfg.rootfs_size_bytes && e == (FlashError::ImageTooLarge {
                image: image_len,
                rootfs: cfg.rootfs_size_bytes,
            }),
        },
        call_ensures(card_layout, (cfg, card), c) ==> c.note == card_note(card) && c.layout
            == card_layout_of(cfg@, card),
        call_ensures(erase_in_chunks, (first, count, max), v) ==> v@ == erase_chunks(
            first as nat,
            count as nat,
            max as nat,
        ),
        call_ensures(chunk_erase, (first, count), v) ==> v@ == erase_chunks(
            first as nat,
            count as nat,
            32_768,
        ),
        call_ensures(Layout::start, (l, PartName::RootfsA), n) ==> n == l.a_start,
        call_ensures(Layout::start, (l, PartName::RootfsB), n) ==> n == l.b_start,
        call_ensures(Layout::start, (l, PartName::Userdata), n) ==> n == l.user_start,
        call_ensures(Layout::end, (l, PartName::RootfsA), n) ==> n == l.a_end,
        call_ensures(Layout::end, (l, PartName::RootfsB), n) ==> n == l.b_end,
        call_ensures(Layout::end, (l, PartName::Userdata), n) ==> n == l.user_end,
{
}

/// The texts and the names of a switch.
pub proof fn law_switch_functions(
    s: &str,
    active: &Active,
    e: &SwitchError,
    sw: &Switch,
    p: Result<Partition, String>,
    w: &'static str,
    o: Option<&'static str>,
    r: String,
)
    ensures
        call_ensures(parse_partition, (s,), p) ==> match p {
            Ok(x) => partition_in(s@) == Ok::<Partition, Seq<char>>(x),
            Err(m) => partition_in(s@) == Err::<Partition, Seq<char>>(m@),
        },
        call_ensures(Active::label, (active,), w) ==> w@ == (match *active {
            Active::RootfsA => "rootfs_a"@,
            Active::RootfsB => "rootfs_b"@,
            Active::Both => "both"@,
            Active::Neither => "neither"@,
        }),
        call_ensures(SwitchError::message, (e,), w) ==> w@ == e.spec_message(),
        call_ensures(Switch::warning, (sw,), o) ==> match o {
            Some(m) => sw.spec_warning() == Some(m@),
            None => sw.spec_warning() is None,
        },
        call_ensures(Switch::announcement, (sw,), r) ==> r@ == sw.spec_announcement(),
        call_ensures(Switch::nothing_text, (sw,), r) ==> r@ == sw.spec_nothing_text(),
        call_ensures(Switch::done_text, (sw,), r) ==> r@ == sw.spec_done_text(),
{
}

/// Partition lists, environments and update images are read as they are written.
pub proof fn law_reading_functions(
    s: &str,
    bytes: &[u8],
    computed: u32,
    me: &MtdError<String>,
    m: Result<u64, MtdError<String>>,
    l: Result<Vec<mtdparts::Partition>, MtdError<String>>,
    e: Result<UbootEnv, EnvError>,
    env: &UbootEnv,
    o: Option<&str>,
    ee: &EnvError,
    r: String,
)
    ensures
        call_ensures(mtdparts::parse_size, (s,), m) ==> match m {
            Ok(n) => mtdparts::size_of(s@) == Ok::<u64, MtdError<Seq<char>>>(n),
            Err(x) => mtdparts::size_of(s@) == Err::<u64, MtdError<Seq<char>>>(x@),
        },
        call_ensures(mtdparts::parse, (s,), l) ==> match l {
            Ok(v) => parsed(s@) == Ok::<Seq<mtdparts::PartitionView>, MtdError<Seq<char>>>(
                mtdparts::views(v@),
            ),
            Err(x) => parsed(s@) == Err::<Seq<mtdparts::PartitionView>, MtdError<Seq<char>>>(x@),
        },
        call_ensures(MtdError::<String>::message, (me,), r) ==> r@ == mtdparts::message_of(me@),
        call_ensures(uboot_env::parse_with_crc, (bytes, computed), e) ==> match e {
            Ok(x) => env_with_crc(bytes@, computed) == Ok::<Seq<(Seq<char>, Seq<char>)>, EnvError>(
                x@,
            ),
            Err(x) => env_with_crc(bytes@, computed) == Err::<
                Seq<(Seq<char>, Seq<char>)>,
                EnvError,
            >(x),
        },
        call_ensures(uboot_env::parse, (bytes,), e) ==> match e {
            Ok(x) => env_with_crc(bytes@, crc32_of(bytes@.skip(4))) == Ok::<
                Seq<(Seq<char>, Seq<char>)>,
                EnvError,
            >(x@),
            Err(x) => env_with_crc(bytes@, crc32_of(bytes@.skip(4))) == Err::<
                Seq<(Seq<char>, Seq<char>)>,
                EnvError,
            >(x),
        },
        call_ensures(UbootEnv::get, (env, s), o) ==> match o {
            Some(v) => lookup(env@, s@) == Some(v@),
            None => lookup(env@, s@) is None,
        },
        call_ensures(EnvError::message, (ee,), r) ==> r@ == ee.spec_message(),
{
}

/// Update images are read as they are written.
pub proof fn law_package_functions<'a>(
    bytes: &'a [u8],
    e: &rkfw::RkfwError<String>,
    p: Result<rkfw::Package<'a>, rkfw::RkfwError<String>>,
    r: String,
)
    ensures
        call_ensures(rkfw::parse, (bytes,), p) ==> match p {
            Ok(x) => rkfw::package_in(bytes@) == Ok::<
                rkfw::PackageView,
                rkfw::RkfwError<Seq<char>>,
            >(x@),
            Err(x) => rkfw::package_in(bytes@) == Err::<
                rkfw::PackageView,
                rkfw::RkfwError<Seq<char>>,
            >(x@),
        },
        call_ensures(rkfw::read_cstr, (bytes,), r) ==> r@ == rkfw::lossy_text(
            rkfw::before_nul(bytes@),
        ) && (valid_utf8(rkfw::before_nul(bytes@)) ==> r@ == decode_utf8(
            rkfw::before_nul(bytes@),
        )),
        call_ensures(rkfw::RkfwError::<String>::message, (e,), r) ==> r@ == rkfw::message_of(e@),
{
}

/// The search begins with the root, four levels to go, and goes on as [`pending_after`] tells.
pub proof fn law_search_functions(
    root: usize,
    start: EnvSearch,
    search: &EnvSearch,
    next: Option<Dir>,
    after: &mut EnvSearch,
    subdirs: &Vec<usize>,
)
    requires
        old(after).pending@.len() > 0,
    ensures
        call_ensures(EnvSearch::start, (root,), start) ==> start.pending@.len() == 1
            && start.pending@[0].id == root && start.pending@[0].depth == 4,
        call_ensures(EnvSearch::next, (search,), next) ==> (next is None <==> search.pending@.len()
            == 0),
        call_ensures(EnvSearch::next, (search,), next) && next is Some ==> next->Some_0
            == search.pending@[search.pending@.len() - 1],
        call_ensures(EnvSearch::not_here, (after, subdirs), ()) ==> final(after).pending@
            == pending_after(old(after).pending@, subdirs@),
{
}

/// The environment gives the partition list, and the flash and its jobs are told in lines.
pub proof fn law_nor_functions(
    env: Result<UbootEnv, EnvError>,
    bytes: &[u8],
    name: &str,
    dir: &str,
    flash: Capacity,
    capability: &[u8; 8],
    job: &Job,
    mode: &EraseMode,
    ie: &EnvImageError,
    je: &JobError<String>,
    re: &RangeError,
    sectors: u32,
    m: Result<String, EnvImageError>,
    names: (String, String),
    line: Result<String, &'static str>,
    em: EraseMode,
    r: String,
    n: u32,
    k: usize,
)
    ensures
        call_ensures(mtdparts_from, (env,), m) ==> match (m, mtdparts_in(
            match env {
                Ok(e) => Ok(e@),
                Err(e) => Err(e),
            },
        )) {
            (Ok(s), Ok(value)) => s@ == value,
            (Err(e), Err(expected)) => e == expected,
            _ => false,
        },
        call_ensures(mtdparts_of, (bytes,), m) ==> match (m, mtdparts_in(
            env_with_crc(bytes@, crc32_of(bytes@.skip(4))),
        )) {
            (Ok(s), Ok(value)) => s@ == value,
            (Err(e), Err(expected)) => e == expected,
            _ => false,
        },
        call_ensures(candidate_names, (name,), names) ==> names.0@ == name@ + ".img"@ && names.1@
            == name@,
        call_ensures(skip_text, (name, dir), r) ==> r@ == "Skipping partition '"@ + name@
            + "': no '"@ + name@ + ".img' or '"@ + name@ + "' in "@ + dir@,
        call_ensures(check_flash, (flash,), line) ==> match line {
            Ok(s) => flash.sectors > 0 && s@ == size_line(flash),
            Err(e) => flash.sectors == 0 && e@ == "SPI NOR reports 0 sectors"@,
        },
        call_ensures(erase_mode, (name, capability), em) ==> em == mode_for(name@, capability@),
        call_ensures(EraseMode::max_blocks, (mode,), n) ==> n == (if *mode == EraseMode::Lba {
            32_768u32
        } else {
            1024
        }),
        call_ensures(job_text, (job,), r) ==> r@ == job_line(job@),
        call_ensures(EnvImageError::message, (ie,), r) ==> r@ == ie.spec_message(),
        call_ensures(JobError::<String>::message, (je,), r) ==> r@ == uboot::message_of(je@),
        call_ensures(RangeError::message, (re, job, sectors), r) ==> r@ == range_message(
            *re,
            job@,
            sectors,
        ),
        call_ensures(RangeError::job, (re,), k) ==> k == re.spec_job(),
{
}

/// The jobs are built in turn, and put in the order of their sectors.
pub proof fn law_job_functions(
    parts: &Vec<mtdparts::Partition>,
    files: &Vec<PartFile>,
    dir: &str,
    env_path: &str,
    env_data: &Vec<u8>,
    jobs: Vec<Job>,
    built: BuiltJobs,
    sorted: Vec<Job>,
    ordered: Result<Vec<Job>, JobError<String>>,
    sector: u32,
    i: int,
    j: int,
)
    requires
        parts@.len() == files@.len(),
    ensures
        call_ensures(uboot::build_jobs, (parts, files, dir, env_path, env_data), built) ==> {
            let expected = jobs_for(
                mtdparts::views(parts@),
                files@,
                dir@,
                env_path@,
                env_data@,
            );
            &&& text::texts(built.skipped@) == expected.0
            &&& built.jobs is Ok <==> expected.1 is Ok
            &&& built.jobs matches Ok(list) ==> job_views(list@) == expected.1->Ok_0
            &&& built.jobs matches Err(e) ==> e@ == expected.1->Err_0
        },
        call_ensures(sort_jobs, (jobs,), sorted) ==> {
            &&& sorted@.len() == jobs@.len()
            &&& 0 <= i <= j < sorted@.len() ==> sorted@[i].target_sector
                <= sorted@[j].target_sector
            &&& jobs_at(sorted@, sector) == jobs_at(jobs@, sector)
        },
        call_ensures(order_jobs, (jobs, env_path), ordered) ==> {
            &&& ordered is Ok <==> jobs@.len() > 0
            &&& ordered matches Ok(list) ==> {
                &&& list@.len() == jobs@.len()
                &&& 0 <= i <= j < list@.len() ==> list@[i].target_sector <= list@[j].target_sector
                &&& jobs_at(list@, sector) == jobs_at(jobs@, sector)
            }
            &&& ordered matches Err(e) ==> e@ == (JobError::NoFiles { env_path: env_path@ })
        },
{
}

} // verus!
