//! Minimal parser for the Rockchip update-image format (`rkImageMaker`
//! + `afptool` output, the file `upgrade_tool UF` consumes).
//!
//! Layout:
//! - 0x00..0x66  RKFW header (only the four offset/length fields in here
//!   are interesting to us; they're stored as **unaligned** little-endian
//!   `u32`s at byte offsets 0x19, 0x1d, 0x21, 0x25)
//! - `loader_off..+loader_len`  raw loader bundle (`LDR ` magic, the
//!   thing maskrom expects via `download-boot`)
//! - `image_off..+image_len`    RKAF section:
//!   - 0x00..0x88  RKAF header (magic + length + reserved fields)
//!   - 0x88..0x8c  `num_files` (LE u32)
//!   - 0x8c..      `num_files` entries of 112 bytes each:
//!     - `name[32]` partition / virtual entry name
//!     - `path[60]` name of the file it was made from
//!     - 5 LE u32 fields:
//!         partition_sectors,
//!         data_offset (within RKAF),
//!         target_sector (== 0xFFFF_FFFF when entry isn't flashed),
//!         (unused, possibly chunk count or CRC offset),
//!         size_bytes,

use crate::text::{decimal, decimal_text, find_byte, first_index, le32, read_le32};
use vstd::prelude::*;
use vstd::slice::slice_subrange;
use vstd::utf8::*;

verus! {

pub const RKFW_HEADER_MIN: usize = 0x66;

pub const ENTRY_SIZE: usize = 112;

/// The text that `String::from_utf8_lossy` makes of the bytes.
pub uninterp spec fn lossy_text(bytes: Seq<u8>) -> Seq<char>;

/// The text that the `Debug` format of a string gives.
pub uninterp spec fn debug_text(s: Seq<char>) -> Seq<char>;

/// `String::from_utf8_lossy`: a function of the bytes; valid UTF-8 comes out as what it
/// encodes.
#[verifier::external_body]
fn read_lossy(bytes: &[u8]) -> (r: String)
    ensures
        r@ == lossy_text(bytes@),
        valid_utf8(bytes@) ==> r@ == decode_utf8(bytes@),
{
    String::from_utf8_lossy(bytes).into_owned()
}

/// The `Debug` format of a string: quoted and escaped, a function of the string.
#[verifier::external_body]
fn debug_format(s: &str) -> (r: String)
    ensures
        r@ == debug_text(s@),
{
    format!("{:?}", s)
}

/// An update image, borrowed from its bytes.
#[derive(Debug)]
pub struct Package<'a> {
    /// The maskrom boot bundle from the RKFW container.
    pub loader: &'a [u8],
    pub entries: Vec<Entry<'a>>,
}

/// One file of the RKAF section.
#[derive(Debug)]
pub struct Entry<'a> {
    pub name: String,
    pub data: &'a [u8],
    /// `None` when the entry is metadata (`package-file`) or flashed via a
    /// different path (`bootloader`).
    pub target_sector: Option<u32>,
    /// Partition size in 512-byte sectors as recorded in the RKAF entry.
    /// Used to size the erase region so the whole partition is wiped
    /// even when the file is shorter than the partition.
    pub partition_sectors: u32,
}

/// What an [`Entry`] holds.
pub struct EntryView {
    pub name: Seq<char>,
    pub data: Seq<u8>,
    pub target_sector: Option<u32>,
    pub partition_sectors: u32,
}

/// What a [`Package`] holds.
pub struct PackageView {
    pub loader: Seq<u8>,
    pub entries: Seq<EntryView>,
}

impl<'a> View for Entry<'a> {
    type V = EntryView;

    open spec fn view(&self) -> EntryView {
        EntryView {
            name: self.name@,
            data: self.data@,
            target_sector: self.target_sector,
            partition_sectors: self.partition_sectors,
        }
    }
}

/// What each entry of a list holds.
pub open spec fn entry_views(list: Seq<Entry>) -> Seq<EntryView> {
    list.map_values(|e: Entry| e@)
}

impl<'a> View for Package<'a> {
    type V = PackageView;

    open spec fn view(&self) -> PackageView {
        PackageView { loader: self.loader@, entries: entry_views(self.entries@) }
    }
}

/// Why an update image is refused. `T` is the type of the name it quotes.
#[derive(Debug)]
pub enum RkfwError<T> {
    ShortFile,
    NotRkfw,
    LoaderRange { start: u64, end: u64, len: u64 },
    ImageRange { start: u64, end: u64, len: u64 },
    NoLoaderMagic,
    RkafTooSmall { len: u64 },
    NoRkafMagic,
    EntriesOverflow,
    EntryRange { name: T, start: u64, end: u64 },
    NoEntries,
}

impl View for RkfwError<String> {
    type V = RkfwError<Seq<char>>;

    open spec fn view(&self) -> RkfwError<Seq<char>> {
        match self {
            RkfwError::ShortFile => RkfwError::ShortFile,
            RkfwError::NotRkfw => RkfwError::NotRkfw,
            RkfwError::LoaderRange { start, end, len } => RkfwError::LoaderRange {
                start: *start,
                end: *end,
                len: *len,
            },
            RkfwError::ImageRange { start, end, len } => RkfwError::ImageRange {
                start: *start,
                end: *end,
                len: *len,
            },
            RkfwError::NoLoaderMagic => RkfwError::NoLoaderMagic,
            RkfwError::RkafTooSmall { len } => RkfwError::RkafTooSmall { len: *len },
            RkfwError::NoRkafMagic => RkfwError::NoRkafMagic,
            RkfwError::EntriesOverflow => RkfwError::EntriesOverflow,
            RkfwError::EntryRange { name, start, end } => RkfwError::EntryRange {
                name: name@,
                start: *start,
                end: *end,
            },
            RkfwError::NoEntries => RkfwError::NoEntries,
        }
    }
}

/// `lead` and a range that ends outside of `len` bytes.
pub open spec fn range_message(lead: Seq<char>, start: u64, end: u64, len: u64) -> Seq<char> {
    lead + decimal(start as nat) + ".."@ + decimal(end as nat) + " (file size "@ + decimal(
        len as nat,
    ) + ")"@
}

/// The text of an error.
pub open spec fn message_of(e: RkfwError<Seq<char>>) -> Seq<char> {
    match e {
        RkfwError::ShortFile => "file is shorter than the RKFW header"@,
        RkfwError::NotRkfw =>
            "not a Rockchip update.img (expected magic \"RKFW\" at offset 0)"@,
        RkfwError::LoaderRange { start, end, len } => range_message(
            "loader range out of bounds: "@,
            start,
            end,
            len,
        ),
        RkfwError::ImageRange { start, end, len } => range_message(
            "image range out of bounds: "@,
            start,
            end,
            len,
        ),
        RkfwError::NoLoaderMagic => "loader section missing 'LDR ' magic"@,
        RkfwError::RkafTooSmall { len } => "RKAF section too small ("@ + decimal(len as nat)
            + " bytes)"@,
        RkfwError::NoRkafMagic => "expected 'RKAF' magic at start of image section"@,
        RkfwError::EntriesOverflow => "RKAF entries overflow the section"@,
        RkfwError::EntryRange { name, start, end } => "entry "@ + debug_text(name)
            + " data range "@ + decimal(start as nat) + ".."@ + decimal(end as nat)
            + " out of bounds"@,
        RkfwError::NoEntries => "RKAF section reports zero entries"@,
    }
}

/// `lead` and a range that ends outside of `len` bytes.
fn range_text(lead: &str, start: u64, end: u64, len: u64) -> (r: String)
    ensures
        r@ == range_message(lead@, start, end, len),
{
    let mut r: String = lead.to_owned();
    r.append(&decimal_text(start));
    r.append("..");
    r.append(&decimal_text(end));
    r.append(" (file size ");
    r.append(&decimal_text(len));
    r.append(")");
    r
}

impl RkfwError<String> {
    /// The text of this error.
    pub fn message(&self) -> (r: String)
        ensures
            r@ == message_of(self@),
    {
        match self {
            RkfwError::ShortFile => "file is shorter than the RKFW header".to_owned(),
            RkfwError::NotRkfw =>
                "not a Rockchip update.img (expected magic \"RKFW\" at offset 0)".to_owned(),
            RkfwError::LoaderRange { start, end, len } => range_text(
                "loader range out of bounds: ",
                *start,
                *end,
                *len,
            ),
            RkfwError::ImageRange { start, end, len } => range_text(
                "image range out of bounds: ",
                *start,
                *end,
                *len,
            ),
            RkfwError::NoLoaderMagic => "loader section missing 'LDR ' magic".to_owned(),
            RkfwError::RkafTooSmall { len } => {
                let mut r: String = "RKAF section too small (".to_owned();
                r.append(&decimal_text(*len));
                r.append(" bytes)");
                r
            },
            RkfwError::NoRkafMagic =>
                "expected 'RKAF' magic at start of image section".to_owned(),
            RkfwError::EntriesOverflow => "RKAF entries overflow the section".to_owned(),
            RkfwError::EntryRange { name, start, end } => {
                let mut r: String = "entry ".to_owned();
                r.append(&debug_format(name));
                r.append(" data range ");
                r.append(&decimal_text(*start));
                r.append("..");
                r.append(&decimal_text(*end));
                r.append(" out of bounds");
                r
            },
            RkfwError::NoEntries => "RKAF section reports zero entries".to_owned(),
        }
    }
}

/// Whether the four bytes at the start are the given ones.
pub open spec fn has_magic(s: Seq<u8>, a: u8, b: u8, c: u8, d: u8) -> bool {
    s.len() >= 4 && s[0] == a && s[1] == b && s[2] == c && s[3] == d
}

/// The bytes before the first NUL, or all of them.
pub open spec fn before_nul(s: Seq<u8>) -> Seq<u8> {
    match first_index(s, 0u8) {
        Some(i) => s.take(i),
        None => s,
    }
}

/// The entry with index `i` of a section.
pub open spec fn entry_at(rkaf: Seq<u8>, i: int) -> Result<EntryView, RkfwError<Seq<char>>> {
    let base = 0x8c + i * ENTRY_SIZE;
    let name = lossy_text(before_nul(rkaf.subrange(base, base + 32)));
    let start = le32(rkaf, base + 96);
    let end = start + le32(rkaf, base + 108);
    let target = le32(rkaf, base + 100);
    if end > rkaf.len() {
        Err(RkfwError::EntryRange { name, start: start as u64, end: end as u64 })
    } else {
        Ok(
            EntryView {
                name,
                data: rkaf.subrange(start, end),
                target_sector: if target == 0xFFFF_FFFF {
                    None
                } else {
                    Some(target as u32)
                },
                partition_sectors: le32(rkaf, base + 92) as u32,
            },
        )
    }
}

/// The entries from index `i` up to `n`, or the first error among them.
pub open spec fn entries_from(rkaf: Seq<u8>, i: int, n: int) -> Result<
    Seq<EntryView>,
    RkfwError<Seq<char>>,
>
    decreases n - i,
{
    if i >= n {
        Ok(Seq::empty())
    } else {
        match entry_at(rkaf, i) {
            Err(e) => Err(e),
            Ok(entry) => match entries_from(rkaf, i + 1, n) {
                Err(e) => Err(e),
                Ok(rest) => Ok(seq![entry] + rest),
            },
        }
    }
}

/// The entries of a section.
pub open spec fn section_entries(rkaf: Seq<u8>) -> Result<Seq<EntryView>, RkfwError<Seq<char>>> {
    if rkaf.len() < 0x8c + 4 {
        Err(RkfwError::RkafTooSmall { len: rkaf.len() as u64 })
    } else if !has_magic(rkaf, 0x52, 0x4b, 0x41, 0x46) {
        Err(RkfwError::NoRkafMagic)
    } else if 0x8c + le32(rkaf, 0x88) * ENTRY_SIZE > rkaf.len() {
        Err(RkfwError::EntriesOverflow)
    } else {
        match entries_from(rkaf, 0, le32(rkaf, 0x88)) {
            Err(e) => Err(e),
            Ok(list) => if list.len() == 0 {
                Err(RkfwError::NoEntries)
            } else {
                Ok(list)
            },
        }
    }
}

/// What an update image holds.
pub open spec fn package_in(data: Seq<u8>) -> Result<PackageView, RkfwError<Seq<char>>> {
    let loader_start = le32(data, 0x19);
    let loader_end = loader_start + le32(data, 0x1d);
    let image_start = le32(data, 0x21);
    let image_end = image_start + le32(data, 0x25);
    if data.len() < RKFW_HEADER_MIN {
        Err(RkfwError::ShortFile)
    } else if !has_magic(data, 0x52, 0x4b, 0x46, 0x57) {
        Err(RkfwError::NotRkfw)
    } else if loader_end > data.len() {
        Err(
            RkfwError::LoaderRange {
                start: loader_start as u64,
                end: loader_end as u64,
                len: data.len() as u64,
            },
        )
    } else if image_end > data.len() {
        Err(
            RkfwError::ImageRange {
                start: image_start as u64,
                end: image_end as u64,
                len: data.len() as u64,
            },
        )
    } else if !has_magic(data.subrange(loader_start, loader_end), 0x4c, 0x44, 0x52, 0x20) {
        Err(RkfwError::NoLoaderMagic)
    } else {
        match section_entries(data.subrange(image_start, image_end)) {
            Err(e) => Err(e),
            Ok(entries) => Ok(
                PackageView { loader: data.subrange(loader_start, loader_end), entries },
            ),
        }
    }
}

/// The text before the first NUL.
pub fn read_cstr(buf: &[u8]) -> (r: String)
    ensures
        r@ == lossy_text(before_nul(buf@)),
        valid_utf8(before_nul(buf@)) ==> r@ == decode_utf8(before_nul(buf@)),
{
    assert(buf@.skip(0) =~= buf@);
    let end: usize = match find_byte(buf, 0, 0) {
        Some(i) => i,
        None => buf.len(),
    };
    let text: &[u8] = slice_subrange(buf, 0, end);
    assert(text@ =~= before_nul(buf@));
    read_lossy(text)
}

/// Whether the four bytes at the start are the given ones.
fn starts_with_magic(s: &[u8], a: u8, b: u8, c: u8, d: u8) -> (r: bool)
    ensures
        r == has_magic(s@, a, b, c, d),
{
    s.len() >= 4 && s[0] == a && s[1] == b && s[2] == c && s[3] == d
}

/// Read the entry with index `i`.
fn read_entry<'a>(rkaf: &'a [u8], i: usize) -> (r: Result<Entry<'a>, RkfwError<String>>)
    requires
        0x8c + (i + 1) * ENTRY_SIZE <= rkaf@.len(),
    ensures
        match r {
            Ok(e) => entry_at(rkaf@, i as int) == Ok::<EntryView, RkfwError<Seq<char>>>(e@),
            Err(e) => entry_at(rkaf@, i as int) == Err::<EntryView, RkfwError<Seq<char>>>(e@),
        },
{
    let len: usize = rkaf.len();
    let base: usize = 0x8c + i * ENTRY_SIZE;
    let name: String = read_cstr(slice_subrange(rkaf, base, base + 32));
    let partition_sectors: u32 = read_le32(rkaf, base + 92);
    let start: u64 = read_le32(rkaf, base + 96) as u64;
    let target: u32 = read_le32(rkaf, base + 100);
    // base+104..108 is unused (best guess: chunk count); skip.
    let end: u64 = start + read_le32(rkaf, base + 108) as u64;
    if end > len as u64 {
        return Err(RkfwError::EntryRange { name, start, end });
    }
    let data: &'a [u8] = slice_subrange(rkaf, start as usize, end as usize);
    let target_sector: Option<u32> = if target == 0xFFFF_FFFF {
        None
    } else {
        Some(target)
    };
    Ok(Entry { name, data, target_sector, partition_sectors })
}

/// Read all entries of a section.
fn read_section<'a>(rkaf: &'a [u8]) -> (r: Result<Vec<Entry<'a>>, RkfwError<String>>)
    ensures
        match r {
            Ok(list) => section_entries(rkaf@) == Ok::<Seq<EntryView>, RkfwError<Seq<char>>>(
                entry_views(list@),
            ),
            Err(e) => section_entries(rkaf@) == Err::<Seq<EntryView>, RkfwError<Seq<char>>>(e@),
        },
{
    if rkaf.len() < 0x8c + 4 {
        return Err(RkfwError::RkafTooSmall { len: rkaf.len() as u64 });
    }
    if !starts_with_magic(rkaf, 0x52, 0x4b, 0x41, 0x46) {
        return Err(RkfwError::NoRkafMagic);
    }
    let num_files: u32 = read_le32(rkaf, 0x88);
    let entries_end: u64 = 0x8c + num_files as u64 * ENTRY_SIZE as u64;
    if entries_end > rkaf.len() as u64 {
        return Err(RkfwError::EntriesOverflow);
    }
    let n: usize = num_files as usize;
    let ghost all = entries_from(rkaf@, 0, n as int);
    let mut entries: Vec<Entry<'a>> = Vec::new();
    let mut i: usize = 0;
    assert(entry_views(entries@) =~= Seq::empty());
    proof {
        if let Ok(rest) = all {
            assert(Seq::<EntryView>::empty() + rest =~= rest);
        }
    }
    while i < n
        invariant
            i <= n,
            entries@.len() == i,
            0x8c + n * ENTRY_SIZE <= rkaf@.len(),
            section_entries(rkaf@) == (match all {
                Err(e) => Err::<Seq<EntryView>, RkfwError<Seq<char>>>(e),
                Ok(list) => if list.len() == 0 {
                    Err(RkfwError::NoEntries)
                } else {
                    Ok(list)
                },
            }),
            match entries_from(rkaf@, i as int, n as int) {
                Ok(rest) => all == Ok::<Seq<EntryView>, RkfwError<Seq<char>>>(
                    entry_views(entries@) + rest,
                ),
                Err(e) => all == Err::<Seq<EntryView>, RkfwError<Seq<char>>>(e),
            },
        decreases n - i,
    {
        match read_entry(rkaf, i) {
            Err(e) => {
                return Err(e);
            },
            Ok(entry) => {
                let ghost before = entry_views(entries@);
                let ghost view = entry@;
                entries.push(entry);
                proof {
                    assert(entry_views(entries@) =~= before.push(view));
                    if let Ok(rest) = entries_from(rkaf@, i + 1, n as int) {
                        assert(before + (seq![view] + rest) =~= before.push(view) + rest);
                    }
                }
            },
        }
        i = i + 1;
    }
    assert(entry_views(entries@) + Seq::<EntryView>::empty() =~= entry_views(entries@));
    if entries.len() == 0 {
        return Err(RkfwError::NoEntries);
    }
    Ok(entries)
}

/// Parse an update image.
pub fn parse<'a>(data: &'a [u8]) -> (r: Result<Package<'a>, RkfwError<String>>)
    ensures
        match r {
            Ok(p) => package_in(data@) == Ok::<PackageView, RkfwError<Seq<char>>>(p@),
            Err(e) => package_in(data@) == Err::<PackageView, RkfwError<Seq<char>>>(e@),
        },
{
    if data.len() < RKFW_HEADER_MIN {
        return Err(RkfwError::ShortFile);
    }
    if !starts_with_magic(data, 0x52, 0x4b, 0x46, 0x57) {
        return Err(RkfwError::NotRkfw);
    }
    let len: u64 = data.len() as u64;
    let loader_start: u64 = read_le32(data, 0x19) as u64;
    let loader_end: u64 = loader_start + read_le32(data, 0x1d) as u64;
    let image_start: u64 = read_le32(data, 0x21) as u64;
    let image_end: u64 = image_start + read_le32(data, 0x25) as u64;
    if loader_end > len {
        return Err(RkfwError::LoaderRange { start: loader_start, end: loader_end, len });
    }
    if image_end > len {
        return Err(RkfwError::ImageRange { start: image_start, end: image_end, len });
    }
    let loader: &'a [u8] = slice_subrange(data, loader_start as usize, loader_end as usize);
    if !starts_with_magic(loader, 0x4c, 0x44, 0x52, 0x20) {
        return Err(RkfwError::NoLoaderMagic);
    }
    match read_section(slice_subrange(data, image_start as usize, image_end as usize)) {
        Err(e) => Err(e),
        Ok(entries) => Ok(Package { loader, entries }),
    }
}

proof fn lemma_entries_from(rkaf: Seq<u8>, i: int, n: int, k: int)
    requires
        0 <= i <= n,
        entries_from(rkaf, i, n) is Ok,
    ensures
        entries_from(rkaf, i, n)->Ok_0.len() == n - i,
        0 <= k < n - i ==> entry_at(rkaf, i + k) == Ok::<EntryView, RkfwError<Seq<char>>>(
            entries_from(rkaf, i, n)->Ok_0[k],
        ),
    decreases n - i,
{
    if i < n {
        lemma_entries_from(rkaf, i + 1, n, k - 1);
    }
}

/// A section that is accepted gives as many entries as it reports, at least one, each of them
/// the one at its place.
pub proof fn law_section_gives_every_entry(rkaf: Seq<u8>, k: int)
    requires
        section_entries(rkaf) is Ok,
        0 <= k < le32(rkaf, 0x88),
    ensures
        section_entries(rkaf)->Ok_0.len() == le32(rkaf, 0x88),
        entry_at(rkaf, k) == Ok::<EntryView, RkfwError<Seq<char>>>(
            section_entries(rkaf)->Ok_0[k],
        ),
{
    lemma_entries_from(rkaf, 0, le32(rkaf, 0x88), k);
}

} // verus!
