//! How an update image is read, in terms of how one is written.

use crate::rkfw::{
    before_nul, debug_text, entries_from, entry_at, lossy_text, message_of, package_in,
    section_entries, Entry, Package, RkfwError,
};
use crate::text::{decimal, le32, lemma_first_index_is, lemma_first_index_none};
use vstd::prelude::*;

verus! {

/// A number as four bytes, the lowest first.
pub open spec fn le_bytes(n: u32) -> Seq<u8> {
    seq![
        (n % 256) as u8,
        (n / 256 % 256) as u8,
        (n / 65536 % 256) as u8,
        (n / 16777216) as u8,
    ]
}

proof fn lemma_le_bytes(s: Seq<u8>, at: int, n: u32)
    requires
        0 <= at,
        at + 4 <= s.len(),
        s.subrange(at, at + 4) == le_bytes(n),
    ensures
        le32(s, at) == n,
{
    let b = s.subrange(at, at + 4);
    assert(s[at] == b[0] && s[at + 1] == b[1] && s[at + 2] == b[2] && s[at + 3] == b[3]);
    crate::text_laws::law_four_bytes(s, at, n);
}

/// A name ends at the first zero, or with its field.
pub proof fn law_name_ends_at_a_zero(name: Seq<u8>, rest: Seq<u8>)
    requires
        !name.contains(0u8),
    ensures
        before_nul(name) == name,
        before_nul(name + seq![0u8] + rest) == name,
{
    assert forall|j: int| 0 <= j < name.len() implies #[trigger] name[j] != 0u8 by {
        assert(name.contains(name[j]));
    }
    lemma_first_index_none(name, 0u8);
    let s = name + seq![0u8] + rest;
    assert forall|j: int| 0 <= j < name.len() implies #[trigger] s[j] != 0u8 by {
        assert(s[j] == name[j]);
    }
    lemma_first_index_is(s, 0u8, name.len() as int);
    assert(s.take(name.len() as int) =~= name);
}

/// The record of an entry: a name of 32 bytes, a path of 60, and five numbers.
pub open spec fn record(
    name: Seq<u8>,
    path: Seq<u8>,
    sectors: u32,
    offset: u32,
    target: u32,
    unused: u32,
    size: u32,
) -> Seq<u8> {
    name + path + le_bytes(sectors) + le_bytes(offset) + le_bytes(target) + le_bytes(unused)
        + le_bytes(size)
}

proof fn lemma_record_parts(
    name: Seq<u8>,
    path: Seq<u8>,
    a: Seq<u8>,
    b: Seq<u8>,
    c: Seq<u8>,
    d: Seq<u8>,
    e: Seq<u8>,
)
    requires
        name.len() == 32,
        path.len() == 60,
        a.len() == 4,
        b.len() == 4,
        c.len() == 4,
        d.len() == 4,
        e.len() == 4,
    ensures
        ({
            let rec = name + path + a + b + c + d + e;
            &&& rec.len() == 112
            &&& rec.subrange(0, 32) == name
            &&& rec.subrange(92, 96) == a
            &&& rec.subrange(96, 100) == b
            &&& rec.subrange(100, 104) == c
            &&& rec.subrange(108, 112) == e
        }),
{
    let rec = name + path + a + b + c + d + e;
    assert(rec.subrange(0, 32) =~= name);
    assert(rec.subrange(92, 96) =~= a);
    assert(rec.subrange(96, 100) =~= b);
    assert(rec.subrange(100, 104) =~= c);
    assert(rec.subrange(108, 112) =~= e);
}

proof fn lemma_inner(s: Seq<u8>, base: int, rec: Seq<u8>, from: int, to: int)
    requires
        0 <= base,
        base + 112 <= s.len(),
        rec.len() == 112,
        s.subrange(base, base + 112) == rec,
        0 <= from <= to <= 112,
    ensures
        s.subrange(base + from, base + to) == rec.subrange(from, to),
{
    assert(s.subrange(base + from, base + to) =~= s.subrange(base, base + 112).subrange(from, to));
}

/// The records start at byte 140 and take 112 bytes each. An entry has the name in its record and
/// the bytes of the section that the record points to; the target sector 0xFFFFFFFF stands for
/// none. One that points beyond the section is refused.
pub proof fn law_record_is_read(
    rkaf: Seq<u8>,
    i: int,
    name: Seq<u8>,
    path: Seq<u8>,
    sectors: u32,
    offset: u32,
    target: u32,
    unused: u32,
    size: u32,
)
    requires
        0 <= i,
        140 + 112 * (i + 1) <= rkaf.len(),
        name.len() == 32,
        path.len() == 60,
        rkaf.subrange(140 + 112 * i, 140 + 112 * (i + 1)) == record(
            name,
            path,
            sectors,
            offset,
            target,
            unused,
            size,
        ),
    ensures
        ({
            let r = entry_at(rkaf, i);
            let text = lossy_text(before_nul(name));
            if offset + size > rkaf.len() {
                &&& r is Err
                &&& r->Err_0 is EntryRange
                &&& r->Err_0->name == text
                &&& r->Err_0->EntryRange_start == offset
                &&& r->Err_0->EntryRange_end == offset + size
            } else {
                &&& r is Ok
                &&& r->Ok_0.name == text
                &&& r->Ok_0.data == rkaf.subrange(offset as int, offset + size)
                &&& r->Ok_0.partition_sectors == sectors
                &&& target == 0xFFFF_FFFF ==> r->Ok_0.target_sector is None
                &&& target != 0xFFFF_FFFF ==> r->Ok_0.target_sector == Some(target)
            }
        }),
{
    let base = 140 + 112 * i;
    let rec = record(name, path, sectors, offset, target, unused, size);
    lemma_record_parts(
        name,
        path,
        le_bytes(sectors),
        le_bytes(offset),
        le_bytes(target),
        le_bytes(unused),
        le_bytes(size),
    );
    lemma_inner(rkaf, base, rec, 0, 32);
    lemma_inner(rkaf, base, rec, 92, 96);
    lemma_inner(rkaf, base, rec, 96, 100);
    lemma_inner(rkaf, base, rec, 100, 104);
    lemma_inner(rkaf, base, rec, 108, 112);
    lemma_le_bytes(rkaf, base + 92, sectors);
    lemma_le_bytes(rkaf, base + 96, offset);
    lemma_le_bytes(rkaf, base + 100, target);
    lemma_le_bytes(rkaf, base + 108, size);
}

proof fn lemma_entries(rkaf: Seq<u8>, i: int, n: int, k: int)
    requires
        0 <= i <= k <= n,
        forall|j: int| i <= j < k ==> #[trigger] entry_at(rkaf, j) is Ok,
        k < n ==> entry_at(rkaf, k) is Err,
    ensures
        k == n ==> {
            let r = entries_from(rkaf, i, n);
            &&& r is Ok
            &&& r->Ok_0.len() == n - i
            &&& forall|j: int|
                0 <= j < n - i ==> #[trigger] r->Ok_0[j] == entry_at(rkaf, i + j)->Ok_0
        },
        k < n ==> entries_from(rkaf, i, n) is Err && entries_from(rkaf, i, n)->Err_0 == entry_at(
            rkaf,
            k,
        )->Err_0,
    decreases k - i,
{
    if i < k {
        assert(entry_at(rkaf, i) is Ok);
        lemma_entries(rkaf, i + 1, n, k);
        if k == n {
            let r = entries_from(rkaf, i, n)->Ok_0;
            let rest = entries_from(rkaf, i + 1, n)->Ok_0;
            assert(r =~= seq![entry_at(rkaf, i)->Ok_0] + rest);
            assert forall|j: int| 0 <= j < n - i implies #[trigger] r[j] == entry_at(
                rkaf,
                i + j,
            )->Ok_0 by {
                if j > 0 {
                    assert(r[j] == rest[j - 1]);
                    assert(i + 1 + (j - 1) == i + j);
                }
            }
        }
    }
}

/// A section has 144 bytes at least, begins with RKAF, and tells at byte 136 how many records it
/// has. It has the entries of all its records, in their order; the first record that is refused,
/// if `k` is not the number of all, decides the error.
pub proof fn law_section_is_read(rkaf: Seq<u8>, n: u32, k: int)
    requires
        rkaf.len() <= usize::MAX,
        0 <= k <= n,
        rkaf.len() >= 144 ==> rkaf.subrange(136, 140) == le_bytes(n),
        forall|j: int| 0 <= j < k ==> #[trigger] entry_at(rkaf, j) is Ok,
        k < n ==> entry_at(rkaf, k) is Err,
    ensures
        ({
            let r = section_entries(rkaf);
            if rkaf.len() < 144 {
                &&& r is Err
                &&& r->Err_0 is RkafTooSmall
                &&& r->Err_0->RkafTooSmall_len == rkaf.len()
            } else if rkaf.subrange(0, 4) != seq![82u8, 75, 65, 70] {
                r is Err && r->Err_0 is NoRkafMagic
            } else if 140 + 112 * n > rkaf.len() {
                r is Err && r->Err_0 is EntriesOverflow
            } else if n == 0 {
                r is Err && r->Err_0 is NoEntries
            } else if k < n {
                r is Err && r->Err_0 == entry_at(rkaf, k)->Err_0
            } else {
                &&& r is Ok
                &&& r->Ok_0.len() == n
                &&& forall|j: int| 0 <= j < n ==> #[trigger] r->Ok_0[j] == entry_at(rkaf, j)->Ok_0
            }
        }),
{
    if rkaf.len() >= 144 {
        lemma_le_bytes(rkaf, 136, n);
        lemma_entries(rkaf, 0, n as int, k);
        let m = rkaf.subrange(0, 4);
        let magic = seq![82u8, 75, 65, 70];
        assert(m[0] == rkaf[0] && m[1] == rkaf[1] && m[2] == rkaf[2] && m[3] == rkaf[3]);
        if m[0] == 82 && m[1] == 75 && m[2] == 65 && m[3] == 70 {
            assert(m =~= magic);
        }
        if k == n && n > 0 {
            let r = section_entries(rkaf);
            let list = entries_from(rkaf, 0, n as int)->Ok_0;
            assert forall|j: int| 0 <= j < n implies #[trigger] list[j] == entry_at(
                rkaf,
                j,
            )->Ok_0 by {
                assert(0 + j == j);
            }
        }
    }
}

/// A file has 102 bytes at least, begins with RKFW, and tells at bytes 25, 29, 33 and 37 where its
/// loader and its section start and how long they are. The loader begins with `LDR `.
pub proof fn law_file_is_read(data: Seq<u8>, at: u32, len: u32, image_at: u32, image_len: u32)
    requires
        data.len() <= usize::MAX,
        data.len() >= 102 ==> {
            &&& data.subrange(25, 29) == le_bytes(at)
            &&& data.subrange(29, 33) == le_bytes(len)
            &&& data.subrange(33, 37) == le_bytes(image_at)
            &&& data.subrange(37, 41) == le_bytes(image_len)
        },
    ensures
        ({
            let r = package_in(data);
            let loader = data.subrange(at as int, at + len);
            let image = data.subrange(image_at as int, image_at + image_len);
            if data.len() < 102 {
                r is Err && r->Err_0 is ShortFile
            } else if data.subrange(0, 4) != seq![82u8, 75, 70, 87] {
                r is Err && r->Err_0 is NotRkfw
            } else if at + len > data.len() {
                &&& r is Err
                &&& r->Err_0 is LoaderRange
                &&& r->Err_0->LoaderRange_start == at
                &&& r->Err_0->LoaderRange_end == at + len
                &&& r->Err_0->LoaderRange_len == data.len()
            } else if image_at + image_len > data.len() {
                &&& r is Err
                &&& r->Err_0 is ImageRange
                &&& r->Err_0->ImageRange_start == image_at
                &&& r->Err_0->ImageRange_end == image_at + image_len
                &&& r->Err_0->ImageRange_len == data.len()
            } else if len < 4 || loader.subrange(0, 4) != seq![76u8, 68, 82, 32] {
                r is Err && r->Err_0 is NoLoaderMagic
            } else if section_entries(image) is Err {
                r is Err && r->Err_0 == section_entries(image)->Err_0
            } else {
                &&& r is Ok
                &&& r->Ok_0.loader == loader
                &&& r->Ok_0.entries == section_entries(image)->Ok_0
            }
        }),
{
    if data.len() >= 102 {
        lemma_le_bytes(data, 25, at);
        lemma_le_bytes(data, 29, len);
        lemma_le_bytes(data, 33, image_at);
        lemma_le_bytes(data, 37, image_len);
        let m = data.subrange(0, 4);
        assert(m[0] == data[0] && m[1] == data[1] && m[2] == data[2] && m[3] == data[3]);
        if m[0] == 82 && m[1] == 75 && m[2] == 70 && m[3] == 87 {
            assert(m =~= seq![82u8, 75, 70, 87]);
        }
        if at + len <= data.len() && len >= 4 {
            let loader = data.subrange(at as int, at + len);
            let l = loader.subrange(0, 4);
            assert(l[0] == loader[0] && l[1] == loader[1] && l[2] == loader[2] && l[3]
                == loader[3]);
            if l[0] == 76 && l[1] == 68 && l[2] == 82 && l[3] == 32 {
                assert(l =~= seq![76u8, 68, 82, 32]);
            }
        }
    }
}

/// What is seen of an image and of its entries is what they hold.
pub proof fn law_package_view(p: Package, e: Entry, i: int)
    ensures
        p@.loader == p.loader@,
        p@.entries.len() == p.entries@.len(),
        0 <= i < p.entries@.len() ==> p@.entries[i] == p.entries@[i]@,
        e@.name == e.name@,
        e@.data == e.data@,
        e@.target_sector == e.target_sector,
        e@.partition_sectors == e.partition_sectors,
{
}

/// The texts of the errors tell the ranges and the lengths.
pub proof fn law_rkfw_texts(name: Seq<char>, a: u64, b: u64, n: u64)
    ensures
        message_of(RkfwError::ShortFile) == "file is shorter than the RKFW header"@,
        message_of(RkfwError::NotRkfw)
            == "not a Rockchip update.img (expected magic \"RKFW\" at offset 0)"@,
        message_of(RkfwError::LoaderRange { start: a, end: b, len: n })
            == "loader range out of bounds: "@ + decimal(a as nat) + ".."@ + decimal(b as nat)
            + " (file size "@ + decimal(n as nat) + ")"@,
        message_of(RkfwError::ImageRange { start: a, end: b, len: n })
            == "image range out of bounds: "@ + decimal(a as nat) + ".."@ + decimal(b as nat)
            + " (file size "@ + decimal(n as nat) + ")"@,
        message_of(RkfwError::NoLoaderMagic) == "loader section missing 'LDR ' magic"@,
        message_of(RkfwError::RkafTooSmall { len: n }) == "RKAF section too small ("@ + decimal(
            n as nat,
        ) + " bytes)"@,
        message_of(RkfwError::NoRkafMagic) == "expected 'RKAF' magic at start of image section"@,
        message_of(RkfwError::EntriesOverflow) == "RKAF entries overflow the section"@,
        message_of(RkfwError::EntryRange { name, start: a, end: b }) == "entry "@ + debug_text(name)
            + " data range "@ + decimal(a as nat) + ".."@ + decimal(b as nat) + " out of bounds"@,
        message_of(RkfwError::NoEntries) == "RKAF section reports zero entries"@,
{
}

/// What is seen of an error is its kind, and its name and numbers.
pub proof fn law_rkfw_error_view(e: RkfwError<String>)
    ensures
        e is ShortFile <==> e@ is ShortFile,
        e is NotRkfw <==> e@ is NotRkfw,
        e is NoLoaderMagic <==> e@ is NoLoaderMagic,
        e is NoRkafMagic <==> e@ is NoRkafMagic,
        e is EntriesOverflow <==> e@ is EntriesOverflow,
        e is NoEntries <==> e@ is NoEntries,
        e matches RkfwError::LoaderRange { start, end, len } ==> e@ == (RkfwError::<Seq<char>>::LoaderRange {
            start,
            end,
            len,
        }),
        e matches RkfwError::ImageRange { start, end, len } ==> e@ == (RkfwError::<Seq<char>>::ImageRange {
            start,
            end,
            len,
        }),
        e matches RkfwError::RkafTooSmall { len } ==> e@ == (RkfwError::<Seq<char>>::RkafTooSmall { len }),
        e matches RkfwError::EntryRange { name, start, end } ==> e@ == (RkfwError::EntryRange {
            name: name@,
            start,
            end,
        }),
{
}

} // verus!
