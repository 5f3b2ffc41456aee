use leaflash::rkfw::{parse, read_cstr};

fn put(data: &mut Vec<u8>, at: usize, value: u32) {
    data[at..at + 4].copy_from_slice(&value.to_le_bytes());
}

/// An image with a loader of eight bytes and one section with the given entries: name, target
/// sector and data.
fn image(entries: &[(&[u8], u32, &[u8])]) -> Vec<u8> {
    let header = 0x66;
    let mut rkaf = vec![0u8; 0x8c + entries.len() * 112];
    rkaf[..4].copy_from_slice(b"RKAF");
    put(&mut rkaf, 0x88, entries.len() as u32);
    for (i, (name, target, data)) in entries.iter().enumerate() {
        let base = 0x8c + i * 112;
        let offset = rkaf.len() as u32;
        rkaf[base..base + name.len()].copy_from_slice(name);
        put(&mut rkaf, base + 92, 64);
        put(&mut rkaf, base + 96, offset);
        put(&mut rkaf, base + 100, *target);
        put(&mut rkaf, base + 108, data.len() as u32);
        rkaf.extend_from_slice(data);
    }
    let mut data = vec![0u8; header];
    data[..4].copy_from_slice(b"RKFW");
    put(&mut data, 0x19, header as u32);
    put(&mut data, 0x1d, 8);
    put(&mut data, 0x21, header as u32 + 8);
    put(&mut data, 0x25, rkaf.len() as u32);
    data.extend_from_slice(b"LDR boot");
    data.extend_from_slice(&rkaf);
    data
}

fn error(data: &[u8]) -> String {
    parse(data).unwrap_err().message()
}

#[test]
fn entries_come_out_as_they_went_in() {
    let data = image(&[
        (b"package-file", 0xFFFF_FFFF, b"meta"),
        (b"uboot\0junk", 0x40, b"payload"),
    ]);
    let package = parse(&data).unwrap();
    assert_eq!(package.loader, b"LDR boot");
    assert_eq!(package.entries.len(), 2);
    assert_eq!(package.entries[0].name, "package-file");
    assert_eq!(package.entries[0].target_sector, None);
    assert_eq!(package.entries[1].name, "uboot");
    assert_eq!(package.entries[1].target_sector, Some(0x40));
    assert_eq!(package.entries[1].partition_sectors, 64);
    assert_eq!(package.entries[1].data, b"payload");
}

#[test]
fn names_are_read_up_to_the_first_nul() {
    assert_eq!(read_cstr(b"boot\0rest"), "boot");
    assert_eq!(read_cstr(b"boot"), "boot");
    assert_eq!(read_cstr(b"b\xffd\0"), "b\u{fffd}d");
}

#[test]
fn bad_headers_are_refused() {
    assert_eq!(error(&[0; 0x65]), "file is shorter than the RKFW header");
    assert_eq!(
        error(&[0; 0x66]),
        "not a Rockchip update.img (expected magic \"RKFW\" at offset 0)"
    );
    let mut data = image(&[(b"a", 0, b"x")]);
    let len = data.len();
    put(&mut data, 0x1d, 0xffff);
    assert_eq!(
        error(&data),
        format!("loader range out of bounds: 102..65637 (file size {len})")
    );
    let mut data = image(&[(b"a", 0, b"x")]);
    put(&mut data, 0x25, 0xffff);
    assert_eq!(
        error(&data),
        format!("image range out of bounds: 110..65645 (file size {len})")
    );
    let mut data = image(&[(b"a", 0, b"x")]);
    data[0x66] = b'X';
    assert_eq!(error(&data), "loader section missing 'LDR ' magic");
}

#[test]
fn bad_sections_are_refused() {
    let mut data = image(&[(b"a", 0, b"x")]);
    put(&mut data, 0x25, 0x8f);
    assert_eq!(error(&data), "RKAF section too small (143 bytes)");
    let mut data = image(&[(b"a", 0, b"x")]);
    data[0x66 + 8] = b'X';
    assert_eq!(error(&data), "expected 'RKAF' magic at start of image section");
    let mut data = image(&[(b"a", 0, b"x")]);
    put(&mut data, 0x66 + 8 + 0x88, 3);
    assert_eq!(error(&data), "RKAF entries overflow the section");
    let mut data = image(&[(b"a", 0, b"x")]);
    put(&mut data, 0x66 + 8 + 0x88, 0);
    assert_eq!(error(&data), "RKAF section reports zero entries");
    let mut data = image(&[(b"a\"b", 0, b"x")]);
    put(&mut data, 0x66 + 8 + 0x8c + 108, 9000);
    assert_eq!(
        error(&data),
        "entry \"a\\\"b\" data range 252..9252 out of bounds"
    );
}
