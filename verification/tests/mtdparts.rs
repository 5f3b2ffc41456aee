use leaflash::mtdparts::{parse, parse_size};

fn error(s: &str) -> String {
    parse(s).unwrap_err().message()
}

#[test]
fn lists_partitions_in_order() {
    let list = parse("mtdparts=sfc_nor:64K(env),1M@128k(uboot)ro,-(rest)").unwrap();
    assert_eq!(list.len(), 3);
    assert_eq!(list[0].name, "env");
    assert_eq!((list[0].offset, list[0].size), (0, Some(65536)));
    assert_eq!((list[1].offset, list[1].size), (131072, Some(1048576)));
    assert_eq!(list[2].name, "rest");
    assert_eq!((list[2].offset, list[2].size), (1179648, None));
}

#[test]
fn partitions_without_offset_follow_each_other() {
    let list = parse("nor: 1k(a) , 2K(b), 0x(c)lk").unwrap_err();
    assert_eq!(list.message(), "mtdparts: unknown size suffix 'x' in '0x'");
    let list = parse("  nor:1k(a),2K(b),512(c)  ").unwrap();
    assert_eq!(list[1].offset, 1024);
    assert_eq!(list[2].offset, 3072);
    assert_eq!(list[2].size, Some(512));
    // A trailing rest-of-device partition leaves the running offset where it was.
    let list = parse("nor:1k(a),-(b),1k(c)").unwrap();
    assert_eq!(list[1].offset, 1024);
    assert_eq!(list[2].offset, 1024);
}

#[test]
fn only_the_list_counts() {
    for s in ["mtdparts=nor:1k(a)", "  x:1k(a)\n", ":1k(a)", "mtdparts=mtdparts=:1k(a)", "mtdparts= id :1k(a) \t"] {
        let list = parse(s).unwrap();
        assert_eq!(list.len(), 1);
        assert_eq!((list[0].name.as_str(), list[0].size), ("a", Some(1024)));
    }
}

#[test]
fn sizes_have_binary_suffixes() {
    assert_eq!(parse_size("4096").unwrap(), 4096);
    assert_eq!(parse_size(" 4k ").unwrap(), 4096);
    assert_eq!(parse_size("4M").unwrap(), 4 << 20);
    assert_eq!(parse_size("4g").unwrap(), 4 << 30);
    assert_eq!(parse_size("+7").unwrap(), 7);
}

#[test]
fn malformed_lists_are_refused() {
    assert_eq!(
        error("nor"),
        "mtdparts: missing ':' separating <mtd-id> from partitions"
    );
    assert_eq!(error("nor:"), "mtdparts: empty partition spec");
    assert_eq!(error("nor:1k(a),"), "mtdparts: empty partition spec");
    assert_eq!(error("nor:1k"), "mtdparts: missing '(' in '1k'");
    assert_eq!(error("nor:1k(a"), "mtdparts: missing ')' in '1k(a'");
    assert_eq!(error("nor:1k)a("), "mtdparts: malformed '1k)a('");
    assert_eq!(error("nor:(a)"), "mtdparts: empty size");
    assert_eq!(error("nor:1q(a)"), "mtdparts: unknown size suffix 'q' in '1q'");
    assert_eq!(error("nor:k(a)"), "mtdparts: invalid number ''");
    assert_eq!(error("nor:1x2(a)"), "mtdparts: invalid number '1x2'");
    assert_eq!(
        error("nor:18446744073709551615k(a)"),
        "mtdparts: size overflow in '18446744073709551615k'"
    );
    assert_eq!(
        error("nor:1@18446744073709551615(a)"),
        "mtdparts: offset overflow at 'a'"
    );
}
