use leaflash::device::Capacity;
use leaflash::mtdparts;
use leaflash::search::{no_env_text, EnvSearch};
use leaflash::uboot::{
    build_jobs, candidate_names, check_flash, erase_mode, flash_jobs, job_text, mtdparts_from,
    mtdparts_of, order_jobs, sort_jobs, EnvImageError, EraseMode, Job, NorStep, PartFile,
    RangeError,
};
use leaflash::uboot_env::{EnvError, UbootEnv};

fn found(path: &str, len: usize) -> PartFile {
    PartFile::Found { path: path.to_string(), data: vec![7; len] }
}

fn job(name: &str, target_sector: u32, erase_sectors: u32, len: usize) -> Job {
    Job {
        name: name.to_string(),
        target_sector,
        erase_sectors,
        data: vec![1; len],
        file_path: format!("out/{name}.img"),
    }
}

fn build_error(list: &str, files: Vec<PartFile>, env_len: usize) -> String {
    let parts = mtdparts::parse(list).unwrap();
    build_jobs(&parts, &files, "out", "out/env.img", &vec![0; env_len])
        .jobs
        .unwrap_err()
        .message()
}

#[test]
fn partition_list_comes_from_the_environment() {
    let body = b"foo=bar\0mtdparts=nor:64K(env)\0\0";
    let mut image = crc32fast::hash(body).to_le_bytes().to_vec();
    image.extend_from_slice(body);
    assert_eq!(mtdparts_of(&image).unwrap(), "nor:64K(env)");
    assert_eq!(
        mtdparts_of(&[1, 2]).unwrap_err(),
        EnvImageError::Env(EnvError::TooSmall { len: 2 })
    );
    let empty = UbootEnv { vars: vec![] };
    let e = mtdparts_from(Ok(empty)).unwrap_err();
    assert_eq!(e, EnvImageError::NoMtdparts);
    assert_eq!(e.message(), "env.img has no `mtdparts` variable");
    assert_eq!(
        EnvImageError::Env(EnvError::TooSmall { len: 2 }).message(),
        "env image too small (2 bytes)"
    );
}

#[test]
fn jobs_are_built_for_the_files_that_are_there() {
    let parts = mtdparts::parse("nor:64K(env),128K(uboot),64K(logo)").unwrap();
    let files = vec![PartFile::Missing, found("out/uboot.img", 1000), PartFile::Missing];
    let built = build_jobs(&parts, &files, "out", "out/env.img", &vec![9; 512]);
    assert_eq!(
        built.skipped,
        vec!["Skipping partition 'logo': no 'logo.img' or 'logo' in out".to_string()]
    );
    let jobs = built.jobs.unwrap();
    assert_eq!(jobs.len(), 2);
    assert_eq!(jobs[0].name, "env");
    assert_eq!(jobs[0].file_path, "out/env.img");
    assert_eq!(jobs[0].data, vec![9; 512]);
    assert_eq!((jobs[0].target_sector, jobs[0].erase_sectors), (0, 128));
    assert_eq!(jobs[1].file_path, "out/uboot.img");
    assert_eq!((jobs[1].target_sector, jobs[1].erase_sectors), (128, 256));
    assert_eq!(jobs[1].data.len(), 1000);
    assert_eq!(
        candidate_names("uboot"),
        ("uboot.img".to_string(), "uboot".to_string())
    );
}

#[test]
fn bad_partitions_and_files_are_refused() {
    assert_eq!(
        build_error("nor:-(a)", vec![PartFile::Missing], 0),
        "partition 'a' has size '-' (rest of device); not supported"
    );
    assert_eq!(
        build_error("nor:1k@100(a)", vec![PartFile::Missing], 0),
        "partition 'a' offset 100 not sector-aligned"
    );
    assert_eq!(
        build_error("nor:1000(a)", vec![PartFile::Missing], 0),
        "partition 'a' size 1000 not sector-aligned"
    );
    assert_eq!(
        build_error("nor:1k(env)", vec![PartFile::Missing], 1025),
        "env.img (1025 bytes) exceeds partition 'env' (1024 bytes)"
    );
    assert_eq!(
        build_error("nor:1k(a)", vec![found("out/a", 1025)], 0),
        "out/a (1025 bytes) is larger than partition 'a' (1024 bytes)"
    );
    let unreadable = PartFile::Unreadable {
        path: "out/a.img".to_string(),
        reason: "denied".to_string(),
    };
    assert_eq!(
        build_error("nor:1k(a)", vec![unreadable], 0),
        "failed to read out/a.img: denied"
    );
}

#[test]
fn skipped_partitions_before_an_error_are_reported() {
    let parts = mtdparts::parse("nor:1k(a),100(b),1k(c)").unwrap();
    let files = vec![PartFile::Missing, PartFile::Missing, PartFile::Missing];
    let built = build_jobs(&parts, &files, "d", "d/env.img", &vec![]);
    assert_eq!(built.skipped.len(), 1);
    assert!(built.jobs.is_err());
}

#[test]
fn far_sectors_are_refused() {
    let far = |list: &str, file: PartFile| {
        let parts = mtdparts::parse(list).unwrap();
        build_jobs(&parts, &vec![file], "d", "d/env.img", &vec![])
    };
    // The last sector number that fits is 4294967295.
    let last = far("nor:1k@2199023255040(a)", found("a", 1)).jobs.unwrap();
    assert_eq!(last[0].target_sector, u32::MAX);
    for list in ["nor:1k@2199023255552(a)", "nor:2048g(a)", "nor:2048g(env)"] {
        let e = far(list, found("a", 1)).jobs.unwrap_err().message();
        assert!(e == "LBA overflow for a" || e == "LBA overflow for env");
    }
    // Without a file there is nothing to be placed.
    let skipped = far("nor:1k@2199023255552(a)", PartFile::Missing);
    assert_eq!(skipped.skipped.len(), 1);
    assert!(skipped.jobs.unwrap().is_empty());
}

#[test]
fn jobs_are_sorted_and_equal_ones_keep_their_order() {
    let jobs = vec![job("c", 5, 1, 1), job("a", 1, 1, 1), job("d", 5, 1, 1), job("b", 3, 1, 1)];
    let sorted = sort_jobs(jobs);
    let names: Vec<&str> = sorted.iter().map(|j| j.name.as_str()).collect();
    assert_eq!(names, ["a", "b", "c", "d"]);
    assert!(order_jobs(sorted, "out/env.img").is_ok());
    assert_eq!(
        order_jobs(vec![], "out/env.img").unwrap_err().message(),
        "no partition files found alongside out/env.img (looked for <name>.img and <name>)"
    );
}

#[test]
fn flash_is_checked_and_listed() {
    assert_eq!(
        check_flash(Capacity { sectors: 0, bytes: 0 }),
        Err("SPI NOR reports 0 sectors")
    );
    assert_eq!(
        check_flash(Capacity { sectors: 32768, bytes: 16_777_216 }),
        Ok("SPI NOR: 16384 KiB (32768 sectors)".to_string())
    );
    assert_eq!(
        job_text(&job("uboot", 128, 256, 1000)),
        "  uboot          LBA    128  partition   256 sectors  (1000 bytes from out/uboot.img)"
    );
}

#[test]
fn erase_mode_follows_the_capabilities() {
    let none = [0xfe, 0, 0, 0, 0, 0, 0, 0];
    let direct = [0x01, 0, 0, 0, 0, 0, 0, 0];
    assert_eq!(erase_mode("NOR  ", &none), EraseMode::Force);
    assert_eq!(erase_mode("EMMC ", &none), EraseMode::Lba);
    assert_eq!(erase_mode("EMMC", &none), EraseMode::Force);
    assert_eq!(erase_mode("NOR  ", &direct), EraseMode::Lba);
    assert_eq!(EraseMode::Force.max_blocks(), 1024);
    assert_eq!(EraseMode::Lba.max_blocks(), 32768);
}

#[test]
fn every_job_is_erased_and_written_in_full() {
    let jobs = vec![job("env", 0, 128, 512), job("uboot", 128, 1500, 150_000)];
    let plan = flash_jobs(&jobs, 32768, EraseMode::Force, true).unwrap();
    assert!(plan.error.is_none());
    let steps = plan.steps;
    assert_eq!(steps[0], NorStep::BeginErase { job: 0, total: 128 });
    assert!(matches!(
        steps[1],
        NorStep::EraseForce { chunk } if chunk.first == 0 && chunk.count == 128
    ));
    assert_eq!(steps[2], NorStep::EndErase);
    assert_eq!(steps[3], NorStep::BeginWrite { job: 0, offset: 0, total: 512 });
    assert_eq!(steps[5], NorStep::EndWrite);
    assert_eq!(steps[6], NorStep::BeginErase { job: 1, total: 1500 });
    assert!(matches!(
        steps[8],
        NorStep::EraseForce { chunk } if chunk.first == 1152 && chunk.count == 476
    ));
    assert_eq!(steps[10], NorStep::BeginWrite { job: 1, offset: 65536, total: 150_000 });
    let mut written = 0;
    for s in &steps {
        if let NorStep::Write { job: 1, piece } = s {
            assert_eq!(piece.from, written);
            assert!(piece.len <= 65536);
            written += piece.len;
        }
    }
    assert_eq!(written, 150_000);
    assert_eq!(steps[steps.len() - 1], NorStep::Reset);
    let quiet = flash_jobs(&jobs, 32768, EraseMode::Lba, false).unwrap();
    assert_eq!(quiet.steps[quiet.steps.len() - 1], NorStep::EndWrite);
    assert!(matches!(
        quiet.steps[7],
        NorStep::EraseLba { chunk } if chunk.first == 128 && chunk.count == 1500
    ));
}

#[test]
fn jobs_without_a_place_stop_the_flash_after_the_earlier_ones() {
    let jobs = vec![job("env", 0, 128, 512), job("big", 128, 40_000, 1)];
    let plan = flash_jobs(&jobs, 32768, EraseMode::Force, true).unwrap();
    let e = plan.error.unwrap();
    assert_eq!(e, RangeError::Exceeds { job: 1, end: 40_128 });
    assert_eq!(plan.steps.len(), 6);
    assert_eq!(
        e.message(&jobs[e.job()], 32768),
        "big (LBA 128..40128) exceeds SPI NOR size (32768 sectors)"
    );
    let jobs = vec![job("far", u32::MAX, 1, 1)];
    let plan = flash_jobs(&jobs, 32768, EraseMode::Force, true).unwrap();
    assert_eq!(plan.error, Some(RangeError::Overflow { job: 0 }));
    assert!(plan.steps.is_empty());
    assert_eq!(
        RangeError::Overflow { job: 0 }.message(&jobs[0], 32768),
        "LBA overflow for far"
    );
}

#[test]
fn flash_without_sectors_is_refused() {
    let refused = flash_jobs(&vec![], 0, EraseMode::Force, true);
    assert_eq!(refused.unwrap_err(), "SPI NOR reports 0 sectors");
    let nothing = vec![job("empty", 0, 0, 0)];
    assert!(flash_jobs(&nothing, 0, EraseMode::Lba, false).is_err());
    assert!(flash_jobs(&nothing, 1, EraseMode::Lba, false).is_ok());
}

#[test]
fn search_goes_down_in_order() {
    // 0 has the children 1 and 2, 1 has the child 3.
    let children = |id: usize| match id {
        0 => vec![1, 2],
        1 => vec![3],
        _ => vec![],
    };
    let mut search = EnvSearch::start(0);
    let mut seen = vec![];
    while let Some(dir) = search.next() {
        seen.push((dir.id, dir.depth));
        search.not_here(&children(dir.id));
    }
    assert_eq!(seen, [(0, 4), (1, 3), (3, 2), (2, 3)]);
    assert_eq!(
        no_env_text("out"),
        "no env.img found under out (searched 4 levels deep)"
    );
}

#[test]
fn search_stops_four_levels_down() {
    let mut search = EnvSearch::start(0);
    let mut seen = vec![];
    while let Some(dir) = search.next() {
        seen.push(dir.depth);
        search.not_here(&vec![dir.id + 1]);
    }
    assert_eq!(seen, [4, 3, 2, 1, 0]);
}
