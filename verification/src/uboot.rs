//! Flashing an image set to the device's SPI NOR.
//!
//! The artifact directory must contain `env.img` (a U-Boot environment image whose `mtdparts`
//! declares the SPI-NOR layout) plus one `<name>.img` (or just `<name>`) per declared
//! partition. Each partition file is written at the offset that mtdparts assigns it.
//!
//! If `env.img` isn't directly inside the artifact dir, subdirs are searched up to a few
//! levels deep; partition files are looked up next to whichever env.img was found.

use crate::device::{direct_lba, Capacity};
use crate::flash::SECTOR_SIZE;
use crate::mtdparts;
use crate::plan::{erase_chunks, erase_in_chunks, EraseChunk};
use crate::plan_laws::law_erase_chunks;
use crate::text::{
    decimal, decimal_text, pad_left, pad_right, padded_left, padded_right, same_text, texts,
};
use crate::uboot_env;
use crate::uboot_env::{crc32_of, env_with_crc, lookup, EnvError};
use vstd::prelude::*;

verus! {

/// The options of the `uboot` command.
#[derive(Debug)]
pub struct UbootArgs {
    /// Artifact directory. Must contain `env.img` plus the per-partition `.img` files.
    pub artifact_dir: String,
    /// Skip the device reset that runs after a successful flash.
    /// Default behaviour is to reset so the device reboots into the
    /// freshly-written firmware.
    pub no_reset: bool,
}

/// Why an environment image gives no partition list.
#[derive(Debug, Clone, Copy, PartialEq, Eq, Structural)]
pub enum EnvImageError {
    Env(EnvError),
    NoMtdparts,
}

impl EnvImageError {
    /// The text of an error.
    pub open spec fn spec_message(self) -> Seq<char> {
        match self {
            EnvImageError::Env(e) => e.spec_message(),
            EnvImageError::NoMtdparts => "env.img has no `mtdparts` variable"@,
        }
    }

    /// The text of this error.
    pub fn message(&self) -> (r: String)
        ensures
            r@ == self.spec_message(),
    {
        match self {
            EnvImageError::Env(e) => e.message(),
            EnvImageError::NoMtdparts => "env.img has no `mtdparts` variable".to_owned(),
        }
    }
}

/// The partition list among the variables of an environment.
pub open spec fn mtdparts_in(vars: Result<Seq<(Seq<char>, Seq<char>)>, EnvError>) -> Result<
    Seq<char>,
    EnvImageError,
> {
    match vars {
        Err(e) => Err(EnvImageError::Env(e)),
        Ok(vars) => match lookup(vars, "mtdparts"@) {
            Some(value) => Ok(value),
            None => Err(EnvImageError::NoMtdparts),
        },
    }
}

/// The partition list in an environment that was parsed.
pub fn mtdparts_from(env: Result<uboot_env::UbootEnv, EnvError>) -> (r: Result<
    String,
    EnvImageError,
>)
    ensures
        match (r, mtdparts_in(
            match env {
                Ok(e) => Ok(e@),
                Err(e) => Err(e),
            },
        )) {
            (Ok(s), Ok(value)) => s@ == value,
            (Err(e), Err(expected)) => e == expected,
            _ => false,
        },
{
    match env {
        Err(e) => Err(EnvImageError::Env(e)),
        Ok(e) => match e.get("mtdparts") {
            Some(value) => Ok(value.to_owned()),
            None => Err(EnvImageError::NoMtdparts),
        },
    }
}

/// The partition list in an environment image.
pub fn mtdparts_of(image: &[u8]) -> (r: Result<String, EnvImageError>)
    ensures
        match (r, mtdparts_in(env_with_crc(image@, crc32_of(image@.skip(4))))) {
            (Ok(s), Ok(value)) => s@ == value,
            (Err(e), Err(expected)) => e == expected,
            _ => false,
        },
{
    mtdparts_from(uboot_env::parse(image))
}

/// A partition file and where it goes.
#[derive(Debug)]
pub struct Job {
    pub name: String,
    pub target_sector: u32,
    pub erase_sectors: u32,
    pub data: Vec<u8>,
    pub file_path: String,
}

/// What a [`Job`] holds.
pub struct JobView {
    pub name: Seq<char>,
    pub target_sector: u32,
    pub erase_sectors: u32,
    pub data: Seq<u8>,
    pub file_path: Seq<char>,
}

impl View for Job {
    type V = JobView;

    open spec fn view(&self) -> JobView {
        JobView {
            name: self.name@,
            target_sector: self.target_sector,
            erase_sectors: self.erase_sectors,
            data: self.data@,
            file_path: self.file_path@,
        }
    }
}

/// What the jobs of a list hold.
pub open spec fn job_views(jobs: Seq<Job>) -> Seq<JobView> {
    jobs.map_values(|j: Job| j@)
}

/// What a look for a partition's file found.
#[derive(Debug)]
pub enum PartFile {
    Missing,
    Unreadable { path: String, reason: String },
    Found { path: String, data: Vec<u8> },
}

/// Why no image set is flashed. `T` is the type of the pieces of text it quotes.
#[derive(Debug)]
pub enum JobError<T> {
    RestOfDevice { name: T },
    OffsetUnaligned { name: T, offset: u64 },
    SizeUnaligned { name: T, size: u64 },
    EnvTooLarge { len: u64, name: T, size: u64 },
    Unreadable { path: T, reason: T },
    TooLarge { path: T, len: u64, name: T, size: u64 },
    LbaOverflow { name: T },
    NoFiles { env_path: T },
}

impl View for JobError<String> {
    type V = JobError<Seq<char>>;

    open spec fn view(&self) -> JobError<Seq<char>> {
        match self {
            JobError::RestOfDevice { name } => JobError::RestOfDevice { name: name@ },
            JobError::OffsetUnaligned { name, offset } => JobError::OffsetUnaligned {
                name: name@,
                offset: *offset,
            },
            JobError::SizeUnaligned { name, size } => JobError::SizeUnaligned {
                name: name@,
                size: *size,
            },
            JobError::EnvTooLarge { len, name, size } => JobError::EnvTooLarge {
                len: *len,
                name: name@,
                size: *size,
            },
            JobError::Unreadable { path, reason } => JobError::Unreadable {
                path: path@,
                reason: reason@,
            },
            JobError::TooLarge { path, len, name, size } => JobError::TooLarge {
                path: path@,
                len: *len,
                name: name@,
                size: *size,
            },
            JobError::LbaOverflow { name } => JobError::LbaOverflow { name: name@ },
            JobError::NoFiles { env_path } => JobError::NoFiles { env_path: env_path@ },
        }
    }
}

/// The text of an error.
pub open spec fn message_of(e: JobError<Seq<char>>) -> Seq<char> {
    match e {
        JobError::RestOfDevice { name } => "partition '"@ + name
            + "' has size '-' (rest of device); not supported"@,
        JobError::OffsetUnaligned { name, offset } => "partition '"@ + name + "' offset "@
            + decimal(offset as nat) + " not sector-aligned"@,
        JobError::SizeUnaligned { name, size } => "partition '"@ + name + "' size "@ + decimal(
            size as nat,
        ) + " not sector-aligned"@,
        JobError::EnvTooLarge { len, name, size } => "env.img ("@ + decimal(len as nat)
            + " bytes) exceeds partition '"@ + name + "' ("@ + decimal(size as nat) + " bytes)"@,
        JobError::Unreadable { path, reason } => "failed to read "@ + path + ": "@ + reason,
        JobError::TooLarge { path, len, name, size } => path + " ("@ + decimal(len as nat)
            + " bytes) is larger than partition '"@ + name + "' ("@ + decimal(size as nat)
            + " bytes)"@,
        JobError::LbaOverflow { name } => "LBA overflow for "@ + name,
        JobError::NoFiles { env_path } => "no partition files found alongside "@ + env_path
            + " (looked for <name>.img and <name>)"@,
    }
}

impl JobError<String> {
    /// The text of this error.
    pub fn message(&self) -> (r: String)
        ensures
            r@ == message_of(self@),
    {
        match self {
            JobError::RestOfDevice { name } => {
                let mut r: String = "partition '".to_owned();
                r.append(name);
                r.append("' has size '-' (rest of device); not supported");
                r
            },
            JobError::OffsetUnaligned { name, offset } => {
                let mut r: String = "partition '".to_owned();
                r.append(name);
                r.append("' offset ");
                r.append(&decimal_text(*offset));
                r.append(" not sector-aligned");
                r
            },
            JobError::SizeUnaligned { name, size } => {
                let mut r: String = "partition '".to_owned();
                r.append(name);
                r.append("' size ");
                r.append(&decimal_text(*size));
                r.append(" not sector-aligned");
                r
            },
            JobError::EnvTooLarge { len, name, size } => {
                let mut r: String = "env.img (".to_owned();
                r.append(&decimal_text(*len));
                r.append(" bytes) exceeds partition '");
                r.append(name);
                r.append("' (");
                r.append(&decimal_text(*size));
                r.append(" bytes)");
                r
            },
            JobError::Unreadable { path, reason } => {
                let mut r: String = "failed to read ".to_owned();
                r.append(path);
                r.append(": ");
                r.append(reason);
                r
            },
            JobError::TooLarge { path, len, name, size } => {
                let mut r: String = path.clone();
                r.append(" (");
                r.append(&decimal_text(*len));
                r.append(" bytes) is larger than partition '");
                r.append(name);
                r.append("' (");
                r.append(&decimal_text(*size));
                r.append(" bytes)");
                r
            },
            JobError::LbaOverflow { name } => {
                let mut r: String = "LBA overflow for ".to_owned();
                r.append(name);
                r
            },
            JobError::NoFiles { env_path } => {
                let mut r: String = "no partition files found alongside ".to_owned();
                r.append(env_path);
                r.append(" (looked for <name>.img and <name>)");
                r
            },
        }
    }
}

/// The names under which a partition's file is looked for, in this order.
pub fn candidate_names(name: &str) -> (r: (String, String))
    ensures
        r.0@ == name@ + ".img"@,
        r.1@ == name@,
{
    let mut first: String = name.to_owned();
    first.append(".img");
    (first, name.to_owned())
}

/// The line about a partition without a file.
pub open spec fn skip_line(name: Seq<char>, dir: Seq<char>) -> Seq<char> {
    "Skipping partition '"@ + name + "': no '"@ + name + ".img' or '"@ + name + "' in "@ + dir
}

/// The line about a partition without a file.
pub fn skip_text(name: &str, dir: &str) -> (r: String)
    ensures
        r@ == skip_line(name@, dir@),
{
    let mut r: String = "Skipping partition '".to_owned();
    r.append(name);
    r.append("': no '");
    r.append(name);
    r.append(".img' or '");
    r.append(name);
    r.append("' in ");
    r.append(dir);
    r
}

/// What is wrong with a partition, whatever its file holds; else its size.
pub open spec fn partition_size(p: mtdparts::PartitionView) -> Result<u64, JobError<Seq<char>>> {
    match p.size {
        None => Err(JobError::RestOfDevice { name: p.name }),
        Some(size) => if p.offset % SECTOR_SIZE != 0 {
            Err(JobError::OffsetUnaligned { name: p.name, offset: p.offset })
        } else if size % SECTOR_SIZE != 0 {
            Err(JobError::SizeUnaligned { name: p.name, size })
        } else {
            Ok(size)
        },
    }
}

/// The job that writes a file into a partition of the given size, at the offset that the
/// partition list assigns it. A partition whose sector numbers do not fit 32 bits cannot be
/// reached.
pub open spec fn job_to(
    p: mtdparts::PartitionView,
    size: u64,
    data: Seq<u8>,
    file_path: Seq<char>,
) -> Result<Option<JobView>, JobError<Seq<char>>> {
    if p.offset / SECTOR_SIZE > u32::MAX || size / SECTOR_SIZE > u32::MAX {
        Err(JobError::LbaOverflow { name: p.name })
    } else {
        Ok(
            Some(
                JobView {
                    name: p.name,
                    target_sector: (p.offset / SECTOR_SIZE) as u32,
                    erase_sectors: (size / SECTOR_SIZE) as u32,
                    data,
                    file_path,
                },
            ),
        )
    }
}

/// The job for a partition, none if there is no file for it. The env partition's data IS the
/// env image.
pub open spec fn job_for(
    p: mtdparts::PartitionView,
    file: PartFile,
    env_path: Seq<char>,
    env_data: Seq<u8>,
) -> Result<Option<JobView>, JobError<Seq<char>>> {
    match partition_size(p) {
        Err(e) => Err(e),
        Ok(size) => if p.name == "env"@ {
            if env_data.len() <= size {
                job_to(p, size, env_data, env_path)
            } else {
                Err(JobError::EnvTooLarge { len: env_data.len() as u64, name: p.name, size })
            }
        } else {
            match file {
                PartFile::Missing => Ok(None),
                PartFile::Unreadable { path, reason } => Err(
                    JobError::Unreadable { path: path@, reason: reason@ },
                ),
                PartFile::Found { path, data } => if data@.len() <= size {
                    job_to(p, size, data@, path@)
                } else {
                    Err(
                        JobError::TooLarge {
                            path: path@,
                            len: data@.len() as u64,
                            name: p.name,
                            size,
                        },
                    )
                },
            }
        },
    }
}

/// The lines about partitions without a file, and the jobs for the others or the first error.
/// Nothing comes behind an error.
pub open spec fn jobs_for(
    parts: Seq<mtdparts::PartitionView>,
    files: Seq<PartFile>,
    dir: Seq<char>,
    env_path: Seq<char>,
    env_data: Seq<u8>,
) -> (Seq<Seq<char>>, Result<Seq<JobView>, JobError<Seq<char>>>)
    decreases parts.len(),
{
    if parts.len() == 0 {
        (Seq::empty(), Ok(Seq::empty()))
    } else {
        let rest = jobs_for(parts.skip(1), files.skip(1), dir, env_path, env_data);
        match job_for(parts[0], files[0], env_path, env_data) {
            Err(e) => (Seq::empty(), Err(e)),
            Ok(None) => (seq![skip_line(parts[0].name, dir)] + rest.0, rest.1),
            Ok(Some(job)) => (
                rest.0,
                match rest.1 {
                    Ok(jobs) => Ok(seq![job] + jobs),
                    Err(e) => Err(e),
                },
            ),
        }
    }
}

/// What looking at the partitions gave.
#[derive(Debug)]
pub struct BuiltJobs {
    /// The lines about partitions without a file.
    pub skipped: Vec<String>,
    pub jobs: Result<Vec<Job>, JobError<String>>,
}

/// Check a partition, whatever its file holds, and return its size.
fn check_partition(p: &mtdparts::Partition) -> (r: Result<u64, JobError<String>>)
    ensures
        match r {
            Ok(size) => partition_size(p@) == Ok::<u64, JobError<Seq<char>>>(size),
            Err(e) => partition_size(p@) == Err::<u64, JobError<Seq<char>>>(e@),
        },
{
    let size: u64 = match p.size {
        None => {
            return Err(JobError::RestOfDevice { name: p.name.clone() });
        },
        Some(size) => size,
    };
    if p.offset % SECTOR_SIZE != 0 {
        return Err(JobError::OffsetUnaligned { name: p.name.clone(), offset: p.offset });
    }
    if size % SECTOR_SIZE != 0 {
        return Err(JobError::SizeUnaligned { name: p.name.clone(), size });
    }
    Ok(size)
}

/// A copy of the bytes.
fn copy_bytes(data: &Vec<u8>) -> (r: Vec<u8>)
    ensures
        r@ == data@,
{
    let r: Vec<u8> = data.clone();
    assert(r@ =~= data@);
    r
}

/// The job that writes a file into a partition of the given size.
fn make_job(p: &mtdparts::Partition, size: u64, data: &Vec<u8>, file_path: &str) -> (r: Result<
    Option<Job>,
    JobError<String>,
>)
    ensures
        match r {
            Ok(Some(job)) => job_to(p@, size, data@, file_path@) == Ok::<
                Option<JobView>,
                JobError<Seq<char>>,
            >(Some(job@)),
            Ok(None) => false,
            Err(e) => job_to(p@, size, data@, file_path@) == Err::<
                Option<JobView>,
                JobError<Seq<char>>,
            >(e@),
        },
{
    let target: u64 = p.offset / SECTOR_SIZE;
    let count: u64 = size / SECTOR_SIZE;
    if target > 0xFFFF_FFFF || count > 0xFFFF_FFFF {
        return Err(JobError::LbaOverflow { name: p.name.clone() });
    }
    Ok(
        Some(
            Job {
                name: p.name.clone(),
                target_sector: target as u32,
                erase_sectors: count as u32,
                data: copy_bytes(data),
                file_path: file_path.to_owned(),
            },
        ),
    )
}

/// The job for a partition, none if there is no file for it.
fn build_job(
    p: &mtdparts::Partition,
    file: &PartFile,
    env_path: &str,
    env_data: &Vec<u8>,
) -> (r: Result<Option<Job>, JobError<String>>)
    ensures
        match r {
            Ok(None) => job_for(p@, *file, env_path@, env_data@) == Ok::<
                Option<JobView>,
                JobError<Seq<char>>,
            >(None),
            Ok(Some(job)) => job_for(p@, *file, env_path@, env_data@) == Ok::<
                Option<JobView>,
                JobError<Seq<char>>,
            >(Some(job@)),
            Err(e) => job_for(p@, *file, env_path@, env_data@) == Err::<
                Option<JobView>,
                JobError<Seq<char>>,
            >(e@),
        },
{
    let size: u64 = match check_partition(p) {
        Ok(size) => size,
        Err(e) => {
            return Err(e);
        },
    };
    if same_text(&p.name, "env") {
        let len: u64 = env_data.len() as u64;
        if len > size {
            return Err(JobError::EnvTooLarge { len, name: p.name.clone(), size });
        }
        return make_job(p, size, env_data, env_path);
    }
    match file {
        PartFile::Missing => Ok(None),
        PartFile::Unreadable { path, reason } => Err(
            JobError::Unreadable { path: path.clone(), reason: reason.clone() },
        ),
        PartFile::Found { path, data } => {
            let len: u64 = data.len() as u64;
            if len > size {
                return Err(
                    JobError::TooLarge { path: path.clone(), len, name: p.name.clone(), size },
                );
            }
            make_job(p, size, data, path)
        },
    }
}

/// Turn the declared partitions and their files, one for each, into jobs.
pub fn build_jobs(
    parts: &Vec<mtdparts::Partition>,
    files: &Vec<PartFile>,
    dir: &str,
    env_path: &str,
    env_data: &Vec<u8>,
) -> (r: BuiltJobs)
    requires
        parts@.len() == files@.len(),
    ensures
        texts(r.skipped@) == jobs_for(
            mtdparts::views(parts@),
            files@,
            dir@,
            env_path@,
            env_data@,
        ).0,
        match (
            r.jobs,
            jobs_for(mtdparts::views(parts@), files@, dir@, env_path@, env_data@).1,
        ) {
            (Ok(jobs), Ok(expected)) => job_views(jobs@) == expected,
            (Err(e), Err(expected)) => e@ == expected,
            _ => false,
        },
{
    let mut skipped: Vec<String> = Vec::new();
    let mut jobs: Vec<Job> = Vec::new();
    let mut i: usize = 0;
    let ghost views = mtdparts::views(parts@);
    let ghost all = jobs_for(views, files@, dir@, env_path@, env_data@);
    proof {
        assert(views.skip(0) =~= views);
        assert(files@.skip(0) =~= files@);
        assert(texts(skipped@) + all.0 =~= all.0);
        assert(all.1 is Ok ==> job_views(jobs@) + all.1->Ok_0 =~= all.1->Ok_0);
    }
    while i < parts.len()
        invariant
            i <= parts.len(),
            parts@.len() == files@.len(),
            views == mtdparts::views(parts@),
            all == jobs_for(views, files@, dir@, env_path@, env_data@),
            ({
                let rest = jobs_for(
                    views.skip(i as int),
                    files@.skip(i as int),
                    dir@,
                    env_path@,
                    env_data@,
                );
                &&& all.0 == texts(skipped@) + rest.0
                &&& match rest.1 {
                    Ok(tail) => all.1 == Ok::<Seq<JobView>, JobError<Seq<char>>>(
                        job_views(jobs@) + tail,
                    ),
                    Err(e) => all.1 == Err::<Seq<JobView>, JobError<Seq<char>>>(e),
                }
            }),
        decreases parts.len() - i,
    {
        let ghost rest = jobs_for(
            views.skip(i as int),
            files@.skip(i as int),
            dir@,
            env_path@,
            env_data@,
        );
        let ghost next = jobs_for(views.skip(i + 1), files@.skip(i + 1), dir@, env_path@, env_data@);
        proof {
            assert(views.skip(i as int)[0] == parts@[i as int]@);
            assert(files@.skip(i as int)[0] == files@[i as int]);
            assert(views.skip(i as int).skip(1) =~= views.skip(i + 1));
            assert(files@.skip(i as int).skip(1) =~= files@.skip(i + 1));
        }
        match build_job(&parts[i], &files[i], env_path, env_data) {
            Err(e) => {
                assert(texts(skipped@) + rest.0 =~= texts(skipped@));
                return BuiltJobs { skipped, jobs: Err(e) };
            },
            Ok(None) => {
                let ghost before = skipped@;
                let line: String = skip_text(&parts[i].name, dir);
                skipped.push(line);
                assert(texts(skipped@) =~= texts(before).push(line@));
                assert(texts(before) + (seq![line@] + next.0) =~= texts(skipped@) + next.0);
            },
            Ok(Some(job)) => {
                let ghost before = jobs@;
                jobs.push(job);
                proof {
                    assert(job_views(jobs@) =~= job_views(before).push(job@));
                    if next.1 is Ok {
                        assert(job_views(before) + (seq![job@] + next.1->Ok_0) =~= job_views(jobs@)
                            + next.1->Ok_0);
                    }
                }
            },
        }
        i = i + 1;
    }
    assert(views.skip(i as int).len() == 0);
    assert(texts(skipped@) + Seq::<Seq<char>>::empty() =~= texts(skipped@));
    assert(job_views(jobs@) + Seq::<JobView>::empty() =~= job_views(jobs@));
    BuiltJobs { skipped, jobs: Ok(jobs) }
}

/// The jobs for one target sector, in their order.
pub open spec fn jobs_at(jobs: Seq<Job>, sector: u32) -> Seq<Job> {
    jobs.filter(|j: Job| j.target_sector == sector)
}

/// Whether no job comes behind one with a higher target sector.
pub open spec fn in_order(jobs: Seq<Job>) -> bool {
    forall|i: int, j: int|
        0 <= i <= j < jobs.len() ==> (#[trigger] jobs[i]).target_sector <= (
        #[trigger] jobs[j]).target_sector
}

/// A job put behind all those with no higher target sector changes only the jobs for its own
/// target sector: it is the last of them.
proof fn lemma_insert(sorted: Seq<Job>, at: int, job: Job, sector: u32)
    requires
        0 <= at <= sorted.len(),
        forall|i: int| at <= i < sorted.len() ==> (#[trigger] sorted[i]).target_sector
            > job.target_sector,
    ensures
        jobs_at(sorted.insert(at, job), sector) == (if job.target_sector == sector {
            jobs_at(sorted, sector).push(job)
        } else {
            jobs_at(sorted, sector)
        }),
{
    let pred = |j: Job| j.target_sector == sector;
    let low = sorted.take(at);
    let high = sorted.skip(at);
    let one = seq![job];
    assert(sorted =~= low + high);
    assert(sorted.insert(at, job) =~= low + one + high);
    Seq::filter_distributes_over_add(low, high, pred);
    Seq::filter_distributes_over_add(low + one, high, pred);
    Seq::filter_distributes_over_add(low, one, pred);
    reveal_with_fuel(Seq::filter, 2);
    assert(one.drop_last() =~= Seq::<Job>::empty());
    assert(one.filter(pred) =~= (if job.target_sector == sector {
        one
    } else {
        Seq::empty()
    }));
    if job.target_sector == sector {
        lemma_none_at(high, sector);
        assert(low.filter(pred) + one + high.filter(pred) =~= (low.filter(pred) + high.filter(
            pred,
        )).push(job));
    } else {
        assert(low.filter(pred) + Seq::<Job>::empty() + high.filter(pred) =~= low.filter(pred)
            + high.filter(pred));
    }
}

/// Where no job has the target sector, there are none for it.
proof fn lemma_none_at(jobs: Seq<Job>, sector: u32)
    requires
        forall|i: int| 0 <= i < jobs.len() ==> (#[trigger] jobs[i]).target_sector != sector,
    ensures
        jobs_at(jobs, sector) == Seq::<Job>::empty(),
    decreases jobs.len(),
{
    reveal_with_fuel(Seq::filter, 2);
    if jobs.len() > 0 {
        assert forall|i: int| 0 <= i < jobs.drop_last().len() implies (
        #[trigger] jobs.drop_last()[i]).target_sector != sector by {
            assert(jobs[i].target_sector != sector);
        }
        lemma_none_at(jobs.drop_last(), sector);
    }
}

/// Put the jobs in the order of their target sectors. Jobs for one target sector stay in the
/// order they had.
pub fn sort_jobs(jobs: Vec<Job>) -> (r: Vec<Job>)
    ensures
        in_order(r@),
        r@.len() == jobs@.len(),
        forall|sector: u32| #[trigger] jobs_at(r@, sector) == jobs_at(jobs@, sector),
{
    let ghost all = jobs@;
    let mut waiting: Vec<Job> = jobs;
    let mut sorted: Vec<Job> = Vec::new();
    assert(all =~= all.take(0) + waiting@);
    assert(all.take(0) =~= Seq::<Job>::empty());
    while waiting.len() > 0
        invariant
            sorted@.len() + waiting@.len() == all.len(),
            waiting@ == all.skip(sorted@.len() as int),
            in_order(sorted@),
            forall|sector: u32| #[trigger]
                jobs_at(sorted@, sector) == jobs_at(all.take(sorted@.len() as int), sector),
        decreases waiting.len(),
    {
        let ghost done = sorted@.len() as int;
        let job: Job = waiting.remove(0);
        assert(waiting@ =~= all.skip(done + 1));
        let mut at: usize = sorted.len();
        while at > 0 && sorted[at - 1].target_sector > job.target_sector
            invariant
                at <= sorted.len(),
                forall|i: int| at <= i < sorted@.len() ==> (#[trigger] sorted@[i]).target_sector
                    > job.target_sector,
            decreases at,
        {
            at = at - 1;
        }
        let ghost before = sorted@;
        sorted.insert(at, job);
        proof {
            assert(sorted@ == before.insert(at as int, job));
            assert forall|i: int, j: int| 0 <= i <= j < sorted@.len() implies (
            #[trigger] sorted@[i]).target_sector <= (#[trigger] sorted@[j]).target_sector by {
                let i0 = if i > at {
                    i - 1
                } else {
                    i
                };
                let j0 = if j > at {
                    j - 1
                } else {
                    j
                };
                if i != at {
                    assert(sorted@[i] == before[i0]);
                }
                if j != at {
                    assert(sorted@[j] == before[j0]);
                }
                if i == at && j != at {
                    assert(before[j0].target_sector > job.target_sector);
                } else if j == at && i != at {
                    assert(before[i0].target_sector <= before[at - 1].target_sector);
                }
            }
            assert forall|sector: u32| #[trigger]
                jobs_at(sorted@, sector) == jobs_at(all.take(done + 1), sector) by {
                lemma_insert(before, at as int, job, sector);
                assert(jobs_at(before, sector) == jobs_at(all.take(done), sector));
                assert(all.take(done + 1).drop_last() =~= all.take(done));
                assert(all.take(done + 1).last() == job);
                reveal_with_fuel(Seq::filter, 2);
            }
        }
    }
    assert(all.take(sorted@.len() as int) =~= all);
    sorted
}

/// Put the jobs in order; without any there is nothing to flash.
pub fn order_jobs(jobs: Vec<Job>, env_path: &str) -> (r: Result<Vec<Job>, JobError<String>>)
    ensures
        match r {
            Ok(sorted) => {
                &&& jobs@.len() > 0
                &&& in_order(sorted@)
                &&& sorted@.len() == jobs@.len()
                &&& forall|sector: u32| #[trigger]
                    jobs_at(sorted@, sector) == jobs_at(jobs@, sector)
            },
            Err(e) => jobs@.len() == 0 && e@ == (JobError::NoFiles { env_path: env_path@ }),
        },
{
    let sorted: Vec<Job> = sort_jobs(jobs);
    if sorted.len() == 0 {
        return Err(JobError::NoFiles { env_path: env_path.to_owned() });
    }
    Ok(sorted)
}

/// The line about the size of the flash.
pub open spec fn size_line(flash: Capacity) -> Seq<char> {
    "SPI NOR: "@ + decimal((flash.bytes / 1024) as nat) + " KiB ("@ + decimal(flash.sectors as nat)
        + " sectors)"@
}

/// The line about the size of the flash, or the error that it has none.
pub fn check_flash(flash: Capacity) -> (r: Result<String, &'static str>)
    ensures
        match r {
            Ok(line) => flash.sectors > 0 && line@ == size_line(flash),
            Err(e) => flash.sectors == 0 && e@ == "SPI NOR reports 0 sectors"@,
        },
{
    if flash.sectors == 0 {
        return Err("SPI NOR reports 0 sectors");
    }
    let mut r: String = "SPI NOR: ".to_owned();
    r.append(&decimal_text(flash.bytes / 1024));
    r.append(" KiB (");
    r.append(&decimal_text(flash.sectors as u64));
    r.append(" sectors)");
    Ok(r)
}

/// How sectors are erased. SPI NOR is non-eMMC + non-direct-LBA, so it must be erased by
/// force in chunks of 1024 sectors; eMMC / direct-LBA can take LBA erases of 32K sectors.
#[derive(Debug, Clone, Copy, PartialEq, Eq, Structural)]
pub enum EraseMode {
    Lba,
    Force,
}

impl EraseMode {
    /// The most sectors that one erase command takes.
    pub open spec fn spec_max_blocks(self) -> u32 {
        match self {
            EraseMode::Lba => 0x8000,
            EraseMode::Force => 1024,
        }
    }

    /// The most sectors that one erase command takes.
    pub fn max_blocks(&self) -> (r: u32)
        ensures
            r == self.spec_max_blocks(),
    {
        match self {
            EraseMode::Lba => 0x8000,
            EraseMode::Force => 1024,
        }
    }
}

/// The way to erase a flash with the given identifier and capabilities.
pub open spec fn mode_for(flash_id: Seq<char>, capability: Seq<u8>) -> EraseMode {
    if flash_id == "EMMC "@ || capability[0] & 1u8 == 1u8 {
        EraseMode::Lba
    } else {
        EraseMode::Force
    }
}

/// The way to erase a flash with the given identifier and capabilities.
pub fn erase_mode(flash_id: &str, capability: &[u8; 8]) -> (r: EraseMode)
    ensures
        r == mode_for(flash_id@, capability@),
{
    let is_emmc: bool = same_text(flash_id, "EMMC ");
    let is_lba: bool = direct_lba(capability);
    if is_emmc || is_lba {
        EraseMode::Lba
    } else {
        EraseMode::Force
    }
}

/// The line that lists a job.
pub open spec fn job_line(job: JobView) -> Seq<char> {
    "  "@ + padded_right(job.name, 14) + " LBA "@ + padded_left(
        decimal(job.target_sector as nat),
        6,
    ) + "  partition "@ + padded_left(decimal(job.erase_sectors as nat), 5) + " sectors  ("@
        + decimal(job.data.len()) + " bytes from "@ + job.file_path + ")"@
}

/// The line that lists a job.
pub fn job_text(job: &Job) -> (r: String)
    ensures
        r@ == job_line(job@),
{
    let mut r: String = "  ".to_owned();
    r.append(&pad_right(&job.name, 14));
    r.append(" LBA ");
    r.append(&pad_left(&decimal_text(job.target_sector as u64), 6));
    r.append("  partition ");
    r.append(&pad_left(&decimal_text(job.erase_sectors as u64), 5));
    r.append(" sectors  (");
    r.append(&decimal_text(job.data.len() as u64));
    r.append(" bytes from ");
    r.append(&job.file_path);
    r.append(")");
    r
}

/// Why a job is not done. The index is that of the job.
#[derive(Debug, Clone, Copy, PartialEq, Eq, Structural)]
pub enum RangeError {
    Overflow { job: usize },
    Exceeds { job: usize, end: u32 },
}

/// The text of an error about the given job on a flash of `sectors` sectors.
pub open spec fn range_message(e: RangeError, job: JobView, sectors: u32) -> Seq<char> {
    match e {
        RangeError::Overflow { .. } => "LBA overflow for "@ + job.name,
        RangeError::Exceeds { end, .. } => job.name + " (LBA "@ + decimal(job.target_sector as nat)
            + ".."@ + decimal(end as nat) + ") exceeds SPI NOR size ("@ + decimal(sectors as nat)
            + " sectors)"@,
    }
}

impl RangeError {
    /// The job that is not done.
    pub open spec fn spec_job(self) -> usize {
        match self {
            RangeError::Overflow { job } => job,
            RangeError::Exceeds { job, .. } => job,
        }
    }

    /// The job that is not done.
    pub fn job(&self) -> (r: usize)
        ensures
            r == self.spec_job(),
    {
        match self {
            RangeError::Overflow { job } => *job,
            RangeError::Exceeds { job, .. } => *job,
        }
    }

    /// The text of this error about the given job on a flash of `sectors` sectors.
    pub fn message(&self, job: &Job, sectors: u32) -> (r: String)
        ensures
            r@ == range_message(*self, job@, sectors),
    {
        match self {
            RangeError::Overflow { .. } => {
                let mut r: String = "LBA overflow for ".to_owned();
                r.append(&job.name);
                r
            },
            RangeError::Exceeds { end, .. } => {
                let mut r: String = job.name.clone();
                r.append(" (LBA ");
                r.append(&decimal_text(job.target_sector as u64));
                r.append("..");
                r.append(&decimal_text(*end as u64));
                r.append(") exceeds SPI NOR size (");
                r.append(&decimal_text(sectors as u64));
                r.append(" sectors)");
                r
            },
        }
    }
}

/// Bytes of a job's data that are written at once.
#[derive(Debug, Clone, Copy, PartialEq, Eq, Structural)]
pub struct WriteChunk {
    pub from: usize,
    pub len: usize,
}

/// One step of flashing the jobs. A job is named by its index.
#[derive(Debug, Clone, Copy, PartialEq, Eq, Structural)]
pub enum NorStep {
    /// Start the progress bar of a job's erase.
    BeginErase { job: usize, total: u64 },
    /// Erase the sectors, and advance the progress bar by their number.
    EraseLba { chunk: EraseChunk },
    /// Erase the sectors by force, and advance the progress bar by their number.
    EraseForce { chunk: EraseChunk },
    /// Close the progress bar of an erase.
    EndErase,
    /// Go to the byte offset, and start the progress bar of a job's write.
    BeginWrite { job: usize, offset: u64, total: u64 },
    /// Write the bytes of the job's data, and advance the progress bar by their number.
    Write { job: usize, piece: WriteChunk },
    /// Make sure that everything written has reached the flash, and close the progress bar.
    EndWrite,
    /// Report and do a reset of the device.
    Reset,
}

/// The most bytes that are written at once.
pub const WRITE_CHUNK: usize = 0x1_0000;

/// The pieces in which `len` bytes are written, from byte `from` on.
pub open spec fn write_chunks(from: nat, len: nat) -> Seq<WriteChunk>
    decreases len - from,
{
    if from >= len {
        Seq::empty()
    } else {
        let n = if len - from < WRITE_CHUNK {
            (len - from) as nat
        } else {
            WRITE_CHUNK as nat
        };
        seq![WriteChunk { from: from as usize, len: n as usize }] + write_chunks(from + n, len)
    }
}

/// The erase command for a chunk.
pub open spec fn erase_step(mode: EraseMode, chunk: EraseChunk) -> NorStep {
    match mode {
        EraseMode::Lba => NorStep::EraseLba { chunk },
        EraseMode::Force => NorStep::EraseForce { chunk },
    }
}

/// The steps that erase the sectors of a job.
pub open spec fn erase_range_steps(job: JobView, index: usize, mode: EraseMode) -> Seq<NorStep> {
    seq![NorStep::BeginErase { job: index, total: job.erase_sectors as u64 }] + erase_chunks(
        job.target_sector as nat,
        job.erase_sectors as nat,
        mode.spec_max_blocks() as nat,
    ).map_values(|c: EraseChunk| erase_step(mode, c)) + seq![NorStep::EndErase]
}

/// The steps that write the data of a job.
pub open spec fn write_data_steps(job: JobView, index: usize) -> Seq<NorStep> {
    seq![
        NorStep::BeginWrite {
            job: index,
            offset: (job.target_sector * SECTOR_SIZE) as u64,
            total: job.data.len() as u64,
        },
    ] + write_chunks(0, job.data.len()).map_values(
        |c: WriteChunk| NorStep::Write { job: index, piece: c },
    ) + seq![NorStep::EndWrite]
}

/// What is wrong with the place of a job on a flash of `sectors` sectors.
pub open spec fn range_error(job: JobView, index: usize, sectors: u32) -> Option<RangeError> {
    let end = job.target_sector + job.erase_sectors;
    if end > u32::MAX {
        Some(RangeError::Overflow { job: index })
    } else if end > sectors {
        Some(RangeError::Exceeds { job: index, end: end as u32 })
    } else {
        None
    }
}

/// The steps for the jobs from the one with index `k` on, up to the first that has no place on
/// the flash, and what is wrong with that one.
pub open spec fn jobs_steps(jobs: Seq<JobView>, k: int, sectors: u32, mode: EraseMode) -> (
    Seq<NorStep>,
    Option<RangeError>,
)
    decreases jobs.len() - k,
{
    if k >= jobs.len() {
        (Seq::empty(), None)
    } else {
        match range_error(jobs[k], k as usize, sectors) {
            Some(e) => (Seq::empty(), Some(e)),
            None => {
                let rest = jobs_steps(jobs, k + 1, sectors, mode);
                (
                    erase_range_steps(jobs[k], k as usize, mode) + write_data_steps(
                        jobs[k],
                        k as usize,
                    ) + rest.0,
                    rest.1,
                )
            },
        }
    }
}

/// The steps of a flash, and what is wrong with the first job that has no place on the flash.
/// The reset comes only when all jobs are done.
pub open spec fn flash_steps(
    jobs: Seq<JobView>,
    sectors: u32,
    mode: EraseMode,
    reset_after: bool,
) -> (Seq<NorStep>, Option<RangeError>) {
    let (steps, error) = jobs_steps(jobs, 0, sectors, mode);
    if error is None && reset_after {
        (steps.push(NorStep::Reset), error)
    } else {
        (steps, error)
    }
}

/// Add the steps that erase the sectors of a job.
fn erase_range(steps: &mut Vec<NorStep>, job: &Job, index: usize, mode: EraseMode)
    requires
        job.target_sector + job.erase_sectors <= u32::MAX,
    ensures
        final(steps)@ == old(steps)@ + erase_range_steps(job@, index, mode),
{
    let ghost before = steps@;
    let begin: NorStep = NorStep::BeginErase { job: index, total: job.erase_sectors as u64 };
    steps.push(begin);
    let chunks: Vec<EraseChunk> = erase_in_chunks(
        job.target_sector,
        job.erase_sectors,
        mode.max_blocks(),
    );
    let ghost erases = chunks@.map_values(|c: EraseChunk| erase_step(mode, c));
    let mut i: usize = 0;
    assert(steps@ =~= before + seq![begin] + erases.take(0));
    while i < chunks.len()
        invariant
            i <= chunks.len(),
            erases == chunks@.map_values(|c: EraseChunk| erase_step(mode, c)),
            steps@ == before + seq![begin] + erases.take(i as int),
        decreases chunks.len() - i,
    {
        let chunk: EraseChunk = chunks[i];
        let step: NorStep = match mode {
            EraseMode::Lba => NorStep::EraseLba { chunk },
            EraseMode::Force => NorStep::EraseForce { chunk },
        };
        steps.push(step);
        assert(erases.take(i + 1) =~= erases.take(i as int).push(erases[i as int]));
        assert(steps@ =~= before + seq![begin] + erases.take(i + 1));
        i = i + 1;
    }
    assert(erases.take(i as int) =~= erases);
    steps.push(NorStep::EndErase);
    assert(steps@ =~= before + erase_range_steps(job@, index, mode));
}

/// Add the steps that write the data of a job.
fn write_data(steps: &mut Vec<NorStep>, job: &Job, index: usize)
    ensures
        final(steps)@ == old(steps)@ + write_data_steps(job@, index),
{
    let ghost before = steps@;
    let len: usize = job.data.len();
    let begin: NorStep = NorStep::BeginWrite {
        job: index,
        offset: job.target_sector as u64 * SECTOR_SIZE,
        total: len as u64,
    };
    steps.push(begin);
    let ghost all = write_chunks(0, len as nat).map_values(
        |c: WriteChunk| NorStep::Write { job: index, piece: c },
    );
    let mut written: usize = 0;
    assert(steps@ + all =~= before + seq![begin] + all);
    while written < len
        invariant
            written <= len,
            all == write_chunks(0, len as nat).map_values(
                |c: WriteChunk| NorStep::Write { job: index, piece: c },
            ),
            steps@ + write_chunks(written as nat, len as nat).map_values(
                |c: WriteChunk| NorStep::Write { job: index, piece: c },
            ) == before + seq![begin] + all,
        decreases len - written,
    {
        let n: usize = if len - written < WRITE_CHUNK {
            len - written
        } else {
            WRITE_CHUNK
        };
        let chunk: WriteChunk = WriteChunk { from: written, len: n };
        let ghost steps0 = steps@;
        steps.push(NorStep::Write { job: index, piece: chunk });
        proof {
            let f = |c: WriteChunk| NorStep::Write { job: index, piece: c };
            let rest = write_chunks((written + n) as nat, len as nat);
            assert(write_chunks(written as nat, len as nat) == seq![chunk] + rest);
            assert(steps0 + (seq![chunk] + rest).map_values(f) =~= steps@ + rest.map_values(f));
        }
        written = written + n;
    }
    assert(write_chunks(written as nat, len as nat).map_values(
        |c: WriteChunk| NorStep::Write { job: index, piece: c },
    ) =~= Seq::<NorStep>::empty());
    assert(steps@ =~= before + seq![begin] + all);
    steps.push(NorStep::EndWrite);
    assert(steps@ =~= before + write_data_steps(job@, index));
}

/// The steps of a flash, and what is wrong with the first job that has no place on the flash;
/// the steps before it are taken all the same.
#[derive(Debug)]
pub struct NorPlan {
    pub steps: Vec<NorStep>,
    pub error: Option<RangeError>,
}

/// Plan the flash of the jobs on a flash of `sectors` sectors. One without sectors is refused.
pub fn flash_jobs(jobs: &Vec<Job>, sectors: u32, mode: EraseMode, reset_after: bool) -> (r: Result<
    NorPlan,
    &'static str,
>)
    ensures
        match r {
            Ok(plan) => sectors > 0 && (plan.steps@, plan.error) == flash_steps(
                job_views(jobs@),
                sectors,
                mode,
                reset_after,
            ),
            Err(e) => sectors == 0 && e@ == "SPI NOR reports 0 sectors"@,
        },
{
    if sectors == 0 {
        return Err("SPI NOR reports 0 sectors");
    }
    let mut steps: Vec<NorStep> = Vec::new();
    let ghost views = job_views(jobs@);
    let ghost all = jobs_steps(views, 0, sectors, mode);
    let mut i: usize = 0;
    assert(steps@ + all.0 =~= all.0);
    while i < jobs.len()
        invariant
            i <= jobs.len(),
            sectors > 0,
            views == job_views(jobs@),
            all == jobs_steps(views, 0, sectors, mode),
            all.0 == steps@ + jobs_steps(views, i as int, sectors, mode).0,
            all.1 == jobs_steps(views, i as int, sectors, mode).1,
        decreases jobs.len() - i,
    {
        let job: &Job = &jobs[i];
        assert(views[i as int] == job@);
        let end: u32 = match job.target_sector.checked_add(job.erase_sectors) {
            Some(end) => end,
            None => {
                let error: Option<RangeError> = Some(RangeError::Overflow { job: i });
                assert(steps@ + Seq::<NorStep>::empty() =~= steps@);
                return Ok(NorPlan { steps, error });
            },
        };
        if end > sectors {
            let error: Option<RangeError> = Some(RangeError::Exceeds { job: i, end });
            assert(steps@ + Seq::<NorStep>::empty() =~= steps@);
            return Ok(NorPlan { steps, error });
        }
        let ghost before = steps@;
        erase_range(&mut steps, job, i, mode);
        write_data(&mut steps, job, i);
        proof {
            let rest = jobs_steps(views, i + 1, sectors, mode).0;
            let erased = erase_range_steps(job@, i, mode);
            let written = write_data_steps(job@, i);
            assert(before + (erased + written + rest) =~= before + erased + written + rest);
        }
        i = i + 1;
    }
    assert(steps@ + Seq::<NorStep>::empty() =~= steps@);
    if reset_after {
        steps.push(NorStep::Reset);
    }
    Ok(NorPlan { steps, error: None })
}

/// The bytes that the pieces of `data` hold, one behind the other.
pub open spec fn written_bytes(data: Seq<u8>, chunks: Seq<WriteChunk>) -> Seq<u8>
    decreases chunks.len(),
{
    if chunks.len() == 0 {
        Seq::empty()
    } else {
        data.subrange(chunks[0].from as int, chunks[0].from + chunks[0].len) + written_bytes(
            data,
            chunks.skip(1),
        )
    }
}

proof fn lemma_written_from(data: Seq<u8>, from: nat)
    requires
        data.len() <= usize::MAX,
        from <= data.len(),
    ensures
        written_bytes(data, write_chunks(from, data.len())) == data.skip(from as int),
    decreases data.len() - from,
{
    let chunks = write_chunks(from, data.len());
    if from == data.len() {
        assert(data.skip(from as int) =~= Seq::<u8>::empty());
    } else {
        let n = chunks[0].len as nat;
        assert(chunks.skip(1) =~= write_chunks(from + n, data.len()));
        lemma_written_from(data, from + n);
        assert(data.subrange(from as int, (from + n) as int) + data.skip((from + n) as int)
            =~= data.skip(from as int));
    }
}

/// What is written piece by piece is the data, all of it and in order.
pub proof fn law_all_data_is_written(data: Seq<u8>)
    requires
        data.len() <= usize::MAX,
    ensures
        written_bytes(data, write_chunks(0, data.len())) == data,
{
    lemma_written_from(data, 0);
    assert(data.skip(0) =~= data);
}

/// The data of a job lies inside the sectors that are erased for it, at the place that the
/// partition list assigns.
pub proof fn law_job_fits_its_partition(
    p: mtdparts::PartitionView,
    file: PartFile,
    env_path: Seq<char>,
    env_data: Seq<u8>,
)
    requires
        job_for(p, file, env_path, env_data) matches Ok(Some(_)),
    ensures
        p.size is Some,
        ({
            let job = job_for(p, file, env_path, env_data)->Ok_0.unwrap();
            &&& job.target_sector * SECTOR_SIZE == p.offset
            &&& job.erase_sectors * SECTOR_SIZE == p.size.unwrap()
            &&& job.data.len() <= job.erase_sectors * SECTOR_SIZE
        }),
{
}

/// Every declared partition gives a job or a line that says it was skipped.
pub proof fn law_no_partition_is_lost(
    parts: Seq<mtdparts::PartitionView>,
    files: Seq<PartFile>,
    dir: Seq<char>,
    env_path: Seq<char>,
    env_data: Seq<u8>,
)
    requires
        jobs_for(parts, files, dir, env_path, env_data).1 is Ok,
    ensures
        jobs_for(parts, files, dir, env_path, env_data).0.len() + jobs_for(
            parts,
            files,
            dir,
            env_path,
            env_data,
        ).1->Ok_0.len() == parts.len(),
    decreases parts.len(),
{
    if parts.len() > 0 {
        law_no_partition_is_lost(parts.skip(1), files.skip(1), dir, env_path, env_data);
    }
}

/// Whether a chunk of sectors belongs to the place of a job.
pub open spec fn inside_job(chunk: EraseChunk, job: JobView) -> bool {
    job.target_sector <= chunk.first && chunk.first + chunk.count <= job.target_sector
        + job.erase_sectors
}

/// Whether a chunk of sectors belongs to the place of a job that has one on the flash.
pub open spec fn inside_some_job(chunk: EraseChunk, jobs: Seq<JobView>, sectors: u32) -> bool {
    exists|k: int|
        0 <= k < jobs.len() && #[trigger] inside_job(chunk, jobs[k]) && jobs[k].target_sector
            + jobs[k].erase_sectors <= sectors
}

/// Whether all that a step erases belongs to the place of a job that has one on the flash.
pub open spec fn erases_inside(step: NorStep, jobs: Seq<JobView>, sectors: u32) -> bool {
    match step {
        NorStep::EraseLba { chunk } => inside_some_job(chunk, jobs, sectors),
        NorStep::EraseForce { chunk } => inside_some_job(chunk, jobs, sectors),
        _ => true,
    }
}

proof fn lemma_steps_inside(jobs: Seq<JobView>, k: int, sectors: u32, mode: EraseMode, i: int)
    requires
        0 <= k <= jobs.len(),
        0 <= i < jobs_steps(jobs, k, sectors, mode).0.len(),
    ensures
        erases_inside(jobs_steps(jobs, k, sectors, mode).0[i], jobs, sectors),
    decreases jobs.len() - k,
{
    let steps = jobs_steps(jobs, k, sectors, mode).0;
    let job = jobs[k];
    let chunks = erase_chunks(
        job.target_sector as nat,
        job.erase_sectors as nat,
        mode.spec_max_blocks() as nat,
    );
    let erased = erase_range_steps(job, k as usize, mode);
    let written = write_data_steps(job, k as usize);
    let rest = jobs_steps(jobs, k + 1, sectors, mode).0;
    assert(steps =~= erased + written + rest);
    law_erase_chunks(
        job.target_sector as nat,
        job.erase_sectors as nat,
        mode.spec_max_blocks() as nat,
    );
    if i < erased.len() {
        assert(steps[i] == erased[i]);
        if 0 < i < erased.len() - 1 {
            let chunk = chunks[i - 1];
            assert(erased[i] == erase_step(mode, chunk));
            assert(inside_job(chunk, jobs[k]));
        }
    } else if i < erased.len() + written.len() {
        let at = i - erased.len();
        assert(steps[i] == written[at]);
        let pieces = write_chunks(0, job.data.len());
        if 0 < at < written.len() - 1 {
            assert(written[at] == (NorStep::Write { job: k as usize, piece: pieces[at - 1] }));
        }
    } else {
        let at = i - erased.len() - written.len();
        assert(steps[i] == rest[at]);
        lemma_steps_inside(jobs, k + 1, sectors, mode, at);
    }
}

/// A flash erases nothing but the declared places of its jobs, and nothing beyond the end of
/// the flash.
pub proof fn law_erases_stay_inside(
    jobs: Seq<JobView>,
    sectors: u32,
    mode: EraseMode,
    reset_after: bool,
    i: int,
)
    requires
        0 <= i < flash_steps(jobs, sectors, mode, reset_after).0.len(),
    ensures
        erases_inside(flash_steps(jobs, sectors, mode, reset_after).0[i], jobs, sectors),
{
    let steps = jobs_steps(jobs, 0, sectors, mode).0;
    if i < steps.len() {
        lemma_steps_inside(jobs, 0, sectors, mode, i);
    }
}

/// The steps that erase the place of a job and write its data.
pub open spec fn job_steps(job: JobView, index: usize, mode: EraseMode) -> Seq<NorStep> {
    erase_range_steps(job, index, mode) + write_data_steps(job, index)
}

/// Whether `part` stands somewhere in `all` without a gap.
pub open spec fn stands_in(part: Seq<NorStep>, all: Seq<NorStep>) -> bool {
    exists|at: int|
        0 <= at && at + part.len() <= all.len() && #[trigger] all.subrange(at, at + part.len())
            == part
}

/// How many jobs come before the first that has no place on the flash.
pub open spec fn placed_jobs(jobs: Seq<JobView>, sectors: u32, mode: EraseMode) -> int {
    match jobs_steps(jobs, 0, sectors, mode).1 {
        Some(e) => e.spec_job() as int,
        None => jobs.len() as int,
    }
}

proof fn lemma_job_stands_in(jobs: Seq<JobView>, k: int, sectors: u32, mode: EraseMode, i: int)
    requires
        jobs.len() <= usize::MAX,
        0 <= k <= i < jobs.len(),
        forall|j: int|
            k <= j <= i ==> range_error(#[trigger] jobs[j], j as usize, sectors) is None,
    ensures
        stands_in(job_steps(jobs[i], i as usize, mode), jobs_steps(jobs, k, sectors, mode).0),
    decreases i - k,
{
    let all = jobs_steps(jobs, k, sectors, mode).0;
    let first = job_steps(jobs[k], k as usize, mode);
    let rest = jobs_steps(jobs, k + 1, sectors, mode).0;
    assert(range_error(jobs[k], k as usize, sectors) is None);
    assert(all =~= first + rest);
    if i == k {
        assert(all.subrange(0int, 0int + first.len()) =~= first);
    } else {
        lemma_job_stands_in(jobs, k + 1, sectors, mode, i);
        let part = job_steps(jobs[i], i as usize, mode);
        let at = choose|at: int|
            0 <= at && at + part.len() <= rest.len() && #[trigger] rest.subrange(
                at,
                at + part.len(),
            ) == part;
        let there = first.len() + at;
        assert(all.subrange(there, there + part.len()) =~= rest.subrange(at, at + part.len()));
    }
}

proof fn lemma_error_is_first(jobs: Seq<JobView>, k: int, sectors: u32, mode: EraseMode)
    requires
        jobs.len() <= usize::MAX,
        0 <= k <= jobs.len(),
    ensures
        match jobs_steps(jobs, k, sectors, mode).1 {
            Some(e) => {
                let n = e.spec_job() as int;
                &&& k <= n < jobs.len()
                &&& range_error(jobs[n], n as usize, sectors) == Some(e)
                &&& forall|j: int|
                    k <= j < n ==> range_error(#[trigger] jobs[j], j as usize, sectors) is None
            },
            None => forall|j: int|
                k <= j < jobs.len() ==> range_error(#[trigger] jobs[j], j as usize, sectors)
                    is None,
        },
    decreases jobs.len() - k,
{
    if k < jobs.len() && range_error(jobs[k], k as usize, sectors) is None {
        lemma_error_is_first(jobs, k + 1, sectors, mode);
    }
}

/// The flash stops at the first job that has no place, and names it; every job before it is
/// erased and then written in full.
pub proof fn law_every_placed_job_is_flashed(
    jobs: Seq<JobView>,
    sectors: u32,
    mode: EraseMode,
    reset_after: bool,
    i: int,
)
    requires
        jobs.len() <= usize::MAX,
        0 <= i < jobs.len(),
    ensures
        ({
            let (steps, error) = flash_steps(jobs, sectors, mode, reset_after);
            let n = placed_jobs(jobs, sectors, mode);
            &&& i < n ==> stands_in(job_steps(jobs[i], i as usize, mode), steps)
            &&& i < n ==> range_error(jobs[i], i as usize, sectors) is None
            &&& i == n ==> error is Some && error == range_error(jobs[i], i as usize, sectors)
            &&& error is None <==> n == jobs.len()
        }),
{
    let n = placed_jobs(jobs, sectors, mode);
    let inner = jobs_steps(jobs, 0, sectors, mode).0;
    let steps = flash_steps(jobs, sectors, mode, reset_after).0;
    lemma_error_is_first(jobs, 0, sectors, mode);
    if i < n {
        lemma_job_stands_in(jobs, 0, sectors, mode, i);
        let part = job_steps(jobs[i], i as usize, mode);
        let at = choose|at: int|
            0 <= at && at + part.len() <= inner.len() && #[trigger] inner.subrange(
                at,
                at + part.len(),
            ) == part;
        assert(steps.subrange(at, at + part.len()) =~= inner.subrange(at, at + part.len()));
    }
}

} // verus!
