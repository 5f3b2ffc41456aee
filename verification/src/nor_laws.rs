//! What is written to the SPI NOR flash, partition by partition and step by step.

use crate::device::Capacity;
use crate::mtdparts::PartitionView;
use crate::plan::erase_chunks;
use crate::step_laws::law_erase_commands;
use crate::text::{decimal, padded_left, padded_right};
use crate::uboot::{
    erase_range_steps, flash_steps, in_order, job_for, job_line, job_steps, job_views, jobs_at,
    jobs_for, jobs_steps, message_of, mode_for, mtdparts_in, range_error, range_message, size_line,
    skip_line, write_chunks, write_data_steps, EnvImageError, EraseMode, Job, JobError, JobView,
    NorStep, PartFile, RangeError,
};
use crate::uboot_env::EnvError;
use vstd::prelude::*;

verus! {

/// The job of a partition carries the partition's name and goes to the partition's place. Its
/// data are the bytes of the partition's own file; only the partition named env takes the bytes
/// of the environment image, whatever file there is. Without a file there is no job.
pub proof fn law_job_holds_its_file(
    p: PartitionView,
    file: PartFile,
    env_path: Seq<char>,
    env_data: Seq<u8>,
)
    ensures
        job_for(p, file, env_path, env_data) matches Ok(Some(job)) ==> {
            &&& job.name == p.name
            &&& job.target_sector * 512 == p.offset
            &&& p.size is Some && job.erase_sectors * 512 == p.size->Some_0
            &&& job.data.len() <= p.size->Some_0
            &&& p.name == "env"@ ==> job.data == env_data && job.file_path == env_path
            &&& p.name != "env"@ ==> (file matches PartFile::Found { path, data } && job.data
                == data@ && job.file_path == path@)
        },
        job_for(p, file, env_path, env_data) matches Ok(None) ==> p.name != "env"@
            && file is Missing,
{
}

/// A partition gives a job exactly if it has a size, lies on whole sectors with numbers of 32
/// bits, and its file can be read and fits in it. Else the first of these that fails is told.
pub proof fn law_job_is_refused(
    p: PartitionView,
    file: PartFile,
    env_path: Seq<char>,
    env_data: Seq<u8>,
)
    ensures
        ({
            let r = job_for(p, file, env_path, env_data);
            let size = p.size->Some_0;
            let env = p.name == "env"@;
            if p.size is None {
                r is Err && r->Err_0 == (JobError::RestOfDevice { name: p.name })
            } else if p.offset % 512 != 0 {
                r is Err && r->Err_0 == (JobError::OffsetUnaligned {
                    name: p.name,
                    offset: p.offset,
                })
            } else if size % 512 != 0 {
                r is Err && r->Err_0 == (JobError::SizeUnaligned { name: p.name, size })
            } else if env && env_data.len() > size {
                r is Err && r->Err_0 == (JobError::EnvTooLarge {
                    len: env_data.len() as u64,
                    name: p.name,
                    size,
                })
            } else if !env && file is Missing {
                r is Ok && r->Ok_0 is None
            } else if !env && file is Unreadable {
                r is Err && r->Err_0 == (JobError::Unreadable {
                    path: file->Unreadable_path@,
                    reason: file->Unreadable_reason@,
                })
            } else if !env && file->Found_data@.len() > size {
                r is Err && r->Err_0 == (JobError::TooLarge {
                    path: file->Found_path@,
                    len: file->Found_data@.len() as u64,
                    name: p.name,
                    size,
                })
            } else if p.offset / 512 > 4_294_967_295 || size / 512 > 4_294_967_295 {
                r is Err && r->Err_0 == (JobError::LbaOverflow { name: p.name })
            } else {
                r is Ok && r->Ok_0 is Some
            }
        }),
{
}

/// The lines and the jobs of the first partitions, up to the first that is refused.
pub open spec fn jobs_so_far(
    parts: Seq<PartitionView>,
    files: Seq<PartFile>,
    dir: Seq<char>,
    env_path: Seq<char>,
    env_data: Seq<u8>,
) -> (Seq<Seq<char>>, Result<Seq<JobView>, JobError<Seq<char>>>)
    decreases parts.len(),
{
    if parts.len() == 0 {
        (Seq::empty(), Ok(Seq::empty()))
    } else {
        let before = jobs_so_far(parts.drop_last(), files.drop_last(), dir, env_path, env_data);
        match before.1 {
            Err(e) => before,
            Ok(jobs) => match job_for(parts.last(), files.last(), env_path, env_data) {
                Err(e) => (before.0, Err(e)),
                Ok(None) => (
                    before.0.push(
                        "Skipping partition '"@ + parts.last().name + "': no '"@
                            + parts.last().name + ".img' or '"@ + parts.last().name + "' in "@
                            + dir,
                    ),
                    Ok(jobs),
                ),
                Ok(Some(job)) => (before.0, Ok(jobs.push(job))),
            },
        }
    }
}

proof fn lemma_jobs_from_the_left(
    parts: Seq<PartitionView>,
    files: Seq<PartFile>,
    dir: Seq<char>,
    env_path: Seq<char>,
    env_data: Seq<u8>,
)
    requires
        parts.len() > 0,
        parts.len() == files.len(),
    ensures
        ({
            let rest = jobs_so_far(parts.skip(1), files.skip(1), dir, env_path, env_data);
            jobs_so_far(parts, files, dir, env_path, env_data) == (match job_for(
                parts[0],
                files[0],
                env_path,
                env_data,
            ) {
                Err(e) => (Seq::empty(), Err(e)),
                Ok(None) => (seq![skip_line(parts[0].name, dir)] + rest.0, rest.1),
                Ok(Some(job)) => (
                    rest.0,
                    match rest.1 {
                        Ok(jobs) => Ok(seq![job] + jobs),
                        Err(e) => Err(e),
                    },
                ),
            })
        }),
    decreases parts.len(),
{
    reveal_with_fuel(jobs_so_far, 2);
    let first = job_for(parts[0], files[0], env_path, env_data);
    let line = skip_line(parts[0].name, dir);
    if parts.len() == 1 {
        assert(parts.drop_last() =~= Seq::empty());
        assert(parts.skip(1) =~= Seq::empty());
        assert(Seq::<Seq<char>>::empty().push(line) =~= seq![line] + Seq::empty());
        if first is Ok && first->Ok_0 is Some {
            let job = first->Ok_0->Some_0;
            assert(Seq::<JobView>::empty().push(job) =~= seq![job] + Seq::empty());
        }
    } else {
        let front = parts.drop_last();
        let files_front = files.drop_last();
        lemma_jobs_from_the_left(front, files_front, dir, env_path, env_data);
        assert(parts.skip(1).drop_last() =~= front.skip(1));
        assert(files.skip(1).drop_last() =~= files_front.skip(1));
        assert(parts.skip(1).last() == parts.last());
        assert(files.skip(1).last() == files.last());
        assert(front[0] == parts[0] && files_front[0] == files[0]);
        let mid = jobs_so_far(front.skip(1), files_front.skip(1), dir, env_path, env_data);
        let last_line = skip_line(parts.last().name, dir);
        assert((seq![line] + mid.0).push(last_line) =~= seq![line] + mid.0.push(last_line));
        let last = job_for(parts.last(), files.last(), env_path, env_data);
        if first is Ok && first->Ok_0 is Some && mid.1 is Ok && last is Ok && last->Ok_0 is Some {
            let job = first->Ok_0->Some_0;
            let end = last->Ok_0->Some_0;
            assert((seq![job] + mid.1->Ok_0).push(end) =~= seq![job] + mid.1->Ok_0.push(end));
        }
    }
}

/// The partitions are looked at one after the other: each adds its job behind those before it, or
/// a line that it is skipped, and the first that is refused decides the error.
pub proof fn law_jobs_in_turn(
    parts: Seq<PartitionView>,
    files: Seq<PartFile>,
    dir: Seq<char>,
    env_path: Seq<char>,
    env_data: Seq<u8>,
)
    requires
        parts.len() == files.len(),
    ensures
        jobs_for(parts, files, dir, env_path, env_data) == jobs_so_far(
            parts,
            files,
            dir,
            env_path,
            env_data,
        ),
    decreases parts.len(),
{
    if parts.len() > 0 {
        lemma_jobs_from_the_left(parts, files, dir, env_path, env_data);
        law_jobs_in_turn(parts.skip(1), files.skip(1), dir, env_path, env_data);
    }
}

/// The partition list is the value of the first variable named mtdparts.
pub proof fn law_partition_list(vars: Seq<(Seq<char>, Seq<char>)>, e: EnvError, i: int)
    ensures
        mtdparts_in(Err(e)) == Err::<Seq<char>, EnvImageError>(EnvImageError::Env(e)),
        0 <= i < vars.len() && vars[i].0 == "mtdparts"@ && (forall|j: int|
            0 <= j < i ==> (#[trigger] vars[j]).0 != "mtdparts"@) ==> mtdparts_in(Ok(vars)) == Ok::<
            Seq<char>,
            EnvImageError,
        >(vars[i].1),
        (forall|j: int| 0 <= j < vars.len() ==> (#[trigger] vars[j]).0 != "mtdparts"@)
            ==> mtdparts_in(Ok(vars)) == Err::<Seq<char>, EnvImageError>(EnvImageError::NoMtdparts),
{
    if 0 <= i < vars.len() && vars[i].0 == "mtdparts"@ && (forall|j: int|
        0 <= j < i ==> (#[trigger] vars[j]).0 != "mtdparts"@) {
        crate::env_laws::law_lookup(vars, "mtdparts"@, i);
    }
    if forall|j: int| 0 <= j < vars.len() ==> (#[trigger] vars[j]).0 != "mtdparts"@ {
        crate::env_laws::law_lookup_nothing(vars, "mtdparts"@);
    }
}

/// Jobs are in order if none has a lower target sector than the one before it; the jobs for a
/// sector are those that go there, one after the other.
pub proof fn law_order(jobs: Seq<Job>, job: Job, sector: u32)
    ensures
        in_order(jobs) <==> forall|i: int|
            0 < i < jobs.len() ==> jobs[i - 1].target_sector <= (#[trigger] jobs[i]).target_sector,
        jobs_at(Seq::empty(), sector) == Seq::<Job>::empty(),
        job.target_sector == sector ==> jobs_at(jobs.push(job), sector) == jobs_at(
            jobs,
            sector,
        ).push(job),
        job.target_sector != sector ==> jobs_at(jobs.push(job), sector) == jobs_at(jobs, sector),
{
    if forall|i: int|
        0 < i < jobs.len() ==> jobs[i - 1].target_sector <= (
        #[trigger] jobs[i]).target_sector {
        assert forall|i: int, j: int| 0 <= i <= j < jobs.len() implies (
        #[trigger] jobs[i]).target_sector <= (#[trigger] jobs[j]).target_sector by {
            lemma_climbs(jobs, i, j);
        }
    }
    reveal(Seq::filter);
    assert(jobs.push(job).drop_last() =~= jobs);
}

proof fn lemma_climbs(jobs: Seq<Job>, i: int, j: int)
    requires
        0 <= i <= j < jobs.len(),
        forall|i: int|
            0 < i < jobs.len() ==> jobs[i - 1].target_sector <= (#[trigger] jobs[i]).target_sector,
    ensures
        jobs[i].target_sector <= jobs[j].target_sector,
    decreases j - i,
{
    if i < j {
        lemma_climbs(jobs, i, j - 1);
        assert(jobs[j - 1].target_sector <= jobs[j].target_sector);
    }
}

/// Sectors are erased by number on an eMMC, and where the lowest bit of the capabilities says so,
/// in runs of up to 32768; by force, in runs of up to 1024, everywhere else.
pub proof fn law_erase_mode(flash_id: Seq<char>, capability: Seq<u8>)
    ensures
        mode_for(flash_id, capability) == EraseMode::Lba <==> flash_id == seq![
            'E',
            'M',
            'M',
            'C',
            ' ',
        ] || capability[0] % 2 == 1,
        EraseMode::Lba.spec_max_blocks() == 32_768,
        EraseMode::Force.spec_max_blocks() == 1024,
{
    reveal_strlit("EMMC ");
    assert("EMMC "@ =~= seq!['E', 'M', 'M', 'C', ' ']);
    let b = capability[0];
    assert((b & 1u8 == 1u8) <==> (b % 2 == 1)) by (bit_vector);
}

/// Data are written in pieces of 65536 bytes, one behind the other, the last with what is left.
pub proof fn law_write_pieces(from: nat, len: nat, i: int)
    requires
        len <= usize::MAX,
    ensures
        from >= len ==> write_chunks(from, len).len() == 0,
        from < len ==> (write_chunks(from, len).len() - 1) * 65536 < len - from
            <= write_chunks(from, len).len() * 65536,
        0 <= i < write_chunks(from, len).len() ==> {
            let c = write_chunks(from, len)[i];
            &&& c.from == from + i * 65536
            &&& c.len == (if len - c.from < 65536 {
                len - c.from
            } else {
                65536
            })
        },
    decreases len - from,
{
    if from < len {
        let n = if len - from < 65536 {
            (len - from) as nat
        } else {
            65536
        };
        law_write_pieces(from + n, len, i - 1);
        let rest = write_chunks(from + n, len);
        assert(write_chunks(from, len).len() == rest.len() + 1);
        if 0 < i <= rest.len() {
            assert(write_chunks(from, len)[i] == rest[i - 1]);
        }
    }
}

/// How many pieces of at most `most` there are in `n`.
pub open spec fn runs(n: int, most: int) -> int {
    (n + most - 1) / most
}

proof fn lemma_runs(n: int, most: int, k: int)
    requires
        0 < most,
        0 <= n,
        k * most >= n,
        n == 0 ==> k == 0,
        n > 0 ==> (k - 1) * most < n,
    ensures
        k == runs(n, most),
{
    if n == 0 {
        assert((most - 1) / most == 0) by (nonlinear_arith)
            requires
                most > 0,
        ;
    } else {
        let m = n + most - 1;
        assert(k * most <= m < (k + 1) * most) by (nonlinear_arith)
            requires
                k * most >= n,
                (k - 1) * most < n,
                m == n + most - 1,
        ;
        assert(m / most == k) by (nonlinear_arith)
            requires
                k * most <= m < (k + 1) * most,
                most > 0,
        ;
    }
}

/// A job begins with erasing its sectors from the first to the last in runs of the mode's size,
/// and goes on with writing its data from the first byte of its first sector on, in pieces of
/// 65536 bytes.
pub proof fn law_job_steps(job: JobView, index: usize, mode: EraseMode, i: int)
    requires
        job.target_sector + job.erase_sectors <= u32::MAX,
        job.data.len() <= usize::MAX,
    ensures
        ({
            let s = job_steps(job, index, mode);
            let most = if mode == EraseMode::Lba {
                32_768int
            } else {
                1024
            };
            let e = runs(job.erase_sectors as int, most);
            let w = runs(job.data.len() as int, 65536);
            &&& s.len() == e + w + 4
            &&& s[0] == (NorStep::BeginErase { job: index, total: job.erase_sectors as u64 })
            &&& 0 <= i < e ==> {
                let chunk = if mode == EraseMode::Lba {
                    s[1 + i]->EraseLba_chunk
                } else {
                    s[1 + i]->EraseForce_chunk
                };
                &&& mode == EraseMode::Lba ==> s[1 + i] is EraseLba
                &&& mode == EraseMode::Force ==> s[1 + i] is EraseForce
                &&& chunk.first == job.target_sector + i * most
                &&& chunk.count == (if job.erase_sectors - i * most < most {
                    job.erase_sectors - i * most
                } else {
                    most
                })
            }
            &&& s[1 + e] == NorStep::EndErase
            &&& s[2 + e] is BeginWrite
            &&& s[2 + e]->BeginWrite_job == index
            &&& s[2 + e]->BeginWrite_offset == job.target_sector * 512
            &&& s[2 + e]->BeginWrite_total == job.data.len()
            &&& 0 <= i < w ==> {
                &&& s[3 + e + i] is Write
                &&& s[3 + e + i]->Write_job == index
                &&& s[3 + e + i]->Write_piece.from == i * 65536
                &&& s[3 + e + i]->Write_piece.len == (if job.data.len() - i * 65536 < 65536 {
                    job.data.len() - i * 65536
                } else {
                    65536
                })
            }
            &&& s[3 + e + w] == NorStep::EndWrite
        }),
{
    let most = mode.spec_max_blocks() as nat;
    let chunks = erase_chunks(job.target_sector as nat, job.erase_sectors as nat, most);
    let pieces = write_chunks(0, job.data.len());
    law_erase_commands(job.target_sector as nat, job.erase_sectors as nat, most, i);
    law_write_pieces(0, job.data.len(), i);
    lemma_runs(job.erase_sectors as int, most as int, chunks.len() as int);
    lemma_runs(job.data.len() as int, 65536, pieces.len() as int);
    let s = job_steps(job, index, mode);
    let erased = erase_range_steps(job, index, mode);
    let written = write_data_steps(job, index);
    assert(erased.len() == chunks.len() + 2);
    assert(written.len() == pieces.len() + 2);
    let e = chunks.len() as int;
    let w = pieces.len() as int;
    assert(s[0] == erased[0]);
    assert(s[1 + e] == erased[1 + e]);
    assert(s[2 + e] == written[0]);
    assert(s[3 + e + w] == written[1 + w]);
    if 0 <= i < e {
        assert(s[1 + i] == erased[1 + i]);
        assert(erased[1 + i] == crate::uboot::erase_step(mode, chunks[i]));
    }
    if 0 <= i < w {
        assert(s[3 + e + i] == written[1 + i]);
        assert(written[1 + i] == (NorStep::Write { job: index, piece: pieces[i] }));
    }
}

/// The steps of the first `n` jobs, one behind the other.
pub open spec fn steps_of_first(jobs: Seq<JobView>, n: nat, mode: EraseMode) -> Seq<NorStep>
    decreases n,
{
    if n == 0 {
        Seq::empty()
    } else {
        steps_of_first(jobs, (n - 1) as nat, mode) + job_steps(
            jobs[n - 1],
            (n - 1) as usize,
            mode,
        )
    }
}

/// Whether a job lies on a flash of `sectors` sectors.
pub open spec fn has_room(job: JobView, sectors: u32) -> bool {
    job.target_sector + job.erase_sectors <= sectors
}

proof fn lemma_steps_in_turn(jobs: Seq<JobView>, k: nat, n: nat, sectors: u32, mode: EraseMode)
    requires
        k <= n <= jobs.len() <= usize::MAX,
        forall|j: int| 0 <= j < n ==> has_room(#[trigger] jobs[j], sectors),
        n < jobs.len() ==> !has_room(jobs[n as int], sectors),
    ensures
        ({
            let r = jobs_steps(jobs, k as int, sectors, mode);
            &&& steps_of_first(jobs, k, mode) + r.0 == steps_of_first(jobs, n, mode)
            &&& r.1 == (if n < jobs.len() {
                range_error(jobs[n as int], n as usize, sectors)
            } else {
                None
            })
        }),
    decreases n - k,
{
    let done = steps_of_first(jobs, k, mode);
    if k < n {
        assert(has_room(jobs[k as int], sectors));
        lemma_steps_in_turn(jobs, k + 1, n, sectors, mode);
        let rest = jobs_steps(jobs, k as int + 1, sectors, mode).0;
        let erased = erase_range_steps(jobs[k as int], k as usize, mode);
        let written = write_data_steps(jobs[k as int], k as usize);
        assert(done + (erased + written + rest) =~= done + (erased + written) + rest);
    } else {
        assert(done + Seq::<NorStep>::empty() =~= done);
    }
}

/// The jobs are flashed one after the other up to the first that has no room on the flash; that
/// one is told with the sector it would end at, unless the number has more than 32 bits. If all
/// have room, and only then, a reset that is asked for comes last.
pub proof fn law_flash_in_turn(
    jobs: Seq<JobView>,
    n: nat,
    sectors: u32,
    mode: EraseMode,
    reset_after: bool,
)
    requires
        n <= jobs.len() <= usize::MAX,
        forall|j: int| 0 <= j < n ==> has_room(#[trigger] jobs[j], sectors),
        n < jobs.len() ==> !has_room(jobs[n as int], sectors),
    ensures
        ({
            let r = flash_steps(jobs, sectors, mode, reset_after);
            let end = jobs[n as int].target_sector + jobs[n as int].erase_sectors;
            &&& n < jobs.len() ==> r.0 == steps_of_first(jobs, n, mode)
            &&& n < jobs.len() && end > 4_294_967_295 ==> r.1 == Some(
                RangeError::Overflow { job: n as usize },
            )
            &&& n < jobs.len() && end <= 4_294_967_295 ==> r.1 == Some(
                RangeError::Exceeds { job: n as usize, end: end as u32 },
            )
            &&& n == jobs.len() ==> r.1 is None
            &&& n == jobs.len() && reset_after ==> r.0 == steps_of_first(jobs, n, mode) + seq![
                NorStep::Reset,
            ]
            &&& n == jobs.len() && !reset_after ==> r.0 == steps_of_first(jobs, n, mode)
        }),
{
    lemma_steps_in_turn(jobs, 0, n, sectors, mode);
    let inner = jobs_steps(jobs, 0, sectors, mode).0;
    assert(Seq::<NorStep>::empty() + inner =~= inner);
    assert(inner.push(NorStep::Reset) =~= inner + seq![NorStep::Reset]);
}

/// What is seen of a job is what it holds.
pub proof fn law_job_view(j: Job, jobs: Seq<Job>, i: int)
    ensures
        j@.name == j.name@,
        j@.target_sector == j.target_sector,
        j@.erase_sectors == j.erase_sectors,
        j@.data == j.data@,
        j@.file_path == j.file_path@,
        job_views(jobs).len() == jobs.len(),
        0 <= i < jobs.len() ==> job_views(jobs)[i] == jobs[i]@,
{
}

/// The lines about the flash and its jobs show their numbers.
pub proof fn law_nor_lines(flash: Capacity, j: JobView, sectors: u32, k: usize, end: u32)
    ensures
        size_line(flash) == "SPI NOR: "@ + decimal((flash.bytes / 1024) as nat) + " KiB ("@
            + decimal(flash.sectors as nat) + " sectors)"@,
        job_line(j) == "  "@ + padded_right(j.name, 14) + " LBA "@ + padded_left(
            decimal(j.target_sector as nat),
            6,
        ) + "  partition "@ + padded_left(decimal(j.erase_sectors as nat), 5) + " sectors  ("@
            + decimal(j.data.len()) + " bytes from "@ + j.file_path + ")"@,
        range_message(RangeError::Overflow { job: k }, j, sectors) == "LBA overflow for "@ + j.name,
        range_message(RangeError::Exceeds { job: k, end }, j, sectors) == j.name + " (LBA "@
            + decimal(j.target_sector as nat) + ".."@ + decimal(end as nat)
            + ") exceeds SPI NOR size ("@ + decimal(sectors as nat) + " sectors)"@,
        (RangeError::Overflow { job: k }).spec_job() == k,
        (RangeError::Exceeds { job: k, end }).spec_job() == k,
        EnvImageError::NoMtdparts.spec_message() == "env.img has no `mtdparts` variable"@,
{
}

/// The texts of the errors tell the partition or the file, and the numbers that do not fit.
pub proof fn law_job_texts(name: Seq<char>, path: Seq<char>, n: u64, m: u64)
    ensures
        message_of(JobError::RestOfDevice { name }) == "partition '"@ + name
            + "' has size '-' (rest of device); not supported"@,
        message_of(JobError::OffsetUnaligned { name, offset: n }) == "partition '"@ + name
            + "' offset "@ + decimal(n as nat) + " not sector-aligned"@,
        message_of(JobError::SizeUnaligned { name, size: n }) == "partition '"@ + name + "' size "@
            + decimal(n as nat) + " not sector-aligned"@,
        message_of(JobError::EnvTooLarge { len: n, name, size: m }) == "env.img ("@ + decimal(
            n as nat,
        ) + " bytes) exceeds partition '"@ + name + "' ("@ + decimal(m as nat) + " bytes)"@,
        message_of(JobError::Unreadable { path, reason: name }) == "failed to read "@ + path + ": "@
            + name,
        message_of(JobError::TooLarge { path, len: n, name, size: m }) == path + " ("@ + decimal(
            n as nat,
        ) + " bytes) is larger than partition '"@ + name + "' ("@ + decimal(m as nat) + " bytes)"@,
        message_of(JobError::LbaOverflow { name }) == "LBA overflow for "@ + name,
        message_of(JobError::NoFiles { env_path: path }) == "no partition files found alongside "@
            + path + " (looked for <name>.img and <name>)"@,
{
}

/// What is seen of an error is its kind and what it quotes.
pub proof fn law_job_error_view(e: JobError<String>)
    ensures
        e matches JobError::RestOfDevice { name } ==> e@ == (JobError::RestOfDevice {
            name: name@,
        }),
        e matches JobError::OffsetUnaligned { name, offset } ==> e@ == (JobError::OffsetUnaligned {
            name: name@,
            offset,
        }),
        e matches JobError::SizeUnaligned { name, size } ==> e@ == (JobError::SizeUnaligned {
            name: name@,
            size,
        }),
        e matches JobError::EnvTooLarge { len, name, size } ==> e@ == (JobError::EnvTooLarge {
            len,
            name: name@,
            size,
        }),
        e matches JobError::Unreadable { path, reason } ==> e@ == (JobError::Unreadable {
            path: path@,
            reason: reason@,
        }),
        e matches JobError::TooLarge { path, len, name, size } ==> e@ == (JobError::TooLarge {
            path: path@,
            len,
            name: name@,
            size,
        }),
        e matches JobError::LbaOverflow { name } ==> e@ == (JobError::LbaOverflow { name: name@ }),
        e matches JobError::NoFiles { env_path } ==> e@ == (JobError::NoFiles {
            env_path: env_path@,
        }),
{
}

} // verus!
