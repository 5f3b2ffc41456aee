//! What the main functions of the library return, in terms of what they are given.

use crate::card_laws::{content_after, law_what_a_flash_leaves, writes_a, writes_b, Content};
use crate::device::Capacity;
use crate::flash::{size_in_bytes, Config, Layout, Partition};
use crate::flash_laws::law_flash_refusals;
use crate::gpt::GptEntry;
use crate::key_laws::law_dialog_offers_the_settings;
use crate::mtdparts::MtdError;
use crate::mtdparts;
use crate::mtdparts_laws::{law_size_of_any_text, suffix_text};
use crate::nor_laws::{
    has_room, jobs_so_far, law_flash_in_turn, law_job_holds_its_file, law_jobs_in_turn,
    steps_of_first,
};
use crate::plan::{flash_image, flash_layout, is_plan, plan_flash, FlashError, Guids, Step};
use crate::step_laws::{
    behind_table_and_image, due_number, is_due, law_every_step_is_due, law_markers_and_reset,
    law_number_of_steps, number_of, Kind,
};
use crate::switch_laws::{
    are_the_slots, is_marked, law_switch_bits, law_switch_needs_the_slots, law_switch_target,
};
use crate::switch_rootfs::{switch, Action, Switch, SwitchError};
use crate::text::{decimal, is_digit, law_decimal_reads_back, unsigned_value};
use crate::tui::{confirmation, App, AppView, PendingConfirmView};
use crate::uboot::{
    build_jobs, flash_jobs, job_for, job_views, BuiltJobs, EraseMode, Job, JobView, NorPlan,
    NorStep, PartFile, RangeError,
};
use vstd::prelude::*;

verus! {

/// A planned flash: if the markers are asked for, one is written at the first byte of userdata
/// and one in its last 20 bytes, behind the table and the image, whether or not the layout stays;
/// if not, none is written. The last step, and no other, is a reset if one is asked for. Each step
/// is one that is due, and each kind comes as often as it should. Nothing is planned exactly if
/// the flash is refused.
pub proof fn law_planned_flash(
    cfg: &Config,
    image_len: u64,
    card: Capacity,
    existing: Option<Layout>,
    guids: &Guids,
    r: Result<Vec<Step>, FlashError>,
    kind: Kind,
)
    requires
        call_ensures(plan_flash, (cfg, image_len, card, existing, guids), r),
        kind != Kind::Erase,
    ensures
        r matches Err(e) ==> flash_layout(cfg@, image_len, card) == Err::<Layout, FlashError>(e),
        r matches Ok(steps) ==> {
            let l = flash_layout(cfg@, image_len, card)->Ok_0;
            let keep = existing == Some(l);
            let s = steps@;
            &&& flash_layout(cfg@, image_len, card) is Ok
            &&& cfg.userdata_magic ==> exists|i: int, j: int|
                #![trigger s[i], s[j]]
                {
                    &&& 0 <= i < j < s.len()
                    &&& s[i] is WriteMarker
                    &&& s[i]->WriteMarker_offset == l.user_start * 512
                    &&& s[j] is WriteMarker
                    &&& s[j]->WriteMarker_offset == (l.user_end + 1) * 512 - 20
                    &&& behind_table_and_image(s, i)
                }
            &&& !cfg.userdata_magic ==> forall|i: int|
                0 <= i < s.len() ==> !(#[trigger] s[i] is WriteMarker)
            &&& s.last() is Reset <==> cfg.reset_after_flash
            &&& forall|i: int| 0 <= i < s.len() - 1 ==> !(#[trigger] s[i] is Reset)
            &&& forall|i: int|
                0 <= i < s.len() ==> is_due(
                    #[trigger] s[i],
                    cfg@,
                    l,
                    keep,
                    image_len,
                    card.sectors,
                    *guids,
                )
            &&& number_of(s, kind) == due_number(cfg@, keep, kind)
        },
{
    if r is Ok {
        let s = r->Ok_0@;
        law_markers_and_reset(s, cfg@, image_len, card, existing, *guids);
        law_number_of_steps(s, cfg@, image_len, card, existing, *guids, kind);
        let l = flash_layout(cfg@, image_len, card)->Ok_0;
        assert forall|i: int| 0 <= i < s.len() implies is_due(
            #[trigger] s[i],
            cfg@,
            l,
            existing == Some(l),
            image_len,
            card.sectors,
            *guids,
        ) by {
            law_every_step_is_due(s, cfg@, image_len, card, existing, *guids, i);
        }
    }
}

/// What a planned flash leaves on the card: see [`law_what_a_flash_leaves`]. The flash with
/// identifiers of its own leaves the same.
pub proof fn law_planned_flash_leaves(
    cfg: &Config,
    image_len: u64,
    card: Capacity,
    existing: Option<Layout>,
    guids: &Guids,
    r: Result<Vec<Step>, FlashError>,
    x: int,
)
    requires
        call_ensures(plan_flash, (cfg, image_len, card, existing, guids), r) || call_ensures(
            flash_image,
            (cfg, image_len, card, existing),
            r,
        ),
        0 <= x < card.sectors * 512,
    ensures
        r matches Err(e) ==> flash_layout(cfg@, image_len, card) == Err::<Layout, FlashError>(e),
        r matches Ok(steps) ==> {
            let l = flash_layout(cfg@, image_len, card)->Ok_0;
            let size = cfg.rootfs_size_bytes;
            let user_end = (l.user_end + 1) * 512;
            content_after(steps@, card.sectors as int, x, Content::Before) == (if writes_a(
                cfg.target_partition,
            ) && l.a_start * 512 <= x < l.a_start * 512 + size {
                if x - l.a_start * 512 < image_len {
                    Content::Image(x - l.a_start * 512)
                } else {
                    Content::Erased
                }
            } else if writes_b(cfg.target_partition) && l.b_start * 512 <= x < l.b_start * 512
                + size {
                if x - l.b_start * 512 < image_len {
                    Content::Image(x - l.b_start * 512)
                } else {
                    Content::Erased
                }
            } else if cfg.userdata_magic && l.user_start * 512 <= x < l.user_start * 512 + 20 {
                Content::Marker(x - l.user_start * 512)
            } else if cfg.userdata_magic && user_end - 20 <= x < user_end {
                Content::Marker(x - (user_end - 20))
            } else if existing == Some(l) {
                Content::Before
            } else if x < 34 * 512 || x >= (card.sectors - 33) * 512 {
                Content::Table
            } else {
                Content::Erased
            })
        },
{
    if r is Ok {
        let s = r->Ok_0@;
        let g = choose|g: Guids| #[trigger] is_plan(s, cfg@, image_len, card, existing, g);
        assert(is_plan(s, cfg@, image_len, card, existing, *guids) || is_plan(
            s,
            cfg@,
            image_len,
            card,
            existing,
            g,
        ));
        if is_plan(s, cfg@, image_len, card, existing, g) {
            law_what_a_flash_leaves(s, cfg@, image_len, card, existing, g, x);
        } else {
            law_what_a_flash_leaves(s, cfg@, image_len, card, existing, *guids, x);
        }
    }
}

/// A flash is planned exactly if the size is whole sectors and not zero, the image fits in it,
/// and the card has sectors and room.
pub proof fn law_planned_exactly(
    cfg: &Config,
    image_len: u64,
    card: Capacity,
    existing: Option<Layout>,
    r: Result<Vec<Step>, FlashError>,
)
    requires
        call_ensures(flash_image, (cfg, image_len, card, existing), r),
        card.bytes == card.sectors * 512,
    ensures
        r is Ok <==> {
            &&& cfg.rootfs_size_bytes > 0
            &&& cfg.rootfs_size_bytes % 512 == 0
            &&& image_len <= cfg.rootfs_size_bytes
            &&& card.sectors > 0
            &&& 2 * cfg.rootfs_size_bytes + 4_194_304 <= card.bytes
        },
        cfg.rootfs_size_bytes == 0 ==> r == Err::<Vec<Step>, FlashError>(FlashError::ZeroRootfs),
        cfg.rootfs_size_bytes % 512 != 0 ==> r == Err::<Vec<Step>, FlashError>(
            FlashError::UnalignedRootfs,
        ),
{
    law_flash_refusals(cfg@, image_len, card);
    crate::plan_laws::law_flash_is_accepted_exactly(cfg@, image_len, card);
    crate::flash_laws::law_max_rootfs(card.bytes as int);
    if r is Ok {
        let g = choose|g: Guids|
            #[trigger] is_plan(r->Ok_0@, cfg@, image_len, card, existing, g);
        assert(is_plan(r->Ok_0@, cfg@, image_len, card, existing, g));
    }
}

/// After a switch to a slot that was asked for, that slot is the only one with the mark: its bits
/// are 4 and those of the other are 0. Without a request it is the slot that was not marked where
/// exactly one was, and rootfs_a otherwise.
pub proof fn law_switched(
    first: &GptEntry,
    second: &GptEntry,
    requested: Option<Partition>,
    r: Result<Switch, SwitchError>,
)
    requires
        call_ensures(switch, (first, second, requested), r),
    ensures
        r is Ok <==> are_the_slots(*first, *second),
        r matches Err(e) ==> e == SwitchError::NoLayout,
        r matches Ok(s) ==> {
            let a = s.target == Partition::RootfsA;
            let b = s.target == Partition::RootfsB;
            let a_bits = if a {
                4u64
            } else {
                0
            };
            let b_bits = if b {
                4u64
            } else {
                0
            };
            &&& requested matches Some(p) ==> s.target == p
            &&& requested is None ==> (b <==> is_marked(*first) && !is_marked(*second))
            &&& requested is None ==> a != b
            &&& s.action is Err <==> requested == Some(Partition::Both)
            &&& s.action matches Err(e) ==> e == SwitchError::BothRequested
            &&& s.action == Ok::<Action, SwitchError>(Action::Nothing) <==> (a || b)
                && first.attribute_bits == a_bits && second.attribute_bits == b_bits
            &&& s.action matches Ok(Action::Write { a_bits: x, b_bits: y }) ==> x == a_bits && y
                == b_bits
            &&& s.defaulted <==> requested is None && is_marked(*first) == is_marked(*second)
        },
{
    law_switch_needs_the_slots(*first, *second, requested);
    if are_the_slots(*first, *second) {
        law_switch_target(*first, *second, requested);
        law_switch_bits(*first, *second, requested);
    }
}

/// A size that is written as a number and a suffix is so many bytes: 1024 for k and K, 1024 times
/// that for m and M, 1024 times that again for g and G, and 1 without a suffix; or it overflows.
pub proof fn law_size_read(
    text: &str,
    n: nat,
    suffix: Option<char>,
    r: Result<u64, MtdError<String>>,
)
    requires
        call_ensures(mtdparts::parse_size, (text,), r),
        text@ == decimal(n) + suffix_text(suffix),
        suffix matches Some(c) ==> c == 'k' || c == 'K' || c == 'm' || c == 'M' || c == 'g' || c
            == 'G',
    ensures
        ({
            let factor = if suffix is None {
                1int
            } else if suffix == Some('k') || suffix == Some('K') {
                1024
            } else if suffix == Some('m') || suffix == Some('M') {
                1_048_576
            } else {
                1_073_741_824
            };
            &&& r matches Ok(bytes) ==> bytes == n * factor
            &&& r is Ok <==> n * factor <= 18_446_744_073_709_551_615
            &&& n <= 18_446_744_073_709_551_615 ==> (r matches Err(e) ==> e is SizeOverflow)
            &&& n > 18_446_744_073_709_551_615 ==> (r matches Err(e) ==> e is InvalidNumber)
        }),
{
    law_decimal_reads_back(n);
    let d = decimal(n);
    let none = Seq::<char>::empty();
    assert(is_digit(d[0]) && is_digit(d[d.len() - 1]));
    assert(unsigned_value(d, 18_446_744_073_709_551_615) == if n <= 18_446_744_073_709_551_615 {
        Some(n)
    } else {
        None
    });
    law_size_of_any_text(none, d, suffix, none);
    assert(none + (d + suffix_text(suffix)) + none =~= text@);
}

/// Whether a job is that of a partition and its file: under the partition's name, at its place,
/// and with the bytes of the file, or those of the environment image for the partition env.
pub open spec fn is_job_of(
    job: JobView,
    p: mtdparts::Partition,
    file: PartFile,
    env_path: Seq<char>,
    env_data: Seq<u8>,
) -> bool {
    &&& job.name == p.name@
    &&& job.target_sector * 512 == p.offset
    &&& p.size is Some
    &&& job.erase_sectors * 512 == p.size->Some_0
    &&& p.name@ == "env"@ ==> job.data == env_data && job.file_path == env_path
    &&& p.name@ != "env"@ ==> file is Found && job.data == file->Found_data@ && job.file_path
        == file->Found_path@
}

/// Where the jobs of the first partitions come from.
proof fn lemma_jobs_of(
    parts: Seq<mtdparts::Partition>,
    views: Seq<mtdparts::PartitionView>,
    files: Seq<PartFile>,
    dir: Seq<char>,
    env_path: Seq<char>,
    env_data: Seq<u8>,
)
    requires
        parts.len() == files.len(),
        parts.len() == views.len(),
        forall|i: int| 0 <= i < parts.len() ==> #[trigger] views[i] == parts[i]@,
        jobs_so_far(views, files, dir, env_path, env_data).1 is Ok,
    ensures
        ({
            let jobs = jobs_so_far(views, files, dir, env_path, env_data).1->Ok_0;
            &&& forall|k: int|
                #![trigger jobs[k]]
                0 <= k < jobs.len() ==> exists|i: int|
                    0 <= i < parts.len() && is_job_of(
                        jobs[k],
                        #[trigger] parts[i],
                        files[i],
                        env_path,
                        env_data,
                    )
            &&& forall|i: int|
                #![trigger parts[i]]
                0 <= i < parts.len() && !(parts[i].name@ != "env"@ && files[i] is Missing)
                    ==> exists|k: int|
                    0 <= k < jobs.len() && is_job_of(
                        #[trigger] jobs[k],
                        parts[i],
                        files[i],
                        env_path,
                        env_data,
                    )
        }),
    decreases parts.len(),
{
    if parts.len() > 0 {
        let n = parts.len() - 1;
        let jobs = jobs_so_far(views, files, dir, env_path, env_data).1->Ok_0;
        let front = jobs_so_far(views.drop_last(), files.drop_last(), dir, env_path, env_data);
        lemma_jobs_of(
            parts.drop_last(),
            views.drop_last(),
            files.drop_last(),
            dir,
            env_path,
            env_data,
        );
        assert(views[n] == parts[n]@);
        law_job_holds_its_file(views[n], files[n], env_path, env_data);
        let last = job_for(views[n], files[n], env_path, env_data);
        let before = front.1->Ok_0;
        assert forall|k: int|
            #![trigger jobs[k]]
            0 <= k < jobs.len() implies exists|i: int|
            0 <= i < parts.len() && is_job_of(
                jobs[k],
                #[trigger] parts[i],
                files[i],
                env_path,
                env_data,
            ) by {
            if k < before.len() {
                assert(jobs[k] == before[k]);
                let i = choose|i: int|
                    0 <= i < n && is_job_of(
                        before[k],
                        #[trigger] parts.drop_last()[i],
                        files.drop_last()[i],
                        env_path,
                        env_data,
                    );
                assert(parts[i] == parts.drop_last()[i]);
                assert(files[i] == files.drop_last()[i]);
            } else {
                assert(is_job_of(jobs[k], parts[n], files[n], env_path, env_data));
            }
        }
        assert forall|i: int|
            #![trigger parts[i]]
            0 <= i < parts.len() && !(parts[i].name@ != "env"@ && files[i] is Missing) implies exists|
            k: int,
        |
            0 <= k < jobs.len() && is_job_of(
                #[trigger] jobs[k],
                parts[i],
                files[i],
                env_path,
                env_data,
            ) by {
            if i < n {
                assert(parts[i] == parts.drop_last()[i]);
                assert(files[i] == files.drop_last()[i]);
                let k = choose|k: int|
                    0 <= k < before.len() && is_job_of(
                        #[trigger] before[k],
                        parts[i],
                        files[i],
                        env_path,
                        env_data,
                    );
                assert(jobs[k] == before[k]);
            } else {
                crate::nor_laws::law_job_is_refused(views[n], files[n], env_path, env_data);
                assert(last->Ok_0 is Some);
                let k = jobs.len() - 1;
                assert(is_job_of(jobs[k], parts[n], files[n], env_path, env_data));
            }
        }
    }
}

/// The jobs that are built: each is that of a partition and its own file, and each partition that
/// has a file, and env in any case, has its job.
pub proof fn law_built_jobs(
    parts: &Vec<mtdparts::Partition>,
    files: &Vec<PartFile>,
    dir: &str,
    env_path: &str,
    env_data: &Vec<u8>,
    r: BuiltJobs,
)
    requires
        call_ensures(build_jobs, (parts, files, dir, env_path, env_data), r),
        parts@.len() == files@.len(),
    ensures
        r.jobs matches Ok(jobs) ==> {
            &&& forall|k: int|
                #![trigger jobs@[k]]
                0 <= k < jobs@.len() ==> exists|i: int|
                    0 <= i < parts@.len() && is_job_of(
                        jobs@[k]@,
                        #[trigger] parts@[i],
                        files@[i],
                        env_path@,
                        env_data@,
                    )
            &&& forall|i: int|
                #![trigger parts@[i]]
                0 <= i < parts@.len() && !(parts@[i].name@ != "env"@ && files@[i] is Missing)
                    ==> exists|k: int|
                    0 <= k < jobs@.len() && is_job_of(
                        #[trigger] jobs@[k]@,
                        parts@[i],
                        files@[i],
                        env_path@,
                        env_data@,
                    )
        },
{
    let views = mtdparts::views(parts@);
    law_jobs_in_turn(views, files@, dir@, env_path@, env_data@);
    if r.jobs is Ok {
        let jobs = r.jobs->Ok_0;
        lemma_jobs_of(parts@, views, files@, dir@, env_path@, env_data@);
        let seen = job_views(jobs@);
        assert forall|k: int|
            #![trigger jobs@[k]]
            0 <= k < jobs@.len() implies exists|i: int|
            0 <= i < parts@.len() && is_job_of(
                jobs@[k]@,
                #[trigger] parts@[i],
                files@[i],
                env_path@,
                env_data@,
            ) by {
            assert(seen[k] == jobs@[k]@);
        }
        assert forall|i: int|
            #![trigger parts@[i]]
            0 <= i < parts@.len() && !(parts@[i].name@ != "env"@ && files@[i] is Missing) implies exists|
            k: int,
        |
            0 <= k < jobs@.len() && is_job_of(
                #[trigger] jobs@[k]@,
                parts@[i],
                files@[i],
                env_path@,
                env_data@,
            ) by {
            let k = choose|k: int|
                0 <= k < seen.len() && is_job_of(
                    #[trigger] seen[k],
                    parts@[i],
                    files@[i],
                    env_path@,
                    env_data@,
                );
            assert(seen[k] == jobs@[k]@);
        }
    }
}

/// A flash of the jobs takes the steps of each in turn, as far as they have room, and resets at
/// the end only if all had.
pub proof fn law_flashed_jobs(
    jobs: &Vec<Job>,
    n: nat,
    sectors: u32,
    mode: EraseMode,
    reset_after: bool,
    r: Result<NorPlan, &'static str>,
)
    requires
        call_ensures(flash_jobs, (jobs, sectors, mode, reset_after), r),
        n <= jobs@.len(),
        forall|j: int|
            0 <= j < n ==> (#[trigger] jobs@[j]).target_sector + jobs@[j].erase_sectors <= sectors,
        n < jobs@.len() ==> jobs@[n as int].target_sector + jobs@[n as int].erase_sectors > sectors,
    ensures
        r is Ok <==> sectors > 0,
        r matches Ok(plan) ==> {
            let steps = steps_of_first(job_views(jobs@), n, mode);
            &&& plan.error is None <==> n == jobs@.len()
            &&& plan.error matches Some(e) ==> {
                let end = jobs@[n as int].target_sector + jobs@[n as int].erase_sectors;
                &&& end > 4_294_967_295 ==> e == (RangeError::Overflow { job: n as usize })
                &&& end <= 4_294_967_295 ==> e == (RangeError::Exceeds {
                    job: n as usize,
                    end: end as u32,
                })
            }
            &&& n == jobs@.len() && reset_after ==> plan.steps@ == steps + seq![NorStep::Reset]
            &&& !(n == jobs@.len() && reset_after) ==> plan.steps@ == steps
        },
{
    let seen = job_views(jobs@);
    assert(jobs@.len() == jobs.len());
    assert forall|j: int| 0 <= j < n implies has_room(#[trigger] seen[j], sectors) by {
        assert(seen[j] == jobs@[j]@);
        assert(jobs@[j].target_sector + jobs@[j].erase_sectors <= sectors);
    }
    if n < jobs@.len() {
        assert(seen[n as int] == jobs@[n as int]@);
    }
    law_flash_in_turn(seen, n, sectors, mode, reset_after);
}

/// The dialog that opens holds what the screen shows: the selected image, the size that was
/// typed, the slots and the reset that are set. Nothing else of the state changes.
pub proof fn law_opened_dialog(app: &mut App, len: Option<u64>, r: Result<(), String>)
    requires
        call_ensures(App::open_confirmation, (app, len), r),
    ensures
        r is Ok ==> {
            let size = size_in_bytes(old(app).size_input@);
            &&& final(app).pending_confirm is Some
            &&& size is Ok
            &&& old(app).selected_image is Some
            &&& ({
                let pc = final(app).pending_confirm->Some_0;
                &&& pc.cfg.target_partition == old(app).target_partition
                &&& pc.cfg.reset_after_flash == old(app).reset_after_flash
                &&& pc.cfg.image@ == old(app).selected_image->Some_0@
                &&& pc.cfg.rootfs_size_bytes == size->Ok_0
                &&& pc.cfg.userdata_magic <==> old(app).userdata_magic || !pc.layout_matches
                &&& pc.magic_auto <==> !old(app).userdata_magic && !pc.layout_matches
            })
        },
        r matches Err(e) ==> confirmation(old(app)@, len) == Err::<PendingConfirmView, Seq<char>>(
            e@,
        ),
        r is Err ==> final(app)@ == old(app)@,
        final(app)@ == (AppView {
            pending_confirm: final(app)@.pending_confirm,
            ..old(app)@
        }),
{
    law_dialog_offers_the_settings(old(app)@, len);
}

} // verus!
