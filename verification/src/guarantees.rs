//! What holds of a transfer from end to end.
use vstd::prelude::*;

use crate::failed_list::{can_list, list_text, listed, listed_after_list_text, wanted};
use crate::manifest::{paths, prepared, EntryView};
use crate::receive_flow::{passed_last_at, run, step_at, success_means_verified};
use crate::receive_flow::{EventView, StepView};
use crate::receiver::{chosen, chosen_entries, paired, TargetView};
use crate::receiver::{failed_paths, failure_detail, failure_of, failures_among};
use crate::receiver::{FileCheck, FileStatus};
use crate::sender::described;
use crate::text::{hex, hex_injective};

verus! {

/// Whether the file at `i` passes its check.
pub open spec fn passes(files: Seq<EntryView>, checks: Seq<FileCheck>, i: int) -> bool {
    failure_detail(files[i], checks[i]) is None
}

proof fn failure_for_each(files: Seq<EntryView>, checks: Seq<FileCheck>, p: Seq<char>)
    requires
        files.len() == checks.len(),
    ensures
        failed_paths(failures_among(files, checks)).contains(p) <==> exists|i: int|
            0 <= i < files.len() && (#[trigger] files[i]).path == p && !passes(files, checks, i),
        failures_among(files, checks).len() == 0 <==> forall|i: int|
            0 <= i < files.len() ==> #[trigger] passes(files, checks, i),
    decreases files.len(),
{
    reveal(Seq::filter_map);
    let all = files.zip_with(checks);
    let found = failures_among(files, checks);
    if files.len() == 0 {
        assert(all.len() == 0);
        assert(found.len() == 0);
    } else {
        let n = files.len() - 1;
        let some = files.drop_last();
        let done = checks.drop_last();
        failure_for_each(some, done, p);
        assert(all.drop_last() =~= some.zip_with(done));
        assert(all.last() == (files[n], checks[n]));
        let rest = failures_among(some, done);
        assert forall|i: int| 0 <= i < n implies (#[trigger] passes(some, done, i) == passes(
            files,
            checks,
            i,
        )) by {}
        match failure_of(all.last()) {
            Some(f) => {
                assert(found =~= rest.push(f));
                assert(failed_paths(found) =~= failed_paths(rest).push(f.path));
                assert(!passes(files, checks, n));
                if failed_paths(found).contains(p) {
                    let k = choose|k: int|
                        0 <= k < failed_paths(found).len() && failed_paths(found)[k] == p;
                    if k < rest.len() {
                        assert(failed_paths(rest)[k] == p);
                        let i = choose|i: int|
                            0 <= i < some.len() && (#[trigger] some[i]).path == p && !passes(
                                some,
                                done,
                                i,
                            );
                        assert(files[i].path == p && !passes(files, checks, i));
                    } else {
                        assert(files[n].path == p);
                    }
                }
                assert(failed_paths(found)[rest.len() as int] == f.path);
                if failed_paths(rest).contains(p) {
                    let k = choose|k: int|
                        0 <= k < failed_paths(rest).len() && failed_paths(rest)[k] == p;
                    assert(failed_paths(found)[k] == p);
                }
            },
            None => {
                assert(found =~= rest);
                assert(passes(files, checks, n));
                if failed_paths(rest).contains(p) {
                    let i = choose|i: int|
                        0 <= i < some.len() && (#[trigger] some[i]).path == p && !passes(
                            some,
                            done,
                            i,
                        );
                    assert(files[i].path == p && !passes(files, checks, i));
                }
            },
        }
        if exists|i: int|
            0 <= i < files.len() && (#[trigger] files[i]).path == p && !passes(files, checks, i) {
            let i = choose|i: int|
                0 <= i < files.len() && (#[trigger] files[i]).path == p && !passes(
                    files,
                    checks,
                    i,
                );
            if i < n {
                assert(some[i].path == p && !passes(some, done, i));
            }
        }
        if forall|i: int| 0 <= i < files.len() ==> #[trigger] passes(files, checks, i) {
            assert forall|i: int| 0 <= i < some.len() implies #[trigger] passes(some, done, i) by {
                assert(passes(files, checks, i));
            }
        }
        if found.len() == 0 {
            assert forall|i: int| 0 <= i < files.len() implies #[trigger] passes(
                files,
                checks,
                i,
            ) by {
                if i < n {
                    assert(passes(some, done, i));
                }
            }
        }
    }
}

/// Verification succeeds if and only if every file passes its check.
pub proof fn verified_means_all_pass(files: Seq<EntryView>, checks: Seq<FileCheck>)
    requires
        files.len() == checks.len(),
    ensures
        failures_among(files, checks).len() == 0 <==> forall|i: int|
            0 <= i < files.len() ==> #[trigger] passes(files, checks, i),
{
    failure_for_each(files, checks, Seq::empty());
}

/// All failures are reported, and nothing else: a path is reported if and only if a
/// file with that path does not pass its check.
pub proof fn all_failures_are_reported(
    files: Seq<EntryView>,
    checks: Seq<FileCheck>,
    path: Seq<char>,
)
    requires
        files.len() == checks.len(),
    ensures
        failed_paths(failures_among(files, checks)).contains(path) <==> exists|i: int|
            0 <= i < files.len() && (#[trigger] files[i]).path == path && !passes(
                files,
                checks,
                i,
            ),
{
    failure_for_each(files, checks, path);
}

/// What a retry reads from the failed-file list is what the verification found to
/// fail, where each failing path fits on a line.
pub proof fn retry_list_names_the_failures(
    files: Seq<EntryView>,
    only: Option<Set<Seq<char>>>,
    checks: Seq<FileCheck>,
    path: Seq<char>,
)
    requires
        checks.len() == chosen_entries(files, only).len(),
        failures_among(chosen_entries(files, only), checks).len() > 0,
        can_list(failed_paths(failures_among(chosen_entries(files, only), checks))),
    ensures
        listed(
            list_text(failed_paths(failures_among(chosen_entries(files, only), checks))),
            paths(files),
        ).contains(path) <==> exists|i: int|
            0 <= i < chosen_entries(files, only).len() && (#[trigger] chosen_entries(
                files,
                only,
            )[i]).path == path && !passes(chosen_entries(files, only), checks, i),
{
    let selected = chosen_entries(files, only);
    let failed = failed_paths(failures_among(selected, checks));
    assert forall|k: int| 0 <= k < failed.len() implies paths(files).contains(
        #[trigger] failed[k],
    ) by {
        failure_for_each(selected, checks, failed[k]);
        assert(failed.contains(failed[k]));
        let i = choose|i: int|
            0 <= i < selected.len() && (#[trigger] selected[i]).path == failed[k] && !passes(
                selected,
                checks,
                i,
            );
        let keep = |e: EntryView| wanted(only, e.path);
        files.lemma_filter_contains_rev(keep, selected[i]);
        let j = choose|j: int| 0 <= j < files.len() && files[j] == selected[i];
        assert(paths(files)[j] == failed[k]);
    }
    listed_after_list_text(failed, paths(files));
    failure_for_each(selected, checks, path);
}

/// Whether an event tells truly how a verification of the files in `only` went, where
/// `checks` is how the selected files were found on disk.
pub open spec fn tells_truly(
    files: Seq<EntryView>,
    only: Option<Set<Seq<char>>>,
    checks: Seq<FileCheck>,
    event: EventView,
) -> bool {
    let selected = chosen_entries(files, only);
    match event {
        EventView::Done => {
            &&& checks.len() == selected.len()
            &&& failures_among(selected, checks).len() == 0
        },
        EventView::Mismatched(failed, _) => {
            &&& checks.len() == selected.len()
            &&& failed == failed_paths(failures_among(selected, checks)).to_set()
        },
        EventView::Failed(_) => true,
    }
}

/// Whether the selected file at `k` was found on disk with the hash that the manifest
/// has for it.
pub open spec fn found_intact(
    files: Seq<EntryView>,
    only: Option<Set<Seq<char>>>,
    checks: Seq<FileCheck>,
    k: int,
) -> bool {
    &&& 0 <= k < chosen_entries(files, only).len()
    &&& 0 <= k < checks.len()
    &&& checks[k].status matches FileStatus::Hashed { hash }
    &&& hex(hash@) == chosen_entries(files, only)[k].hash
}

/// Whether `step` is a verification that selects the entry `e` and finds its file
/// intact.
pub open spec fn intact_at(
    step: StepView,
    files: Seq<EntryView>,
    checks: Seq<FileCheck>,
    e: EntryView,
) -> bool {
    match step {
        StepView::Verify(_, only) => exists|k: int|
            #[trigger] found_intact(files, only, checks, k) && chosen_entries(files, only)[k] == e,
        _ => false,
    }
}

/// A receive that succeeds has every file of the manifest in place: the last
/// verification that looks at the file finds on disk, under its path, contents with the
/// very hash that the manifest has for it, and nothing is written there after that.
/// `checks[m]` is how the files were found by the step that the event `m` answers.
pub proof fn successful_receive_is_complete(
    max_retries: nat,
    list: Seq<char>,
    events: Seq<EventView>,
    files: Seq<EntryView>,
    checks: Seq<Seq<FileCheck>>,
    i: int,
)
    requires
        run(max_retries, list, StepView::Download(0), events) == StepView::Finished(Ok(())),
        checks.len() == events.len(),
        forall|m: int|
            0 <= m < events.len() ==> (#[trigger] step_at(max_retries, list, events, m) matches
                StepView::Verify(_, only) ==> tells_truly(files, only, checks[m], events[m])),
        0 <= i < files.len(),
    ensures
        exists|m: int|
            {
                &&& #[trigger] passed_last_at(
                    max_retries,
                    list,
                    events,
                    events.len() as int,
                    files[i].path,
                    m,
                )
                &&& intact_at(step_at(max_retries, list, events, m), files, checks[m], files[i])
            },
{
    let path = files[i].path;
    let n = events.len() as int;
    success_means_verified(max_retries, list, events, path);
    let m = choose|m: int| passed_last_at(max_retries, list, events, n, path, m);
    let only = step_at(max_retries, list, events, m)->Verify_1;
    let selected = chosen_entries(files, only);
    assert(tells_truly(files, only, checks[m], events[m]));
    entry_is_chosen(files, only, i);
    let k = choose|k: int| 0 <= k < selected.len() && selected[k] == files[i];
    failure_for_each(selected, checks[m], path);
    let failed = failed_paths(failures_among(selected, checks[m]));
    if !passes(selected, checks[m], k) {
        assert(selected[k].path == path);
        assert(failed.contains(path));
        if events[m] is Done {
            assert(failed.len() == 0);
        } else {
            assert(failed.to_set().contains(path));
        }
    }
    assert(found_intact(files, only, checks[m], k));
    assert(intact_at(step_at(max_retries, list, events, m), files, checks[m], files[i]));
}

proof fn entry_is_chosen(files: Seq<EntryView>, only: Option<Set<Seq<char>>>, i: int)
    requires
        0 <= i < files.len(),
        wanted(only, files[i].path),
    ensures
        exists|k: int|
            0 <= k < chosen_entries(files, only).len() && chosen_entries(files, only)[k]
                == files[i],
{
    broadcast use vstd::seq_lib::group_filter_ensures;

    let keep = |e: EntryView| wanted(only, e.path);
    assert(keep(files[i]));
    assert(files.filter(keep).contains(files[i]));
    let k = choose|k: int| 0 <= k < files.filter(keep).len() && files.filter(keep)[k] == files[i];
    assert(chosen_entries(files, only)[k] == files[i]);
}

/// A file passes its check if and only if its contents have the hash that the sender
/// imported it with.
pub proof fn only_the_senders_contents_pass(
    names: Seq<Seq<char>>,
    hashes: Seq<Seq<u8>>,
    i: int,
    check: FileCheck,
)
    requires
        0 <= i < names.len(),
        names.len() == hashes.len(),
        hashes[i].len() == 32,
    ensures
        failure_detail(described(names, hashes)[i], check) is None <==> (
        check.status matches FileStatus::Hashed { hash } && hash@ == hashes[i]),
{
    match check.status {
        FileStatus::Hashed { hash } => {
            if hex(hash@) == hex(hashes[i]) {
                hex_injective(hash@, hashes[i]);
            }
        },
        _ => {},
    }
}

/// Verification succeeds if and only if every file on disk has the contents that the
/// sender imported, whether or not the receiver strips the root of the paths.
pub proof fn verified_means_unchanged(
    names: Seq<Seq<char>>,
    hashes: Seq<Seq<u8>>,
    strip_root: bool,
    checks: Seq<FileCheck>,
)
    requires
        names.len() == hashes.len(),
        checks.len() == names.len(),
        forall|i: int| 0 <= i < hashes.len() ==> (#[trigger] hashes[i]).len() == 32,
    ensures
        failures_among(prepared(described(names, hashes), strip_root), checks).len() == 0
            <==> forall|i: int|
            0 <= i < checks.len() ==> ((#[trigger] checks[i]).status matches FileStatus::Hashed {
                hash,
            } && hash@ == hashes[i]),
{
    let files = prepared(described(names, hashes), strip_root);
    verified_means_all_pass(files, checks);
    assert forall|i: int| 0 <= i < checks.len() implies (#[trigger] passes(files, checks, i) <==> (
    checks[i].status matches FileStatus::Hashed { hash } && hash@ == hashes[i])) by {
        assert(files[i].hash == described(names, hashes)[i].hash);
        only_the_senders_contents_pass(names, hashes, i, checks[i]);
    }
    if failures_among(files, checks).len() == 0 {
        assert forall|i: int| 0 <= i < checks.len() implies ((
        #[trigger] checks[i]).status matches FileStatus::Hashed { hash } && hash@ == hashes[i]) by {
            assert(passes(files, checks, i));
        }
    }
}

/// The files that are written and the files that are verified are the same, in the
/// same order.
pub proof fn exported_files_are_verified(
    files: Seq<EntryView>,
    hashes: Seq<Seq<u8>>,
    only: Option<Set<Seq<char>>>,
)
    requires
        files.len() == hashes.len(),
    ensures
        chosen(files, hashes, only).map_values(|t: TargetView| t.path) == paths(
            chosen_entries(files, only),
        ),
    decreases files.len(),
{
    reveal(Seq::filter);
    let pick = |t: TargetView| wanted(only, t.path);
    let keep = |e: EntryView| wanted(only, e.path);
    let path_of = |t: TargetView| t.path;
    if files.len() == 0 {
        assert(paired(files, hashes).len() == 0);
        assert(chosen(files, hashes, only).map_values(path_of) =~= paths(
            chosen_entries(files, only),
        ));
    } else {
        let fewer = files.drop_last();
        let rest = hashes.drop_last();
        exported_files_are_verified(fewer, rest, only);
        assert(paired(files, hashes).drop_last() =~= paired(fewer, rest));
        let last = paired(files, hashes).last();
        assert(last.path == files.last().path);
        if pick(last) {
            assert(keep(files.last()));
            assert(chosen(files, hashes, only) == chosen(fewer, rest, only).push(last));
            assert(chosen_entries(files, only) == chosen_entries(fewer, only).push(files.last()));
            assert(chosen(files, hashes, only).map_values(path_of) =~= chosen(
                fewer,
                rest,
                only,
            ).map_values(path_of).push(last.path));
            assert(paths(chosen_entries(files, only)) =~= paths(chosen_entries(fewer, only)).push(
                last.path,
            ));
        } else {
            assert(!keep(files.last()));
        }
    }
}

} // verus!
