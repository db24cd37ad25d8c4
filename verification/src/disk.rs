//! What making a document does to a disk: a model of the disk, the setup
//! run against it, and what holds of every such run.
//!
//! The model is a disk that does as it is told: folders can always be made,
//! and a new file can be made wherever nothing is. It holds the files only.

use crate::document::{Create, DocumentView};
use crate::name::{assemble, lemma_assembled_differ};
use crate::path::{is_rooted, joined};
use crate::setup::{begin, lemma_duplicate_path_is_new, RequestView, SetupView, Stage};
use vstd::prelude::*;

verus! {

/// The files on a disk, by their paths, each with the bytes it holds.
pub struct Disk {
    pub files: Map<Seq<char>, Seq<u8>>,
}

impl Disk {
    /// Whether a file is at `path`.
    pub open spec fn has(self, path: Seq<char>) -> bool {
        self.files.contains_key(path)
    }

    /// The disk with a new, empty file at `path`.
    pub open spec fn with_new(self, path: Seq<char>) -> Disk {
        Disk { files: self.files.insert(path, Seq::<u8>::empty()) }
    }

    /// What the disk answers to a request, and the disk after it.
    pub open spec fn respond(self, request: RequestView) -> (bool, Disk) {
        match request {
            RequestView::CreateFolders(_) => (true, self),
            RequestView::Exists(path) => (self.has(path), self),
            RequestView::CreateNew(path) => if self.has(path) {
                (false, self)
            } else {
                (true, self.with_new(path))
            },
            RequestView::Nothing => (false, self),
        }
    }
}

/// The setup and the disk after at most `fuel` requests, each answered by
/// the disk; the run ends earlier where the setup is over.
#[verifier::opaque]
pub open spec fn run(setup: SetupView, disk: Disk, fuel: nat) -> (SetupView, Disk)
    decreases fuel,
{
    if fuel == 0 || setup.is_over() {
        (setup, disk)
    } else {
        let (answer, after) = disk.respond(setup.request());
        run(setup.next(answer), after, (fuel - 1) as nat)
    }
}

/// Duplicates with different numbers have different paths.
pub proof fn lemma_duplicate_paths_differ(setup: SetupView, a: u64, b: u64)
    requires
        a != b,
    ensures
        setup.duplicate_path(a) != setup.duplicate_path(b),
{
    let x = assemble(setup.base, Some(a), setup.extension);
    let y = assemble(setup.base, Some(b), setup.extension);
    lemma_assembled_differ(setup.base, setup.extension, a, b);
    let px = joined(setup.folder(), x);
    let py = joined(setup.folder(), y);
    assert(x[0] == y[0]);
    if px == py && !is_rooted(x) {
        let shift = px.len() - x.len();
        assert(x.len() == y.len());
        assert forall|i: int| 0 <= i < x.len() implies x[i] == y[i] by {
            assert(px[shift + i] == x[i]);
            assert(py[shift + i] == y[i]);
        }
        assert(x =~= y);
    }
}

/// On a disk of finitely many files, one of the next duplicate numbers is
/// free: the least number from `from` on whose duplicate path is not on the
/// disk is at most `from` plus the number of files.
pub proof fn lemma_free_number(setup: SetupView, taken: Set<Seq<char>>, from: u64) -> (n: u64)
    requires
        taken.finite(),
        from + taken.len() <= u64::MAX,
    ensures
        from <= n <= from + taken.len(),
        !taken.contains(setup.duplicate_path(n)),
        forall|m: u64| from <= m < n ==> taken.contains(#[trigger] setup.duplicate_path(m)),
    decreases taken.len(),
{
    let here = setup.duplicate_path(from);
    if !taken.contains(here) {
        from
    } else {
        let rest = taken.remove(here);
        let n = lemma_free_number(setup, rest, (from + 1) as u64);
        lemma_duplicate_paths_differ(setup, from, n);
        assert forall|m: u64| from <= m < n implies taken.contains(
            #[trigger] setup.duplicate_path(m),
        ) by {
            if m > from {
                assert(rest.contains(setup.duplicate_path(m)));
            }
        }
        n
    }
}

/// A setup that probes a free path ends ready with that path: in a dry run
/// after one request and with the disk as it was, else after three and with
/// a new, empty file at the path.
pub proof fn lemma_free_path_ends(setup: SetupView, disk: Disk) -> (fuel: nat)
    requires
        setup.stage is Probe,
        !disk.has(setup.path),
    ensures
        fuel == if setup.dry_run {
            1nat
        } else {
            3nat
        },
        run(setup, disk, fuel) == (
            SetupView { stage: Stage::Ready, ..setup },
            if setup.dry_run {
                disk
            } else {
                disk.with_new(setup.path)
            },
        ),
{
    let ready = SetupView { stage: Stage::Ready, ..setup };
    if setup.dry_run {
        lemma_run_step(setup, disk, 0);
        lemma_run_over(ready, disk, 0);
        1
    } else {
        let made = disk.with_new(setup.path);
        assert(made.has(setup.path));
        let creating = SetupView { stage: Stage::Create, ..setup };
        let confirming = SetupView { stage: Stage::Confirm, ..setup };
        lemma_run_step(setup, disk, 2);
        lemma_run_step(creating, disk, 1);
        lemma_run_step(confirming, made, 0);
        lemma_run_over(ready, made, 0);
        3
    }
}

/// Probing from the duplicate with the setup's own number on, the setup
/// comes to the first duplicate whose path is free, names it in a dry run
/// and makes it otherwise. The result is how many requests that takes.
pub proof fn lemma_probing_ends(setup: SetupView, disk: Disk, n: u64) -> (fuel: nat)
    requires
        setup.stage is Probe,
        setup.create is AutoRenameIfExists,
        setup.path == setup.duplicate_path(setup.number),
        setup.number <= n,
        !disk.has(setup.duplicate_path(n)),
        forall|m: u64| setup.number <= m < n ==> disk.has(#[trigger] setup.duplicate_path(m)),
    ensures
        run(setup, disk, fuel) == (
            SetupView { number: n, path: setup.duplicate_path(n), stage: Stage::Ready, ..setup },
            if setup.dry_run {
                disk
            } else {
                disk.with_new(setup.duplicate_path(n))
            },
        ),
    decreases n - setup.number,
{
    if setup.number == n {
        lemma_free_path_ends(setup, disk)
    } else {
        assert(disk.has(setup.duplicate_path(setup.number)));
        let after = setup.next(true);
        lemma_same_duplicates(after, setup);
        let fuel = lemma_probing_ends(after, disk, n);
        lemma_run_step(setup, disk, fuel);
        fuel + 1
    }
}

/// How many requests a setup makes before it first probes the disk, on a
/// disk where folders can be made: one where it begins with the folders.
pub proof fn lemma_folders_made(setup: SetupView, disk: Disk) -> (lead: nat)
    requires
        setup.stage is Folders || setup.stage is Probe,
    ensures
        lead <= 1,
        run(setup, disk, lead) == (SetupView { stage: Stage::Probe, ..setup }, disk),
{
    let probing = SetupView { stage: Stage::Probe, ..setup };
    if setup.stage is Folders {
        lemma_run_step(setup, disk, 0);
        lemma_run_zero(probing, disk);
        1
    } else {
        lemma_run_zero(setup, disk);
        0
    }
}

/// What `law_auto_rename_finds_free_path` says, of any setup under
/// `AutoRenameIfExists` that has not probed the disk yet.
pub proof fn lemma_auto_rename(start: SetupView, disk: Disk) -> (fuel: nat)
    requires
        start.create is AutoRenameIfExists,
        start.stage is Folders || start.stage is Probe,
        disk.files.dom().finite(),
        start.number + disk.files.dom().len() < u64::MAX,
    ensures
        ({
            let (end, after) = run(start, disk, fuel);
            &&& end == SetupView { number: end.number, path: end.path, stage: Stage::Ready, ..start }
            &&& !disk.has(end.path)
            &&& after == if start.dry_run {
                disk
            } else {
                disk.with_new(end.path)
            }
            &&& !disk.has(start.path) ==> end.path == start.path
            &&& disk.has(start.path) ==> {
                &&& end.number > start.number
                &&& end.path == start.duplicate_path(end.number)
                &&& forall|m: u64|
                    start.number < m < end.number ==> disk.has(#[trigger] start.duplicate_path(m))
            }
        }),
{
    let probing = SetupView { stage: Stage::Probe, ..start };
    let lead = lemma_folders_made(start, disk);
    if !disk.has(start.path) {
        let fuel = lemma_free_path_ends(probing, disk);
        lemma_run_more(start, disk, lead, probing, disk, fuel);
        lead + fuel
    } else {
        let first = (start.number + 1) as u64;
        let n = lemma_free_number(start, disk.files.dom(), first);
        let renamed = probing.next(true);
        lemma_same_duplicates(renamed, start);
        let fuel = lemma_probing_ends(renamed, disk, n);
        lemma_run_step(probing, disk, fuel);
        lemma_run_more(start, disk, lead, probing, disk, 1 + fuel);
        lead + 1 + fuel
    }
}

/// `AutoRenameIfExists` ends with a document whose path was free. On a disk
/// of finitely many files, with room left above the name's own duplicate
/// number, a setup under this policy comes to an end after finitely many
/// requests, and ends ready. Its path is the path asked for where that is
/// free, and else the duplicate path with the least number above the
/// name's own that is free. Nothing was at that path; now a new, empty file
/// is there, and in a dry run the disk is as it was. The result is how many
/// requests the setup takes.
pub proof fn law_auto_rename_finds_free_path(
    path: Seq<char>,
    alias: Seq<char>,
    dry_run: bool,
    disk: Disk,
) -> (fuel: nat)
    requires
        disk.files.dom().finite(),
        begin(path, alias, Create::AutoRenameIfExists, dry_run).number + disk.files.dom().len()
            < u64::MAX,
    ensures
        ({
            let start = begin(path, alias, Create::AutoRenameIfExists, dry_run);
            let (end, after) = run(start, disk, fuel);
            &&& end == SetupView { number: end.number, path: end.path, stage: Stage::Ready, ..start }
            &&& !disk.has(end.path)
            &&& after == if dry_run {
                disk
            } else {
                disk.with_new(end.path)
            }
            &&& !disk.has(path) ==> end.path == path
            &&& disk.has(path) ==> {
                &&& end.number > start.number
                &&& end.path == start.duplicate_path(end.number)
                &&& forall|m: u64|
                    start.number < m < end.number ==> disk.has(#[trigger] start.duplicate_path(m))
            }
        }),
{
    lemma_auto_rename(begin(path, alias, Create::AutoRenameIfExists, dry_run), disk)
}

/// Setups for the same folder, base and extension have the same duplicate
/// paths.
pub proof fn lemma_same_duplicates(a: SetupView, b: SetupView)
    requires
        a.parent == b.parent,
        a.base == b.base,
        a.extension == b.extension,
    ensures
        forall|m: u64| #[trigger] a.duplicate_path(m) == b.duplicate_path(m),
{
}

/// A run of one request more begins with the first request.
pub proof fn lemma_run_step(setup: SetupView, disk: Disk, fuel: nat)
    requires
        !setup.is_over(),
    ensures
        run(setup, disk, fuel + 1) == run(
            setup.next(disk.respond(setup.request()).0),
            disk.respond(setup.request()).1,
            fuel,
        ),
{
    reveal_with_fuel(run, 2);
}

/// A run of no requests changes nothing.
pub proof fn lemma_run_zero(setup: SetupView, disk: Disk)
    ensures
        run(setup, disk, 0) == (setup, disk),
{
    reveal_with_fuel(run, 1);
}

/// A run that is over stays as it is.
pub proof fn lemma_run_over(setup: SetupView, disk: Disk, fuel: nat)
    requires
        setup.is_over(),
    ensures
        run(setup, disk, fuel) == (setup, disk),
{
    reveal_with_fuel(run, 2);
}

/// A run can be made in two parts.
pub proof fn lemma_run_more(
    setup: SetupView,
    disk: Disk,
    first: nat,
    middle: SetupView,
    between: Disk,
    second: nat,
)
    requires
        run(setup, disk, first) == (middle, between),
    ensures
        run(setup, disk, first + second) == run(middle, between, second),
    decreases first,
{
    if first == 0 {
        lemma_run_zero(setup, disk);
    } else if setup.is_over() {
        lemma_run_over(setup, disk, first);
        lemma_run_over(setup, disk, first + second);
        lemma_run_over(setup, disk, second);
    } else {
        let (answer, after) = disk.respond(setup.request());
        lemma_run_step(setup, disk, (first - 1) as nat);
        lemma_run_step(setup, disk, (first - 1 + second) as nat);
        lemma_run_more(setup.next(answer), after, (first - 1) as nat, middle, between, second);
    }
}

/// Whether a setup under `AutoRenameIfExists` that began as `start` on
/// `disk` can have come to `setup` with the disk as `now`: it has the
/// path it began with or the path of a duplicate with a higher number,
/// every path it passed over was taken, and it has made at most the file at
/// its own path, where nothing was.
pub open spec fn renaming(start: SetupView, disk: Disk, setup: SetupView, now: Disk) -> bool {
    &&& setup == SetupView { number: setup.number, path: setup.path, stage: setup.stage, ..start }
    &&& start.create is AutoRenameIfExists
    &&& start.number <= setup.number
    &&& if setup.number == start.number {
        setup.path == start.path
    } else {
        disk.has(start.path) && setup.path == start.duplicate_path(setup.number)
    }
    &&& forall|m: u64| start.number < m < setup.number ==> disk.has(#[trigger] start.duplicate_path(m))
    &&& match setup.stage {
        Stage::Folders => now == disk && setup.number == start.number,
        Stage::Probe => now == disk,
        Stage::Create => now == disk && !disk.has(setup.path) && !setup.dry_run,
        Stage::Confirm => now == disk.with_new(setup.path) && !disk.has(setup.path)
            && !setup.dry_run,
        Stage::Ready => !disk.has(setup.path) && now == if setup.dry_run {
            disk
        } else {
            disk.with_new(setup.path)
        },
        Stage::Failed(_) => now == disk,
    }
}

/// One request keeps a renaming setup a renaming setup.
pub proof fn lemma_renaming_step(start: SetupView, disk: Disk, setup: SetupView, now: Disk)
    requires
        renaming(start, disk, setup, now),
        !setup.is_over(),
    ensures
        renaming(
            start,
            disk,
            setup.next(now.respond(setup.request()).0),
            now.respond(setup.request()).1,
        ),
{
    let (answer, after) = now.respond(setup.request());
    let then = setup.next(answer);
    lemma_same_duplicates(setup, start);
    if setup.stage is Probe && answer && setup.number < u64::MAX {
        assert forall|m: u64| start.number < m < then.number implies disk.has(
            #[trigger] start.duplicate_path(m),
        ) by {
            if m == setup.number {
                assert(setup.path == start.duplicate_path(m));
            }
        }
    }
    if setup.stage is Create {
        assert(after.has(setup.path));
    }
    if setup.stage is Confirm {
        assert(now.has(setup.path));
    }
}

/// Any number of requests keep a renaming setup a renaming setup.
pub proof fn lemma_renaming_run(
    start: SetupView,
    disk: Disk,
    setup: SetupView,
    now: Disk,
    fuel: nat,
)
    requires
        renaming(start, disk, setup, now),
    ensures
        renaming(start, disk, run(setup, now, fuel).0, run(setup, now, fuel).1),
    decreases fuel,
{
    if setup.is_over() {
        lemma_run_over(setup, now, fuel);
    } else if fuel == 0 {
        lemma_run_zero(setup, now);
    } else {
        let (answer, after) = now.respond(setup.request());
        lemma_run_step(setup, now, (fuel - 1) as nat);
        lemma_renaming_step(start, disk, setup, now);
        lemma_renaming_run(start, disk, setup.next(answer), after, (fuel - 1) as nat);
    }
}

/// Paths that are all taken, one for each number from `from` up to `to`,
/// are no more than the files on the disk.
pub proof fn lemma_taken_count(setup: SetupView, taken: Set<Seq<char>>, from: u64, to: u64)
    requires
        taken.finite(),
        from <= to,
        forall|m: u64| from <= m < to ==> taken.contains(#[trigger] setup.duplicate_path(m)),
    ensures
        to - from <= taken.len(),
    decreases to - from,
{
    if from < to {
        let here = setup.duplicate_path(from);
        let rest = taken.remove(here);
        let next = (from + 1) as u64;
        assert forall|m: u64| next <= m < to implies rest.contains(
            #[trigger] setup.duplicate_path(m),
        ) by {
            lemma_duplicate_paths_differ(setup, from, m);
        }
        lemma_taken_count(setup, rest, next, to);
    }
}

/// Under `AutoRenameIfExists`, a document is made only at a path that was
/// free. Whatever is on the disk, and after any number of requests: where
/// the setup has ended with a document, nothing was at the document's path
/// before; now a new, empty file is there and nothing else has changed, and
/// in a dry run the disk is as it was. The path is the path asked for
/// where that was free: there is no renaming without need. Else it is the
/// path of the duplicate, in the same folder, with the least number above
/// the name's own whose path was free.
pub proof fn law_auto_rename_path_was_free(
    path: Seq<char>,
    alias: Seq<char>,
    dry_run: bool,
    disk: Disk,
    fuel: nat,
)
    ensures
        ({
            let start = begin(path, alias, Create::AutoRenameIfExists, dry_run);
            let (end, after) = run(start, disk, fuel);
            end.stage is Ready ==> {
                &&& !disk.has(end.path)
                &&& after == if dry_run {
                    disk
                } else {
                    disk.with_new(end.path)
                }
                &&& !disk.has(path) ==> end.path == path
                &&& disk.has(path) ==> {
                    &&& end.number > start.number
                    &&& end.path == start.duplicate_path(end.number)
                    &&& forall|m: u64|
                        start.number < m < end.number ==> disk.has(
                            #[trigger] start.duplicate_path(m),
                        )
                }
            }
        }),
{
    let start = begin(path, alias, Create::AutoRenameIfExists, dry_run);
    lemma_renaming_run(start, disk, start, disk, fuel);
}

/// Under `AutoRenameIfExists`, few names are tried. On a disk of finitely
/// many files, and after any number of requests, the duplicate number that
/// the setup has come to is above the name's own by no more than the
/// number of files: counting the path asked for, the setup tries at most
/// one name more than there are files.
pub proof fn law_auto_rename_tries_few_names(
    path: Seq<char>,
    alias: Seq<char>,
    dry_run: bool,
    disk: Disk,
    fuel: nat,
)
    requires
        disk.files.dom().finite(),
    ensures
        ({
            let start = begin(path, alias, Create::AutoRenameIfExists, dry_run);
            let end = run(start, disk, fuel).0;
            start.number <= end.number <= start.number + disk.files.dom().len()
        }),
{
    let start = begin(path, alias, Create::AutoRenameIfExists, dry_run);
    let end = run(start, disk, fuel).0;
    lemma_renaming_run(start, disk, start, disk, fuel);
    if end.number > start.number {
        let first = (start.number + 1) as u64;
        let others = disk.files.dom().remove(path);
        assert forall|m: u64| first <= m < end.number implies others.contains(
            #[trigger] start.duplicate_path(m),
        ) by {
            lemma_duplicate_path_is_new(path, alias, Create::AutoRenameIfExists, dry_run, m);
        }
        lemma_taken_count(start, others, first, end.number);
    }
}

/// A setup that makes nothing any more leaves the disk as it is.
pub proof fn lemma_run_after_making(setup: SetupView, disk: Disk, fuel: nat)
    requires
        setup.stage is Confirm || setup.is_over(),
    ensures
        run(setup, disk, fuel).1 == disk,
        run(setup, disk, fuel).0.path == setup.path,
        setup.is_over() ==> run(setup, disk, fuel).0 == setup,
        setup.stage is Confirm && disk.has(setup.path) ==> !(run(setup, disk, fuel).0.stage is Failed),
    decreases fuel,
{
    if setup.is_over() {
        lemma_run_over(setup, disk, fuel);
    } else if fuel == 0 {
        lemma_run_zero(setup, disk);
    } else {
        lemma_run_step(setup, disk, (fuel - 1) as nat);
        lemma_run_after_making(setup.next(disk.has(setup.path)), disk, (fuel - 1) as nat);
    }
}

/// What `law_at_most_one_new_file` says, of any setup.
pub proof fn lemma_at_most_one_new_file(setup: SetupView, disk: Disk, fuel: nat)
    ensures
        ({
            let (end, after) = run(setup, disk, fuel);
            ||| after == disk
            ||| after == disk.with_new(end.path) && !disk.has(end.path) && !(end.stage is Failed)
        }),
    decreases fuel,
{
    if setup.is_over() {
        lemma_run_over(setup, disk, fuel);
    } else if fuel == 0 {
        lemma_run_zero(setup, disk);
    } else {
        let rest = (fuel - 1) as nat;
        lemma_run_step(setup, disk, rest);
        let (answer, after) = disk.respond(setup.request());
        if setup.stage is Create && answer {
            assert(after.has(setup.path));
            lemma_run_after_making(setup.next(true), after, rest);
        } else {
            lemma_at_most_one_new_file(setup.next(answer), disk, rest);
        }
    }
}

/// A setup makes one file at most, and none where it fails. After any
/// number of requests the disk is as it was, or it has one new, empty file
/// where nothing was: at the path that the setup has come to, and then the
/// setup has not failed.
pub proof fn law_at_most_one_new_file(
    path: Seq<char>,
    alias: Seq<char>,
    create: Create,
    dry_run: bool,
    disk: Disk,
    fuel: nat,
)
    ensures
        ({
            let (end, after) = run(begin(path, alias, create, dry_run), disk, fuel);
            ||| after == disk
            ||| after == disk.with_new(end.path) && !disk.has(end.path) && !(end.stage is Failed)
        }),
{
    lemma_at_most_one_new_file(begin(path, alias, create, dry_run), disk, fuel);
}

/// What `law_ready_document_is_there` says, of any setup that is not ready
/// and not in a dry run.
pub proof fn lemma_ready_is_there(setup: SetupView, disk: Disk, fuel: nat)
    requires
        !setup.dry_run,
        !(setup.stage is Ready),
    ensures
        run(setup, disk, fuel).0.stage is Ready ==> run(setup, disk, fuel).1.has(
            run(setup, disk, fuel).0.path,
        ),
    decreases fuel,
{
    if setup.is_over() {
        lemma_run_over(setup, disk, fuel);
    } else if fuel == 0 {
        lemma_run_zero(setup, disk);
    } else {
        let rest = (fuel - 1) as nat;
        lemma_run_step(setup, disk, rest);
        let (answer, after) = disk.respond(setup.request());
        let then = setup.next(answer);
        if then.stage is Ready {
            lemma_run_over(then, after, rest);
        } else {
            lemma_ready_is_there(then, after, rest);
        }
    }
}

/// The file of a document that is ready is there: outside of a dry run, a
/// setup that has ended with a document has found or made a file at the
/// document's path, whatever the policy.
pub proof fn law_ready_document_is_there(
    path: Seq<char>,
    alias: Seq<char>,
    create: Create,
    disk: Disk,
    fuel: nat,
)
    ensures
        ({
            let (end, after) = run(begin(path, alias, create, false), disk, fuel);
            end.stage is Ready ==> after.has(end.path)
        }),
{
    lemma_ready_is_there(begin(path, alias, create, false), disk, fuel);
}

/// What `law_dry_run_changes_nothing` says, of any setup in a dry run that
/// only probes the disk.
pub proof fn lemma_dry_run(setup: SetupView, disk: Disk, fuel: nat)
    requires
        setup.dry_run,
        setup.stage is Probe && setup.create is AutoRenameIfExists || setup.is_over(),
    ensures
        run(setup, disk, fuel).1 == disk,
    decreases fuel,
{
    if setup.is_over() {
        lemma_run_over(setup, disk, fuel);
    } else if fuel == 0 {
        lemma_run_zero(setup, disk);
    } else {
        lemma_run_step(setup, disk, (fuel - 1) as nat);
        lemma_dry_run(setup.next(disk.has(setup.path)), disk, (fuel - 1) as nat);
    }
}

/// A dry run changes nothing: whatever the policy, and after any number of
/// requests, the disk is as it was.
pub proof fn law_dry_run_changes_nothing(
    path: Seq<char>,
    alias: Seq<char>,
    create: Create,
    disk: Disk,
    fuel: nat,
)
    ensures
        run(begin(path, alias, create, true), disk, fuel).1 == disk,
{
    lemma_dry_run(begin(path, alias, create, true), disk, fuel);
}

/// An upper bound on the requests that a setup has yet to make.
pub open spec fn requests_left(setup: SetupView) -> nat {
    let probes: nat = if setup.create is AutoRenameIfExists {
        (u64::MAX - setup.number) as nat
    } else {
        0
    };
    match setup.stage {
        Stage::Folders => 4 + probes,
        Stage::Probe => 3 + probes,
        Stage::Create => 2,
        Stage::Confirm => 1,
        Stage::Ready => 0,
        Stage::Failed(_) => 0,
    }
}

/// Every setup comes to an end, whatever is on the disk: after at most
/// `requests_left` requests it is over.
pub proof fn law_setup_ends(setup: SetupView, disk: Disk)
    ensures
        run(setup, disk, requests_left(setup)).0.is_over(),
    decreases requests_left(setup),
{
    if setup.is_over() {
        lemma_run_over(setup, disk, requests_left(setup));
    } else {
        let (answer, after) = disk.respond(setup.request());
        let then = setup.next(answer);
        law_setup_ends(then, after);
        let spare = (requests_left(setup) - 1 - requests_left(then)) as nat;
        let end = run(then, after, requests_left(then));
        lemma_run_more(then, after, requests_left(then), end.0, end.1, spare);
        lemma_run_over(end.0, end.1, spare);
        lemma_run_step(setup, disk, (requests_left(setup) - 1) as nat);
    }
}

/// `OnlyIfNotExists` can be repeated. A setup under this policy ends ready
/// with the path asked for, and the file is there. What was on the disk
/// before is still there and holds what it held. A second setup for the
/// same path ends with the same document and leaves the disk as the first
/// left it.
pub proof fn law_only_if_not_exists_repeats(path: Seq<char>, alias: Seq<char>, disk: Disk)
    ensures
        ({
            let start = begin(path, alias, Create::OnlyIfNotExists, false);
            let (first, between) = run(start, disk, 4);
            let (second, after) = run(start, between, 4);
            &&& first.outcome() == Some(
                Ok::<DocumentView, crate::error::ErrorView>(
                    DocumentView { alias, path, create_policy: Create::OnlyIfNotExists },
                ),
            )
            &&& second.outcome() == first.outcome()
            &&& between.has(path)
            &&& after == between
            &&& forall|other: Seq<char>| #[trigger]
                disk.has(other) ==> between.has(other) && between.files[other]
                    == disk.files[other]
        }),
{
    let start = begin(path, alias, Create::OnlyIfNotExists, false);
    lemma_repeats(start, disk);
}

/// What `law_only_if_not_exists_repeats` says, of any setup under
/// `OnlyIfNotExists` that has not probed the disk yet.
pub proof fn lemma_repeats(start: SetupView, disk: Disk)
    requires
        start.create is OnlyIfNotExists,
        !start.dry_run,
        start.stage is Folders || start.stage is Probe,
    ensures
        ({
            let ready = SetupView { stage: Stage::Ready, ..start };
            let (first, between) = run(start, disk, 4);
            let (second, after) = run(start, between, 4);
            &&& first == ready
            &&& second == ready
            &&& between.has(start.path)
            &&& after == between
            &&& forall|other: Seq<char>| #[trigger]
                disk.has(other) ==> between.has(other) && between.files[other]
                    == disk.files[other]
        }),
{
    let path = start.path;
    let probing = SetupView { stage: Stage::Probe, ..start };
    let ready = SetupView { stage: Stage::Ready, ..start };
    lemma_run_over(ready, disk, 2);
    lemma_run_over(ready, disk, 1);
    lemma_run_over(ready, disk.with_new(path), 0);
    lemma_run_over(ready, disk.with_new(path), 1);
    lemma_run_over(ready, disk.with_new(path), 2);
    let lead = lemma_folders_made(start, disk);
    if disk.has(path) {
        lemma_file_found(probing, disk);
        lemma_run_more(start, disk, lead, probing, disk, 2);
        lemma_run_more(start, disk, lead + 2, ready, disk, (2 - lead) as nat);
        assert(run(start, disk, 4) == (ready, disk));
    } else {
        let made = disk.with_new(path);
        let fuel = lemma_free_path_ends(probing, disk);
        lemma_run_more(start, disk, lead, probing, disk, 3);
        lemma_run_more(start, disk, lead + 3, ready, made, (1 - lead) as nat);
        assert(run(start, disk, 4) == (ready, made));
        let again = lemma_folders_made(start, made);
        lemma_file_found(probing, made);
        lemma_run_more(start, made, again, probing, made, 2);
        lemma_run_more(start, made, again + 2, ready, made, (2 - again) as nat);
        assert(run(start, made, 4) == (ready, made));
    }
}

/// A setup that leaves alone what is there, and probes a path where a file
/// is, ends ready after two requests, and the disk is as it was.
pub proof fn lemma_file_found(setup: SetupView, disk: Disk)
    requires
        setup.stage is Probe,
        !(setup.create is AutoRenameIfExists),
        disk.has(setup.path),
    ensures
        run(setup, disk, 2) == (SetupView { stage: Stage::Ready, ..setup }, disk),
{
    let confirming = SetupView { stage: Stage::Confirm, ..setup };
    let ready = SetupView { stage: Stage::Ready, ..setup };
    lemma_run_step(setup, disk, 1);
    lemma_run_step(confirming, disk, 0);
    lemma_run_over(ready, disk, 0);
}

} // verus!
