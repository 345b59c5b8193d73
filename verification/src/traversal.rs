//! Which requests an operation comes to make on a given directory tree.
//!
//! The tree is taken as the driver finds it and every request is taken to
//! succeed. What is shown here of the forward and of the reverse pass then
//! holds of every operation that runs to its end.

use crate::bucket::{bucket_at, BucketPathView};
use crate::organizer::{
    bucket_dir, follow_up, request_for, requests_for, EntryKind, EntryView, Mode, OrganizerView,
    OutcomeView, ReplyView, RequestView,
};
use vstd::prelude::*;

verus! {

/// A directory tree below a root directory.
pub struct Tree {
    /// The entries of the directory at a path.
    pub entries_of: spec_fn(Seq<Seq<char>>) -> Seq<EntryView>,
    /// When the file with a name in the directory at a path was last
    /// modified: seconds since the start of 1970, and the seconds by which
    /// local clocks ran ahead of UTC then.
    pub modified: spec_fn(Seq<Seq<char>>, Seq<char>) -> (int, int),
}

impl Tree {
    /// Whether the directory at `dir` holds a regular file `name`.
    pub open spec fn has_file(self, dir: Seq<Seq<char>>, name: Seq<char>) -> bool {
        (self.entries_of)(dir).contains(EntryView { name, kind: EntryKind::File })
    }

    /// Whether `dir` leads from the root directory to a directory, through
    /// directories only.
    pub open spec fn is_directory(self, dir: Seq<Seq<char>>) -> bool
        decreases dir.len(),
    {
        dir.len() > 0 ==> {
            &&& self.is_directory(dir.drop_last())
            &&& (self.entries_of)(dir.drop_last()).contains(
                EntryView { name: dir.last(), kind: EntryKind::Directory },
            )
        }
    }

    /// What a driver reports of `request` on this tree when nothing fails.
    pub open spec fn reply(self, request: RequestView) -> ReplyView {
        ReplyView::Answer {
            request,
            outcome: match request {
                RequestView::List { dir } => OutcomeView::Entries((self.entries_of)(dir)),
                RequestView::ReadModified { dir, name } => OutcomeView::Modified {
                    seconds: (self.modified)(dir, name).0,
                    utc_offset: (self.modified)(dir, name).1,
                },
                RequestView::CreateDirs { .. } => OutcomeView::Done,
                RequestView::Move { .. } => OutcomeView::Done,
            },
        }
    }

    /// Whether `request` is among the requests that follow the reply to
    /// `earlier`.
    pub open spec fn follows(self, mode: Mode, earlier: RequestView, request: RequestView) -> bool {
        follow_up(mode, self.reply(earlier)) matches Ok(requests) && requests.contains(request)
    }

    /// Whether an operation in `mode` on this tree makes `request` as the
    /// last of a chain of `steps` requests, each following the reply to the
    /// one before, that starts after the listing of the root directory.
    pub open spec fn requested(self, mode: Mode, request: RequestView, steps: nat) -> bool
        decreases steps,
    {
        if steps == 0 {
            request == OrganizerView::start(mode).1
        } else {
            exists|earlier: RequestView|
                #![trigger self.follows(mode, earlier, request)]
                self.requested(mode, earlier, (steps - 1) as nat) && self.follows(
                    mode,
                    earlier,
                    request,
                )
        }
    }

    /// Whether an operation in `mode` moves the file `name` out of the
    /// directory at `dir`.
    pub open spec fn takes(self, mode: Mode, dir: Seq<Seq<char>>, name: Seq<char>) -> bool {
        exists|into: Seq<Seq<char>>, steps: nat| #[trigger]
            self.requested(mode, RequestView::Move { from: dir, into, name }, steps)
    }

    /// Whether an operation in `mode` moves a file `name` into the directory
    /// at `dir`.
    pub open spec fn puts(self, mode: Mode, dir: Seq<Seq<char>>, name: Seq<char>) -> bool {
        exists|from: Seq<Seq<char>>, steps: nat| #[trigger]
            self.requested(mode, RequestView::Move { from, into: dir, name }, steps)
    }

    /// Whether the directory at `dir` holds a regular file `name` once an
    /// operation in `mode` is over: one that was moved there, or one that was
    /// there and was not moved away.
    pub open spec fn has_file_after(self, mode: Mode, dir: Seq<Seq<char>>, name: Seq<char>) -> bool {
        self.puts(mode, dir, name) || (self.has_file(dir, name) && !self.takes(mode, dir, name))
    }

    /// The folder of the time the file `name` in the directory at `dir` was
    /// last modified.
    pub open spec fn bucket_of(self, dir: Seq<Seq<char>>, name: Seq<char>) -> Option<
        BucketPathView,
    > {
        bucket_at((self.modified)(dir, name).0, (self.modified)(dir, name).1)
    }

    /// Whether the tree has regular files in its root directory only.
    pub open spec fn is_flat(self) -> bool {
        forall|dir: Seq<Seq<char>>, name: Seq<char>| #[trigger]
            self.has_file(dir, name) ==> dir == Seq::<Seq<char>>::empty()
    }

    /// Whether every regular file of the tree was last modified at a time for
    /// which there is a folder.
    pub open spec fn is_within_calendar(self) -> bool {
        forall|dir: Seq<Seq<char>>, name: Seq<char>| #[trigger]
            self.has_file(dir, name) ==> self.bucket_of(dir, name) is Some
    }
}

/// The requests of an operation are the requests spoken of here: the first
/// one comes at the start of every chain, and whatever an operation hands out
/// in answer to the reply to a request of some chain makes that chain one
/// longer.
pub proof fn lemma_operation_follows_the_chains(
    tree: Tree,
    state: OrganizerView,
    earlier: RequestView,
    steps: nat,
    request: RequestView,
)
    requires
        tree.requested(state.mode, earlier, steps),
        state.step(tree.reply(earlier)).1.contains(request),
    ensures
        tree.requested(state.mode, OrganizerView::start(state.mode).1, 0),
        tree.requested(state.mode, request, steps + 1),
{
    assert(tree.follows(state.mode, earlier, request));
}

/// The request of an entry is among the requests of the listing it is in.
pub proof fn lemma_entry_is_served(
    mode: Mode,
    dir: Seq<Seq<char>>,
    entries: Seq<EntryView>,
    entry: EntryView,
)
    requires
        entries.contains(entry),
        request_for(mode, dir, entry) is Some,
    ensures
        requests_for(mode, dir, entries).contains(request_for(mode, dir, entry)->0),
    decreases entries.len(),
{
    let request = request_for(mode, dir, entry)->0;
    let before = requests_for(mode, dir, entries.drop_last());
    if entries.last() == entry {
        assert(before.push(request).last() == request);
    } else {
        let i = choose|i: int| 0 <= i < entries.len() && entries[i] == entry;
        assert(entries.drop_last()[i] == entry);
        lemma_entry_is_served(mode, dir, entries.drop_last(), entry);
        let k = choose|k: int| 0 <= k < before.len() && before[k] == request;
        match request_for(mode, dir, entries.last()) {
            Some(last) => {
                assert(before.push(last)[k] == request);
            },
            None => {},
        }
    }
}

/// Every request of a listing is the request of one of its entries.
pub proof fn lemma_request_has_entry(
    mode: Mode,
    dir: Seq<Seq<char>>,
    entries: Seq<EntryView>,
    request: RequestView,
) -> (entry: EntryView)
    requires
        requests_for(mode, dir, entries).contains(request),
    ensures
        entries.contains(entry),
        request_for(mode, dir, entry) == Some(request),
    decreases entries.len(),
{
    if entries.len() == 0 {
        arbitrary()
    } else {
        let before = requests_for(mode, dir, entries.drop_last());
        let last = entries.last();
        if request_for(mode, dir, last) == Some(request) {
            assert(entries[entries.len() - 1] == last);
            last
        } else {
            let k = choose|k: int|
                0 <= k < requests_for(mode, dir, entries).len() && requests_for(
                    mode,
                    dir,
                    entries,
                )[k] == request;
            assert(before[k] == request);
            let entry = lemma_request_has_entry(mode, dir, entries.drop_last(), request);
            let i = choose|i: int| 0 <= i < entries.drop_last().len() && entries.drop_last()[i] == entry;
            assert(entries[i] == entry);
            entry
        }
    }
}

/// Forward, no reply is followed by the listing of a directory: the pass
/// never descends.
pub proof fn lemma_forward_never_descends(reply: ReplyView, request: RequestView)
    requires
        follow_up(Mode::Forward, reply) matches Ok(requests) && requests.contains(request),
    ensures
        !(request is List),
{
    match reply {
        ReplyView::Answer {
            request: RequestView::List { dir },
            outcome: OutcomeView::Entries(entries),
        } => {
            lemma_request_has_entry(Mode::Forward, dir, entries, request);
        },
        _ => {},
    }
}

/// The forward pass never leaves the root directory.
///
/// The one directory it lists is the root directory, and whatever else it
/// requests is a step in moving a regular file of the root directory into the
/// folder of the time that file was last modified: its time is read, then the
/// folder is created below the root directory, then the file is moved there.
/// No directory below the root is listed, and no file in one is touched.
pub proof fn lemma_forward_stays_in_root(tree: Tree, request: RequestView, steps: nat)
    requires
        tree.requested(Mode::Forward, request, steps),
    ensures
        match request {
            RequestView::List { dir } => steps == 0 && dir == Seq::<Seq<char>>::empty(),
            RequestView::ReadModified { dir, name } => {
                &&& steps == 1
                &&& dir == Seq::<Seq<char>>::empty()
                &&& tree.has_file(dir, name)
            },
            RequestView::CreateDirs { dir, bucket, name } => {
                &&& steps == 2
                &&& dir == Seq::<Seq<char>>::empty()
                &&& tree.has_file(dir, name)
                &&& tree.bucket_of(dir, name) == Some(bucket)
            },
            RequestView::Move { from, into, name } => {
                &&& steps == 3
                &&& from == Seq::<Seq<char>>::empty()
                &&& tree.has_file(from, name)
                &&& tree.bucket_of(from, name) matches Some(bucket)
                &&& into == bucket_dir(from, bucket)
            },
        },
    decreases steps,
{
    if steps > 0 {
        let earlier = choose|earlier: RequestView|
            #![trigger tree.follows(Mode::Forward, earlier, request)]
            tree.requested(Mode::Forward, earlier, (steps - 1) as nat) && tree.follows(
                Mode::Forward,
                earlier,
                request,
            );
        lemma_forward_stays_in_root(tree, earlier, (steps - 1) as nat);
        match earlier {
            RequestView::List { dir } => {
                let entry = lemma_request_has_entry(
                    Mode::Forward,
                    dir,
                    (tree.entries_of)(dir),
                    request,
                );
                assert(entry == EntryView { name: entry.name, kind: EntryKind::File });
            },
            RequestView::ReadModified { .. } => {},
            RequestView::CreateDirs { .. } => {},
            RequestView::Move { .. } => {},
        }
    }
}

/// The reverse pass lists every directory of the tree, however deep.
pub proof fn lemma_reverse_lists_every_directory(tree: Tree, dir: Seq<Seq<char>>)
    requires
        tree.is_directory(dir),
    ensures
        tree.requested(Mode::Reverse, RequestView::List { dir }, dir.len()),
    decreases dir.len(),
{
    if dir.len() > 0 {
        let parent = dir.drop_last();
        let earlier = RequestView::List { dir: parent };
        lemma_reverse_lists_every_directory(tree, parent);
        let entry = EntryView { name: dir.last(), kind: EntryKind::Directory };
        lemma_entry_is_served(Mode::Reverse, parent, (tree.entries_of)(parent), entry);
        assert(parent.push(dir.last()) =~= dir);
        assert(tree.follows(Mode::Reverse, earlier, RequestView::List { dir }));
    } else {
        assert(dir =~= Seq::empty());
    }
}

/// The reverse pass finds every regular file of the tree, however deep, and
/// moves it into the root directory under the name it has.
pub proof fn lemma_reverse_moves_every_file(tree: Tree, dir: Seq<Seq<char>>, name: Seq<char>)
    requires
        tree.is_directory(dir),
        tree.has_file(dir, name),
    ensures
        tree.requested(
            Mode::Reverse,
            RequestView::Move { from: dir, into: Seq::empty(), name },
            dir.len() + 1,
        ),
        tree.takes(Mode::Reverse, dir, name),
        tree.has_file_after(Mode::Reverse, Seq::empty(), name),
{
    let earlier = RequestView::List { dir };
    let request = RequestView::Move { from: dir, into: Seq::empty(), name };
    lemma_reverse_lists_every_directory(tree, dir);
    let entry = EntryView { name, kind: EntryKind::File };
    lemma_entry_is_served(Mode::Reverse, dir, (tree.entries_of)(dir), entry);
    assert(tree.follows(Mode::Reverse, earlier, request));
}

/// The reverse pass does nothing but list directories of the tree and move
/// regular files of the tree into the root directory: it reads no time and
/// creates no folder, and what it moves keeps its name.
pub proof fn lemma_reverse_only_lists_and_flattens(tree: Tree, request: RequestView, steps: nat)
    requires
        tree.requested(Mode::Reverse, request, steps),
    ensures
        match request {
            RequestView::List { dir } => steps == dir.len() && tree.is_directory(dir),
            RequestView::Move { from, into, name } => {
                &&& steps == from.len() + 1
                &&& tree.is_directory(from)
                &&& tree.has_file(from, name)
                &&& into == Seq::<Seq<char>>::empty()
            },
            _ => false,
        },
    decreases steps,
{
    if steps > 0 {
        let earlier = choose|earlier: RequestView|
            #![trigger tree.follows(Mode::Reverse, earlier, request)]
            tree.requested(Mode::Reverse, earlier, (steps - 1) as nat) && tree.follows(
                Mode::Reverse,
                earlier,
                request,
            );
        lemma_reverse_only_lists_and_flattens(tree, earlier, (steps - 1) as nat);
        match earlier {
            RequestView::List { dir } => {
                let entry = lemma_request_has_entry(
                    Mode::Reverse,
                    dir,
                    (tree.entries_of)(dir),
                    request,
                );
                match entry.kind {
                    EntryKind::File => {
                        assert(entry == EntryView { name: entry.name, kind: EntryKind::File });
                    },
                    EntryKind::Directory => {
                        let sub = dir.push(entry.name);
                        assert(sub.drop_last() =~= dir);
                        assert(entry == EntryView { name: sub.last(), kind: EntryKind::Directory });
                    },
                    EntryKind::Other => {},
                }
            },
            _ => {},
        }
    }
}

/// On an empty root directory either pass ends with its first reply: the
/// listing of the root directory is the only request, so that no folder is
/// created and nothing is moved, and the reply to it completes the operation.
pub proof fn lemma_empty_directory(tree: Tree, mode: Mode)
    requires
        (tree.entries_of)(Seq::empty()).len() == 0,
    ensures
        forall|request: RequestView, steps: nat| #[trigger]
            tree.requested(mode, request, steps) ==> steps == 0,
        ({
            let (start, first) = OrganizerView::start(mode);
            let (end, requests) = start.step(tree.reply(first));
            end.complete() && requests.len() == 0
        }),
{
    assert forall|request: RequestView, steps: nat| #[trigger]
        tree.requested(mode, request, steps) implies steps == 0 by {
        lemma_nothing_follows_an_empty_root(tree, mode, request, steps);
    }
}

proof fn lemma_nothing_follows_an_empty_root(
    tree: Tree,
    mode: Mode,
    request: RequestView,
    steps: nat,
)
    requires
        (tree.entries_of)(Seq::empty()).len() == 0,
        tree.requested(mode, request, steps),
    ensures
        steps == 0,
    decreases steps,
{
    if steps > 0 {
        let earlier = choose|earlier: RequestView|
            #![trigger tree.follows(mode, earlier, request)]
            tree.requested(mode, earlier, (steps - 1) as nat) && tree.follows(
                mode,
                earlier,
                request,
            );
        lemma_nothing_follows_an_empty_root(tree, mode, earlier, (steps - 1) as nat);
    }
}

/// The forward pass moves every regular file of the root directory whose
/// time lies in the calendar: its folder is created below the root directory
/// and the file is moved into it, under the name it has.
pub proof fn lemma_forward_moves_every_file(tree: Tree, name: Seq<char>, folder: BucketPathView)
    requires
        tree.has_file(Seq::empty(), name),
        tree.bucket_of(Seq::empty(), name) == Some(folder),
    ensures
        tree.requested(
            Mode::Forward,
            RequestView::CreateDirs { dir: Seq::empty(), bucket: folder, name },
            2,
        ),
        tree.requested(
            Mode::Forward,
            RequestView::Move { from: Seq::empty(), into: folder.segments(), name },
            3,
        ),
        tree.takes(Mode::Forward, Seq::empty(), name),
        tree.has_file_after(Mode::Forward, folder.segments(), name),
{
    let root = Seq::<Seq<char>>::empty();
    let list = RequestView::List { dir: root };
    let read = RequestView::ReadModified { dir: root, name };
    let create = RequestView::CreateDirs { dir: root, bucket: folder, name };
    let put = RequestView::Move { from: root, into: folder.segments(), name };
    let entry = EntryView { name, kind: EntryKind::File };
    lemma_entry_is_served(Mode::Forward, root, (tree.entries_of)(root), entry);
    assert(tree.requested(Mode::Forward, list, 0));
    assert(tree.follows(Mode::Forward, list, read));
    assert(tree.requested(Mode::Forward, read, 1));
    assert(seq![create][0] == create);
    assert(tree.follows(Mode::Forward, read, create));
    assert(tree.requested(Mode::Forward, create, 2));
    assert(bucket_dir(root, folder) =~= folder.segments());
    assert(seq![put][0] == put);
    assert(tree.follows(Mode::Forward, create, put));
    assert(tree.requested(Mode::Forward, put, 3));
}

/// The forward pass leaves every file below the root directory where it is.
pub proof fn lemma_forward_leaves_deeper_files(tree: Tree, dir: Seq<Seq<char>>, name: Seq<char>)
    requires
        dir.len() > 0,
    ensures
        !tree.takes(Mode::Forward, dir, name),
        tree.has_file(dir, name) ==> tree.has_file_after(Mode::Forward, dir, name),
{
    assert forall|into: Seq<Seq<char>>, steps: nat|
        !#[trigger] tree.requested(
            Mode::Forward,
            RequestView::Move { from: dir, into, name },
            steps,
        ) by {
        if tree.requested(Mode::Forward, RequestView::Move { from: dir, into, name }, steps) {
            lemma_forward_stays_in_root(
                tree,
                RequestView::Move { from: dir, into, name },
                steps,
            );
        }
    }
}

/// Organising a flat directory and flattening the result gives back the
/// files there were: each is in the root directory again under the name it
/// had, and there is no file anywhere else.
///
/// `before` is a tree with regular files in its root directory only, each
/// last modified at a time for which there is a folder. `organized` is what
/// the forward pass makes of it: the files are where that pass leaves them,
/// and the folders it asks for exist.
pub proof fn lemma_round_trip(before: Tree, organized: Tree)
    requires
        before.is_flat(),
        before.is_within_calendar(),
        forall|dir: Seq<Seq<char>>, name: Seq<char>| #[trigger]
            organized.has_file(dir, name) <==> before.has_file_after(Mode::Forward, dir, name),
        forall|dir: Seq<Seq<char>>, bucket: BucketPathView, name: Seq<char>, steps: nat| #[trigger]
            before.requested(
                Mode::Forward,
                RequestView::CreateDirs { dir, bucket, name },
                steps,
            ) ==> organized.is_directory(bucket_dir(dir, bucket)),
    ensures
        forall|dir: Seq<Seq<char>>, name: Seq<char>| #[trigger]
            organized.has_file_after(Mode::Reverse, dir, name) <==> before.has_file(dir, name),
{
    let root = Seq::<Seq<char>>::empty();
    assert forall|dir: Seq<Seq<char>>, name: Seq<char>| #[trigger]
        organized.has_file_after(Mode::Reverse, dir, name) <==> before.has_file(
            dir,
            name,
        ) by {
        if before.has_file(dir, name) {
            let folder = before.bucket_of(dir, name)->0;
            lemma_forward_moves_every_file(before, name, folder);
            assert(bucket_dir(root, folder) =~= folder.segments());
            assert(organized.has_file(folder.segments(), name));
            lemma_reverse_moves_every_file(organized, folder.segments(), name);
        }
        if organized.has_file_after(Mode::Reverse, dir, name) {
            if organized.puts(Mode::Reverse, dir, name) {
                let (from, steps) = choose|from: Seq<Seq<char>>, steps: nat| #[trigger]
                    organized.requested(
                        Mode::Reverse,
                        RequestView::Move { from, into: dir, name },
                        steps,
                    );
                lemma_reverse_only_lists_and_flattens(
                    organized,
                    RequestView::Move { from, into: dir, name },
                    steps,
                );
                lemma_was_in_root(before, from, name);
            } else {
                lemma_is_in_a_folder(before, organized, dir, name);
                lemma_reverse_moves_every_file(organized, dir, name);
            }
        }
    }
}

/// A file that is somewhere after the forward pass over a flat directory was
/// in the root directory before it.
proof fn lemma_was_in_root(before: Tree, dir: Seq<Seq<char>>, name: Seq<char>)
    requires
        before.is_flat(),
        before.is_within_calendar(),
        before.has_file_after(Mode::Forward, dir, name),
    ensures
        before.has_file(Seq::empty(), name),
        before.puts(Mode::Forward, dir, name),
{
    if before.puts(Mode::Forward, dir, name) {
        let (from, steps) = choose|from: Seq<Seq<char>>, steps: nat| #[trigger]
            before.requested(Mode::Forward, RequestView::Move { from, into: dir, name }, steps);
        lemma_forward_stays_in_root(before, RequestView::Move { from, into: dir, name }, steps);
    } else {
        lemma_forward_moves_every_file(before, name, before.bucket_of(dir, name)->0);
    }
}

/// A file that is somewhere after the forward pass over a flat directory is
/// in a folder that the pass has asked for.
proof fn lemma_is_in_a_folder(before: Tree, organized: Tree, dir: Seq<Seq<char>>, name: Seq<char>)
    requires
        before.is_flat(),
        before.is_within_calendar(),
        forall|dir: Seq<Seq<char>>, bucket: BucketPathView, name: Seq<char>, steps: nat| #[trigger]
            before.requested(
                Mode::Forward,
                RequestView::CreateDirs { dir, bucket, name },
                steps,
            ) ==> organized.is_directory(bucket_dir(dir, bucket)),
        before.has_file_after(Mode::Forward, dir, name),
    ensures
        organized.is_directory(dir),
{
    lemma_was_in_root(before, dir, name);
    let (from, steps) = choose|from: Seq<Seq<char>>, steps: nat| #[trigger]
        before.requested(Mode::Forward, RequestView::Move { from, into: dir, name }, steps);
    lemma_forward_stays_in_root(before, RequestView::Move { from, into: dir, name }, steps);
    lemma_forward_moves_every_file(before, name, before.bucket_of(from, name)->0);
}

} // verus!
