//! The decisions of organising a directory and of flattening it again.
//!
//! Nothing here reads or changes a file system. A driver performs each
//! [`Request`], one task per request and all of them at once, and hands what
//! came of it to [`Organizer::step`] as a [`Reply`]; the step answers with the
//! requests that follow. Directories and files are named by their path below
//! the root directory, folder by folder.

use crate::bucket::{bucket, bucket_at, BucketPath, BucketPathView};
use vstd::prelude::*;

verus! {

/// The direction of an operation.
#[derive(Clone, Copy, Debug, PartialEq, Eq, Structural)]
pub enum Mode {
    /// Move the files of the root directory into folders by week.
    Forward,
    /// Move every file anywhere below the root directory back into it.
    Reverse,
}

/// What a directory entry is.
#[derive(Clone, Copy, Debug, PartialEq, Eq, Structural)]
pub enum EntryKind {
    /// A regular file.
    File,
    /// A directory.
    Directory,
    /// Anything else.
    Other,
}

/// Why an operation was given up.
#[derive(Clone, Copy, Debug, PartialEq, Eq, Structural)]
pub enum Fault {
    /// A directory could not be listed.
    Listing,
    /// The time a file was last modified could not be read, or lies outside
    /// the calendar.
    Metadata,
    /// A folder could not be created.
    CreateDir,
    /// A file could not be moved.
    Rename,
    /// A task of the driver failed, or answered what it was not asked.
    Task,
}

/// One entry of a listed directory.
#[derive(Debug)]
pub struct Entry {
    pub name: String,
    pub kind: EntryKind,
}

/// What an [`Entry`] stands for.
pub struct EntryView {
    pub name: Seq<char>,
    pub kind: EntryKind,
}

impl View for Entry {
    type V = EntryView;

    open spec fn view(&self) -> EntryView {
        EntryView { name: self.name@, kind: self.kind }
    }
}

impl DeepView for Entry {
    type V = EntryView;

    open spec fn deep_view(&self) -> EntryView {
        self@
    }
}

/// Work for the driver. Every path is relative to the root directory; the
/// empty path is the root directory itself.
#[derive(Debug)]
pub enum Request {
    /// List the entries of directory `dir`.
    List { dir: Vec<String> },
    /// Read when the file `name` in directory `dir` was last modified.
    ReadModified { dir: Vec<String>, name: String },
    /// Create the folders of `bucket` below directory `dir`, those that are
    /// not there yet; this is the step before moving the file `name` there.
    CreateDirs { dir: Vec<String>, bucket: BucketPath, name: String },
    /// Move the file `name` from directory `from` into directory `into`,
    /// under the same name.
    Move { from: Vec<String>, into: Vec<String>, name: String },
}

/// What a [`Request`] stands for.
pub enum RequestView {
    List { dir: Seq<Seq<char>> },
    ReadModified { dir: Seq<Seq<char>>, name: Seq<char> },
    CreateDirs { dir: Seq<Seq<char>>, bucket: BucketPathView, name: Seq<char> },
    Move { from: Seq<Seq<char>>, into: Seq<Seq<char>>, name: Seq<char> },
}

impl View for Request {
    type V = RequestView;

    open spec fn view(&self) -> RequestView {
        match *self {
            Request::List { dir } => RequestView::List { dir: dir.deep_view() },
            Request::ReadModified { dir, name } => RequestView::ReadModified {
                dir: dir.deep_view(),
                name: name@,
            },
            Request::CreateDirs { dir, bucket, name } => RequestView::CreateDirs {
                dir: dir.deep_view(),
                bucket: bucket@,
                name: name@,
            },
            Request::Move { from, into, name } => RequestView::Move {
                from: from.deep_view(),
                into: into.deep_view(),
                name: name@,
            },
        }
    }
}

impl DeepView for Request {
    type V = RequestView;

    open spec fn deep_view(&self) -> RequestView {
        self@
    }
}

/// What came of a request.
#[derive(Debug)]
pub enum Outcome {
    /// The entries of the listed directory.
    Entries(Vec<Entry>),
    /// The file was last modified `seconds` seconds after the start of 1970,
    /// when local clocks ran `utc_offset` seconds ahead of UTC.
    Modified { seconds: i64, utc_offset: i32 },
    /// The folders are there, or the file has been moved.
    Done,
    /// The file system refused.
    Failed,
}

/// What an [`Outcome`] stands for.
pub enum OutcomeView {
    Entries(Seq<EntryView>),
    Modified { seconds: int, utc_offset: int },
    Done,
    Failed,
}

impl View for Outcome {
    type V = OutcomeView;

    open spec fn view(&self) -> OutcomeView {
        match *self {
            Outcome::Entries(entries) => OutcomeView::Entries(entries.deep_view()),
            Outcome::Modified { seconds, utc_offset } => OutcomeView::Modified {
                seconds: seconds as int,
                utc_offset: utc_offset as int,
            },
            Outcome::Done => OutcomeView::Done,
            Outcome::Failed => OutcomeView::Failed,
        }
    }
}

/// What a task of the driver reports.
#[derive(Debug)]
pub enum Reply {
    /// The task ran `request`, with this outcome.
    Answer { request: Request, outcome: Outcome },
    /// The task itself failed.
    Crashed,
}

/// What a [`Reply`] stands for.
pub enum ReplyView {
    Answer { request: RequestView, outcome: OutcomeView },
    Crashed,
}

impl View for Reply {
    type V = ReplyView;

    open spec fn view(&self) -> ReplyView {
        match *self {
            Reply::Answer { request, outcome } => ReplyView::Answer {
                request: request@,
                outcome: outcome@,
            },
            Reply::Crashed => ReplyView::Crashed,
        }
    }
}

/// The request that an entry of directory `dir` gives rise to, if any.
///
/// Forward, a file has its modification time read, as the first step of its
/// move, and nothing else is touched. In reverse, a file is moved into the
/// root directory and a directory is listed in its turn.
pub open spec fn request_for(mode: Mode, dir: Seq<Seq<char>>, entry: EntryView) -> Option<
    RequestView,
> {
    match (mode, entry.kind) {
        (Mode::Forward, EntryKind::File) => Some(
            RequestView::ReadModified { dir, name: entry.name },
        ),
        (Mode::Forward, _) => None,
        (Mode::Reverse, EntryKind::File) => Some(
            RequestView::Move { from: dir, into: Seq::empty(), name: entry.name },
        ),
        (Mode::Reverse, EntryKind::Directory) => Some(
            RequestView::List { dir: dir.push(entry.name) },
        ),
        (Mode::Reverse, EntryKind::Other) => None,
    }
}

/// The requests that the entries of directory `dir` give rise to, in the
/// order of the entries.
pub open spec fn requests_for(mode: Mode, dir: Seq<Seq<char>>, entries: Seq<EntryView>) -> Seq<
    RequestView,
>
    decreases entries.len(),
{
    if entries.len() == 0 {
        Seq::empty()
    } else {
        let before = requests_for(mode, dir, entries.drop_last());
        match request_for(mode, dir, entries.last()) {
            Some(request) => before.push(request),
            None => before,
        }
    }
}

fn clone_path(path: &Vec<String>) -> (r: Vec<String>)
    ensures
        r.deep_view() == path.deep_view(),
{
    let mut r: Vec<String> = Vec::new();
    let mut i: usize = 0;
    while i < path.len()
        invariant
            i <= path.len(),
            r.len() == i,
            forall|k: int| 0 <= k < i ==> r[k]@ == path[k]@,
        decreases path.len() - i,
    {
        r.push(path[i].clone());
        i += 1;
    }
    assert(r.deep_view() =~= path.deep_view());
    r
}

/// The forward pass over a listed directory: for each regular file among
/// `entries`, in their order, the request to read when it was last modified.
/// Directories and other entries give rise to nothing: the forward pass
/// descends into no directory.
pub fn organize(dir: &Vec<String>, entries: &Vec<Entry>) -> (r: Vec<Request>)
    ensures
        r.deep_view() == requests_for(Mode::Forward, dir.deep_view(), entries.deep_view()),
{
    let mut r: Vec<Request> = Vec::new();
    let mut i: usize = 0;
    assert(entries.deep_view().take(0) =~= Seq::empty());
    while i < entries.len()
        invariant
            i <= entries.len(),
            r.deep_view() == requests_for(
                Mode::Forward,
                dir.deep_view(),
                entries.deep_view().take(i as int),
            ),
        decreases entries.len() - i,
    {
        let ghost before = r.deep_view();
        let entry = &entries[i];
        assert(entries.deep_view().take(i + 1).drop_last() =~= entries.deep_view().take(i as int));
        assert(entries.deep_view().take(i + 1).last() == entry@);
        match entry.kind {
            EntryKind::File => {
                r.push(Request::ReadModified { dir: clone_path(dir), name: entry.name.clone() });
                assert(r.deep_view() =~= before.push(r[r.len() - 1]@));
            },
            _ => {},
        }
        i += 1;
    }
    assert(entries.deep_view().take(entries.len() as int) =~= entries.deep_view());
    r
}

/// The reverse pass over a listed directory: for each regular file among
/// `entries` the request to move it into the root directory, and for each
/// directory the request to list it in its turn, in the order of the entries.
pub fn reverse_organize_dir(dir: &Vec<String>, entries: &Vec<Entry>) -> (r: Vec<Request>)
    ensures
        r.deep_view() == requests_for(Mode::Reverse, dir.deep_view(), entries.deep_view()),
{
    let mut r: Vec<Request> = Vec::new();
    let mut i: usize = 0;
    assert(entries.deep_view().take(0) =~= Seq::empty());
    while i < entries.len()
        invariant
            i <= entries.len(),
            r.deep_view() == requests_for(
                Mode::Reverse,
                dir.deep_view(),
                entries.deep_view().take(i as int),
            ),
        decreases entries.len() - i,
    {
        let ghost before = r.deep_view();
        let entry = &entries[i];
        assert(entries.deep_view().take(i + 1).drop_last() =~= entries.deep_view().take(i as int));
        assert(entries.deep_view().take(i + 1).last() == entry@);
        match entry.kind {
            EntryKind::File => {
                let root: Vec<String> = Vec::new();
                assert(root.deep_view() =~= Seq::empty());
                r.push(
                    Request::Move { from: clone_path(dir), into: root, name: entry.name.clone() },
                );
                assert(r.deep_view() =~= before.push(r[r.len() - 1]@));
            },
            EntryKind::Directory => {
                let mut sub = clone_path(dir);
                sub.push(entry.name.clone());
                assert(sub.deep_view() =~= dir.deep_view().push(entry.name@));
                r.push(Request::List { dir: sub });
                assert(r.deep_view() =~= before.push(r[r.len() - 1]@));
            },
            EntryKind::Other => {},
        }
        i += 1;
    }
    assert(entries.deep_view().take(entries.len() as int) =~= entries.deep_view());
    r
}

/// The folder that a file of directory `dir` is moved into, forward: the
/// folders of `bucket` below `dir`.
pub open spec fn bucket_dir(dir: Seq<Seq<char>>, bucket: BucketPathView) -> Seq<Seq<char>> {
    dir + bucket.segments()
}

/// What follows a reply: the requests that take the work on, or the fault
/// that ends it.
///
/// A listing is followed by the requests of its entries. A file whose
/// modification time was read is given its folder, which is then created;
/// once it is there the file is moved into it; and a move is followed by
/// nothing. A request that failed is a fault of its kind, and so is a
/// modification time that lies outside the calendar. A task that failed, or
/// that answers a request with what cannot come of it, is a fault as well.
pub open spec fn follow_up(mode: Mode, reply: ReplyView) -> Result<Seq<RequestView>, Fault> {
    match reply {
        ReplyView::Crashed => Err(Fault::Task),
        ReplyView::Answer { request, outcome } => match (request, outcome) {
            (RequestView::List { dir }, OutcomeView::Entries(entries)) => Ok(
                requests_for(mode, dir, entries),
            ),
            (RequestView::List { .. }, OutcomeView::Failed) => Err(Fault::Listing),
            (
                RequestView::ReadModified { dir, name },
                OutcomeView::Modified { seconds, utc_offset },
            ) => match bucket_at(seconds, utc_offset) {
                Some(bucket) => Ok(seq![RequestView::CreateDirs { dir, bucket, name }]),
                None => Err(Fault::Metadata),
            },
            (RequestView::ReadModified { .. }, OutcomeView::Failed) => Err(Fault::Metadata),
            (RequestView::CreateDirs { dir, bucket, name }, OutcomeView::Done) => Ok(
                seq![RequestView::Move { from: dir, into: bucket_dir(dir, bucket), name }],
            ),
            (RequestView::CreateDirs { .. }, OutcomeView::Failed) => Err(Fault::CreateDir),
            (RequestView::Move { .. }, OutcomeView::Done) => Ok(Seq::empty()),
            (RequestView::Move { .. }, OutcomeView::Failed) => Err(Fault::Rename),
            _ => Err(Fault::Task),
        },
    }
}

/// Where the file `name` of directory `dir` goes, forward, given when it was
/// last modified: the request to create its folder, or [`Fault::Metadata`] if
/// that time lies outside the calendar.
pub fn organize_file(dir: Vec<String>, name: String, seconds: i64, utc_offset: i32) -> (r: Result<
    Request,
    Fault,
>)
    ensures
        match r {
            Ok(request) => bucket_at(seconds as int, utc_offset as int) matches Some(folder)
                && request@ == (RequestView::CreateDirs {
                dir: dir.deep_view(),
                bucket: folder,
                name: name@,
            }),
            Err(fault) => fault == Fault::Metadata && bucket_at(
                seconds as int,
                utc_offset as int,
            ) is None,
        },
{
    match bucket(seconds, utc_offset) {
        Some(folder) => Ok(Request::CreateDirs { dir, bucket: folder, name }),
        None => Err(Fault::Metadata),
    }
}

/// The move of the file `name` of directory `dir` into its folder, once the
/// folder is there. The file keeps its name.
pub fn move_into_bucket(dir: Vec<String>, bucket: BucketPath, name: String) -> (r: Request)
    ensures
        r@ == (RequestView::Move {
            from: dir.deep_view(),
            into: bucket_dir(dir.deep_view(), bucket@),
            name: name@,
        }),
{
    let mut into = clone_path(&dir);
    into.push(bucket.year);
    into.push(bucket.month);
    into.push(bucket.week);
    assert(into.deep_view() =~= bucket_dir(dir.deep_view(), bucket@));
    Request::Move { from: dir, into, name }
}

fn single(request: Request) -> (r: Vec<Request>)
    ensures
        r.deep_view() == seq![request@],
{
    let mut r: Vec<Request> = Vec::new();
    r.push(request);
    assert(r.deep_view() =~= seq![request@]);
    r
}

fn none() -> (r: Vec<Request>)
    ensures
        r.deep_view() == Seq::<RequestView>::empty(),
{
    let r: Vec<Request> = Vec::new();
    assert(r.deep_view() =~= Seq::<RequestView>::empty());
    r
}

/// What follows `reply` in an operation in `mode`: see [`follow_up`].
pub fn follow(mode: Mode, reply: Reply) -> (r: Result<Vec<Request>, Fault>)
    ensures
        match r {
            Ok(requests) => follow_up(mode, reply@) == Ok::<Seq<RequestView>, Fault>(
                requests.deep_view(),
            ),
            Err(fault) => follow_up(mode, reply@) == Err::<Seq<RequestView>, Fault>(fault),
        },
{
    match reply {
        Reply::Crashed => Err(Fault::Task),
        Reply::Answer { request, outcome } => match (request, outcome) {
            (Request::List { dir }, Outcome::Entries(entries)) => match mode {
                Mode::Forward => Ok(organize(&dir, &entries)),
                Mode::Reverse => Ok(reverse_organize_dir(&dir, &entries)),
            },
            (Request::List { .. }, Outcome::Failed) => Err(Fault::Listing),
            (Request::ReadModified { dir, name }, Outcome::Modified { seconds, utc_offset }) => {
                match organize_file(dir, name, seconds, utc_offset) {
                    Ok(request) => Ok(single(request)),
                    Err(fault) => Err(fault),
                }
            },
            (Request::ReadModified { .. }, Outcome::Failed) => Err(Fault::Metadata),
            (Request::CreateDirs { dir, bucket, name }, Outcome::Done) => Ok(
                single(move_into_bucket(dir, bucket, name)),
            ),
            (Request::CreateDirs { .. }, Outcome::Failed) => Err(Fault::CreateDir),
            (Request::Move { .. }, Outcome::Done) => Ok(none()),
            (Request::Move { .. }, Outcome::Failed) => Err(Fault::Rename),
            _ => Err(Fault::Task),
        },
    }
}

/// What an [`Organizer`] stands for.
pub struct OrganizerView {
    /// The direction of the operation.
    pub mode: Mode,
    /// The number of requests handed out and not yet answered.
    pub in_flight: nat,
    /// The fault that ended the operation, if one did.
    pub fault: Option<Fault>,
}

impl OrganizerView {
    /// The operation goes on: no fault has occurred and requests are out.
    pub open spec fn running(self) -> bool {
        self.fault is None && self.in_flight > 0
    }

    /// The operation has succeeded: no fault has occurred and every request
    /// that was handed out has been answered.
    pub open spec fn complete(self) -> bool {
        self.fault is None && self.in_flight == 0
    }

    /// An operation at its start, and its first request: to list the root
    /// directory.
    pub open spec fn start(mode: Mode) -> (OrganizerView, RequestView) {
        (
            OrganizerView { mode, in_flight: 1, fault: None },
            RequestView::List { dir: Seq::empty() },
        )
    }

    /// The operation after the reply that ended it with `fault`.
    pub open spec fn failed(self, fault: Fault) -> OrganizerView {
        OrganizerView { mode: self.mode, in_flight: (self.in_flight - 1) as nat, fault: Some(fault) }
    }

    /// The operation after `reply`, and the requests that follow it.
    ///
    /// An operation that is over ignores the reply. One that goes on counts
    /// the reply off and the requests that follow it in; the first fault ends
    /// it, and nothing follows a fault. Should the requests in flight grow
    /// beyond what `usize` counts, the operation ends with [`Fault::Task`].
    pub open spec fn step(self, reply: ReplyView) -> (OrganizerView, Seq<RequestView>) {
        if !self.running() {
            (self, Seq::empty())
        } else {
            match follow_up(self.mode, reply) {
                Ok(requests) => if self.in_flight - 1 + requests.len() <= usize::MAX {
                    (
                        OrganizerView {
                            mode: self.mode,
                            in_flight: (self.in_flight - 1 + requests.len()) as nat,
                            fault: None,
                        },
                        requests,
                    )
                } else {
                    (self.failed(Fault::Task), Seq::empty())
                },
                Err(fault) => (self.failed(fault), Seq::empty()),
            }
        }
    }

    /// The operation after each of `replies` in turn.
    pub open spec fn after(self, replies: Seq<ReplyView>) -> OrganizerView
        decreases replies.len(),
    {
        if replies.len() == 0 {
            self
        } else {
            self.after(replies.drop_last()).step(replies.last()).0
        }
    }

    /// The number of requests handed out in answer to `replies`.
    pub open spec fn handed_out(self, replies: Seq<ReplyView>) -> nat
        decreases replies.len(),
    {
        if replies.len() == 0 {
            0
        } else {
            self.handed_out(replies.drop_last()) + self.after(replies.drop_last()).step(
                replies.last(),
            ).1.len()
        }
    }
}

/// Nothing follows a fault: an operation that has met one stays as it is
/// whatever is reported to it, and hands out no request.
pub proof fn lemma_nothing_follows_a_fault(state: OrganizerView, replies: Seq<ReplyView>)
    requires
        state.fault is Some,
    ensures
        state.after(replies) == state,
        state.handed_out(replies) == 0,
    decreases replies.len(),
{
    if replies.len() > 0 {
        lemma_nothing_follows_a_fault(state, replies.drop_last());
    }
}

/// An operation waits for all of its requests.
///
/// As long as every reply meets a running operation, the requests in flight
/// are those that were in flight at first and those handed out since, less
/// the replies. So an operation that is complete has had a reply to every
/// request it ever handed out.
pub proof fn lemma_in_flight_is_handed_out_less_answered(
    state: OrganizerView,
    replies: Seq<ReplyView>,
)
    requires
        forall|k: int| 0 <= k < replies.len() ==> (#[trigger] state.after(replies.take(k))).running(),
        state.after(replies).fault is None,
    ensures
        state.after(replies).in_flight + replies.len() == state.in_flight + state.handed_out(
            replies,
        ),
    decreases replies.len(),
{
    if replies.len() > 0 {
        let earlier = replies.drop_last();
        assert(earlier =~= replies.take(replies.len() - 1));
        assert forall|k: int| 0 <= k < earlier.len() implies (#[trigger] state.after(
            earlier.take(k),
        )).running() by {
            assert(earlier.take(k) =~= replies.take(k));
        }
        assert(state.after(earlier).running());
        lemma_in_flight_is_handed_out_less_answered(state, earlier);
    }
}

/// One operation on a directory tree, from its first request to its end.
///
/// The operation is over when it is complete or has met a fault. It is
/// complete only when every request has been answered: the requests that
/// follow a reply are counted in before the reply is counted off.
#[derive(Debug)]
pub struct Organizer {
    mode: Mode,
    in_flight: usize,
    fault: Option<Fault>,
}

impl View for Organizer {
    type V = OrganizerView;

    closed spec fn view(&self) -> OrganizerView {
        OrganizerView { mode: self.mode, in_flight: self.in_flight as nat, fault: self.fault }
    }
}

impl Organizer {
    /// Starts an operation in `mode`. The request that comes with it is the
    /// first one: to list the root directory.
    pub fn start(mode: Mode) -> (r: (Organizer, Request))
        ensures
            r.0@ == OrganizerView::start(mode).0,
            r.1@ == OrganizerView::start(mode).1,
    {
        let dir: Vec<String> = Vec::new();
        assert(dir.deep_view() =~= Seq::empty());
        (Organizer { mode, in_flight: 1, fault: None }, Request::List { dir })
    }

    /// Takes the reply to one request and answers with the requests that
    /// follow, all of which the driver is to perform.
    pub fn step(&mut self, reply: Reply) -> (requests: Vec<Request>)
        ensures
            final(self)@ == old(self)@.step(reply@).0,
            requests.deep_view() == old(self)@.step(reply@).1,
    {
        if self.fault.is_some() || self.in_flight == 0 {
            return none();
        }
        let rest: usize = self.in_flight - 1;
        self.in_flight = rest;
        match follow(self.mode, reply) {
            Ok(requests) => {
                if requests.len() <= usize::MAX - rest {
                    self.in_flight = rest + requests.len();
                    requests
                } else {
                    self.fault = Some(Fault::Task);
                    none()
                }
            },
            Err(fault) => {
                self.fault = Some(fault);
                none()
            },
        }
    }

    /// The direction of the operation.
    pub fn mode(&self) -> (r: Mode)
        ensures
            r == self@.mode,
    {
        self.mode
    }

    /// The number of requests handed out and not yet answered.
    pub fn in_flight(&self) -> (r: usize)
        ensures
            r == self@.in_flight,
    {
        self.in_flight
    }

    /// The fault that ended the operation, if one did.
    pub fn fault(&self) -> (r: Option<Fault>)
        ensures
            r == self@.fault,
    {
        self.fault
    }

    /// Whether the operation has succeeded.
    pub fn is_complete(&self) -> (r: bool)
        ensures
            r == self@.complete(),
    {
        self.fault.is_none() && self.in_flight == 0
    }
}

} // verus!
