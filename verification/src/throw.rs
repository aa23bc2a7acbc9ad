//! Throwing: every regular file of the local upload folder is sent to the
//! user's remote folder, under its own name.
//!
//! A failure ends the throw where it stands: what was sent before stays on
//! the server. Where the folder can be read only up to some entry, the files
//! before that entry are sent and the throw then ends with that failure.
//!
//! The library decides and the caller acts. `Throw::start` and `Throw::step`
//! each return the next thing to do; the caller does it and reports how it
//! went with the next call of `step`.

use crate::layout::{join, under, UPLOAD_DIR};
use crate::listing::{
    files_from, find_file, lemma_files_from, lemma_next_file, next_file, views, Entry, EntryView,
};
use vstd::prelude::*;

verus! {

/// How far a throw has come.
#[derive(Debug, Clone, Copy, PartialEq, Eq)]
pub enum ThrowState {
    /// The listing of the local folder is awaited.
    Listing,
    /// The upload of the entry at this position is awaited.
    Uploading(usize),
    /// Nothing more is to be done.
    Finished,
}

/// A `ThrowState` with positions as integers.
pub enum ThrowStateView {
    Listing,
    Uploading(int),
    Finished,
}

impl View for ThrowState {
    type V = ThrowStateView;

    open spec fn view(&self) -> ThrowStateView {
        match self {
            ThrowState::Listing => ThrowStateView::Listing,
            ThrowState::Uploading(i) => ThrowStateView::Uploading(*i as int),
            ThrowState::Finished => ThrowStateView::Finished,
        }
    }
}

/// What the caller reports.
#[derive(Debug)]
pub enum ThrowEvent {
    /// The local folder was listed and holds these entries.
    Listed(Vec<Entry>),
    /// The local folder was listed up to an entry that could not be read;
    /// these are the entries before it.
    ListedInPart(Vec<Entry>),
    /// The upload that was asked for is complete.
    Done,
    /// What was asked for could not be done.
    Failed,
}

/// A `ThrowEvent` over sequences.
pub enum ThrowEventView {
    Listed(Seq<EntryView>),
    ListedInPart(Seq<EntryView>),
    Done,
    Failed,
}

impl View for ThrowEvent {
    type V = ThrowEventView;

    open spec fn view(&self) -> ThrowEventView {
        match self {
            ThrowEvent::Listed(es) => ThrowEventView::Listed(views(es@)),
            ThrowEvent::ListedInPart(es) => ThrowEventView::ListedInPart(views(es@)),
            ThrowEvent::Done => ThrowEventView::Done,
            ThrowEvent::Failed => ThrowEventView::Failed,
        }
    }
}

/// What the caller is to do next.
#[derive(Debug, PartialEq, Eq)]
pub enum ThrowAction {
    /// List the local folder `dir`.
    List { dir: String },
    /// Copy the entry at `index` of the listing to the remote file `remote`,
    /// created or truncated.
    Upload { index: usize, remote: String },
    /// End with success; say that the folder is empty if `empty` is set.
    Finish { empty: bool },
    /// End with the failure that was reported last.
    Abort,
}

/// A `ThrowAction` over sequences.
pub enum ThrowActionView {
    List { dir: Seq<char> },
    Upload { index: int, remote: Seq<char> },
    Finish { empty: bool },
    Abort,
}

impl View for ThrowAction {
    type V = ThrowActionView;

    open spec fn view(&self) -> ThrowActionView {
        match self {
            ThrowAction::List { dir } => ThrowActionView::List { dir: dir@ },
            ThrowAction::Upload { index, remote } => ThrowActionView::Upload {
                index: *index as int,
                remote: remote@,
            },
            ThrowAction::Finish { empty } => ThrowActionView::Finish { empty: *empty },
            ThrowAction::Abort => ThrowActionView::Abort,
        }
    }
}

/// A throw in progress.
pub struct Throw {
    remote_dir: String,
    entries: Vec<Entry>,
    complete: bool,
    state: ThrowState,
}

/// A `Throw` over sequences.
pub struct ThrowView {
    /// The remote folder that receives the files.
    pub remote_dir: Seq<char>,
    /// The listing of the local folder, as far as it could be read; empty
    /// before it is known.
    pub entries: Seq<EntryView>,
    /// Whether the folder was read to its end.
    pub complete: bool,
    pub state: ThrowStateView,
}

impl ThrowView {
    /// A throw that has not listed the local folder yet.
    pub open spec fn fresh(remote_dir: Seq<char>) -> ThrowView {
        ThrowView {
            remote_dir,
            entries: Seq::empty(),
            complete: true,
            state: ThrowStateView::Listing,
        }
    }

    /// The same throw at its end.
    pub open spec fn finished(self) -> ThrowView {
        ThrowView { state: ThrowStateView::Finished, ..self }
    }

    /// An upload that is awaited is that of an entry of the listing.
    pub open spec fn wf(self) -> bool {
        self.state matches ThrowStateView::Uploading(i) ==> 0 <= i < self.entries.len()
    }

    /// The upload of the entry at `i`.
    pub open spec fn upload(self, i: int) -> ThrowActionView {
        ThrowActionView::Upload { index: i, remote: under(self.remote_dir, self.entries[i].name) }
    }

    /// How a throw ends once no file of the listing is left: with success
    /// where the folder was read to its end, else with the failure to read
    /// it.
    pub open spec fn ending(self) -> ThrowActionView {
        if self.complete {
            ThrowActionView::Finish { empty: false }
        } else {
            ThrowActionView::Abort
        }
    }

    /// The throw that has just learned the listing `es`, read to its end or
    /// not.
    pub open spec fn listed(self, es: Seq<EntryView>, complete: bool) -> ThrowView {
        ThrowView { entries: es, complete, ..self }
    }

    /// Goes on with the first regular file at or behind `from`: its upload,
    /// or the end where none is left.
    pub open spec fn proceed(self, from: int) -> (ThrowView, ThrowActionView) {
        let i = next_file(self.entries, from);
        if i < self.entries.len() {
            (ThrowView { state: ThrowStateView::Uploading(i), ..self }, self.upload(i))
        } else {
            (self.finished(), self.ending())
        }
    }

    /// The throw after `event`, and what is to be done then.
    ///
    /// A listing without entries ends the throw with the remark that the
    /// folder is empty. Otherwise the regular files are uploaded one after
    /// the other, in the order of the listing. Of a folder that could be read
    /// only in part, the files that were read are uploaded in the same way,
    /// and the throw then ends with the failure. A failure ends the throw,
    /// and so does a report that answers nothing that was asked.
    pub open spec fn next(self, event: ThrowEventView) -> (ThrowView, ThrowActionView) {
        match (self.state, event) {
            (ThrowStateView::Listing, ThrowEventView::Listed(es)) => {
                if es.len() == 0 {
                    (self.listed(es, true).finished(), ThrowActionView::Finish { empty: true })
                } else {
                    self.listed(es, true).proceed(0)
                }
            },
            (ThrowStateView::Listing, ThrowEventView::ListedInPart(es)) => self.listed(
                es,
                false,
            ).proceed(0),
            (ThrowStateView::Uploading(i), ThrowEventView::Done) => self.proceed(i + 1),
            _ => (self.finished(), ThrowActionView::Abort),
        }
    }
}

impl ThrowView {
    /// What the caller is asked to do, one action for each of `events`.
    pub open spec fn run(self, events: Seq<ThrowEventView>) -> Seq<ThrowActionView>
        decreases events.len(),
    {
        if events.len() == 0 {
            Seq::empty()
        } else {
            seq![self.next(events.first()).1] + self.next(events.first()).0.run(
                events.drop_first(),
            )
        }
    }

    /// The uploads of the entries at `positions`, in that order.
    pub open spec fn uploads(self, positions: Seq<int>) -> Seq<ThrowActionView> {
        positions.map_values(|i: int| self.upload(i))
    }
}

/// `n` reports of success.
pub open spec fn successes(n: nat) -> Seq<ThrowEventView> {
    Seq::new(n, |k: int| ThrowEventView::Done)
}

/// A step keeps a throw well formed.
pub proof fn lemma_next_wf(m: ThrowView, event: ThrowEventView)
    requires
        m.wf(),
    ensures
        m.next(event).0.wf(),
{
    match (m.state, event) {
        (ThrowStateView::Listing, ThrowEventView::Listed(es)) => {
            lemma_next_file(es, 0);
        },
        (ThrowStateView::Listing, ThrowEventView::ListedInPart(es)) => {
            lemma_next_file(es, 0);
        },
        (ThrowStateView::Uploading(i), ThrowEventView::Done) => {
            lemma_next_file(m.entries, i + 1);
        },
        _ => {},
    }
}

/// Where the local folder holds nothing, the throw says so and ends with
/// success: nothing is uploaded.
pub proof fn lemma_empty_folder(remote_dir: Seq<char>)
    ensures
        ThrowView::fresh(remote_dir).next(ThrowEventView::Listed(Seq::empty())) == (
            ThrowView::fresh(remote_dir).finished(),
            ThrowActionView::Finish { empty: true },
        ),
{
}

/// From any position on, a throw in which no upload fails uploads the
/// regular files that are left, in order, and then ends.
proof fn lemma_run_proceed(m: ThrowView, from: int)
    requires
        0 <= from <= m.entries.len(),
    ensures
        seq![m.proceed(from).1] + m.proceed(from).0.run(
            successes(files_from(m.entries, from).len()),
        ) == m.uploads(files_from(m.entries, from)) + seq![m.ending()],
    decreases m.entries.len() - from,
{
    let es = m.entries;
    let i = next_file(es, from);
    let fs = files_from(es, from);
    let m1 = m.proceed(from).0;
    lemma_next_file(es, from);
    lemma_files_from(es, from);
    if i < es.len() {
        let rest = files_from(es, i + 1);
        let evs = successes(fs.len());
        assert(evs.drop_first() =~= successes(rest.len()));
        assert(m1.next(evs.first()) == m.proceed(i + 1));
        lemma_run_proceed(m, i + 1);
        assert(m.uploads(fs) =~= seq![m.upload(i)] + m.uploads(rest));
        assert(seq![m.proceed(from).1] + m1.run(evs) =~= m.uploads(fs) + seq![m.ending()]);
    } else {
        assert(m.uploads(fs) =~= Seq::empty());
        assert(m1.run(successes(0)) =~= Seq::empty());
    }
}

/// A throw in which nothing fails uploads every regular file of the local
/// folder once, in the order of the listing and each to the remote file of
/// its own name in the user's folder; it uploads nothing else, and then ends
/// with success.
pub proof fn lemma_uploads_every_file(remote_dir: Seq<char>, es: Seq<EntryView>)
    ensures
        ThrowView::fresh(remote_dir).run(
            seq![ThrowEventView::Listed(es)] + successes(files_from(es, 0).len()),
        ) == ThrowView::fresh(remote_dir).listed(es, true).uploads(files_from(es, 0)) + seq![
            ThrowActionView::Finish { empty: es.len() == 0 },
        ],
{
    let m0 = ThrowView::fresh(remote_dir);
    let m = m0.listed(es, true);
    let evs = seq![ThrowEventView::Listed(es)] + successes(files_from(es, 0).len());
    assert(evs.first() == ThrowEventView::Listed(es));
    assert(evs.drop_first() =~= successes(files_from(es, 0).len()));
    if es.len() == 0 {
        assert(m.uploads(files_from(es, 0)) =~= Seq::empty());
        assert(m0.next(evs.first()).0.run(successes(0)) =~= Seq::empty());
    } else {
        lemma_run_proceed(m, 0);
    }
}

/// Of a folder that can be read only up to some entry, a throw in which no
/// upload fails sends every regular file before that entry, in order, and
/// then ends with the failure to read the folder.
pub proof fn lemma_uploads_up_to_the_break(remote_dir: Seq<char>, es: Seq<EntryView>)
    ensures
        ThrowView::fresh(remote_dir).run(
            seq![ThrowEventView::ListedInPart(es)] + successes(files_from(es, 0).len()),
        ) == ThrowView::fresh(remote_dir).listed(es, false).uploads(files_from(es, 0)) + seq![
            ThrowActionView::Abort,
        ],
{
    let m = ThrowView::fresh(remote_dir).listed(es, false);
    let evs = seq![ThrowEventView::ListedInPart(es)] + successes(files_from(es, 0).len());
    assert(evs.first() == ThrowEventView::ListedInPart(es));
    assert(evs.drop_first() =~= successes(files_from(es, 0).len()));
    lemma_run_proceed(m, 0);
}

/// Once a throw is over nothing more is uploaded: whatever is reported then,
/// the answer is to stop.
pub proof fn lemma_end_is_final(m: ThrowView, events: Seq<ThrowEventView>, k: int)
    requires
        0 <= k < events.len(),
        m.state == ThrowStateView::Finished,
    ensures
        m.run(events)[k] == ThrowActionView::Abort,
    decreases events.len(),
{
    assert(m.next(events.first()).0 == m);
    lemma_run_len(m, events.drop_first());
    if k > 0 {
        lemma_end_is_final(m, events.drop_first(), k - 1);
    }
}

/// A course has one action for each event.
pub proof fn lemma_run_len(m: ThrowView, events: Seq<ThrowEventView>)
    ensures
        m.run(events).len() == events.len(),
    decreases events.len(),
{
    if events.len() > 0 {
        lemma_run_len(m.next(events.first()).0, events.drop_first());
    }
}

/// A failure ends a throw at once, whatever state it is in.
pub proof fn lemma_failure_ends(m: ThrowView)
    ensures
        m.next(ThrowEventView::Failed) == (m.finished(), ThrowActionView::Abort),
{
}

impl View for Throw {
    type V = ThrowView;

    closed spec fn view(&self) -> ThrowView {
        ThrowView {
            remote_dir: self.remote_dir@,
            entries: views(self.entries@),
            complete: self.complete,
            state: self.state@,
        }
    }
}

impl Throw {
    #[verifier::type_invariant]
    spec fn inv(self) -> bool {
        self@.wf()
    }

    /// Begins a throw into the remote folder `remote_dir`: the local upload
    /// folder is to be listed.
    pub fn start(remote_dir: &str) -> (r: (Throw, ThrowAction))
        ensures
            r.0@ == ThrowView::fresh(remote_dir@),
            r.1@ == (ThrowActionView::List { dir: UPLOAD_DIR@ }),
    {
        let throw = Throw {
            remote_dir: String::from_str(remote_dir),
            entries: Vec::new(),
            complete: true,
            state: ThrowState::Listing,
        };
        assert(views(throw.entries@) =~= Seq::empty());
        (throw, ThrowAction::List { dir: String::from_str(UPLOAD_DIR) })
    }

    /// How far the throw has come.
    pub fn state(&self) -> (r: ThrowState)
        ensures
            r@ == self@.state,
    {
        self.state
    }

    /// Whether the throw is over.
    pub fn is_finished(&self) -> (r: bool)
        ensures
            r == (self@.state == ThrowStateView::Finished),
    {
        match self.state {
            ThrowState::Finished => true,
            _ => false,
        }
    }

    fn proceed(self, from: usize) -> (r: (Throw, ThrowAction))
        requires
            from <= self@.entries.len(),
        ensures
            (r.0@, r.1@) == self@.proceed(from as int),
    {
        let i: usize = find_file(&self.entries, from);
        if i < self.entries.len() {
            let remote = join(self.remote_dir.as_str(), self.entries[i].name.as_str());
            (
                Throw {
                    remote_dir: self.remote_dir,
                    entries: self.entries,
                    complete: self.complete,
                    state: ThrowState::Uploading(i),
                },
                ThrowAction::Upload { index: i, remote },
            )
        } else {
            let ending = if self.complete {
                ThrowAction::Finish { empty: false }
            } else {
                ThrowAction::Abort
            };
            (
                Throw {
                    remote_dir: self.remote_dir,
                    entries: self.entries,
                    complete: self.complete,
                    state: ThrowState::Finished,
                },
                ending,
            )
        }
    }

    /// Takes the caller's report and says what is to be done next.
    pub fn step(self, event: ThrowEvent) -> (r: (Throw, ThrowAction))
        ensures
            (r.0@, r.1@) == self@.next(event@),
    {
        proof {
            use_type_invariant(&self);
        }
        match (self.state, event) {
            (ThrowState::Listing, ThrowEvent::Listed(es)) => {
                if es.len() == 0 {
                    (
                        Throw {
                            remote_dir: self.remote_dir,
                            entries: es,
                            complete: true,
                            state: ThrowState::Finished,
                        },
                        ThrowAction::Finish { empty: true },
                    )
                } else {
                    let throw = Throw {
                        remote_dir: self.remote_dir,
                        entries: es,
                        complete: true,
                        state: ThrowState::Listing,
                    };
                    throw.proceed(0)
                }
            },
            (ThrowState::Listing, ThrowEvent::ListedInPart(es)) => {
                let throw = Throw {
                    remote_dir: self.remote_dir,
                    entries: es,
                    complete: false,
                    state: ThrowState::Listing,
                };
                throw.proceed(0)
            },
            (ThrowState::Uploading(i), ThrowEvent::Done) => {
                let n: usize = self.entries.len();
                assert(i < n);
                self.proceed(i + 1)
            },
            _ => (
                Throw {
                    remote_dir: self.remote_dir,
                    entries: self.entries,
                    complete: self.complete,
                    state: ThrowState::Finished,
                },
                ThrowAction::Abort,
            ),
        }
    }
}

} // verus!
