//! Catching: every regular file of the user's remote folder is copied into
//! the local download folder and then deleted on the server.
//!
//! A remote file is deleted only after its copy is complete. A failure ends
//! the catch where it stands: what was fetched before stays fetched and
//! deleted, what was not stays on the server.

use crate::layout::{download_file, under, DOWNLOAD_DIR};
use crate::listing::{
    files_from, find_file, lemma_files_from, lemma_next_file, next_file, views, Entry, EntryView,
};
use crate::throw::{ThrowActionView, ThrowView};
use vstd::prelude::*;

verus! {

/// How far a catch has come.
#[derive(Debug, Clone, Copy, PartialEq, Eq)]
pub enum CatchState {
    /// The listing of the remote folder is awaited.
    Listing,
    /// The copy of the entry at this position is awaited.
    Copying(usize),
    /// The deletion of the entry at this position is awaited.
    Deleting(usize),
    /// Nothing more is to be done.
    Finished,
}

/// A `CatchState` with positions as integers.
pub enum CatchStateView {
    Listing,
    Copying(int),
    Deleting(int),
    Finished,
}

impl View for CatchState {
    type V = CatchStateView;

    open spec fn view(&self) -> CatchStateView {
        match self {
            CatchState::Listing => CatchStateView::Listing,
            CatchState::Copying(i) => CatchStateView::Copying(*i as int),
            CatchState::Deleting(i) => CatchStateView::Deleting(*i as int),
            CatchState::Finished => CatchStateView::Finished,
        }
    }
}

/// What the caller reports.
#[derive(Debug)]
pub enum CatchEvent {
    /// The remote folder was listed and holds these entries.
    Listed(Vec<Entry>),
    /// What was asked for is complete.
    Done,
    /// What was asked for could not be done.
    Failed,
}

/// A `CatchEvent` over sequences.
pub enum CatchEventView {
    Listed(Seq<EntryView>),
    Done,
    Failed,
}

impl View for CatchEvent {
    type V = CatchEventView;

    open spec fn view(&self) -> CatchEventView {
        match self {
            CatchEvent::Listed(es) => CatchEventView::Listed(views(es@)),
            CatchEvent::Done => CatchEventView::Done,
            CatchEvent::Failed => CatchEventView::Failed,
        }
    }
}

/// What the caller is to do next.
#[derive(Debug, PartialEq, Eq)]
pub enum CatchAction {
    /// List the remote folder `dir`.
    List { dir: String },
    /// Copy the entry at `index` of the listing into the local file `local`,
    /// created or truncated.
    Download { index: usize, local: String },
    /// Delete the entry at `index` of the listing on the server.
    Delete { index: usize },
    /// End with success; say that the folder is empty if `empty` is set.
    Finish { empty: bool },
    /// End with the failure that was reported.
    Abort,
}

/// A `CatchAction` over sequences.
pub enum CatchActionView {
    List { dir: Seq<char> },
    Download { index: int, local: Seq<char> },
    Delete { index: int },
    Finish { empty: bool },
    Abort,
}

impl View for CatchAction {
    type V = CatchActionView;

    open spec fn view(&self) -> CatchActionView {
        match self {
            CatchAction::List { dir } => CatchActionView::List { dir: dir@ },
            CatchAction::Download { index, local } => CatchActionView::Download {
                index: *index as int,
                local: local@,
            },
            CatchAction::Delete { index } => CatchActionView::Delete { index: *index as int },
            CatchAction::Finish { empty } => CatchActionView::Finish { empty: *empty },
            CatchAction::Abort => CatchActionView::Abort,
        }
    }
}

/// A catch in progress.
pub struct Catch {
    entries: Vec<Entry>,
    state: CatchState,
}

/// A `Catch` over sequences.
pub struct CatchView {
    /// The listing of the remote folder; empty before it is known.
    pub entries: Seq<EntryView>,
    pub state: CatchStateView,
}

impl CatchView {
    /// A catch that has not listed the remote folder yet.
    pub open spec fn fresh() -> CatchView {
        CatchView { entries: Seq::empty(), state: CatchStateView::Listing }
    }

    /// A catch from the user's remote folder `remote_dir` at its start, and
    /// the first thing to do: to list that folder.
    pub open spec fn begin(remote_dir: Seq<char>) -> (CatchView, CatchActionView) {
        (CatchView::fresh(), CatchActionView::List { dir: remote_dir })
    }

    /// The least position of the listing that can still be deleted.
    pub open spec fn low(self) -> int {
        match self.state {
            CatchStateView::Copying(i) => i,
            CatchStateView::Deleting(i) => i + 1,
            _ => 0,
        }
    }

    /// The same catch at its end.
    pub open spec fn finished(self) -> CatchView {
        CatchView { state: CatchStateView::Finished, ..self }
    }

    /// A copy or a deletion that is awaited is that of an entry of the
    /// listing.
    pub open spec fn wf(self) -> bool {
        match self.state {
            CatchStateView::Copying(i) => 0 <= i < self.entries.len(),
            CatchStateView::Deleting(i) => 0 <= i < self.entries.len(),
            _ => true,
        }
    }

    /// The download of the entry at `i`.
    pub open spec fn download(self, i: int) -> CatchActionView {
        CatchActionView::Download { index: i, local: under(DOWNLOAD_DIR@, self.entries[i].name) }
    }

    /// Goes on with the first regular file at or behind `from`: its
    /// download, or the end where none is left.
    pub open spec fn proceed(self, from: int) -> (CatchView, CatchActionView) {
        let i = next_file(self.entries, from);
        if i < self.entries.len() {
            (CatchView { state: CatchStateView::Copying(i), ..self }, self.download(i))
        } else {
            (self.finished(), CatchActionView::Finish { empty: false })
        }
    }

    /// The catch after `event`, and what is to be done then.
    ///
    /// A listing without entries ends the catch with the remark that the
    /// folder is empty. Otherwise the regular files are taken one after the
    /// other, in the order of the listing: each is copied and, once the copy
    /// is complete, deleted. A failure ends the catch, and so does a report
    /// that answers nothing that was asked.
    pub open spec fn next(self, event: CatchEventView) -> (CatchView, CatchActionView) {
        match (self.state, event) {
            (CatchStateView::Listing, CatchEventView::Listed(es)) => {
                if es.len() == 0 {
                    (
                        CatchView { entries: es, ..self }.finished(),
                        CatchActionView::Finish { empty: true },
                    )
                } else {
                    CatchView { entries: es, ..self }.proceed(0)
                }
            },
            (CatchStateView::Copying(i), CatchEventView::Done) => (
                CatchView { state: CatchStateView::Deleting(i), ..self },
                CatchActionView::Delete { index: i },
            ),
            (CatchStateView::Deleting(i), CatchEventView::Done) => self.proceed(i + 1),
            _ => (self.finished(), CatchActionView::Abort),
        }
    }

    /// What the caller is asked to do, one action for each of `events`.
    pub open spec fn run(self, events: Seq<CatchEventView>) -> Seq<CatchActionView>
        decreases events.len(),
    {
        if events.len() == 0 {
            Seq::empty()
        } else {
            seq![self.next(events.first()).1] + self.next(events.first()).0.run(
                events.drop_first(),
            )
        }
    }
}

impl CatchView {
    /// The download and then the deletion of each of the entries at
    /// `positions`, in that order.
    pub open spec fn fetches(self, positions: Seq<int>) -> Seq<CatchActionView>
        decreases positions.len(),
    {
        if positions.len() == 0 {
            Seq::empty()
        } else {
            seq![
                self.download(positions.first()),
                CatchActionView::Delete { index: positions.first() },
            ] + self.fetches(positions.drop_first())
        }
    }
}

/// `n` reports of success.
pub open spec fn successes(n: nat) -> Seq<CatchEventView> {
    Seq::new(n, |k: int| CatchEventView::Done)
}

/// From any position on, a catch in which nothing fails fetches the regular
/// files that are left, in order, and then ends.
proof fn lemma_run_proceed(m: CatchView, from: int)
    requires
        0 <= from <= m.entries.len(),
    ensures
        seq![m.proceed(from).1] + m.proceed(from).0.run(
            successes(2 * files_from(m.entries, from).len()),
        ) == m.fetches(files_from(m.entries, from)) + seq![CatchActionView::Finish { empty: false }],
    decreases m.entries.len() - from,
{
    let es = m.entries;
    let i = next_file(es, from);
    let fs = files_from(es, from);
    let m1 = m.proceed(from).0;
    lemma_next_file(es, from);
    lemma_files_from(es, from);
    if i < es.len() {
        let rest = files_from(es, i + 1);
        let evs = successes(2 * fs.len());
        let m2 = m1.next(evs.first()).0;
        assert(evs.drop_first() =~= successes((2 * rest.len() + 1) as nat));
        assert(evs.drop_first().drop_first() =~= successes(2 * rest.len()));
        assert(evs.drop_first().first() == CatchEventView::Done);
        assert(m2.next(CatchEventView::Done) == m.proceed(i + 1));
        lemma_run_proceed(m, i + 1);
        assert(fs.drop_first() =~= rest);
        assert(m1.run(evs) == seq![CatchActionView::Delete { index: i }] + m2.run(
            evs.drop_first(),
        ));
        assert(m2.run(evs.drop_first()) == seq![m.proceed(i + 1).1] + m.proceed(i + 1).0.run(
            successes(2 * rest.len()),
        ));
        assert(m.fetches(fs) == seq![m.download(i), CatchActionView::Delete { index: i }]
            + m.fetches(rest));
        assert(seq![m.proceed(from).1] + m1.run(evs) =~= m.fetches(fs) + seq![
            CatchActionView::Finish { empty: false },
        ]);
    } else {
        assert(m1.run(successes(0)) =~= Seq::empty());
    }
}

/// A catch in which nothing fails takes every regular file of the remote
/// folder once, in the order of the listing: it copies the file into the
/// local download folder under its own name and then deletes it on the
/// server. It touches nothing else, and then ends with success.
pub proof fn lemma_fetches_every_file(es: Seq<EntryView>)
    ensures
        CatchView::fresh().run(
            seq![CatchEventView::Listed(es)] + successes(2 * files_from(es, 0).len()),
        ) == (CatchView { entries: es, ..CatchView::fresh() }).fetches(files_from(es, 0)) + seq![
            CatchActionView::Finish { empty: es.len() == 0 },
        ],
{
    let m0 = CatchView::fresh();
    let m = CatchView { entries: es, ..m0 };
    let evs = seq![CatchEventView::Listed(es)] + successes(2 * files_from(es, 0).len());
    assert(evs.first() == CatchEventView::Listed(es));
    assert(evs.drop_first() =~= successes(2 * files_from(es, 0).len()));
    if es.len() == 0 {
        assert(m0.next(evs.first()).0.run(successes(0)) =~= Seq::empty());
    } else {
        lemma_run_proceed(m, 0);
    }
}

/// Where the remote folder holds nothing, the catch says so and ends with
/// success: nothing is fetched and nothing deleted.
pub proof fn lemma_empty_folder()
    ensures
        CatchView::fresh().next(CatchEventView::Listed(Seq::empty())) == (
            CatchView::fresh().finished(),
            CatchActionView::Finish { empty: true },
        ),
{
}

/// A step keeps a catch well formed.
pub proof fn lemma_next_wf(m: CatchView, event: CatchEventView)
    requires
        m.wf(),
    ensures
        m.next(event).0.wf(),
{
    match (m.state, event) {
        (CatchStateView::Listing, CatchEventView::Listed(es)) => {
            lemma_next_file(es, 0);
        },
        (CatchStateView::Deleting(i), CatchEventView::Done) => {
            lemma_next_file(m.entries, i + 1);
        },
        _ => {},
    }
}

/// A remote file is deleted only in answer to the report that its copy is
/// complete, and a copy is awaited only once it has been asked for.
pub proof fn lemma_delete_answers_copy(m: CatchView, event: CatchEventView)
    ensures
        m.next(event).1 matches CatchActionView::Delete { index } ==> (m.state
            == CatchStateView::Copying(index) && event == CatchEventView::Done),
        m.next(event).0.state matches CatchStateView::Copying(i) ==> m.next(event).1
            == m.next(event).0.download(i),
{
}

/// In every course that a catch can take, a deletion follows at once on the
/// download of the same entry, and is asked for only when that download was
/// reported complete.
pub proof fn lemma_deletes_only_after_copy(events: Seq<CatchEventView>, k: int)
    requires
        0 <= k < events.len(),
        CatchView::fresh().run(events)[k] is Delete,
    ensures
        k > 0,
        events[k] == CatchEventView::Done,
        CatchView::fresh().run(events)[k - 1] matches CatchActionView::Download { index, .. }
            && CatchView::fresh().run(events)[k] == (CatchActionView::Delete { index }),
{
    lemma_run_deletes(CatchView::fresh(), events, k);
}

/// The same for a catch in any state: the deletion answers the copy that
/// was awaited at the start, or the download that was asked for just before.
proof fn lemma_run_deletes(m: CatchView, events: Seq<CatchEventView>, k: int)
    requires
        0 <= k < events.len(),
        m.run(events)[k] is Delete,
    ensures
        events[k] == CatchEventView::Done,
        k == 0 ==> m.state is Copying && m.run(events)[k] == (CatchActionView::Delete {
            index: m.state->Copying_0,
        }),
        k > 0 ==> (m.run(events)[k - 1] matches CatchActionView::Download { index, .. } && m.run(
            events,
        )[k] == (CatchActionView::Delete { index })),
    decreases events.len(),
{
    let first = m.next(events.first());
    let rest = events.drop_first();
    lemma_run_len(first.0, rest);
    lemma_delete_answers_copy(m, events.first());
    if k > 0 {
        assert(m.run(events)[k] == first.0.run(rest)[k - 1]);
        assert(events[k] == rest[k - 1]);
        lemma_run_deletes(first.0, rest, k - 1);
        if k > 1 {
            assert(m.run(events)[k - 1] == first.0.run(rest)[k - 2]);
        }
    }
}

/// Whatever a catch deletes from now on is at or behind the entry that it
/// is working on.
proof fn lemma_run_delete_bound(m: CatchView, events: Seq<CatchEventView>, k: int)
    requires
        m.wf(),
        0 <= k < events.len(),
        m.run(events)[k] is Delete,
    ensures
        m.run(events)[k]->Delete_index >= m.low(),
    decreases events.len(),
{
    let first = m.next(events.first());
    let rest = events.drop_first();
    lemma_run_len(first.0, rest);
    lemma_next_wf(m, events.first());
    if k > 0 {
        assert(m.run(events)[k] == first.0.run(rest)[k - 1]);
        if first.0.state is Finished {
            lemma_end_is_final(first.0, rest, k - 1);
        } else {
            lemma_run_delete_bound(first.0, rest, k - 1);
            if let CatchStateView::Deleting(i) = m.state {
                lemma_next_file(m.entries, i + 1);
            }
        }
    }
}

/// Of two deletions in a course, the later one is that of a later entry.
proof fn lemma_run_two_deletes(m: CatchView, events: Seq<CatchEventView>, k1: int, k2: int)
    requires
        m.wf(),
        0 <= k1 < k2 < events.len(),
        m.run(events)[k1] is Delete,
        m.run(events)[k2] is Delete,
    ensures
        m.run(events)[k1]->Delete_index < m.run(events)[k2]->Delete_index,
    decreases events.len(),
{
    let first = m.next(events.first());
    let rest = events.drop_first();
    lemma_run_len(first.0, rest);
    lemma_next_wf(m, events.first());
    assert(m.run(events)[k2] == first.0.run(rest)[k2 - 1]);
    if k1 > 0 {
        assert(m.run(events)[k1] == first.0.run(rest)[k1 - 1]);
        lemma_run_two_deletes(first.0, rest, k1 - 1, k2 - 1);
    } else {
        lemma_run_delete_bound(first.0, rest, k2 - 1);
    }
}

/// No entry is deleted twice: in every course that a catch can take, of two
/// deletions the later one is that of a later entry of the listing.
pub proof fn lemma_deletes_each_entry_once(events: Seq<CatchEventView>, k1: int, k2: int)
    requires
        0 <= k1 < k2 < events.len(),
        CatchView::fresh().run(events)[k1] is Delete,
        CatchView::fresh().run(events)[k2] is Delete,
    ensures
        CatchView::fresh().run(events)[k1]->Delete_index < CatchView::fresh().run(
            events,
        )[k2]->Delete_index,
{
    lemma_run_two_deletes(CatchView::fresh(), events, k1, k2);
}

/// A catch lists the very folder that a throw fills: the remote file to
/// which a throw into `remote_dir` sends the entry at `i` of its listing `es`
/// is the entry of that name in the folder that a catch from `remote_dir`
/// asks to have listed.
pub proof fn lemma_lists_what_throw_fills(remote_dir: Seq<char>, es: Seq<EntryView>, i: int)
    requires
        0 <= i < es.len(),
    ensures
        CatchView::begin(remote_dir).1 matches CatchActionView::List { dir }
            && ThrowView::fresh(remote_dir).listed(es, true).upload(i) == (ThrowActionView::Upload {
            index: i,
            remote: under(dir, es[i].name),
        }),
{
}

/// A course has one action for each event.
pub proof fn lemma_run_len(m: CatchView, events: Seq<CatchEventView>)
    ensures
        m.run(events).len() == events.len(),
    decreases events.len(),
{
    if events.len() > 0 {
        lemma_run_len(m.next(events.first()).0, events.drop_first());
    }
}

/// Once a catch is over nothing more is fetched or deleted: whatever is
/// reported then, the answer is to stop.
pub proof fn lemma_end_is_final(m: CatchView, events: Seq<CatchEventView>, k: int)
    requires
        0 <= k < events.len(),
        m.state == CatchStateView::Finished,
    ensures
        m.run(events)[k] == CatchActionView::Abort,
    decreases events.len(),
{
    assert(m.next(events.first()).0 == m);
    lemma_run_len(m, events.drop_first());
    if k > 0 {
        lemma_end_is_final(m, events.drop_first(), k - 1);
    }
}

/// A failure ends a catch at once, whatever state it is in: the file whose
/// copy failed is not deleted, and no later file is touched.
pub proof fn lemma_failure_ends(m: CatchView)
    ensures
        m.next(CatchEventView::Failed) == (m.finished(), CatchActionView::Abort),
{
}

impl View for Catch {
    type V = CatchView;

    closed spec fn view(&self) -> CatchView {
        CatchView { entries: views(self.entries@), state: self.state@ }
    }
}

impl Catch {
    #[verifier::type_invariant]
    spec fn inv(self) -> bool {
        self@.wf()
    }

    /// Begins a catch from the user's remote folder `remote_dir`: that folder
    /// is to be listed, under the very path under which a throw fills it.
    pub fn start(remote_dir: &str) -> (r: (Catch, CatchAction))
        ensures
            (r.0@, r.1@) == CatchView::begin(remote_dir@),
    {
        let catch = Catch { entries: Vec::new(), state: CatchState::Listing };
        assert(views(catch.entries@) =~= Seq::empty());
        (catch, CatchAction::List { dir: String::from_str(remote_dir) })
    }

    /// How far the catch has come.
    pub fn state(&self) -> (r: CatchState)
        ensures
            r@ == self@.state,
    {
        self.state
    }

    /// Whether the catch is over.
    pub fn is_finished(&self) -> (r: bool)
        ensures
            r == (self@.state == CatchStateView::Finished),
    {
        match self.state {
            CatchState::Finished => true,
            _ => false,
        }
    }

    fn proceed(self, from: usize) -> (r: (Catch, CatchAction))
        requires
            from <= self@.entries.len(),
        ensures
            (r.0@, r.1@) == self@.proceed(from as int),
    {
        let i: usize = find_file(&self.entries, from);
        if i < self.entries.len() {
            let local = download_file(self.entries[i].name.as_str());
            (
                Catch { entries: self.entries, state: CatchState::Copying(i) },
                CatchAction::Download { index: i, local },
            )
        } else {
            (
                Catch { entries: self.entries, state: CatchState::Finished },
                CatchAction::Finish { empty: false },
            )
        }
    }

    /// Takes the caller's report and says what is to be done next.
    pub fn step(self, event: CatchEvent) -> (r: (Catch, CatchAction))
        ensures
            (r.0@, r.1@) == self@.next(event@),
    {
        proof {
            use_type_invariant(&self);
        }
        let n: usize = self.entries.len();
        match (self.state, event) {
            (CatchState::Listing, CatchEvent::Listed(es)) => {
                if es.len() == 0 {
                    (
                        Catch { entries: es, state: CatchState::Finished },
                        CatchAction::Finish { empty: true },
                    )
                } else {
                    let catch = Catch { entries: es, state: CatchState::Listing };
                    catch.proceed(0)
                }
            },
            (CatchState::Copying(i), CatchEvent::Done) => (
                Catch { entries: self.entries, state: CatchState::Deleting(i) },
                CatchAction::Delete { index: i },
            ),
            (CatchState::Deleting(i), CatchEvent::Done) => {
                assert(i < n);
                self.proceed(i + 1)
            },
            _ => (
                Catch { entries: self.entries, state: CatchState::Finished },
                CatchAction::Abort,
            ),
        }
    }
}

} // verus!
