//! A Binance order book kept in sync from diff-depth events and a REST
//! depth snapshot.
//!
//! Until the snapshot is in, events are buffered. The caller fetches the
//! snapshot when [`LocalOrderBook::handle_update`] asks for it, and hands
//! back what its fetch has produced so far with every following event.
use vstd::prelude::*;

use crate::book::{apply_levels, book_levels, lists_ascending, lists_descending, loaded_levels, BookLevels, BookSide, Level};

verus! {

/// REST depth snapshot response: the update id it is current as of, and its
/// levels as (price key, quantity key).
#[derive(Debug)]
pub struct DepthSnapshot {
    pub last_update_id: i64,
    pub bids: Vec<Level>,
    pub asks: Vec<Level>,
}

/// One diff-depth event: it covers the update ids `first_update_id` to
/// `final_update_id`, and holds the level updates of each side.
#[derive(Debug)]
pub struct DepthUpdate {
    pub first_update_id: i64,
    pub final_update_id: i64,
    pub event_time: i64,
    pub bids: Vec<Level>,
    pub asks: Vec<Level>,
}

/// A [`DepthUpdate`] as plain values.
pub struct UpdateModel {
    pub first_update_id: int,
    pub final_update_id: int,
    pub event_time: int,
    pub bids: Seq<Level>,
    pub asks: Seq<Level>,
}

impl View for DepthUpdate {
    type V = UpdateModel;

    open spec fn view(&self) -> UpdateModel {
        UpdateModel {
            first_update_id: self.first_update_id as int,
            final_update_id: self.final_update_id as int,
            event_time: self.event_time as int,
            bids: self.bids@,
            asks: self.asks@,
        }
    }
}

/// The events of `v` as plain values.
pub open spec fn updates_view(v: Seq<DepthUpdate>) -> Seq<UpdateModel> {
    v.map_values(|u: DepthUpdate| u@)
}

impl DepthUpdate {
    /// A copy of the event.
    pub fn copy(&self) -> (c: Self)
        ensures
            c@ == self@,
    {
        DepthUpdate {
            first_update_id: self.first_update_id,
            final_update_id: self.final_update_id,
            event_time: self.event_time,
            bids: copy_levels(&self.bids),
            asks: copy_levels(&self.asks),
        }
    }
}

/// A copy of `v`.
fn copy_levels(v: &Vec<Level>) -> (c: Vec<Level>)
    ensures
        c@ == v@,
{
    let mut c: Vec<Level> = Vec::new();
    let mut i: usize = 0;
    while i < v.len()
        invariant
            i <= v@.len(),
            c@ == v@.take(i as int),
        decreases v.len() - i,
    {
        c.push(v[i]);
        assert(v@.take(i + 1) =~= v@.take(i as int).push(v@[i as int]));
        i = i + 1;
    }
    assert(v@.take(v@.len() as int) =~= v@);
    c
}

/// What the caller's snapshot fetch has produced so far.
#[derive(Debug)]
pub enum SnapshotPoll {
    /// No fetch is running, or it has not finished.
    Pending,
    /// The fetch failed.
    Failed,
    /// The fetch returned this snapshot.
    Ready(DepthSnapshot),
}

/// What [`LocalOrderBook::handle_update`] did with an event.
#[derive(Debug, Clone, Copy, PartialEq, Eq, Structural)]
pub enum SyncStep {
    /// The book is live and up to date; its levels may be published.
    Updated,
    /// The book is still synchronising; when `fetch_snapshot` is set, the
    /// caller must start a new snapshot fetch (and drop any earlier one).
    Waiting { fetch_snapshot: bool },
}

/// Why the book lost sync with the stream.
#[derive(Debug, Clone, Copy, PartialEq, Eq, Structural)]
pub enum DesyncError {
    /// A live event starts after the id following the book's last update.
    MissedEvents,
    /// After dropping the events that the snapshot covers, the first
    /// buffered event starts after the id following the snapshot.
    SnapshotGap,
}

impl DesyncError {
    /// The error text.
    pub fn message(&self) -> (s: String)
        ensures
            s@ == desync_message(*self),
    {
        match self {
            DesyncError::MissedEvents => "order book desync: missed events".to_owned(),
            DesyncError::SnapshotGap => "order book desync: gap between snapshot and buffered stream".to_owned(),
        }
    }
}

/// The text of a [`DesyncError`].
pub open spec fn desync_message(e: DesyncError) -> Seq<char> {
    match e {
        DesyncError::MissedEvents => "order book desync: missed events"@,
        DesyncError::SnapshotGap => "order book desync: gap between snapshot and buffered stream"@,
    }
}

/// Synchronisation state: buffering events (and whether a snapshot fetch has
/// been started), or live.
#[derive(Debug)]
pub enum SyncState {
    Buffering { buffer: Vec<DepthUpdate>, fetch_requested: bool },
    Live,
}

/// The contents of a book: the id and time of the last update applied, and
/// each side as a map from price key to quantity key.
#[verifier::ext_equal]
pub struct BookModel {
    pub last_update_id: int,
    pub last_event_time: int,
    pub bids: Map<u64, u64>,
    pub asks: Map<u64, u64>,
}

/// Whether a live event is stale: the book is already past it.
pub open spec fn is_stale(last_update_id: int, u: UpdateModel) -> bool {
    u.final_update_id < last_update_id
}

/// Whether a live event leaves a gap after the book's last update.
pub open spec fn leaves_gap(last_update_id: int, u: UpdateModel) -> bool {
    u.first_update_id > last_update_id + 1
}

/// The book after applying an event that is neither stale nor leaves a gap.
pub open spec fn applied(b: BookModel, u: UpdateModel) -> BookModel {
    BookModel {
        last_update_id: u.final_update_id,
        last_event_time: u.event_time,
        bids: apply_levels(b.bids, u.bids),
        asks: apply_levels(b.asks, u.asks),
    }
}

/// The outcome of one live event: a stale event leaves the book as it is, a
/// gap is an error (the book is left as it is), any other event is applied.
pub open spec fn step(b: BookModel, u: UpdateModel) -> (BookModel, bool) {
    if is_stale(b.last_update_id, u) {
        (b, true)
    } else if leaves_gap(b.last_update_id, u) {
        (b, false)
    } else {
        (applied(b, u), true)
    }
}

/// Replaying events in order, stopping at the first gap: the book reached
/// and whether every event went through.
pub open spec fn replay(b: BookModel, us: Seq<UpdateModel>) -> (BookModel, bool)
    decreases us.len(),
{
    if us.len() == 0 {
        (b, true)
    } else {
        let (b2, ok) = replay(b, us.drop_last());
        if !ok {
            (b2, false)
        } else {
            step(b2, us.last())
        }
    }
}

/// The events of `us` that end after update id `id`, in order.
pub open spec fn ending_after(us: Seq<UpdateModel>, id: int) -> Seq<UpdateModel>
    decreases us.len(),
{
    if us.len() == 0 {
        us
    } else if us.last().final_update_id > id {
        ending_after(us.drop_last(), id).push(us.last())
    } else {
        ending_after(us.drop_last(), id)
    }
}

/// The book loaded from a snapshot; the time of the last event is kept.
pub open spec fn loaded(b: BookModel, snap: DepthSnapshot) -> BookModel {
    BookModel {
        last_update_id: snap.last_update_id as int,
        last_event_time: b.last_event_time,
        bids: loaded_levels(snap.bids@),
        asks: loaded_levels(snap.asks@),
    }
}

/// Where a book stands in its synchronisation.
pub enum Phase {
    Buffering { buffer: Seq<UpdateModel>, fetch_requested: bool },
    Live,
}

/// What a snapshot does to a book whose buffered events are `buf` (at least
/// one): a snapshot older than the first buffered event is refused and a new
/// fetch asked for; otherwise the events that end after the snapshot are kept,
/// a gap between the snapshot and the first of them is an error (the book is
/// left as it was, and live), and else the book is loaded from the snapshot,
/// goes live and replays the kept events.
pub open spec fn after_snapshot(b: BookModel, buf: Seq<UpdateModel>, snap: DepthSnapshot) -> (BookModel, Phase, Result<SyncStep, DesyncError>) {
    if (snap.last_update_id as int) < buf[0].first_update_id {
        (b, Phase::Buffering { buffer: buf, fetch_requested: true }, Ok(SyncStep::Waiting { fetch_snapshot: true }))
    } else {
        let kept = ending_after(buf, snap.last_update_id as int);
        if kept.len() > 0 && leaves_gap(snap.last_update_id as int, kept[0]) {
            (b, Phase::Live, Err(DesyncError::SnapshotGap))
        } else {
            let (b2, ok) = replay(loaded(b, snap), kept);
            (b2, Phase::Live, if ok { Ok(SyncStep::Updated) } else { Err(DesyncError::MissedEvents) })
        }
    }
}

/// One event handled by a book in phase `p`, with `poll` what the snapshot
/// fetch has produced: the book, phase and result that follow.
///
/// A live book applies the event. A buffering book appends it to its buffer;
/// if no fetch was started, it asks for one; else a pending fetch changes
/// nothing more, a failed one is asked again, and a snapshot is loaded as
/// [`after_snapshot`] says.
pub open spec fn transition(b: BookModel, p: Phase, u: UpdateModel, poll: SnapshotPoll) -> (BookModel, Phase, Result<SyncStep, DesyncError>) {
    match p {
        Phase::Live => {
            let (b2, ok) = step(b, u);
            (b2, Phase::Live, if ok { Ok(SyncStep::Updated) } else { Err(DesyncError::MissedEvents) })
        },
        Phase::Buffering { buffer, fetch_requested } => {
            let buf = buffer.push(u);
            if !fetch_requested {
                (b, Phase::Buffering { buffer: buf, fetch_requested: true }, Ok(SyncStep::Waiting { fetch_snapshot: true }))
            } else {
                match poll {
                    SnapshotPoll::Pending => (b, Phase::Buffering { buffer: buf, fetch_requested: true }, Ok(SyncStep::Waiting { fetch_snapshot: false })),
                    SnapshotPoll::Failed => (b, Phase::Buffering { buffer: buf, fetch_requested: true }, Ok(SyncStep::Waiting { fetch_snapshot: true })),
                    SnapshotPoll::Ready(snap) => after_snapshot(b, buf, snap),
                }
            }
        },
    }
}

/// A live book ignores an event that it is already past.
pub proof fn law_stale_event_ignored(b: BookModel, u: UpdateModel, poll: SnapshotPoll)
    requires
        is_stale(b.last_update_id, u),
    ensures
        transition(b, Phase::Live, u, poll) == (b, Phase::Live, Ok::<SyncStep, DesyncError>(SyncStep::Updated)),
{
}

/// A live book refuses an event that leaves a gap after its last update, and
/// stays as it is.
pub proof fn law_gap_refused(b: BookModel, u: UpdateModel, poll: SnapshotPoll)
    requires
        !is_stale(b.last_update_id, u),
        leaves_gap(b.last_update_id, u),
    ensures
        transition(b, Phase::Live, u, poll) == (b, Phase::Live, Err::<SyncStep, DesyncError>(DesyncError::MissedEvents)),
{
}

/// A live book applies an event that continues it: the book's last update id
/// becomes the event's final id, and each side takes the event's levels.
pub proof fn law_continuing_event_applied(b: BookModel, u: UpdateModel, poll: SnapshotPoll)
    requires
        u.first_update_id <= b.last_update_id + 1,
        b.last_update_id <= u.final_update_id,
    ensures
        transition(b, Phase::Live, u, poll) == (applied(b, u), Phase::Live, Ok::<SyncStep, DesyncError>(SyncStep::Updated)),
        applied(b, u).last_update_id == u.final_update_id,
        applied(b, u).bids == apply_levels(b.bids, u.bids),
        applied(b, u).asks == apply_levels(b.asks, u.asks),
{
}

/// While live, the book's last update id never goes back.
pub proof fn law_live_update_id_never_decreases(b: BookModel, u: UpdateModel, poll: SnapshotPoll)
    ensures
        transition(b, Phase::Live, u, poll).0.last_update_id >= b.last_update_id,
        transition(b, Phase::Live, u, poll).1 == Phase::Live,
{
}

/// Until a snapshot comes in, a buffering book keeps its contents and every
/// event, in order, and asks for a fetch if none was started or the last one
/// failed.
pub proof fn law_buffering_keeps_events(b: BookModel, buffer: Seq<UpdateModel>, fetch_requested: bool, u: UpdateModel, poll: SnapshotPoll)
    requires
        !fetch_requested || !(poll is Ready),
    ensures
        transition(b, Phase::Buffering { buffer, fetch_requested }, u, poll) == (
            b,
            Phase::Buffering { buffer: buffer.push(u), fetch_requested: true },
            Ok::<SyncStep, DesyncError>(SyncStep::Waiting { fetch_snapshot: !fetch_requested || poll is Failed }),
        ),
{
}

/// The book is reported up to date only when it is live afterwards, and
/// still synchronising only when it is buffering afterwards.
pub proof fn law_updated_only_when_live(b: BookModel, p: Phase, u: UpdateModel, poll: SnapshotPoll)
    ensures
        transition(b, p, u, poll).2 == Ok::<SyncStep, DesyncError>(SyncStep::Updated) ==> transition(b, p, u, poll).1 == Phase::Live,
        transition(b, p, u, poll).2 matches Ok(SyncStep::Waiting { .. }) ==> transition(b, p, u, poll).1 is Buffering,
{
}

/// The events kept after a snapshot are exactly the buffered events that end
/// after it, in order.
pub proof fn law_kept_events_end_after_snapshot(us: Seq<UpdateModel>, id: int)
    ensures
        forall|k: int| 0 <= k < ending_after(us, id).len() ==> #[trigger] ending_after(us, id)[k].final_update_id > id,
        forall|j: int| 0 <= j < us.len() && us[j].final_update_id > id ==> ending_after(us, id).contains(#[trigger] us[j]),
        ending_after(us, id).len() <= us.len(),
    decreases us.len(),
{
    if us.len() > 0 {
        law_kept_events_end_after_snapshot(us.drop_last(), id);
        let r = ending_after(us.drop_last(), id);
        assert forall|j: int| 0 <= j < us.len() && us[j].final_update_id > id implies ending_after(us, id).contains(#[trigger] us[j]) by {
            if j < us.len() - 1 {
                assert(us.drop_last()[j] == us[j]);
                let k = choose|k: int| 0 <= k < r.len() && r[k] == us[j];
                if us.last().final_update_id > id {
                    assert(r.push(us.last())[k] == us[j]);
                }
            } else {
                assert(r.push(us.last())[r.len() as int] == us[j]);
            }
        }
    }
}

/// Once a replay has stopped at a gap, later events change nothing.
pub proof fn lemma_replay_stops(b: BookModel, s: Seq<UpdateModel>, k: int)
    requires
        0 <= k <= s.len(),
        !replay(b, s.take(k)).1,
    ensures
        replay(b, s) == replay(b, s.take(k)),
    decreases s.len(),
{
    if s.len() == k {
        assert(s.take(k) =~= s);
    } else {
        assert(s.drop_last().take(k) =~= s.take(k));
        lemma_replay_stops(b, s.drop_last(), k);
    }
}

/// Replaying `us` from `b`, event `k` is reached with every earlier event gone
/// through, is not stale, and leaves a gap after the update id reached by then.
pub open spec fn gap_at(b: BookModel, us: Seq<UpdateModel>, k: int) -> bool {
    let before = replay(b, us.take(k));
    &&& 0 <= k < us.len()
    &&& before.1
    &&& !is_stale(before.0.last_update_id, us[k])
    &&& leaves_gap(before.0.last_update_id, us[k])
}

/// A replay fails exactly when one of its events, reached with every earlier
/// event gone through, is not stale and starts more than one past the update
/// id the book has reached by then.
pub proof fn law_replay_fails_at_gap(b: BookModel, us: Seq<UpdateModel>)
    ensures
        !replay(b, us).1 <==> exists|k: int| #[trigger] gap_at(b, us, k),
    decreases us.len(),
{
    if us.len() > 0 {
        let n = us.len() - 1;
        let init = us.drop_last();
        law_replay_fails_at_gap(b, init);
        assert(us.take(n) =~= init);
        assert forall|k: int| 0 <= k < n implies #[trigger] gap_at(b, us, k) == gap_at(b, init, k) by {
            assert(us.take(k) =~= init.take(k));
            assert(us[k] == init[k]);
        }
        if !replay(b, us).1 {
            if !replay(b, init).1 {
                let k = choose|k: int| #[trigger] gap_at(b, init, k);
                assert(gap_at(b, us, k));
            } else {
                assert(gap_at(b, us, n));
            }
        } else {
            assert forall|k: int| !#[trigger] gap_at(b, us, k) by {
                if 0 <= k < n && gap_at(b, us, k) {
                    assert(gap_at(b, init, k));
                }
            }
        }
    }
}

/// Handling a snapshot reports the book up to date only when no kept event
/// leaves a gap on replay; when one does, the book goes live with the result
/// `MissedEvents`.
pub proof fn law_snapshot_replay_gap(b: BookModel, buf: Seq<UpdateModel>, snap: DepthSnapshot)
    requires
        buf.len() > 0,
    ensures
        ({
            let kept = ending_after(buf, snap.last_update_id as int);
            &&& after_snapshot(b, buf, snap).2 == Ok::<SyncStep, DesyncError>(SyncStep::Updated)
                ==> forall|k: int| !#[trigger] gap_at(loaded(b, snap), kept, k)
            &&& (buf[0].first_update_id <= snap.last_update_id as int
                && !(kept.len() > 0 && leaves_gap(snap.last_update_id as int, kept[0]))
                && exists|k: int| #[trigger] gap_at(loaded(b, snap), kept, k))
                ==> after_snapshot(b, buf, snap).1 == Phase::Live
                    && after_snapshot(b, buf, snap).2 == Err::<SyncStep, DesyncError>(DesyncError::MissedEvents)
        }),
{
    let kept = ending_after(buf, snap.last_update_id as int);
    law_replay_fails_at_gap(loaded(b, snap), kept);
}

/// A local order book for one symbol.
#[derive(Debug)]
pub struct LocalOrderBook {
    pub symbol: String,
    pub last_update_id: i64,
    pub last_event_time: i64,
    pub bids: BookSide,
    pub asks: BookSide,
    state: SyncState,
}

impl LocalOrderBook {
    /// The contents of the book.
    pub closed spec fn model(&self) -> BookModel {
        BookModel {
            last_update_id: self.last_update_id as int,
            last_event_time: self.last_event_time as int,
            bids: self.bids@,
            asks: self.asks@,
        }
    }

    /// The symbol the book is for.
    pub closed spec fn symbol_spec(&self) -> String {
        self.symbol
    }

    /// Where the book stands in its synchronisation.
    pub closed spec fn phase(&self) -> Phase {
        match self.state {
            SyncState::Buffering { buffer, fetch_requested } => Phase::Buffering { buffer: updates_view(buffer@), fetch_requested },
            SyncState::Live => Phase::Live,
        }
    }

    /// Whether the book is live.
    pub open spec fn is_live(&self) -> bool {
        self.phase() is Live
    }

    /// The symbol the book is for.
    pub fn symbol(&self) -> (s: &String)
        ensures
            *s == self.symbol_spec(),
    {
        &self.symbol
    }

    /// The time of the last event applied.
    pub fn event_time(&self) -> (t: i64)
        ensures
            t as int == self.model().last_event_time,
    {
        self.last_event_time
    }

    /// An empty book that buffers and has no snapshot fetch running.
    pub fn new(symbol: String) -> (ob: Self)
        ensures
            ob.symbol_spec() == symbol,
            ob.model() == (BookModel { last_update_id: 0, last_event_time: 0, bids: Map::empty(), asks: Map::empty() }),
            ob.phase() == (Phase::Buffering { buffer: Seq::empty(), fetch_requested: false }),
    {
        let ob = LocalOrderBook {
            symbol,
            last_update_id: 0,
            last_event_time: 0,
            bids: BookSide::new(),
            asks: BookSide::new(),
            state: SyncState::Buffering { buffer: Vec::new(), fetch_requested: false },
        };
        assert(updates_view(Seq::<DepthUpdate>::empty()) =~= Seq::<UpdateModel>::empty());
        assert(ob.phase() == (Phase::Buffering { buffer: Seq::empty(), fetch_requested: false }));
        ob
    }

    /// Empties the book and starts synchronising anew.
    pub fn reset(&mut self)
        ensures
            final(self).symbol_spec() == old(self).symbol_spec(),
            final(self).model() == (BookModel { last_update_id: 0, last_event_time: 0, bids: Map::empty(), asks: Map::empty() }),
            final(self).phase() == (Phase::Buffering { buffer: Seq::empty(), fetch_requested: false }),
    {
        self.last_update_id = 0;
        self.last_event_time = 0;
        self.bids.clear();
        self.asks.clear();
        self.state = SyncState::Buffering { buffer: Vec::new(), fetch_requested: false };
        assert(updates_view(Seq::<DepthUpdate>::empty()) =~= Seq::<UpdateModel>::empty());
        assert(self.phase() == (Phase::Buffering { buffer: Seq::empty(), fetch_requested: false }));
    }

    /// Applies one event to the live book: a stale event is ignored, one that
    /// leaves a gap is refused with the book unchanged.
    fn apply_owned_update(&mut self, u: &DepthUpdate) -> (r: Result<(), DesyncError>)
        ensures
            final(self).model() == step(old(self).model(), u@).0,
            r is Ok <==> step(old(self).model(), u@).1,
            r matches Err(e) ==> e == DesyncError::MissedEvents,
            final(self).symbol_spec() == old(self).symbol_spec(),
            final(self).phase() == old(self).phase(),
    {
        let last = self.last_update_id as i128;
        if (u.final_update_id as i128) < last {
            return Ok(());
        }
        if (u.first_update_id as i128) > last + 1 {
            return Err(DesyncError::MissedEvents);
        }
        self.bids.apply_all(&u.bids);
        self.asks.apply_all(&u.asks);
        self.last_update_id = u.final_update_id;
        self.last_event_time = u.event_time;
        Ok(())
    }

    /// Applies the events `kept` in order, stopping at the first gap.
    fn replay_events(&mut self, kept: &Vec<DepthUpdate>) -> (r: Result<SyncStep, DesyncError>)
        ensures
            final(self).model() == replay(old(self).model(), updates_view(kept@)).0,
            r == (if replay(old(self).model(), updates_view(kept@)).1 { Ok(SyncStep::Updated) } else { Err(DesyncError::MissedEvents) }),
            final(self).symbol_spec() == old(self).symbol_spec(),
            final(self).phase() == old(self).phase(),
    {
        let ghost b0 = self.model();
        let mut i: usize = 0;
        while i < kept.len()
            invariant
                i <= kept@.len(),
                self.model() == replay(b0, updates_view(kept@).take(i as int)).0,
                replay(b0, updates_view(kept@).take(i as int)).1,
                b0 == old(self).model(),
                self.symbol_spec() == old(self).symbol_spec(),
                self.phase() == old(self).phase(),
            decreases kept.len() - i,
        {
            assert(updates_view(kept@).take(i + 1).drop_last() =~= updates_view(kept@).take(i as int));
            let r = self.apply_owned_update(&kept[i]);
            if r.is_err() {
                proof {
                    lemma_replay_stops(b0, updates_view(kept@), i + 1);
                }
                return Err(DesyncError::MissedEvents);
            }
            i = i + 1;
        }
        assert(updates_view(kept@).take(kept@.len() as int) =~= updates_view(kept@));
        Ok(SyncStep::Updated)
    }

    /// Loads a snapshot into a book that buffered `buffer`, as
    /// [`after_snapshot`] says.
    fn load_snapshot(&mut self, buffer: Vec<DepthUpdate>, snapshot: DepthSnapshot) -> (r: Result<SyncStep, DesyncError>)
        requires
            old(self).phase() == Phase::Live,
            buffer@.len() > 0,
        ensures
            (final(self).model(), final(self).phase(), r) == after_snapshot(old(self).model(), updates_view(buffer@), snapshot),
            final(self).symbol_spec() == old(self).symbol_spec(),
    {
        let snap_id = snapshot.last_update_id;
        if snap_id < buffer[0].first_update_id {
            self.state = SyncState::Buffering { buffer, fetch_requested: true };
            return Ok(SyncStep::Waiting { fetch_snapshot: true });
        }
        let ghost buf = updates_view(buffer@);
        let mut kept: Vec<DepthUpdate> = Vec::new();
        for u in it: buffer.into_iter()
            invariant
                buf == updates_view(it.seq()),
                updates_view(kept@) == ending_after(buf.take(it.index() as int), snap_id as int),
        {
            let ghost before = kept@;
            assert(buf.take(it.index() + 1).drop_last() =~= buf.take(it.index() as int));
            if u.final_update_id > snap_id {
                kept.push(u);
                assert(updates_view(kept@) =~= updates_view(before).push(buf[it.index() as int]));
            }
        }
        assert(buf.take(buf.len() as int) =~= buf);
        if kept.len() > 0 && (kept[0].first_update_id as i128) > (snap_id as i128) + 1 {
            return Err(DesyncError::SnapshotGap);
        }
        self.bids.load(&snapshot.bids);
        self.asks.load(&snapshot.asks);
        self.last_update_id = snap_id;
        self.replay_events(&kept)
    }

    /// The book's levels: bids from the highest price down, asks from the
    /// lowest price up.
    pub fn snapshot(&self) -> (l: BookLevels)
        ensures
            lists_descending(l.bids@, self.model().bids),
            lists_ascending(l.asks@, self.model().asks),
    {
        book_levels(&self.bids, &self.asks)
    }

    /// Handles one diff-depth event; `poll` is what the snapshot fetch has
    /// produced so far (`Pending` when none is running). See [`transition`].
    pub fn handle_update(&mut self, update: DepthUpdate, poll: SnapshotPoll) -> (r: Result<SyncStep, DesyncError>)
        ensures
            (final(self).model(), final(self).phase(), r) == transition(old(self).model(), old(self).phase(), update@, poll),
            final(self).symbol_spec() == old(self).symbol_spec(),
    {
        let mut state = SyncState::Live;
        std::mem::swap(&mut state, &mut self.state);
        match state {
            SyncState::Live => {
                assert(old(self).phase() == Phase::Live);
                assert(self.phase() == Phase::Live);
                let applied = self.apply_owned_update(&update);
                match applied {
                    Ok(()) => Ok(SyncStep::Updated),
                    Err(e) => Err(e),
                }
            },
            SyncState::Buffering { mut buffer, fetch_requested } => {
                let ghost before = buffer@;
                let ghost u = update@;
                buffer.push(update);
                assert(updates_view(buffer@) =~= updates_view(before).push(u));
                if !fetch_requested {
                    self.state = SyncState::Buffering { buffer, fetch_requested: true };
                    return Ok(SyncStep::Waiting { fetch_snapshot: true });
                }
                match poll {
                    SnapshotPoll::Pending => {
                        self.state = SyncState::Buffering { buffer, fetch_requested: true };
                        Ok(SyncStep::Waiting { fetch_snapshot: false })
                    },
                    SnapshotPoll::Failed => {
                        self.state = SyncState::Buffering { buffer, fetch_requested: true };
                        Ok(SyncStep::Waiting { fetch_snapshot: true })
                    },
                    SnapshotPoll::Ready(snapshot) => self.load_snapshot(buffer, snapshot),
                }
            },
        }
    }
}

} // verus!
