use vstd::prelude::*;

use crate::notification::{timer_millis, Details, Message, Reason};
use crate::server::{message_details, Closed};

verus! {

/// One active notification: its details and whether its expiry timer runs.
#[derive(Debug)]
pub struct Entry {
    pub details: Details,
    pub timer_running: bool,
}

/// What the loop that owns the notifications asks of the presentation, the
/// timers and the bus. Each refers to a notification by id.
#[derive(Clone, Copy, Debug, PartialEq, Eq, Structural)]
pub enum Effect {
    /// Build the surface of a new notification from its details.
    Create(u32),
    /// Show the new details of a notification on its existing surface.
    Update(u32),
    /// Tear the notification's surface down.
    Teardown(u32),
    /// Start the expiry timer of a notification.
    StartTimer { id: u32, millis: u64 },
    /// Cancel the expiry timer of a notification.
    StopTimer(u32),
    /// Send the `NotificationClosed` signal.
    EmitClosed(Closed),
    /// Recompute the stack layout.
    Relayout,
}

/// Entries ordered by strictly increasing id.
pub open spec fn sorted_ids(s: Seq<Entry>) -> bool {
    forall|i: int, j: int| 0 <= i < j < s.len() ==> s[i].details.id < s[j].details.id
}

/// Whether some entry has this id.
pub open spec fn has_id(s: Seq<Entry>, id: u32) -> bool {
    exists|i: int| 0 <= i < s.len() && s[i].details.id == id
}

/// The entries keyed by id.
pub open spec fn entries_map(s: Seq<Entry>) -> Map<u32, Entry> {
    Map::new(
        |id: u32| has_id(s, id),
        |id: u32| s[choose|i: int| 0 <= i < s.len() && s[i].details.id == id],
    )
}

/// The entry that shown details get.
pub open spec fn shown_entry(d: Details, default_millis: u64) -> Entry {
    Entry {
        details: d,
        timer_running: timer_millis(d.expire_timeout, default_millis) is Some,
    }
}

/// Starting the timer of a notification with this timeout, if it ever expires.
pub open spec fn start_effects(
    id: u32,
    t: crate::notification::Timeout,
    default_millis: u64,
) -> Seq<Effect> {
    match timer_millis(t, default_millis) {
        Some(ms) => seq![Effect::StartTimer { id, millis: ms }],
        None => seq![],
    }
}

/// Stopping a timer, if it runs.
pub open spec fn stop_effects(id: u32, running: bool) -> Seq<Effect> {
    if running {
        seq![Effect::StopTimer(id)]
    } else {
        seq![]
    }
}

/// The signal of a close. A close asked for over the bus was signalled there
/// already, so it gets none here.
pub open spec fn signal_effects(id: u32, reason: Reason) -> Seq<Effect> {
    if reason == Reason::Closed {
        seq![]
    } else {
        seq![Effect::EmitClosed(Closed { id, reason })]
    }
}

/// Showing details: an active id is updated in place, keeping its place in
/// the stack; another is created.
pub open spec fn show_effects(m: Map<u32, Entry>, d: Details, default_millis: u64) -> Seq<Effect> {
    if m.contains_key(d.id) {
        stop_effects(d.id, m[d.id].timer_running) + seq![Effect::Update(d.id)] + start_effects(
            d.id,
            d.expire_timeout,
            default_millis,
        ) + seq![Effect::Relayout]
    } else {
        seq![Effect::Create(d.id)] + start_effects(d.id, d.expire_timeout, default_millis) + seq![
            Effect::Relayout,
        ]
    }
}

/// Closing: an active notification loses its timer and surface, is signalled
/// and leaves the stack; an absent one is left alone.
pub open spec fn close_effects(m: Map<u32, Entry>, id: u32, reason: Reason) -> Seq<Effect> {
    if m.contains_key(id) {
        stop_effects(id, m[id].timer_running) + seq![Effect::Teardown(id)] + signal_effects(
            id,
            reason,
        ) + seq![Effect::Relayout]
    } else {
        seq![]
    }
}

/// The notifications and effects after a message.
pub open spec fn handled(m: Map<u32, Entry>, msg: Message, default_millis: u64) -> (
    Map<u32, Entry>,
    Seq<Effect>,
) {
    match msg {
        Message::New(d) => (
            m.insert(d.id, shown_entry(d, default_millis)),
            show_effects(m, d, default_millis),
        ),
        Message::Replace(d) => (
            m.insert(d.id, shown_entry(d, default_millis)),
            show_effects(m, d, default_millis),
        ),
        Message::Close(id) => (m.remove(id), close_effects(m, id, Reason::Closed)),
    }
}

/// How many `NotificationClosed` signals for `id` a list of effects sends.
pub open spec fn closed_signals(effects: Seq<Effect>, id: u32) -> nat
    decreases effects.len(),
{
    if effects.len() == 0 {
        0
    } else {
        closed_signals(effects.drop_last(), id) + match effects.last() {
            Effect::EmitClosed(c) => if c.id == id {
                1nat
            } else {
                0nat
            },
            _ => 0nat,
        }
    }
}

proof fn lemma_entry_at(s: Seq<Entry>, i: int)
    requires
        sorted_ids(s),
        0 <= i < s.len(),
    ensures
        entries_map(s).contains_key(s[i].details.id),
        entries_map(s)[s[i].details.id] == s[i],
{
    let id = s[i].details.id;
    assert(has_id(s, id));
    let j = choose|j: int| 0 <= j < s.len() && s[j].details.id == id;
    assert(0 <= j < s.len() && s[j].details.id == id);
    if j < i {
        assert(s[j].details.id < s[i].details.id);
    } else if j > i {
        assert(s[i].details.id < s[j].details.id);
    }
}

proof fn lemma_insert(s: Seq<Entry>, p: int, e: Entry)
    requires
        sorted_ids(s),
        0 <= p <= s.len(),
        forall|j: int| 0 <= j < p ==> s[j].details.id < e.details.id,
        forall|j: int| p <= j < s.len() ==> s[j].details.id > e.details.id,
    ensures
        sorted_ids(s.insert(p, e)),
        entries_map(s.insert(p, e)) == entries_map(s).insert(e.details.id, e),
{
    let t = s.insert(p, e);
    assert forall|i: int, j: int| 0 <= i < j < t.len() implies t[i].details.id
        < t[j].details.id by {
        if j < p {
            assert(s[i].details.id < s[j].details.id);
        } else if j == p {
        } else if i < p {
        } else if i == p {
        } else {
            assert(s[i - 1].details.id < s[j - 1].details.id);
        }
    }
    let m = entries_map(s).insert(e.details.id, e);
    assert forall|k: u32| #[trigger] entries_map(t).contains_key(k) == m.contains_key(k) by {
        if has_id(t, k) {
            let i = choose|i: int| 0 <= i < t.len() && t[i].details.id == k;
            if i < p {
                assert(t[i] == s[i]);
            } else if i > p {
                assert(t[i] == s[i - 1]);
            }
        }
        if has_id(s, k) {
            let j = choose|j: int| 0 <= j < s.len() && s[j].details.id == k;
            if j < p {
                assert(t[j] == s[j]);
            } else {
                assert(t[j + 1] == s[j]);
            }
        }
        if k == e.details.id {
            assert(t[p] == e);
        }
    }
    assert forall|k: u32| #[trigger] entries_map(t).contains_key(k) implies entries_map(t)[k]
        == m[k] by {
        let i = choose|i: int| 0 <= i < t.len() && t[i].details.id == k;
        lemma_entry_at(t, i);
        if i < p {
            lemma_entry_at(s, i);
        } else if i > p {
            lemma_entry_at(s, i - 1);
        }
    }
    assert(entries_map(t) =~= m);
}

proof fn lemma_update(s: Seq<Entry>, p: int, e: Entry)
    requires
        sorted_ids(s),
        0 <= p < s.len(),
        s[p].details.id == e.details.id,
    ensures
        sorted_ids(s.update(p, e)),
        entries_map(s.update(p, e)) == entries_map(s).insert(e.details.id, e),
{
    let t = s.update(p, e);
    assert forall|i: int, j: int| 0 <= i < j < t.len() implies t[i].details.id
        < t[j].details.id by {
        assert(s[i].details.id < s[j].details.id);
    }
    let m = entries_map(s).insert(e.details.id, e);
    assert forall|k: u32| #[trigger] entries_map(t).contains_key(k) == m.contains_key(k) by {
        if has_id(t, k) {
            let i = choose|i: int| 0 <= i < t.len() && t[i].details.id == k;
            assert(s[i].details.id == k);
        }
        if has_id(s, k) {
            let j = choose|j: int| 0 <= j < s.len() && s[j].details.id == k;
            assert(t[j].details.id == k);
        }
        if k == e.details.id {
            assert(t[p] == e);
        }
    }
    assert forall|k: u32| #[trigger] entries_map(t).contains_key(k) implies entries_map(t)[k]
        == m[k] by {
        let i = choose|i: int| 0 <= i < t.len() && t[i].details.id == k;
        lemma_entry_at(t, i);
        if i != p {
            lemma_entry_at(s, i);
        }
    }
    assert(entries_map(t) =~= m);
}

proof fn lemma_remove(s: Seq<Entry>, p: int)
    requires
        sorted_ids(s),
        0 <= p < s.len(),
    ensures
        sorted_ids(s.remove(p)),
        entries_map(s.remove(p)) == entries_map(s).remove(s[p].details.id),
{
    let t = s.remove(p);
    let id = s[p].details.id;
    assert forall|i: int, j: int| 0 <= i < j < t.len() implies t[i].details.id
        < t[j].details.id by {
        if j < p {
            assert(s[i].details.id < s[j].details.id);
        } else if i < p {
            assert(s[i].details.id < s[j + 1].details.id);
        } else {
            assert(s[i + 1].details.id < s[j + 1].details.id);
        }
    }
    let m = entries_map(s).remove(id);
    assert forall|k: u32| #[trigger] entries_map(t).contains_key(k) == m.contains_key(k) by {
        if has_id(t, k) {
            let i = choose|i: int| 0 <= i < t.len() && t[i].details.id == k;
            if i < p {
                assert(t[i] == s[i]);
                assert(s[i].details.id < id);
            } else {
                assert(t[i] == s[i + 1]);
                assert(s[i + 1].details.id > id);
            }
        }
        if has_id(s, k) && k != id {
            let j = choose|j: int| 0 <= j < s.len() && s[j].details.id == k;
            if j < p {
                assert(t[j] == s[j]);
            } else {
                assert(j != p);
                assert(t[j - 1] == s[j]);
            }
        }
    }
    assert forall|k: u32| #[trigger] entries_map(t).contains_key(k) implies entries_map(t)[k]
        == m[k] by {
        let i = choose|i: int| 0 <= i < t.len() && t[i].details.id == k;
        lemma_entry_at(t, i);
        if i < p {
            lemma_entry_at(s, i);
        } else {
            lemma_entry_at(s, i + 1);
        }
    }
    assert(entries_map(t) =~= m);
}

proof fn lemma_closed_signals_concat(a: Seq<Effect>, b: Seq<Effect>, id: u32)
    ensures
        closed_signals(a + b, id) == closed_signals(a, id) + closed_signals(b, id),
    decreases b.len(),
{
    if b.len() > 0 {
        assert((a + b).drop_last() =~= a + b.drop_last());
        lemma_closed_signals_concat(a, b.drop_last(), id);
    } else {
        assert(a + b =~= a);
    }
}

proof fn lemma_closed_signals_one(e: Effect, id: u32)
    ensures
        closed_signals(seq![e], id) == match e {
            Effect::EmitClosed(c) => if c.id == id {
                1nat
            } else {
                0nat
            },
            _ => 0nat,
        },
{
    assert(seq![e].drop_last() =~= Seq::<Effect>::empty());
    assert(closed_signals(Seq::<Effect>::empty(), id) == 0);
    assert(seq![e].last() == e);
}

/// However an active notification is closed, it is gone afterwards and the
/// controller signals the close exactly once, unless the close came from a
/// `CloseNotification` call, which the bus side signals at once
/// (`Server::close_notification`) and the controller then does not. A later
/// close of the same id signals nothing.
pub proof fn lemma_close_signalled_once(
    m: Map<u32, Entry>,
    id: u32,
    reason: Reason,
    later: Reason,
    default_millis: u64,
)
    requires
        m.contains_key(id),
    ensures
        !m.remove(id).contains_key(id),
        closed_signals(close_effects(m, id, reason), id) == if reason == Reason::Closed {
            0nat
        } else {
            1nat
        },
        handled(m, Message::Close(id), default_millis).1 == close_effects(m, id, Reason::Closed),
        !handled(m, Message::Close(id), default_millis).0.contains_key(id),
        closed_signals(close_effects(m.remove(id), id, later), id) == 0,
{
    let stop = stop_effects(id, m[id].timer_running);
    let sig = signal_effects(id, reason);
    lemma_closed_signals_concat(stop + seq![Effect::Teardown(id)] + sig, seq![Effect::Relayout], id);
    lemma_closed_signals_concat(stop + seq![Effect::Teardown(id)], sig, id);
    lemma_closed_signals_concat(stop, seq![Effect::Teardown(id)], id);
    lemma_closed_signals_one(Effect::Relayout, id);
    lemma_closed_signals_one(Effect::Teardown(id), id);
    lemma_closed_signals_one(Effect::StopTimer(id), id);
    lemma_closed_signals_one(Effect::EmitClosed(Closed { id, reason }), id);
    assert(closed_signals(Seq::<Effect>::empty(), id) == 0);
}

/// A request that names an active notification replaces it, keeping its id,
/// and is announced with `Replace`: every active id was issued by the server,
/// so it is one that the server replaces.
pub proof fn lemma_active_is_replaced(active: Map<u32, Entry>, issued: nat, x: u32)
    requires
        active.contains_key(x),
        forall|k: u32| active.contains_key(k) ==> 0 < k <= issued,
    ensures
        crate::server::is_replace(issued, x),
        crate::server::notify_id(issued, x) == x,
        crate::server::issued_after(issued, x) == issued,
{
}

/// Active ids stay issued ids: where every active id and the id of a shown
/// message were issued, every id active after the message was issued too.
pub proof fn lemma_active_ids_issued(
    m: Map<u32, Entry>,
    msg: Message,
    default_millis: u64,
    issued: nat,
)
    requires
        forall|k: u32| m.contains_key(k) ==> 0 < k <= issued,
        !(msg is Close) ==> 0 < message_details(msg).id <= issued,
    ensures
        forall|k: u32|
            handled(m, msg, default_millis).0.contains_key(k) ==> 0 < k <= issued,
{
}

/// The loop side of the service: the sole owner of the active notifications,
/// ordered by id. It turns each message and each report of the presentation
/// into effects for the presentation, the timers and the bus.
pub struct Controller {
    entries: Vec<Entry>,
    default_millis: u64,
}

impl View for Controller {
    type V = Map<u32, Entry>;

    closed spec fn view(&self) -> Map<u32, Entry> {
        entries_map(self.entries@)
    }
}

impl Controller {
    /// The controller's own invariant.
    pub closed spec fn wf(&self) -> bool {
        sorted_ids(self.entries@)
    }

    /// The expiry used for notifications that ask for the default.
    pub closed spec fn default_millis(&self) -> u64 {
        self.default_millis
    }

    /// No active notifications; `default_millis` stands in for the default
    /// timeout.
    pub fn new(default_millis: u64) -> (r: Controller)
        ensures
            r.wf(),
            r@ == Map::<u32, Entry>::empty(),
            r.default_millis() == default_millis,
    {
        let r = Controller { entries: Vec::new(), default_millis };
        assert(r@ =~= Map::<u32, Entry>::empty());
        r
    }

    fn find(&self, id: u32) -> (r: Option<usize>)
        requires
            self.wf(),
        ensures
            match r {
                Some(i) => i < self.entries.len() && self.entries@[i as int].details.id == id,
                None => !self@.contains_key(id),
            },
    {
        let mut i: usize = 0;
        while i < self.entries.len()
            invariant
                i <= self.entries.len(),
                forall|j: int| 0 <= j < i ==> self.entries@[j].details.id != id,
            decreases self.entries.len() - i,
        {
            if self.entries[i].details.id == id {
                return Some(i);
            }
            i = i + 1;
        }
        None
    }

    /// Whether a notification with this id is active.
    pub fn contains(&self, id: u32) -> (r: bool)
        requires
            self.wf(),
        ensures
            r == self@.contains_key(id),
    {
        match self.find(id) {
            Some(i) => {
                proof {
                    lemma_entry_at(self.entries@, i as int);
                }
                true
            },
            None => false,
        }
    }

    /// The details of an active notification.
    pub fn get(&self, id: u32) -> (r: Option<&Details>)
        requires
            self.wf(),
        ensures
            match r {
                Some(d) => self@.contains_key(id) && *d == self@[id].details,
                None => !self@.contains_key(id),
            },
    {
        match self.find(id) {
            Some(i) => {
                proof {
                    lemma_entry_at(self.entries@, i as int);
                }
                Some(&self.entries[i].details)
            },
            None => None,
        }
    }

    /// Shows details: updates the notification with their id in place, or
    /// creates it.
    fn show(&mut self, d: Details) -> (r: Vec<Effect>)
        requires
            old(self).wf(),
        ensures
            final(self).wf(),
            final(self).default_millis() == old(self).default_millis(),
            final(self)@ == old(self)@.insert(d.id, shown_entry(d, old(self).default_millis())),
            r@ == show_effects(old(self)@, d, old(self).default_millis()),
    {
        let id = d.id;
        let millis = d.expire_timeout.millis(self.default_millis);
        let entry = Entry { details: d, timer_running: millis.is_some() };
        let mut r: Vec<Effect> = Vec::new();
        match self.find(id) {
            Some(p) => {
                proof {
                    lemma_entry_at(self.entries@, p as int);
                    lemma_update(self.entries@, p as int, entry);
                }
                if self.entries[p].timer_running {
                    r.push(Effect::StopTimer(id));
                }
                r.push(Effect::Update(id));
                self.entries.set(p, entry);
            },
            None => {
                let mut p: usize = 0;
                while p < self.entries.len() && self.entries[p].details.id < id
                    invariant
                        p <= self.entries.len(),
                        forall|j: int| 0 <= j < p ==> self.entries@[j].details.id < id,
                    decreases self.entries.len() - p,
                {
                    p = p + 1;
                }
                proof {
                    assert forall|j: int| p <= j < self.entries.len() implies self.entries@[j].details.id
                        > id by {
                        assert(!has_id(self.entries@, id));
                        assert(self.entries@[j].details.id != id);
                        if j > p {
                            assert(self.entries@[p as int].details.id
                                < self.entries@[j].details.id);
                        }
                    }
                    lemma_insert(self.entries@, p as int, entry);
                }
                r.push(Effect::Create(id));
                self.entries.insert(p, entry);
            },
        }
        match millis {
            Some(ms) => r.push(Effect::StartTimer { id, millis: ms }),
            None => {},
        }
        r.push(Effect::Relayout);
        assert(r@ =~= show_effects(old(self)@, d, old(self).default_millis()));
        r
    }

    /// Closes a notification for a reason: the one path by which every
    /// notification leaves, whether a message, its timer or the user closed it.
    pub fn close(&mut self, id: u32, reason: Reason) -> (r: Vec<Effect>)
        requires
            old(self).wf(),
        ensures
            final(self).wf(),
            final(self).default_millis() == old(self).default_millis(),
            final(self)@ == old(self)@.remove(id),
            r@ == close_effects(old(self)@, id, reason),
    {
        let mut r: Vec<Effect> = Vec::new();
        match self.find(id) {
            Some(p) => {
                proof {
                    lemma_entry_at(self.entries@, p as int);
                    lemma_remove(self.entries@, p as int);
                }
                let entry = self.entries.remove(p);
                if entry.timer_running {
                    r.push(Effect::StopTimer(id));
                }
                r.push(Effect::Teardown(id));
                match reason {
                    Reason::Closed => {},
                    _ => r.push(Effect::EmitClosed(Closed { id, reason })),
                }
                r.push(Effect::Relayout);
            },
            None => {
                assert(self@ =~= old(self)@.remove(id));
            },
        }
        assert(r@ =~= close_effects(old(self)@, id, reason));
        r
    }

    /// Handles one lifecycle message. `New` for an active id is taken as
    /// `Replace`, and `Replace` for an absent one as `New`.
    pub fn handle(&mut self, message: Message) -> (r: Vec<Effect>)
        requires
            old(self).wf(),
        ensures
            final(self).wf(),
            final(self).default_millis() == old(self).default_millis(),
            (final(self)@, r@) == handled(old(self)@, message, old(self).default_millis()),
    {
        match message {
            Message::New(d) => self.show(d),
            Message::Replace(d) => self.show(d),
            Message::Close(id) => self.close(id, Reason::Closed),
        }
    }

    /// Pauses the timer of a notification (while the pointer rests on it).
    pub fn pause(&mut self, id: u32) -> (r: Vec<Effect>)
        requires
            old(self).wf(),
        ensures
            final(self).wf(),
            final(self).default_millis() == old(self).default_millis(),
            old(self)@.contains_key(id) && old(self)@[id].timer_running ==> {
                &&& final(self)@ == old(self)@.insert(
                    id,
                    Entry { details: old(self)@[id].details, timer_running: false },
                )
                &&& r@ == seq![Effect::StopTimer(id)]
            },
            !(old(self)@.contains_key(id) && old(self)@[id].timer_running) ==> {
                &&& final(self)@ == old(self)@
                &&& r@ == Seq::<Effect>::empty()
            },
    {
        let mut r: Vec<Effect> = Vec::new();
        match self.find(id) {
            Some(p) => {
                proof {
                    lemma_entry_at(self.entries@, p as int);
                }
                if self.entries[p].timer_running {
                    let entry = self.entries.remove(p);
                    let paused = Entry { details: entry.details, timer_running: false };
                    proof {
                        assert(old(self).entries@.remove(p as int).insert(p as int, paused)
                            =~= old(self).entries@.update(p as int, paused));
                        lemma_update(old(self).entries@, p as int, paused);
                    }
                    self.entries.insert(p, paused);
                    r.push(Effect::StopTimer(id));
                }
            },
            None => {},
        }
        assert(r@ =~= seq![Effect::StopTimer(id)] || r@ =~= Seq::<Effect>::empty());
        r
    }

    /// Resumes the timer of a notification, unless it runs already or the
    /// notification never expires.
    pub fn resume(&mut self, id: u32) -> (r: Vec<Effect>)
        requires
            old(self).wf(),
        ensures
            final(self).wf(),
            final(self).default_millis() == old(self).default_millis(),
            ({
                let m = old(self)@;
                let ms = timer_millis(m[id].details.expire_timeout, old(self).default_millis());
                if m.contains_key(id) && !m[id].timer_running && ms is Some {
                    &&& final(self)@ == m.insert(
                        id,
                        Entry { details: m[id].details, timer_running: true },
                    )
                    &&& r@ == seq![Effect::StartTimer { id, millis: ms->Some_0 }]
                } else {
                    &&& final(self)@ == m
                    &&& r@ == Seq::<Effect>::empty()
                }
            }),
    {
        let mut r: Vec<Effect> = Vec::new();
        match self.find(id) {
            Some(p) => {
                proof {
                    lemma_entry_at(self.entries@, p as int);
                }
                if !self.entries[p].timer_running {
                    match self.entries[p].details.expire_timeout.millis(self.default_millis) {
                        Some(ms) => {
                            let entry = self.entries.remove(p);
                            let running = Entry { details: entry.details, timer_running: true };
                            proof {
                                assert(old(self).entries@.remove(p as int).insert(
                                    p as int,
                                    running,
                                ) =~= old(self).entries@.update(p as int, running));
                                lemma_update(old(self).entries@, p as int, running);
                            }
                            self.entries.insert(p, running);
                            r.push(Effect::StartTimer { id, millis: ms });
                        },
                        None => {},
                    }
                }
            },
            None => {},
        }
        r
    }

    /// The ids of the active notifications in the order they are stacked:
    /// newest first where `new_on_top`, else oldest first.
    pub fn display_order(&self, new_on_top: bool) -> (r: Vec<u32>)
        requires
            self.wf(),
        ensures
            forall|k: u32| self@.contains_key(k) <==> r@.contains(k),
            !new_on_top ==> forall|i: int, j: int| 0 <= i < j < r.len() ==> r@[i] < r@[j],
            new_on_top ==> forall|i: int, j: int| 0 <= i < j < r.len() ==> r@[i] > r@[j],
    {
        let n = self.entries.len();
        let mut r: Vec<u32> = Vec::new();
        let mut i: usize = 0;
        while i < n
            invariant
                n == self.entries.len(),
                sorted_ids(self.entries@),
                i <= n,
                r.len() == i,
                forall|j: int|
                    0 <= j < i ==> #[trigger] r@[j] == self.entries@[if new_on_top {
                        n - 1 - j
                    } else {
                        j
                    }].details.id,
            decreases n - i,
        {
            let k = if new_on_top {
                n - 1 - i
            } else {
                i
            };
            r.push(self.entries[k].details.id);
            i = i + 1;
        }
        assert forall|k: u32| self@.contains_key(k) <==> r@.contains(k) by {
            if has_id(self.entries@, k) {
                let j = choose|j: int| 0 <= j < n && self.entries@[j].details.id == k;
                let at = if new_on_top {
                    n - 1 - j
                } else {
                    j
                };
                assert(r@[at] == k);
            }
            if r@.contains(k) {
                let j = choose|j: int| 0 <= j < r.len() && r@[j] == k;
                let at = if new_on_top {
                    n - 1 - j
                } else {
                    j
                };
                assert(self.entries@[at].details.id == k);
            }
        }
        r
    }
}

} // verus!
