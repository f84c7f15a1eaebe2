//! The browser client's side of the socket: where a message from the server
//! goes, and which channels and events the client listens to.

use vstd::prelude::*;

use crate::text::str_eq;
use crate::view::{backoff_ms, reconnect_base_delay};

verus! {

/// The state of the client's connection, as its indicator shows it.
#[derive(Debug, Clone, Copy, PartialEq, Eq, Structural)]
pub enum ConnectionState {
    Idle,
    Connected,
    Disconnected,
    /// Trying again, for the given time.
    Reconnecting(u32),
}

/// Where a message from the server goes.
#[derive(Debug, PartialEq)]
pub enum Incoming {
    /// The server greets the client, giving its socket id if the message
    /// carries one; the client counts as connected.
    Connected(Option<String>),
    /// An event on a channel, for the handlers bound to it there.
    ChannelEvent { channel: String, event: String },
    /// Neither.
    Ignore,
}

/// Where the message with fields `event`, `channel` and `data.socket_id`
/// goes: a `connected` event greets the client; any other message with a
/// channel is an event on it (a missing event name reads as empty);
/// anything else is ignored.
pub fn route_incoming(event: Option<&str>, channel: Option<&str>, socket_id: Option<&str>) -> (r:
    Incoming)
    ensures
        ({
            let name = match event {
                Some(e) => e@,
                None => Seq::<char>::empty(),
            };
            if name == "connected"@ {
                r matches Incoming::Connected(id) && match socket_id {
                    Some(s) => id matches Some(i) && i@ == s@,
                    None => id is None,
                }
            } else {
                match channel {
                    Some(c) => r matches Incoming::ChannelEvent { channel: rc, event: re } && rc@
                        == c@ && re@ == name,
                    None => r is Ignore,
                }
            }
        }),
{
    let name = match event {
        Some(e) => e,
        None => "",
    };
    proof {
        reveal_strlit("");
        reveal_strlit("connected");
    }
    assert(name@ == (match event {
        Some(e) => e@,
        None => Seq::<char>::empty(),
    }));
    if str_eq(name, "connected") {
        let id = match socket_id {
            Some(s) => {
                let t = s.to_string();
                assert(t@ == s@);
                Some(t)
            },
            None => None,
        };
        Incoming::Connected(id)
    } else {
        match channel {
            Some(c) => {
                let ch = c.to_string();
                let ev = name.to_string();
                assert(ch@ == c@);
                assert(ev@ == name@);
                Incoming::ChannelEvent { channel: ch, event: ev }
            },
            None => Incoming::Ignore,
        }
    }
}

// ----- Channels and their events -----

/// A channel the client listens to and the events bound on it, in the
/// order they were bound.
pub struct ChannelBindings {
    name: String,
    events: Vec<String>,
}

/// A channel name and its bound events, as text.
pub type Bindings = (Seq<char>, Seq<Seq<char>>);

/// The channels the client listens to, each once.
pub struct ChannelRegistry {
    entries: Vec<ChannelBindings>,
}

/// The text of each string.
pub open spec fn texts(v: Seq<String>) -> Seq<Seq<char>> {
    v.map_values(|s: String| s@)
}

impl View for ChannelRegistry {
    type V = Seq<Bindings>;

    closed spec fn view(&self) -> Seq<Bindings> {
        self.entries@.map_values(|b: ChannelBindings| (b.name@, texts(b.events@)))
    }
}

/// No channel is listed twice.
pub open spec fn names_unique(s: Seq<Bindings>) -> bool {
    forall|i: int, j: int| 0 <= i < j < s.len() ==> #[trigger] s[i].0 != #[trigger] s[j].0
}

/// Where the channel `name` is listed, if it is.
pub open spec fn index_of(s: Seq<Bindings>, name: Seq<char>) -> Option<int>
    decreases s.len(),
{
    if s.len() == 0 {
        None
    } else if s.last().0 == name {
        Some(s.len() - 1)
    } else {
        index_of(s.drop_last(), name)
    }
}

/// `index_of` finds the channel where it is listed, and only there.
pub proof fn lemma_index_of(s: Seq<Bindings>, name: Seq<char>)
    ensures
        match index_of(s, name) {
            Some(i) => 0 <= i < s.len() && s[i].0 == name,
            None => forall|j: int| 0 <= j < s.len() ==> #[trigger] s[j].0 != name,
        },
    decreases s.len(),
{
    if s.len() > 0 && s.last().0 != name {
        lemma_index_of(s.drop_last(), name);
        assert forall|j: int| 0 <= j < s.len() - 1 implies #[trigger] s[j].0 == s.drop_last()[j].0 by {}
    }
}

/// The texts without those equal to `t`.
pub open spec fn texts_without(v: Seq<Seq<char>>, t: Seq<char>) -> Seq<Seq<char>>
    decreases v.len(),
{
    if v.len() == 0 {
        Seq::empty()
    } else {
        let rest = texts_without(v.drop_last(), t);
        if v.last() != t {
            rest.push(v.last())
        } else {
            rest
        }
    }
}

/// The positions of `v` that hold `t`, in order.
pub open spec fn positions_of(v: Seq<Seq<char>>, t: Seq<char>) -> Seq<int>
    decreases v.len(),
{
    if v.len() == 0 {
        Seq::empty()
    } else {
        let rest = positions_of(v.drop_last(), t);
        if v.last() == t {
            rest.push(v.len() - 1)
        } else {
            rest
        }
    }
}

/// The channel names of `s` that are not among `except`, in order.
pub open spec fn names_except(s: Seq<Bindings>, except: Seq<Seq<char>>) -> Seq<Seq<char>>
    decreases s.len(),
{
    if s.len() == 0 {
        Seq::empty()
    } else {
        let rest = names_except(s.drop_last(), except);
        if !except.contains(s.last().0) {
            rest.push(s.last().0)
        } else {
            rest
        }
    }
}

/// A channel without a name or events, to stand in the registry while an
/// entry is taken out.
fn placeholder() -> (b: ChannelBindings)
    ensures
        b.name@.len() == 0,
        b.events@.len() == 0,
{
    ChannelBindings { name: String::new(), events: Vec::new() }
}

impl ChannelRegistry {
    /// No channel is listed twice.
    pub open spec fn wf(&self) -> bool {
        names_unique(self@)
    }

    /// Listening to nothing.
    pub fn new() -> (r: ChannelRegistry)
        ensures
            r.wf(),
            r@ == Seq::<Bindings>::empty(),
    {
        let r = ChannelRegistry { entries: Vec::new() };
        assert(r@ =~= Seq::<Bindings>::empty());
        r
    }

    /// Where the channel `name` is listed.
    fn find(&self, name: &str) -> (r: Option<usize>)
        ensures
            match r {
                Some(i) => index_of(self@, name@) == Some(i as int),
                None => index_of(self@, name@) is None,
            },
    {
        let n = self.entries.len();
        let mut k: usize = n;
        assert(self@.subrange(0, n as int) =~= self@);
        while k > 0
            invariant
                k <= n == self.entries@.len(),
                index_of(self@, name@) == index_of(self@.subrange(0, k as int), name@),
            decreases k,
        {
            let ghost pre = self@.subrange(0, k as int);
            assert(pre.last().0 == self.entries@[k - 1].name@);
            if str_eq(self.entries[k - 1].name.as_str(), name) {
                return Some(k - 1);
            }
            assert(pre.drop_last() =~= self@.subrange(0, k - 1));
            k -= 1;
        }
        None
    }

    /// Starts listening to the channel `name`, unless it already does.
    pub fn subscribe(&mut self, name: &str)
        requires
            old(self).wf(),
        ensures
            final(self).wf(),
            index_of(old(self)@, name@) is Some ==> final(self)@ == old(self)@,
            index_of(old(self)@, name@) is None ==> final(self)@ == old(self)@.push(
                (name@, Seq::<Seq<char>>::empty()),
            ),
    {
        proof {
            lemma_index_of(self@, name@);
        }
        if self.find(name).is_none() {
            let ghost before = self@;
            let events: Vec<String> = Vec::new();
            assert(texts(events@) =~= Seq::<Seq<char>>::empty());
            self.entries.push(ChannelBindings { name: name.to_string(), events });
            assert(self@ =~= before.push((name@, Seq::<Seq<char>>::empty())));
        }
    }

    /// Binds the event `event` on the channel `channel`, after those bound
    /// there already; nothing where the channel is not listened to.
    pub fn bind(&mut self, channel: &str, event: &str)
        requires
            old(self).wf(),
        ensures
            final(self).wf(),
            match index_of(old(self)@, channel@) {
                Some(i) => final(self)@ == old(self)@.update(
                    i,
                    (old(self)@[i].0, old(self)@[i].1.push(event@)),
                ),
                None => final(self)@ == old(self)@,
            },
    {
        proof {
            lemma_index_of(self@, channel@);
        }
        match self.find(channel) {
            Some(i) => {
                let ghost before = self@;
                let mut b = placeholder();
                self.entries.set_and_swap(i, &mut b);
                let ghost evs = b.events@;
                b.events.push(event.to_string());
                assert(texts(b.events@) =~= texts(evs).push(event@));
                self.entries.set(i, b);
                assert(self@ =~= before.update(i as int, (before[i as int].0, before[i as int].1.push(event@))));
            },
            None => {},
        }
    }

    /// Unbinds every `event` on the channel `channel`.
    pub fn unbind(&mut self, channel: &str, event: &str)
        requires
            old(self).wf(),
        ensures
            final(self).wf(),
            match index_of(old(self)@, channel@) {
                Some(i) => final(self)@ == old(self)@.update(
                    i,
                    (old(self)@[i].0, texts_without(old(self)@[i].1, event@)),
                ),
                None => final(self)@ == old(self)@,
            },
    {
        proof {
            lemma_index_of(self@, channel@);
        }
        match self.find(channel) {
            Some(i) => {
                let ghost before = self@;
                let mut b = placeholder();
                self.entries.set_and_swap(i, &mut b);
                assert(before[i as int] == (b.name@, texts(b.events@)));
                let ghost bname = b.name@;
                let mut old_events: Vec<String> = Vec::new();
                std::mem::swap(&mut b.events, &mut old_events);
                let ghost orig = texts(old_events@);
                let n = old_events.len();
                let mut k: usize = 0;
                while k < n
                    invariant
                        n == old_events@.len() == orig.len(),
                        b.name@ == bname,
                        k <= n,
                        forall|j: int| k <= j < n ==> #[trigger] old_events@[j]@ == orig[j],
                        texts(b.events@) == texts_without(orig.subrange(0, k as int), event@),
                    decreases n - k,
                {
                    assert(orig.subrange(0, k + 1).drop_last() =~= orig.subrange(0, k as int));
                    let mut e = String::new();
                    old_events.set_and_swap(k, &mut e);
                    if !str_eq(e.as_str(), event) {
                        let ghost kept = b.events@;
                        b.events.push(e);
                        assert(texts(b.events@) =~= texts(kept).push(orig[k as int]));
                    }
                    k += 1;
                }
                assert(orig.subrange(0, n as int) =~= orig);
                self.entries.set(i, b);
                assert(self@ =~= before.update(
                    i as int,
                    (before[i as int].0, texts_without(before[i as int].1, event@)),
                ));
            },
            None => {},
        }
    }

    /// Stops listening to the channel `name`, forgetting its events.
    pub fn unsubscribe(&mut self, name: &str)
        requires
            old(self).wf(),
        ensures
            final(self).wf(),
            match index_of(old(self)@, name@) {
                Some(i) => final(self)@ == old(self)@.remove(i),
                None => final(self)@ == old(self)@,
            },
    {
        proof {
            lemma_index_of(self@, name@);
        }
        match self.find(name) {
            Some(i) => {
                let ghost before = self@;
                self.entries.remove(i);
                assert(self@ =~= before.remove(i as int));
            },
            None => {},
        }
    }

    /// The channels listened to that are not among `except`: those that
    /// unsubscribing from all but `except` leaves.
    pub fn names_except(&self, except: &Vec<&str>) -> (r: Vec<String>)
        ensures
            texts(r@) == names_except(self@, except@.map_values(|s: &str| s@)),
    {
        let ghost ex = except@.map_values(|s: &str| s@);
        let mut r: Vec<String> = Vec::new();
        let n = self.entries.len();
        let mut i: usize = 0;
        while i < n
            invariant
                n == self.entries@.len(),
                i <= n,
                ex == except@.map_values(|s: &str| s@),
                texts(r@) == names_except(self@.subrange(0, i as int), ex),
            decreases n - i,
        {
            let ghost pre = self@.subrange(0, i + 1);
            assert(pre.drop_last() =~= self@.subrange(0, i as int));
            assert(pre.last().0 == self.entries@[i as int].name@);
            let name = self.entries[i].name.as_str();
            let mut excluded = false;
            let mut k: usize = 0;
            while k < except.len()
                invariant
                    k <= except@.len(),
                    ex == except@.map_values(|s: &str| s@),
                    excluded == exists|j: int| 0 <= j < k && #[trigger] ex[j] == name@,
                decreases except.len() - k,
            {
                assert(ex[k as int] == except@[k as int]@);
                if str_eq(except[k], name) {
                    excluded = true;
                }
                k += 1;
            }
            assert(excluded == ex.contains(name@));
            if !excluded {
                let ghost before = r@;
                r.push(name.to_string());
                assert(texts(r@) =~= texts(before).push(name@));
            }
            i += 1;
        }
        assert(self@.subrange(0, n as int) =~= self@);
        r
    }

    /// The bindings on the channel `channel` that handle the event `event`,
    /// by their place in the order of binding: these are called, in that
    /// order, when the event arrives.
    pub fn handlers_for(&self, channel: &str, event: &str) -> (r: Vec<usize>)
        ensures
            r@.map_values(|k: usize| k as int) == (match index_of(self@, channel@) {
                Some(i) => positions_of(self@[i].1, event@),
                None => Seq::<int>::empty(),
            }),
    {
        let mut r: Vec<usize> = Vec::new();
        proof {
            lemma_index_of(self@, channel@);
        }
        match self.find(channel) {
            Some(i) => {
                let events = &self.entries[i].events;
                let ghost evs = self@[i as int].1;
                assert(evs == texts(events@));
                let n = events.len();
                let mut k: usize = 0;
                while k < n
                    invariant
                        n == events@.len() == evs.len(),
                        evs == texts(events@),
                        k <= n,
                        r@.map_values(|x: usize| x as int) == positions_of(
                            evs.subrange(0, k as int),
                            event@,
                        ),
                    decreases n - k,
                {
                    let ghost pre = evs.subrange(0, k + 1);
                    assert(pre.drop_last() =~= evs.subrange(0, k as int));
                    assert(pre.last() == events@[k as int]@);
                    if str_eq(events[k].as_str(), event) {
                        let ghost before = r@;
                        r.push(k);
                        assert(r@.map_values(|x: usize| x as int) =~= before.map_values(
                            |x: usize| x as int,
                        ).push(k as int));
                    }
                    k += 1;
                }
                assert(evs.subrange(0, n as int) =~= evs);
            },
            None => {
                assert(r@.map_values(|x: usize| x as int) =~= Seq::<int>::empty());
            },
        }
        r
    }
}

// ----- Handling what happens on the socket -----

/// What happens on the client's socket.
#[derive(Debug)]
pub enum SocketEvent {
    /// The socket opened.
    Opened,
    /// A text message that reads as JSON: its `event`, `channel` and
    /// `data.socket_id` fields where they are text, and its `data` (as JSON
    /// text, `null` where it has none).
    Message {
        event: Option<String>,
        channel: Option<String>,
        socket_id: Option<String>,
        data: String,
    },
    /// A message that is not text, or not JSON.
    Unreadable,
    /// The socket reported an error.
    Error,
    /// The socket closed.
    Closed,
}

/// What the client does about it.
#[derive(Debug, PartialEq)]
pub enum SocketAction {
    Nothing,
    /// Keep the socket id the server gave, if it gave one.
    Greeted(Option<String>),
    /// Call the handlers at these places of the channel's bindings, in this
    /// order, each with the message's data.
    CallHandlers(Vec<usize>, String),
    /// Report the error.
    LogError,
    /// Start reconnecting.
    StartReconnect,
}

/// The text of an optional string, empty where there is none.
pub open spec fn text_or_empty(s: Option<String>) -> Seq<char> {
    match s {
        Some(t) => t@,
        None => Seq::<char>::empty(),
    }
}

impl ChannelRegistry {
    /// The connection state and action after `ev`, the state being `state`.
    /// Opening connects; a `connected` greeting connects and keeps the
    /// socket id; an event on a channel calls the handlers bound there to
    /// that event (as `handlers_for` gives them) with the message's data;
    /// an error is reported; closing disconnects and starts reconnecting;
    /// anything else changes nothing.
    pub fn on_socket_event(&self, state: ConnectionState, ev: &SocketEvent) -> (r: (
        ConnectionState,
        SocketAction,
    ))
        ensures
            match *ev {
                SocketEvent::Opened => r == (ConnectionState::Connected, SocketAction::Nothing),
                SocketEvent::Closed => r == (
                    ConnectionState::Disconnected,
                    SocketAction::StartReconnect,
                ),
                SocketEvent::Error => r == (state, SocketAction::LogError),
                SocketEvent::Unreadable => r == (state, SocketAction::Nothing),
                SocketEvent::Message { event, channel, socket_id, data } => {
                    let name = text_or_empty(event);
                    if name == "connected"@ {
                        &&& r.0 == ConnectionState::Connected
                        &&& r.1 matches SocketAction::Greeted(id)
                        &&& match socket_id {
                            Some(s) => id matches Some(i) && i@ == s@,
                            None => id is None,
                        }
                    } else {
                        match channel {
                            Some(c) => {
                                &&& r.0 == state
                                &&& r.1 matches SocketAction::CallHandlers(hs, d)
                                &&& d@ == data@
                                &&& hs@.map_values(|k: usize| k as int) == (match index_of(
                                    self@,
                                    c@,
                                ) {
                                    Some(i) => positions_of(self@[i].1, name),
                                    None => Seq::<int>::empty(),
                                })
                            },
                            None => r == (state, SocketAction::Nothing),
                        }
                    }
                },
            },
    {
        match ev {
            SocketEvent::Opened => (ConnectionState::Connected, SocketAction::Nothing),
            SocketEvent::Closed => (ConnectionState::Disconnected, SocketAction::StartReconnect),
            SocketEvent::Error => (state, SocketAction::LogError),
            SocketEvent::Unreadable => (state, SocketAction::Nothing),
            SocketEvent::Message { event, channel, socket_id, data } => {
                let e = match event {
                    Some(t) => t.as_str(),
                    None => "",
                };
                let c = match channel {
                    Some(t) => Some(t.as_str()),
                    None => None,
                };
                let id = match socket_id {
                    Some(t) => Some(t.as_str()),
                    None => None,
                };
                proof {
                    reveal_strlit("");
                }
                assert(e@ == text_or_empty(*event));
                match route_incoming(Some(e), c, id) {
                    Incoming::Connected(given) => (
                        ConnectionState::Connected,
                        SocketAction::Greeted(given),
                    ),
                    Incoming::ChannelEvent { channel: ch, event: name } => {
                        let hs = self.handlers_for(ch.as_str(), name.as_str());
                        (state, SocketAction::CallHandlers(hs, data.clone()))
                    },
                    Incoming::Ignore => (state, SocketAction::Nothing),
                }
            },
        }
    }
}

// ----- Reconnecting -----

/// How a reconnection attempt's new socket fared while the client waited
/// for it: still pending, open, or failed (an error, or closed first).
#[derive(Debug, Clone, Copy, PartialEq, Eq, Structural)]
pub enum OpenFlag {
    Pending,
    Open,
    Failed,
}

/// While waiting for a new socket, the client checks this often (ms).
pub const OPEN_CHECK_MS: u32 = 100;

/// The client gives up on a new socket after this many checks (5 s).
pub const OPEN_CHECKS: u32 = 50;

/// After reconnecting, the client waits this many checks (2 s) for the
/// greeting with its socket id before listening again.
pub const SOCKET_ID_CHECKS: u32 = 20;

/// The new socket closing while still pending counts as a failure; once it
/// opened or failed, closing changes nothing.
pub fn on_attempt_closed(flag: OpenFlag) -> (r: OpenFlag)
    ensures
        r == (if flag == OpenFlag::Pending {
            OpenFlag::Failed
        } else {
            flag
        }),
{
    match flag {
        OpenFlag::Pending => OpenFlag::Failed,
        _ => flag,
    }
}

/// Whether to check the new socket again after `checks` checks (waiting
/// `OPEN_CHECK_MS` first): only while it is pending and fewer than
/// `OPEN_CHECKS` checks were made.
pub fn keep_waiting_for_open(flag: OpenFlag, checks: u32) -> (r: bool)
    ensures
        r == (flag == OpenFlag::Pending && checks < OPEN_CHECKS),
{
    flag == OpenFlag::Pending && checks < OPEN_CHECKS
}

/// Whether to wait again for the socket id after `checks` checks: only
/// while there is none and fewer than `SOCKET_ID_CHECKS` checks were made.
pub fn keep_waiting_for_id(has_id: bool, checks: u32) -> (r: bool)
    ensures
        r == (!has_id && checks < SOCKET_ID_CHECKS),
{
    !has_id && checks < SOCKET_ID_CHECKS
}

/// What the reconnecting client does after an attempt.
#[derive(Debug, Clone, Copy, PartialEq, Eq, Structural)]
pub enum ReconnectAction {
    /// Close the new socket (if one was made) and try again.
    TryAgain,
    /// Use the new socket: attach the handlers, wait for the socket id, and
    /// subscribe again to every channel listened to; reconnecting is over.
    Reconnected,
}

/// The reconnecting task: how many attempts it has begun.
#[derive(Debug)]
pub struct Reconnector {
    pub attempt: u32,
}

impl Reconnector {
    /// No attempt begun yet.
    pub fn new() -> (r: Reconnector)
        ensures
            r.attempt == 0,
    {
        Reconnector { attempt: 0 }
    }

    /// Begins the next attempt: the state shows its number, and the client
    /// waits the backoff for it (plus its own jitter below a second) before
    /// opening a new socket.
    pub fn begin_attempt(&mut self) -> (r: (ConnectionState, u32))
        requires
            old(self).attempt < u32::MAX,
        ensures
            final(self).attempt == old(self).attempt + 1,
            r.0 == ConnectionState::Reconnecting(final(self).attempt),
            r.1 == backoff_ms(final(self).attempt),
    {
        self.attempt = self.attempt + 1;
        (ConnectionState::Reconnecting(self.attempt), reconnect_base_delay(self.attempt))
    }

    /// The attempt ended: with the new socket open (`opened`) the client is
    /// connected and done; otherwise (no socket could be made, it failed or
    /// it did not open in time) it stays reconnecting and tries again.
    pub fn end_attempt(&self, opened: bool) -> (r: (ConnectionState, ReconnectAction))
        ensures
            opened ==> r == (ConnectionState::Connected, ReconnectAction::Reconnected),
            !opened ==> r == (
                ConnectionState::Reconnecting(self.attempt),
                ReconnectAction::TryAgain,
            ),
    {
        if opened {
            (ConnectionState::Connected, ReconnectAction::Reconnected)
        } else {
            (ConnectionState::Reconnecting(self.attempt), ReconnectAction::TryAgain)
        }
    }
}

} // verus!
