//! The decisions of the websocket server: which sessions are connected,
//! what to do on each polling tick, in which order to send cluster
//! information to sessions, and how a session answers a frame.

use vstd::prelude::*;

verus! {

/// The state of the websocket server: the connected sessions, the
/// clusters it polls (by name), and whether it serves sample clusters.
pub struct WsServer {
    sessions: Vec<u64>,
    clusters: Vec<String>,
    dummy_mode: bool,
}

/// The mathematical value of a `WsServer`.
pub struct WsServerView {
    pub sessions: Seq<u64>,
    pub clusters: Seq<Seq<char>>,
    pub dummy_mode: bool,
}

impl View for WsServer {
    type V = WsServerView;

    closed spec fn view(&self) -> WsServerView {
        WsServerView {
            sessions: self.sessions@,
            clusters: self.clusters@.map_values(|c: String| c@),
            dummy_mode: self.dummy_mode,
        }
    }
}

/// `s` without any occurrence of `x`, the rest in order.
pub open spec fn without(s: Seq<u64>, x: u64) -> Seq<u64>
    decreases s.len(),
{
    if s.len() == 0 {
        Seq::empty()
    } else if s.last() == x {
        without(s.drop_last(), x)
    } else {
        without(s.drop_last(), x).push(s.last())
    }
}

/// The names of `names`, each once, in the order in which each first
/// occurs.
pub open spec fn distinct_names(names: Seq<Seq<char>>) -> Seq<Seq<char>>
    decreases names.len(),
{
    if names.len() == 0 {
        Seq::empty()
    } else {
        let prev = distinct_names(names.drop_last());
        if prev.contains(names.last()) {
            prev
        } else {
            prev.push(names.last())
        }
    }
}

/// Keeping each name once loses no name and repeats none.
pub proof fn lemma_distinct_names(names: Seq<Seq<char>>)
    ensures
        distinct_names(names).no_duplicates(),
        forall|x: Seq<char>| #[trigger] distinct_names(names).contains(x) <==> names.contains(x),
    decreases names.len(),
{
    if names.len() > 0 {
        let init = names.drop_last();
        let last = names.last();
        lemma_distinct_names(init);
        let prev = distinct_names(init);
        assert forall|x: Seq<char>| #[trigger] names.contains(x) <==> (init.contains(x) || x == last) by {
            if names.contains(x) {
                let k = choose|k: int| 0 <= k < names.len() && names[k] == x;
                if k < names.len() - 1 {
                    assert(init[k] == x);
                }
            }
            if init.contains(x) {
                let k = choose|k: int| 0 <= k < init.len() && init[k] == x;
                assert(names[k] == x);
            }
            if x == last {
                assert(names[names.len() - 1] == x);
            }
        }
        if !prev.contains(last) {
            let r = prev.push(last);
            assert forall|x: Seq<char>| #[trigger] r.contains(x) <==> (prev.contains(x) || x == last) by {
                if r.contains(x) {
                    let k = choose|k: int| 0 <= k < r.len() && r[k] == x;
                    if k < prev.len() {
                        assert(prev[k] == x);
                    }
                }
                if prev.contains(x) {
                    let k = choose|k: int| 0 <= k < prev.len() && prev[k] == x;
                    assert(r[k] == x);
                }
                if x == last {
                    assert(r[r.len() - 1] == x);
                }
            }
            assert forall|i: int, j: int| 0 <= i < r.len() && 0 <= j < r.len() && i != j implies r[i]
                != r[j] by {
                if i < prev.len() && j < prev.len() {
                } else if i < prev.len() {
                    assert(prev.contains(r[i]));
                } else {
                    assert(prev.contains(r[j]));
                }
            }
        }
    }
}

/// What the server does on a polling tick.
pub enum TickAction {
    /// No session is connected: nothing is done.
    Idle,
    /// Send every sample cluster to every session.
    SendSamples { sessions: Vec<u64> },
    /// Fetch every cluster in turn and send each one fetched to every session.
    Poll { clusters: Vec<String>, sessions: Vec<u64> },
}

/// The mathematical value of a `TickAction`.
pub enum TickActionView {
    Idle,
    SendSamples { sessions: Seq<u64> },
    Poll { clusters: Seq<Seq<char>>, sessions: Seq<u64> },
}

impl View for TickAction {
    type V = TickActionView;

    open spec fn view(&self) -> TickActionView {
        match self {
            TickAction::Idle => TickActionView::Idle,
            TickAction::SendSamples { sessions } => TickActionView::SendSamples { sessions: sessions@ },
            TickAction::Poll { clusters, sessions } => TickActionView::Poll {
                clusters: clusters@.map_values(|c: String| c@),
                sessions: sessions@,
            },
        }
    }
}

/// The action of a tick in state `s`.
pub open spec fn tick_action(s: WsServerView) -> TickActionView {
    if s.sessions.len() == 0 {
        TickActionView::Idle
    } else if s.dummy_mode {
        TickActionView::SendSamples { sessions: s.sessions }
    } else {
        TickActionView::Poll { clusters: s.clusters, sessions: s.sessions }
    }
}

fn copy_strings(v: &Vec<String>) -> (r: Vec<String>)
    ensures
        r@.map_values(|c: String| c@) == v@.map_values(|c: String| c@),
{
    let mut r: Vec<String> = Vec::new();
    let mut i: usize = 0;
    while i < v.len()
        invariant
            i <= v@.len(),
            r@.map_values(|c: String| c@) == v@.take(i as int).map_values(|c: String| c@),
        decreases v@.len() - i,
    {
        let ghost before = r@;
        let x = v[i].clone();
        r.push(x);
        assert(r@.map_values(|c: String| c@) =~= before.map_values(|c: String| c@).push(x@));
        assert(v@.take(i + 1) =~= v@.take(i as int).push(v@[i as int]));
        assert(v@.take(i + 1).map_values(|c: String| c@) =~= v@.take(i as int).map_values(
            |c: String| c@,
        ).push(v@[i as int]@));
        i = i + 1;
    }
    assert(v@.take(v@.len() as int) =~= v@);
    r
}

impl WsServer {
    /// A server that polls the clusters named in `clusters`, each name
    /// once, with no session.
    pub fn new(clusters: Vec<String>) -> (s: WsServer)
        ensures
            s@.sessions == Seq::<u64>::empty(),
            s@.clusters == distinct_names(clusters@.map_values(|c: String| c@)),
            s@.clusters.no_duplicates(),
            !s@.dummy_mode,
    {
        let ghost cv = clusters@.map_values(|c: String| c@);
        let mut s = WsServer { sessions: Vec::new(), clusters: Vec::new(), dummy_mode: false };
        let n = clusters.len();
        let mut i: usize = 0;
        assert(s@.clusters =~= distinct_names(cv.take(0)));
        while i < n
            invariant
                i <= n,
                n == cv.len(),
                cv == clusters@.map_values(|c: String| c@),
                s@.sessions == Seq::<u64>::empty(),
                s@.clusters == distinct_names(cv.take(i as int)),
                !s@.dummy_mode,
            decreases n - i,
        {
            let name = clusters[i].clone();
            assert(name@ == cv[i as int]);
            assert(cv.take(i + 1).drop_last() =~= cv.take(i as int));
            s.add_cluster(name);
            i = i + 1;
        }
        assert(cv.take(n as int) =~= cv);
        proof {
            lemma_distinct_names(cv);
        }
        s
    }

    /// A server that serves the sample clusters, with no session.
    pub fn new_with_dummy_data() -> (s: WsServer)
        ensures
            s@.sessions == Seq::<u64>::empty(),
            s@.clusters == Seq::<Seq<char>>::empty(),
            s@.dummy_mode,
    {
        let s = WsServer { sessions: Vec::new(), clusters: Vec::new(), dummy_mode: true };
        assert(s@.clusters =~= Seq::<Seq<char>>::empty());
        s
    }

    /// The connected sessions, in order of connection.
    pub fn sessions(&self) -> (r: &Vec<u64>)
        ensures
            r@ == self@.sessions,
    {
        &self.sessions
    }

    /// Cluster `name` becomes available for polling: added after the others
    /// unless it is already there.
    pub fn add_cluster(&mut self, name: String)
        ensures
            final(self)@ == (WsServerView {
                clusters: if old(self)@.clusters.contains(name@) {
                    old(self)@.clusters
                } else {
                    old(self)@.clusters.push(name@)
                },
                ..old(self)@
            }),
    {
        let ghost cv = self@.clusters;
        let n = self.clusters.len();
        let mut i: usize = 0;
        while i < n
            invariant
                i <= n,
                n == cv.len(),
                cv == self.clusters@.map_values(|c: String| c@),
                forall|j: int| 0 <= j < i ==> cv[j] != name@,
            decreases n - i,
        {
            if self.clusters[i] == name {
                assert(cv[i as int] == name@);
                return;
            }
            i = i + 1;
        }
        assert(!cv.contains(name@)) by {
            if cv.contains(name@) {
                let k = choose|k: int| 0 <= k < cv.len() && cv[k] == name@;
            }
        }
        let ghost nm = name@;
        self.clusters.push(name);
        assert(self.clusters@.map_values(|c: String| c@) =~= cv.push(nm));
    }

    /// Session `session` connects: it is added after the others.
    pub fn connect(&mut self, session: u64)
        ensures
            final(self)@ == (WsServerView { sessions: old(self)@.sessions.push(session), ..old(self)@ }),
    {
        self.sessions.push(session);
    }

    /// Session `session` disconnects: every entry of it is removed, the
    /// other sessions stay in order.
    pub fn disconnect(&mut self, session: u64)
        ensures
            final(self)@ == (WsServerView { sessions: without(old(self)@.sessions, session), ..old(self)@ }),
    {
        let ghost s = self.sessions@;
        let n = self.sessions.len();
        let mut kept: Vec<u64> = Vec::new();
        let mut i: usize = 0;
        assert(s.take(0) =~= Seq::<u64>::empty());
        while i < n
            invariant
                i <= n,
                n == s.len(),
                s == self.sessions@,
                kept@ == without(s.take(i as int), session),
            decreases n - i,
        {
            assert(s.take(i + 1).drop_last() =~= s.take(i as int));
            let x = self.sessions[i];
            if x != session {
                kept.push(x);
            }
            i = i + 1;
        }
        assert(s.take(n as int) =~= s);
        self.sessions = kept;
    }

    /// What to do on a polling tick: nothing without sessions; else send
    /// the sample clusters, or poll the clusters, to all sessions.
    pub fn tick(&self) -> (a: TickAction)
        ensures
            a@ == tick_action(self@),
    {
        if self.sessions.len() == 0 {
            TickAction::Idle
        } else if self.dummy_mode {
            TickAction::SendSamples { sessions: self.sessions.clone() }
        } else {
            TickAction::Poll { clusters: copy_strings(&self.clusters), sessions: self.sessions.clone() }
        }
    }
}

/// One polling pass: the clusters to fetch, in order, the sessions
/// connected when the pass began, and how many clusters were taken so far.
pub struct PollPass {
    clusters: Vec<String>,
    sessions: Vec<u64>,
    taken: usize,
}

/// The mathematical value of a `PollPass`.
pub struct PollPassView {
    pub clusters: Seq<Seq<char>>,
    pub sessions: Seq<u64>,
    pub taken: nat,
}

impl View for PollPass {
    type V = PollPassView;

    closed spec fn view(&self) -> PollPassView {
        PollPassView {
            clusters: self.clusters@.map_values(|c: String| c@),
            sessions: self.sessions@,
            taken: self.taken as nat,
        }
    }
}

impl PollPass {
    /// A pass over `clusters` for `sessions`, with nothing taken yet.
    pub fn new(clusters: Vec<String>, sessions: Vec<u64>) -> (p: PollPass)
        ensures
            p@ == (PollPassView { clusters: clusters@.map_values(|c: String| c@), sessions: sessions@, taken: 0 }),
    {
        PollPass { clusters, sessions, taken: 0 }
    }

    /// The next cluster to fetch, in order; `None` once every cluster was
    /// taken.
    pub fn next_cluster(&mut self) -> (r: Option<String>)
        ensures
            old(self)@.taken < old(self)@.clusters.len() ==> (r matches Some(name) && name@
                == old(self)@.clusters[old(self)@.taken as int] && final(self)@ == (PollPassView {
                taken: old(self)@.taken + 1,
                ..old(self)@
            })),
            old(self)@.taken >= old(self)@.clusters.len() ==> (r is None && final(self)@ == old(self)@),
    {
        if self.taken < self.clusters.len() {
            let name = self.clusters[self.taken].clone();
            self.taken = self.taken + 1;
            Some(name)
        } else {
            None
        }
    }

    /// The sessions a cluster goes to: every session of the pass, in
    /// order, when the cluster was fetched; none when it was not.
    pub fn recipients(&self, fetched: bool) -> (r: Vec<u64>)
        ensures
            r@ == (if fetched {
                self@.sessions
            } else {
                Seq::<u64>::empty()
            }),
    {
        if fetched {
            self.sessions.clone()
        } else {
            Vec::new()
        }
    }
}

/// The sends of `clusters` items to `sessions`: for each item in order,
/// one send to each session in order, as (item index, session).
pub open spec fn delivery_order(clusters: nat, sessions: Seq<u64>) -> Seq<(usize, u64)>
    decreases clusters,
{
    if clusters == 0 {
        Seq::empty()
    } else {
        delivery_order((clusters - 1) as nat, sessions) + sessions.map_values(
            |s: u64| ((clusters - 1) as usize, s),
        )
    }
}

/// The order in which `clusters` items are sent to `sessions`.
pub fn deliveries(clusters: usize, sessions: &Vec<u64>) -> (r: Vec<(usize, u64)>)
    requires
        clusters * sessions@.len() <= usize::MAX,
    ensures
        r@ == delivery_order(clusters as nat, sessions@),
{
    let mut r: Vec<(usize, u64)> = Vec::new();
    let m = sessions.len();
    let mut c: usize = 0;
    while c < clusters
        invariant
            c <= clusters,
            m == sessions@.len(),
            r@ == delivery_order(c as nat, sessions@),
        decreases clusters - c,
    {
        let ghost base = r@;
        let mut j: usize = 0;
        while j < m
            invariant
                j <= m,
                m == sessions@.len(),
                c < clusters,
                r@ == base + sessions@.take(j as int).map_values(|s: u64| (c, s)),
            decreases m - j,
        {
            r.push((c, sessions[j]));
            assert(r@ =~= base + sessions@.take(j + 1).map_values(|s: u64| (c, s)));
            j = j + 1;
        }
        assert(sessions@.take(m as int) =~= sessions@);
        assert(delivery_order((c + 1) as nat, sessions@) =~= base + sessions@.map_values(
            |s: u64| (c, s),
        ));
        c = c + 1;
    }
    r
}

proof fn lemma_without_absent(s: Seq<u64>, x: u64)
    requires
        !s.contains(x),
    ensures
        without(s, x) == s,
    decreases s.len(),
{
    if s.len() > 0 {
        assert(!s.drop_last().contains(x)) by {
            if s.drop_last().contains(x) {
                let i = choose|i: int| 0 <= i < s.drop_last().len() && s.drop_last()[i] == x;
                assert(s[i] == x);
            }
        }
        lemma_without_absent(s.drop_last(), x);
        assert(s.drop_last().push(s.last()) =~= s);
    }
}

/// A session that connects and then disconnects leaves the sessions as
/// they were, when it was not connected before.
pub proof fn lemma_connect_then_disconnect(sessions: Seq<u64>, session: u64)
    requires
        !sessions.contains(session),
    ensures
        without(sessions.push(session), session) == sessions,
{
    assert(sessions.push(session).drop_last() =~= sessions);
    lemma_without_absent(sessions, session);
}

proof fn lemma_contains_push(p: Seq<u64>, z: u64, y: u64)
    ensures
        p.push(z).contains(y) <==> (p.contains(y) || z == y),
{
    if p.push(z).contains(y) {
        let i = choose|i: int| 0 <= i < p.push(z).len() && p.push(z)[i] == y;
        if i < p.len() {
            assert(p[i] == y);
        }
    }
    if p.contains(y) {
        let i = choose|i: int| 0 <= i < p.len() && p[i] == y;
        assert(p.push(z)[i] == y);
    }
    if z == y {
        assert(p.push(z)[p.len() as int] == y);
    }
}

/// After a disconnect exactly the other sessions that were connected are
/// connected: the session is gone, no other one is lost or added.
pub proof fn lemma_disconnect_removes_only(sessions: Seq<u64>, session: u64, y: u64)
    ensures
        without(sessions, session).contains(y) <==> (sessions.contains(y) && y != session),
    decreases sessions.len(),
{
    if sessions.len() > 0 {
        let s = sessions.drop_last();
        let x = sessions.last();
        lemma_disconnect_removes_only(s, session, y);
        assert(s.push(x) =~= sessions);
        lemma_contains_push(s, x, y);
        lemma_contains_push(without(s, session), x, y);
    } else {
        assert(!sessions.contains(y));
        assert(!without(sessions, session).contains(y));
    }
}

/// The sessions that the action of a tick sends to.
pub open spec fn tick_recipients(a: TickActionView) -> Seq<u64> {
    match a {
        TickActionView::Idle => Seq::empty(),
        TickActionView::SendSamples { sessions } => sessions,
        TickActionView::Poll { sessions, .. } => sessions,
    }
}

/// A tick reaches every connected session and no other, in order of
/// connection: it sends to exactly the server's sessions. It is idle only
/// when no session is connected; it serves the samples exactly in sample
/// mode, and otherwise polls exactly the server's clusters.
pub proof fn lemma_tick_reaches_every_session(s: WsServerView)
    ensures
        tick_recipients(tick_action(s)) == s.sessions,
        tick_action(s) is Idle <==> s.sessions.len() == 0,
        tick_action(s) is SendSamples <==> (s.sessions.len() > 0 && s.dummy_mode),
        tick_action(s) matches TickActionView::Poll { clusters, .. } ==> clusters == s.clusters,
{
}

/// A session that connects is sent to by the next tick, after the
/// sessions that were connected before it.
pub proof fn lemma_connected_session_is_reached(s: WsServerView, session: u64)
    ensures
        tick_recipients(tick_action(WsServerView { sessions: s.sessions.push(session), ..s })) == s.sessions.push(
            session,
        ),
{
    lemma_tick_reaches_every_session(WsServerView { sessions: s.sessions.push(session), ..s });
}

/// Each of `clusters` items is sent to each session exactly once: item `i`
/// to session `j` is the send at position `i * sessions + j`.
pub proof fn lemma_delivery_order(clusters: nat, sessions: Seq<u64>)
    ensures
        delivery_order(clusters, sessions).len() == clusters * sessions.len(),
        forall|i: int, j: int|
            0 <= i < clusters && 0 <= j < sessions.len() ==> #[trigger] delivery_order(clusters, sessions)[i
                * sessions.len() + j] == (i as usize, sessions[j]),
    decreases clusters,
{
    if clusters == 0 {
        assert(clusters * sessions.len() == 0) by (nonlinear_arith)
            requires
                clusters == 0,
        ;
    } else {
        let c = (clusters - 1) as nat;
        lemma_delivery_order(c, sessions);
        let m = sessions.len();
        let prev = delivery_order(c, sessions);
        let last = sessions.map_values(|s: u64| (c as usize, s));
        assert(clusters * m == c * m + m) by (nonlinear_arith)
            requires
                clusters == c + 1,
        ;
        assert forall|i: int, j: int| 0 <= i < clusters && 0 <= j < m implies #[trigger] delivery_order(
            clusters,
            sessions,
        )[i * m + j] == (i as usize, sessions[j]) by {
            if i < c {
                assert(i * m + j < c * m) by (nonlinear_arith)
                    requires
                        i < c,
                        j < m,
                        0 <= j,
                        0 <= i,
                ;
                assert(0 <= i * m) by (nonlinear_arith)
                    requires
                        0 <= i,
                        0 <= m,
                ;
                assert(delivery_order(clusters, sessions)[i * m + j] == prev[i * m + j]);
            } else {
                assert(i == c);
                assert(i * m + j == c * m + j);
                assert(delivery_order(clusters, sessions)[i * m + j] == last[j]);
            }
        }
    }
}

/// A frame received on a session's websocket.
pub enum WsEvent {
    Ping(Vec<u8>),
    Close(Option<CloseReason>),
    /// The stream reported a protocol error.
    Error,
    /// Any other frame.
    Other,
}

/// Why a websocket is closed: a close code and an optional description.
pub struct CloseReason {
    pub code: u16,
    pub description: Option<String>,
}

/// What a session does in answer to a frame.
pub enum WsReply {
    /// Answer with a pong carrying these bytes.
    Pong(Vec<u8>),
    /// Close the websocket with this reason, then stop the session.
    CloseAndStop(Option<CloseReason>),
    /// Stop the session.
    Stop,
    /// Do nothing.
    Ignore,
}

/// The answer to a frame: a ping is answered with a pong of the same
/// bytes, a close closes and stops, an error stops, anything else is
/// ignored.
pub fn reply_to(event: WsEvent) -> (r: WsReply)
    ensures
        match event {
            WsEvent::Ping(b) => r == WsReply::Pong(b),
            WsEvent::Close(reason) => r == WsReply::CloseAndStop(reason),
            WsEvent::Error => r == WsReply::Stop,
            WsEvent::Other => r == WsReply::Ignore,
        },
{
    match event {
        WsEvent::Ping(b) => WsReply::Pong(b),
        WsEvent::Close(reason) => WsReply::CloseAndStop(reason),
        WsEvent::Error => WsReply::Stop,
        WsEvent::Other => WsReply::Ignore,
    }
}

} // verus!
