use vstd::prelude::*;
use crate::message::{RobloxEvent, RobloxEventView};

verus! {

/// Effect of queuing one command on the model of the queues: a command for
/// a registered instance appends to that instance's queue; a command for an
/// unknown instance (for example, after a race with its Stop) is dropped,
/// because the remote side cannot be reached synchronously.
pub open spec fn model_queue(
    m: Map<Seq<char>, Seq<RobloxEventView>>,
    server: Seq<char>,
    event: RobloxEventView,
) -> Map<Seq<char>, Seq<RobloxEventView>> {
    if m.contains_key(server) {
        m.insert(server, m[server].push(event))
    } else {
        m
    }
}

/// Effect of queuing a whole sequence of addressed commands, in order.
pub open spec fn model_queue_all(
    m: Map<Seq<char>, Seq<RobloxEventView>>,
    ops: Seq<(Seq<char>, RobloxEventView)>,
) -> Map<Seq<char>, Seq<RobloxEventView>>
    decreases ops.len(),
{
    if ops.len() == 0 {
        m
    } else {
        model_queue(model_queue_all(m, ops.drop_last()), ops.last().0, ops.last().1)
    }
}

/// The subsequence of `ops` addressed to `server`, in queuing order.
pub open spec fn queued_for(
    ops: Seq<(Seq<char>, RobloxEventView)>,
    server: Seq<char>,
) -> Seq<RobloxEventView>
    decreases ops.len(),
{
    if ops.len() == 0 {
        Seq::<RobloxEventView>::empty()
    } else {
        let rest = queued_for(ops.drop_last(), server);
        if ops.last().0 == server {
            rest.push(ops.last().1)
        } else {
            rest
        }
    }
}

/// The per-instance command queues at the heart of the broker: each
/// registered instance has one unbounded FIFO queue of commands, handed
/// out when that instance next polls. The broker never inspects command
/// payloads; this structure is pure routing plus FIFO queuing.
pub struct CommandQueues {
    entries: Vec<(String, Vec<RobloxEvent>)>,
}

impl View for CommandQueues {
    type V = Map<Seq<char>, Seq<RobloxEventView>>;

    closed spec fn view(&self) -> Map<Seq<char>, Seq<RobloxEventView>> {
        Map::new(
            |server: Seq<char>| self.spec_contains(server),
            |server: Seq<char>| self.entries@[self.index_of(server)].1.deep_view(),
        )
    }
}

impl CommandQueues {
    /// No two entries are bound to the same instance identifier.
    pub closed spec fn wf(&self) -> bool {
        forall|i: int, j: int|
            0 <= i < j < self.entries@.len() ==> self.entries@[i].0@ != self.entries@[j].0@
    }

    spec fn spec_contains(&self, server: Seq<char>) -> bool {
        exists|i: int| 0 <= i < self.entries@.len() && self.entries@[i].0@ == server
    }

    spec fn index_of(&self, server: Seq<char>) -> int {
        choose|i: int| 0 <= i < self.entries@.len() && self.entries@[i].0@ == server
    }

    proof fn lemma_at_index(&self, i: int)
        requires
            self.wf(),
            0 <= i < self.entries@.len(),
        ensures
            self@.contains_key(self.entries@[i].0@),
            self.index_of(self.entries@[i].0@) == i,
            self@[self.entries@[i].0@] == self.entries@[i].1.deep_view(),
    {
        let server = self.entries@[i].0@;
        assert(self.spec_contains(server));
        let j = self.index_of(server);
        assert(0 <= j < self.entries@.len() && self.entries@[j].0@ == server);
        if i < j {
            assert(self.entries@[i].0@ != self.entries@[j].0@);
        } else if j < i {
            assert(self.entries@[j].0@ != self.entries@[i].0@);
        }
    }

    pub fn new() -> (r: Self)
        ensures
            r.wf(),
            r@ == Map::<Seq<char>, Seq<RobloxEventView>>::empty(),
    {
        let r = CommandQueues { entries: Vec::new() };
        proof {
            assert(r@ =~= Map::<Seq<char>, Seq<RobloxEventView>>::empty());
        }
        r
    }

    fn find(&self, server: &String) -> (r: Option<usize>)
        requires
            self.wf(),
        ensures
            match r {
                Some(i) => i < self.entries@.len() && self.entries@[i as int].0@ == server@,
                None => !self@.contains_key(server@),
            },
    {
        let n: usize = self.entries.len();
        let mut i: usize = 0;
        while i < n
            invariant
                i <= n,
                n == self.entries@.len(),
                forall|j: int| 0 <= j < i ==> self.entries@[j].0@ != server@,
            decreases n - i,
        {
            if self.entries[i].0 == *server {
                return Some(i);
            }
            i = i + 1;
        }
        None
    }

    /// Whether an instance is currently registered.
    pub fn registered(&self, server: &String) -> (r: bool)
        requires
            self.wf(),
        ensures
            r == self@.contains_key(server@),
    {
        let found = self.find(server);
        proof {
            if self.spec_contains(server@) {
                let i = self.index_of(server@);
                self.lemma_at_index(i);
            }
        }
        match found {
            Some(i) => {
                proof {
                    self.lemma_at_index(i as int);
                }
                true
            },
            None => false,
        }
    }

    /// First contact of an instance: bind its self-declared identifier to a
    /// fresh empty queue. Registering an identifier that is already bound
    /// changes nothing.
    pub fn register(&mut self, server: &String)
        requires
            old(self).wf(),
        ensures
            final(self).wf(),
            old(self)@.contains_key(server@) ==> final(self)@ == old(self)@,
            !old(self)@.contains_key(server@) ==> final(self)@ == old(self)@.insert(
                server@,
                Seq::<RobloxEventView>::empty(),
            ),
    {
        let found = self.find(server);
        match found {
            Some(i) => {
                proof {
                    self.lemma_at_index(i as int);
                }
            },
            None => {
                let ghost old_self = *self;
                let fresh: Vec<RobloxEvent> = Vec::new();
                self.entries.push((server.clone(), fresh));
                proof {
                    let n = old_self.entries@.len();
                    assert(self.entries@ == old_self.entries@.push((
                        self.entries@[n as int].0,
                        self.entries@[n as int].1,
                    )));
                    assert(self.entries@[n as int].0@ == server@);
                    assert(forall|j: int|
                        0 <= j < n ==> self.entries@[j] == old_self.entries@[j]);
                    assert(self.wf()) by {
                        assert(forall|j: int|
                            0 <= j < n ==> old_self.spec_contains(
                                #[trigger] self.entries@[j].0@,
                            ));
                    }
                    assert(self@ =~= old_self@.insert(server@, Seq::<RobloxEventView>::empty()))
                        by {
                        assert forall|k: Seq<char>| #[trigger]
                            self.spec_contains(k) implies old_self.spec_contains(k) || k
                            == server@ by {
                            let i = choose|i: int|
                                0 <= i < self.entries@.len() && self.entries@[i].0@ == k;
                            if i < n {
                                assert(old_self.spec_contains(k));
                            }
                        }
                        assert forall|k: Seq<char>|
                            old_self.spec_contains(k) implies #[trigger] self.spec_contains(
                            k,
                        ) by {
                            let i = choose|i: int|
                                0 <= i < old_self.entries@.len() && old_self.entries@[i].0@
                                    == k;
                            assert(self.entries@[i].0@ == k);
                        }
                        assert(self.spec_contains(server@));
                        assert forall|k: Seq<char>| #[trigger] self.spec_contains(k) implies
                            self@[k] == old_self@.insert(
                            server@,
                            Seq::<RobloxEventView>::empty(),
                        )[k] by {
                            let i = self.index_of(k);
                            assert(0 <= i < self.entries@.len() && self.entries@[i].0@ == k);
                            self.lemma_at_index(i);
                            if k == server@ {
                                assert(i == n) by {
                                    if i < n {
                                        assert(old_self.entries@[i].0@ == server@);
                                        assert(old_self.spec_contains(server@));
                                        old_self.lemma_at_index(i);
                                    }
                                }
                                assert(self.entries@[i].1.deep_view()
                                    =~= Seq::<RobloxEventView>::empty());
                            } else {
                                assert(i < n);
                                old_self.lemma_at_index(i);
                            }
                        }
                    }
                }
            },
        }
    }

    /// Queue one command for an instance. For a registered instance this
    /// appends to that instance's FIFO queue; for an unknown instance it is
    /// a documented no-op.
    pub fn queue_event(&mut self, server: String, event: RobloxEvent)
        requires
            old(self).wf(),
        ensures
            final(self).wf(),
            final(self)@ == model_queue(old(self)@, server@, event@),
    {
        let found = self.find(&server);
        match found {
            Some(i) => {
                let ghost old_self = *self;
                let mut queue: Vec<RobloxEvent> = Vec::new();
                core::mem::swap(&mut self.entries[i].1, &mut queue);
                queue.push(event);
                core::mem::swap(&mut self.entries[i].1, &mut queue);
                proof {
                    let n = old_self.entries@.len();
                    old_self.lemma_at_index(i as int);
                    assert(self.entries@.len() == n);
                    assert(forall|j: int|
                        0 <= j < n && j != i ==> self.entries@[j] == old_self.entries@[j]);
                    assert(self.entries@[i as int].0 == old_self.entries@[i as int].0);
                    assert(self.entries@[i as int].1@ == old_self.entries@[i as int].1@.push(
                        event,
                    ));
                    assert(forall|j: int|
                        0 <= j < n ==> #[trigger] self.entries@[j].0@
                            == old_self.entries@[j].0@);
                    assert(self.wf());
                    assert(self.entries@[i as int].1.deep_view()
                        =~= old_self.entries@[i as int].1.deep_view().push(event@));
                    assert(self@ =~= old_self@.insert(
                        server@,
                        old_self@[server@].push(event@),
                    )) by {
                        assert forall|k: Seq<char>| #[trigger]
                            self.spec_contains(k) <==> old_self.spec_contains(k) by {
                            if self.spec_contains(k) {
                                let w = choose|w: int|
                                    0 <= w < self.entries@.len() && self.entries@[w].0@ == k;
                                assert(old_self.entries@[w].0@ == k);
                            }
                            if old_self.spec_contains(k) {
                                let w = choose|w: int|
                                    0 <= w < old_self.entries@.len()
                                        && old_self.entries@[w].0@ == k;
                                assert(self.entries@[w].0@ == k);
                            }
                        }
                        assert forall|k: Seq<char>| #[trigger] self.spec_contains(k) implies
                            self@[k] == old_self@.insert(
                            server@,
                            old_self@[server@].push(event@),
                        )[k] by {
                            let w = self.index_of(k);
                            assert(0 <= w < self.entries@.len() && self.entries@[w].0@ == k);
                            self.lemma_at_index(w);
                            old_self.lemma_at_index(w);
                            if k == server@ {
                                assert(w == i);
                            } else {
                                assert(w != i);
                                assert(self.entries@[w].1.deep_view()
                                    == old_self.entries@[w].1.deep_view());
                            }
                        }
                    }
                }
            },
            None => {
                assert(self@ == model_queue(old(self)@, server@, event@));
            },
        }
    }

    /// Hand out everything queued for an instance since its last poll, in
    /// FIFO order, leaving its queue empty. Polling an unknown instance
    /// yields nothing and changes nothing.
    pub fn poll(&mut self, server: &String) -> (cmds: Vec<RobloxEvent>)
        requires
            old(self).wf(),
        ensures
            final(self).wf(),
            old(self)@.contains_key(server@) ==> cmds.deep_view() == old(self)@[server@]
                && final(self)@ == old(self)@.insert(server@, Seq::<RobloxEventView>::empty()),
            !old(self)@.contains_key(server@) ==> cmds@.len() == 0 && final(self)@ == old(self)@,
    {
        let found = self.find(server);
        match found {
            Some(i) => {
                let ghost old_self = *self;
                let mut cmds: Vec<RobloxEvent> = Vec::new();
                core::mem::swap(&mut self.entries[i].1, &mut cmds);
                proof {
                    let n = old_self.entries@.len();
                    old_self.lemma_at_index(i as int);
                    assert(cmds.deep_view() == old_self@[server@]);
                    assert(forall|j: int|
                        0 <= j < n && j != i ==> self.entries@[j] == old_self.entries@[j]);
                    assert(forall|j: int|
                        0 <= j < n ==> #[trigger] self.entries@[j].0@
                            == old_self.entries@[j].0@);
                    assert(self.wf());
                    assert(self.entries@[i as int].1.deep_view()
                        =~= Seq::<RobloxEventView>::empty());
                    assert(self@ =~= old_self@.insert(
                        server@,
                        Seq::<RobloxEventView>::empty(),
                    )) by {
                        assert forall|k: Seq<char>| #[trigger]
                            self.spec_contains(k) <==> old_self.spec_contains(k) by {
                            if self.spec_contains(k) {
                                let w = choose|w: int|
                                    0 <= w < self.entries@.len() && self.entries@[w].0@ == k;
                                assert(old_self.entries@[w].0@ == k);
                            }
                            if old_self.spec_contains(k) {
                                let w = choose|w: int|
                                    0 <= w < old_self.entries@.len()
                                        && old_self.entries@[w].0@ == k;
                                assert(self.entries@[w].0@ == k);
                            }
                        }
                        assert forall|k: Seq<char>| #[trigger] self.spec_contains(k) implies
                            self@[k] == old_self@.insert(
                            server@,
                            Seq::<RobloxEventView>::empty(),
                        )[k] by {
                            let w = self.index_of(k);
                            assert(0 <= w < self.entries@.len() && self.entries@[w].0@ == k);
                            self.lemma_at_index(w);
                            old_self.lemma_at_index(w);
                            if k == server@ {
                                assert(w == i);
                            } else {
                                assert(w != i);
                                assert(self.entries@[w].1.deep_view()
                                    == old_self.entries@[w].1.deep_view());
                            }
                        }
                    }
                }
                cmds
            },
            None => Vec::new(),
        }
    }

    /// Final contact of an instance: discard its binding and anything still
    /// queued for it. Deregistering an unknown instance changes nothing.
    pub fn deregister(&mut self, server: &String)
        requires
            old(self).wf(),
        ensures
            final(self).wf(),
            final(self)@ == old(self)@.remove(server@),
    {
        let found = self.find(server);
        match found {
            Some(i) => {
                let ghost old_self = *self;
                let _removed = self.entries.remove(i);
                proof {
                    let n = old_self.entries@.len();
                    old_self.lemma_at_index(i as int);
                    assert(self.entries@ == old_self.entries@.remove(i as int));
                    assert(forall|j: int|
                        0 <= j < i ==> self.entries@[j] == old_self.entries@[j]);
                    assert(forall|j: int|
                        i <= j < n - 1 ==> self.entries@[j] == old_self.entries@[j + 1]);
                    assert(self.wf()) by {
                        assert forall|a: int, b: int|
                            0 <= a < b < self.entries@.len() implies self.entries@[a].0@
                            != self.entries@[b].0@ by {
                            let a0: int = if a < i {
                                a
                            } else {
                                a + 1
                            };
                            let b0: int = if b < i {
                                b
                            } else {
                                b + 1
                            };
                            assert(old_self.entries@[a0].0@ != old_self.entries@[b0].0@);
                        }
                    }
                    assert(self@ =~= old_self@.remove(server@)) by {
                        assert forall|k: Seq<char>| #[trigger] self.spec_contains(k) implies
                            old_self.spec_contains(k) && k != server@ by {
                            let w = choose|w: int|
                                0 <= w < self.entries@.len() && self.entries@[w].0@ == k;
                            let w0: int = if w < i {
                                w
                            } else {
                                w + 1
                            };
                            assert(old_self.entries@[w0].0@ == k);
                            if k == server@ {
                                old_self.lemma_at_index(w0);
                            }
                        }
                        assert forall|k: Seq<char>|
                            old_self.spec_contains(k) && k != server@ implies #[trigger]
                            self.spec_contains(k) by {
                            let w0 = choose|w0: int|
                                0 <= w0 < old_self.entries@.len() && old_self.entries@[w0].0@
                                    == k;
                            if w0 < i {
                                assert(self.entries@[w0].0@ == k);
                            } else {
                                assert(w0 != i);
                                assert(self.entries@[w0 - 1].0@ == k);
                            }
                        }
                        assert forall|k: Seq<char>| #[trigger] self.spec_contains(k) implies
                            self@[k] == old_self@[k] by {
                            let w = self.index_of(k);
                            assert(0 <= w < self.entries@.len() && self.entries@[w].0@ == k);
                            self.lemma_at_index(w);
                            let w0: int = if w < i {
                                w
                            } else {
                                w + 1
                            };
                            assert(old_self.entries@[w0].0@ == k);
                            old_self.lemma_at_index(w0);
                            assert(self.entries@[w].1 == old_self.entries@[w0].1);
                        }
                    }
                }
            },
            None => {
                proof {
                    assert(self@ =~= old(self)@.remove(server@));
                }
            },
        }
    }

    /// Shut the broker's queues: every binding is dropped, so every pending
    /// or future poll finds nothing and every later command is a no-op.
    pub fn stop(&mut self)
        ensures
            final(self).wf(),
            final(self)@ == Map::<Seq<char>, Seq<RobloxEventView>>::empty(),
    {
        self.entries = Vec::new();
        proof {
            assert(self@ =~= Map::<Seq<char>, Seq<RobloxEventView>>::empty());
        }
    }
}

/// Law: commands queued for one instance arrive at that instance in exactly
/// the order queued, whatever operations for other instances interleave
/// with them. Starting from queues where `server` is registered, applying
/// any sequence of queue operations leaves `server`'s queue equal to what
/// it held before followed by exactly the commands addressed to it, in
/// order; and registration is never changed by queuing alone.
pub proof fn lemma_fifo_per_instance(
    m: Map<Seq<char>, Seq<RobloxEventView>>,
    ops: Seq<(Seq<char>, RobloxEventView)>,
    server: Seq<char>,
)
    requires
        m.contains_key(server),
    ensures
        model_queue_all(m, ops).dom() == m.dom(),
        model_queue_all(m, ops)[server] == m[server] + queued_for(ops, server),
    decreases ops.len(),
{
    if ops.len() == 0 {
        assert(m[server] + queued_for(ops, server) =~= m[server]);
    } else {
        lemma_fifo_per_instance(m, ops.drop_last(), server);
        let m1 = model_queue_all(m, ops.drop_last());
        let last = ops.last();
        if last.0 == server {
            assert(m[server] + queued_for(ops.drop_last(), server).push(last.1) =~= (m[server]
                + queued_for(ops.drop_last(), server)).push(last.1));
        } else {
            if m1.contains_key(last.0) {
                assert(model_queue_all(m, ops) == m1.insert(last.0, m1[last.0].push(last.1)));
            }
        }
    }
}

} // verus!
