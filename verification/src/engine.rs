//! The decisions of the event loop that drives many exchanges at once: which
//! work is admitted, where delivered data goes, when each callback is owed
//! its result, and when the loop may end.

use crate::codec::line_step;
use crate::error::Error;
use crate::exchange::{result_matches, Exchange};
use crate::mailbox::Delivery;
use crate::response::Response;
use crate::table::Table;
use vstd::prelude::*;

verus! {

/// Where the loop stands.
#[derive(Debug, Clone, Copy, PartialEq, Eq, Structural)]
pub enum Phase {
    /// Work is taken on and driven.
    Running,
    /// Shutdown was requested; the exchanges in flight are driven to their
    /// end, and no new one is taken on.
    Draining,
    /// Shutdown was requested and nothing is in flight: the loop ends.
    Stopped,
}

/// What the loop's state comes to, apart from the data of the exchanges.
pub ghost struct EngineState {
    /// Whether shutdown was requested.
    pub draining: bool,
    /// How many tokens were given out.
    pub issued: nat,
    /// The tokens of the exchanges in flight.
    pub active: Set<usize>,
}

/// What can happen to the loop.
pub ghost enum Event {
    /// A new exchange is handed in.
    Submit,
    /// Shutdown is requested, or the mailbox has lost its sending end.
    Shutdown,
    /// The transport reports the transfer under a token as finished.
    Finish(usize),
}

/// The state after an event. A new exchange is taken on under the next token
/// unless shutdown was requested or the tokens have run out; a finished
/// transfer leaves the set of those in flight.
pub open spec fn step(s: EngineState, e: Event) -> EngineState {
    match e {
        Event::Submit => if s.draining || s.issued >= usize::MAX {
            s
        } else {
            EngineState {
                draining: s.draining,
                issued: s.issued + 1,
                active: s.active.insert(s.issued as usize),
            }
        },
        Event::Shutdown => EngineState { draining: true, issued: s.issued, active: s.active },
        Event::Finish(token) => EngineState {
            draining: s.draining,
            issued: s.issued,
            active: s.active.remove(token),
        },
    }
}

/// The state after a sequence of events.
pub open spec fn run(s: EngineState, events: Seq<Event>) -> EngineState
    decreases events.len(),
{
    if events.len() == 0 {
        s
    } else {
        step(run(s, events.drop_last()), events.last())
    }
}

/// Where the loop stands in a state.
pub open spec fn phase_of(s: EngineState) -> Phase {
    if !s.draining {
        Phase::Running
    } else if s.active =~= Set::<usize>::empty() {
        Phase::Stopped
    } else {
        Phase::Draining
    }
}

/// Every token in flight was given out before.
pub open spec fn tokens_issued(s: EngineState) -> bool {
    forall|t: usize| s.active.contains(t) ==> t < s.issued
}

/// The loop of one session: the exchanges in flight, each under its token,
/// and whether shutdown was requested. `C` is the completion callback.
pub struct Engine<C> {
    draining: bool,
    next: usize,
    table: Table<Exchange<C>>,
}

/// A message to the loop. `H` is the transport's handle for the request.
pub enum Message<H, C> {
    /// A new exchange, with the handle that will carry it.
    Easy(H, Exchange<C>),
    /// The session is going away.
    Quit,
}

/// What the loop does about a delivery.
pub enum Admission<H, C> {
    /// The exchange is in flight under the token: the handle is to be started
    /// and to deliver under that token.
    Started { handle: H, token: usize },
    /// The exchange was not taken on: it comes back with its handle.
    Refused { handle: H, exchange: Exchange<C> },
    /// There is nothing to start.
    Nothing,
}

impl<C> Engine<C> {
    /// Every token in flight was given out before.
    #[verifier::type_invariant]
    pub closed spec fn bounded(&self) -> bool {
        forall|t: usize| self.table@.contains_key(t) ==> t < self.next
    }

    /// The exchanges in flight, each under its token.
    pub closed spec fn active(&self) -> Map<usize, Exchange<C>> {
        self.table@
    }

    /// Whether shutdown was requested.
    pub closed spec fn draining(&self) -> bool {
        self.draining
    }

    /// How many tokens were given out.
    pub closed spec fn issued(&self) -> nat {
        self.next as nat
    }

    /// The loop's state, apart from the data of the exchanges.
    pub open spec fn state(&self) -> EngineState {
        EngineState {
            draining: self.draining(),
            issued: self.issued(),
            active: self.active().dom(),
        }
    }

    /// A loop with nothing in flight, which takes work on.
    pub fn new() -> (r: Engine<C>)
        ensures
            r.active() == Map::<usize, Exchange<C>>::empty(),
            !r.draining(),
            r.issued() == 0,
    {
        Engine { draining: false, next: 0, table: Table::new() }
    }

    /// Takes an exchange on under the next token, unless shutdown was requested
    /// or the tokens have run out: then the exchange comes back and nothing
    /// changes.
    pub fn submit(&mut self, exchange: Exchange<C>) -> (r: Result<usize, Exchange<C>>)
        ensures
            final(self).state() == step(old(self).state(), Event::Submit),
            match r {
                Ok(token) => {
                    &&& !old(self).draining()
                    &&& old(self).issued() < usize::MAX
                    &&& token == old(self).issued()
                    &&& !old(self).active().contains_key(token)
                    &&& final(self).active() == old(self).active().insert(token, exchange)
                },
                Err(back) => {
                    &&& old(self).draining() || old(self).issued() == usize::MAX
                    &&& back == exchange
                    &&& final(self).active() == old(self).active()
                },
            },
    {
        proof {
            use_type_invariant(&*self);
        }
        if self.draining || self.next == usize::MAX {
            return Err(exchange);
        }
        let token = self.next;
        let mut taken = Engine::new();
        core::mem::swap(self, &mut taken);
        let mut table = taken.table;
        table.put(token, exchange);
        *self = Engine { draining: false, next: token + 1, table };
        proof {
            assert(self.state().active =~= old(self).state().active.insert(token));
        }
        Ok(token)
    }

    /// Takes note that shutdown was requested. What is in flight stays in
    /// flight.
    pub fn request_shutdown(&mut self)
        ensures
            final(self).state() == step(old(self).state(), Event::Shutdown),
            final(self).active() == old(self).active(),
    {
        proof {
            use_type_invariant(&*self);
        }
        self.draining = true;
    }

    /// Decides about what a look into the mailbox gave. A new exchange is
    /// taken on, or refused where `submit` refuses it; a request to quit and
    /// the loss of the sending end both count as a request for shutdown.
    pub fn receive<H>(&mut self, delivery: Delivery<Message<H, C>>) -> (r: Admission<H, C>)
        ensures
            match delivery {
                Delivery::Message(Message::Easy(handle, exchange)) => {
                    &&& final(self).state() == step(old(self).state(), Event::Submit)
                    &&& if old(self).draining() || old(self).issued() == usize::MAX {
                        &&& r == (Admission::Refused { handle, exchange })
                        &&& final(self).active() == old(self).active()
                    } else {
                        &&& r == (Admission::<H, C>::Started {
                            handle,
                            token: old(self).issued() as usize,
                        })
                        &&& final(self).active() == old(self).active().insert(
                            old(self).issued() as usize,
                            exchange,
                        )
                    }
                },
                Delivery::Message(Message::Quit) | Delivery::Closed => {
                    &&& final(self).state() == step(old(self).state(), Event::Shutdown)
                    &&& final(self).active() == old(self).active()
                    &&& r == Admission::<H, C>::Nothing
                },
                Delivery::Empty => {
                    &&& final(self).state() == old(self).state()
                    &&& final(self).active() == old(self).active()
                    &&& r == Admission::<H, C>::Nothing
                },
            },
    {
        match delivery {
            Delivery::Message(Message::Easy(handle, exchange)) => {
                match self.submit(exchange) {
                    Ok(token) => Admission::Started { handle, token },
                    Err(back) => Admission::Refused { handle, exchange: back },
                }
            },
            Delivery::Message(Message::Quit) => {
                self.request_shutdown();
                Admission::Nothing
            },
            Delivery::Closed => {
                self.request_shutdown();
                Admission::Nothing
            },
            Delivery::Empty => Admission::Nothing,
        }
    }

    /// Hands a header line to the exchange under the token, and says whether
    /// its transfer may go on. No other exchange is touched. Under a token
    /// that is not in flight nothing changes and the answer is no.
    pub fn on_header(&mut self, token: usize, line: &[u8]) -> (accepted: bool)
        ensures
            final(self).state() == old(self).state(),
            forall|t: usize|
                t != token && old(self).active().contains_key(t) ==> final(self).active()[t] == old(
                    self,
                ).active()[t],
            if old(self).active().contains_key(token) {
                let before = old(self).active()[token];
                let after = final(self).active()[token];
                &&& (accepted, after.expects_status_line(), after.headers()) == line_step(
                    line@,
                    before.expects_status_line(),
                    before.headers(),
                )
                &&& after.body() == before.body()
                &&& after.callback() == before.callback()
            } else {
                !accepted && final(self).active() == old(self).active()
            },
    {
        proof {
            use_type_invariant(&*self);
        }
        let draining = self.draining;
        let next = self.next;
        let mut taken = Engine::new();
        core::mem::swap(self, &mut taken);
        let mut table = taken.table;
        let accepted = match table.take(token) {
            Some(exchange) => {
                let mut exchange = exchange;
                let accepted = exchange.on_header(line);
                table.put(token, exchange);
                accepted
            },
            None => false,
        };
        proof {
            assert(table@.dom() =~= old(self).active().dom());
        }
        *self = Engine { draining, next, table };
        proof {
            if !old(self).active().contains_key(token) {
                assert(self.active() =~= old(self).active());
            }
        }
        accepted
    }

    /// Hands a piece of the body to the exchange under the token, and says
    /// how many bytes were taken: all of them. No other exchange is touched.
    /// Under a token that is not in flight nothing changes and nothing is
    /// taken.
    pub fn on_body(&mut self, token: usize, data: &[u8]) -> (taken: usize)
        ensures
            final(self).state() == old(self).state(),
            forall|t: usize|
                t != token && old(self).active().contains_key(t) ==> final(self).active()[t] == old(
                    self,
                ).active()[t],
            if old(self).active().contains_key(token) {
                let before = old(self).active()[token];
                let after = final(self).active()[token];
                &&& taken == data@.len()
                &&& after.body() == before.body() + data@
                &&& after.headers() == before.headers()
                &&& after.expects_status_line() == before.expects_status_line()
                &&& after.callback() == before.callback()
            } else {
                taken == 0 && final(self).active() == old(self).active()
            },
    {
        proof {
            use_type_invariant(&*self);
        }
        let draining = self.draining;
        let next = self.next;
        let mut emptied = Engine::new();
        core::mem::swap(self, &mut emptied);
        let mut table = emptied.table;
        let taken = match table.take(token) {
            Some(exchange) => {
                let mut exchange = exchange;
                let taken = exchange.on_body(data);
                table.put(token, exchange);
                taken
            },
            None => 0,
        };
        proof {
            assert(table@.dom() =~= old(self).active().dom());
        }
        *self = Engine { draining, next, table };
        proof {
            if !old(self).active().contains_key(token) {
                assert(self.active() =~= old(self).active());
            }
        }
        taken
    }

    /// Ends the exchange under the token: it leaves the table, and its
    /// callback comes out with the result that it is owed. Under a token that
    /// is not in flight, so also under one that was completed before, nothing
    /// comes out and nothing changes.
    pub fn complete(&mut self, token: usize, outcome: Result<u32, Error>) -> (r: Option<
        (C, Result<Response, Error>),
    >)
        ensures
            final(self).state() == step(old(self).state(), Event::Finish(token)),
            final(self).active() == old(self).active().remove(token),
            match r {
                Some((callback, result)) => {
                    &&& old(self).active().contains_key(token)
                    &&& callback == old(self).active()[token].callback()
                    &&& result_matches(
                        result,
                        outcome,
                        old(self).active()[token].body(),
                        old(self).active()[token].headers(),
                    )
                },
                None => !old(self).active().contains_key(token),
            },
    {
        proof {
            use_type_invariant(&*self);
        }
        let draining = self.draining;
        let next = self.next;
        let mut emptied = Engine::new();
        core::mem::swap(self, &mut emptied);
        let mut table = emptied.table;
        let found = table.take(token);
        *self = Engine { draining, next, table };
        proof {
            assert(self.state().active =~= old(self).state().active.remove(token));
        }
        match found {
            Some(exchange) => Some(exchange.finish(outcome)),
            None => None,
        }
    }

    /// How many exchanges are in flight.
    pub fn in_flight(&self) -> (r: usize)
        ensures
            self.active().dom().finite(),
            r == self.active().dom().len(),
    {
        self.table.len()
    }

    /// Whether the loop still looks into the mailbox: it does until shutdown
    /// was requested.
    pub fn polls_mailbox(&self) -> (r: bool)
        ensures
            r == !self.draining(),
    {
        !self.draining
    }

    /// Where the loop stands. It ends only when shutdown was requested and
    /// nothing is in flight.
    pub fn phase(&self) -> (r: Phase)
        ensures
            r == phase_of(self.state()),
    {
        if !self.draining {
            Phase::Running
        } else if self.table.len() == 0 {
            proof {
                assert(self.active().dom() =~= Set::<usize>::empty()) by {
                    if exists|t: usize| self.active().dom().contains(t) {
                        let t = choose|t: usize| self.active().dom().contains(t);
                        assert(self.active().dom().len() > 0) by {
                            vstd::set_lib::lemma_set_empty_equivalency_len(self.active().dom());
                        }
                    }
                }
            }
            Phase::Stopped
        } else {
            proof {
                assert(self.active().dom().len() > 0);
                assert(!(self.active().dom() =~= Set::<usize>::empty()));
            }
            Phase::Draining
        }
    }
}

/// Every step keeps the tokens in flight among those given out.
pub proof fn law_tokens_stay_issued(s: EngineState, e: Event)
    requires
        tokens_issued(s),
    ensures
        tokens_issued(step(s, e)),
        step(s, e).issued >= s.issued,
{
}

/// Once shutdown was requested, a new exchange changes nothing: it is not
/// taken on.
pub proof fn law_shutdown_refuses_work(s: EngineState)
    requires
        s.draining,
    ensures
        step(s, Event::Submit) == s,
{
}

/// A request for shutdown is never taken back, and from then on nothing new
/// comes into flight.
pub proof fn law_shutdown_is_final(s: EngineState, events: Seq<Event>)
    requires
        s.draining,
    ensures
        run(s, events).draining,
        run(s, events).active.subset_of(s.active),
    decreases events.len(),
{
    if events.len() > 0 {
        law_shutdown_is_final(s, events.drop_last());
    }
}

/// A token that was given out and is no longer in flight never comes into
/// flight again, whatever happens: the exchange that it stood for cannot be
/// completed a second time.
pub proof fn law_completion_is_final(s: EngineState, token: usize, events: Seq<Event>)
    requires
        tokens_issued(s),
        token < s.issued,
        !s.active.contains(token),
    ensures
        !run(s, events).active.contains(token),
        run(s, events).issued >= s.issued,
        tokens_issued(run(s, events)),
    decreases events.len(),
{
    if events.len() > 0 {
        law_completion_is_final(s, token, events.drop_last());
        law_tokens_stay_issued(run(s, events.drop_last()), events.last());
    }
}

/// The loop stops only after every exchange that was in flight has been
/// finished: if it stands at `Stopped` after some events, then each token
/// that was in flight before them is among the finished ones.
pub proof fn law_stop_waits_for_all(s: EngineState, events: Seq<Event>, token: usize)
    requires
        s.active.contains(token),
        phase_of(run(s, events)) == Phase::Stopped,
    ensures
        events.contains(Event::Finish(token)),
{
    assert(!run(s, events).active.contains(token));
    lemma_left_only_by_finish(s, events, token);
}

/// A token leaves the set of those in flight only by being finished.
proof fn lemma_left_only_by_finish(s: EngineState, events: Seq<Event>, token: usize)
    requires
        s.active.contains(token),
        !run(s, events).active.contains(token),
    ensures
        events.contains(Event::Finish(token)),
    decreases events.len(),
{
    if events.len() > 0 {
        let front = events.drop_last();
        if run(s, front).active.contains(token) {
            assert(events.last() == Event::Finish(token));
            assert(events[events.len() - 1] == Event::Finish(token));
        } else {
            lemma_left_only_by_finish(s, front, token);
            let i = choose|i: int| 0 <= i < front.len() && front[i] == Event::Finish(token);
            assert(events[i] == Event::Finish(token));
        }
    }
}

} // verus!
