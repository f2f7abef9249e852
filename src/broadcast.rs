use vstd::prelude::*;
use async_channel::{Receiver, Sender};

verus! {

#[verifier::external_type_specification]
#[verifier::external_body]
#[verifier::reject_recursive_types(T)]
pub struct ExSender<T>(Sender<T>);

#[verifier::external_type_specification]
#[verifier::external_body]
#[verifier::reject_recursive_types(T)]
pub struct ExReceiver<T>(Receiver<T>);

/// Relies on async_channel::unbounded: a fresh channel of unbounded
/// capacity, its sending and receiving halves.
#[verifier::external_body]
fn unbounded_channel() -> (Sender<String>, Receiver<String>) {
    async_channel::unbounded::<String>()
}

/// Relies on async_channel::Sender::try_send: whether the channel took the
/// line, which depends on whether its receivers are still alive.
#[verifier::external_body]
fn try_send_line(sender: &Sender<String>, line: String) -> bool {
    sender.try_send(line).is_ok()
}

/// Relies on async_channel::Sender::is_closed: whether every receiver of
/// the channel has gone.
#[verifier::external_body]
fn sender_is_closed(sender: &Sender<String>) -> bool {
    sender.is_closed()
}

/// The subscribers to one output stream of a launched process.
///
/// Besides the channels, it keeps in ghost state every line it has been
/// given, and for each live subscriber the point at which it joined and the
/// lines that the sends of each pass reported accepted by its channel.
pub struct SubscriberRegistry {
    senders: Vec<Sender<String>>,
    lines: Ghost<Seq<Seq<char>>>,
    joined: Ghost<Seq<nat>>,
    received: Ghost<Seq<Seq<Seq<char>>>>,
}

/// Whether a send outcome (accepted, closed) leaves the subscriber in place.
pub open spec fn stays(outcome: (bool, bool)) -> bool {
    outcome.0 && !outcome.1
}

/// The entries of `s` whose outcome in `o` keeps them, in their order.
pub open spec fn kept<T>(s: Seq<T>, o: Seq<(bool, bool)>) -> Seq<T>
    decreases s.len(),
{
    if s.len() == 0 || o.len() == 0 {
        Seq::empty()
    } else {
        let rest = kept(s.drop_last(), o.drop_last());
        if stays(o.last()) {
            rest.push(s.last())
        } else {
            rest
        }
    }
}

/// Whether `new` is `old` after a pass that offered `line` to every
/// subscriber with the outcomes `o`: the line joins the history, the
/// subscribers that accepted it and are still open stay in their order, each
/// with the line added to what it received, and the line is unobserved
/// exactly when no channel accepted it.
pub open spec fn pass_settled(
    old: SubscriberRegistry,
    new: SubscriberRegistry,
    line: Seq<char>,
    o: Seq<(bool, bool)>,
    unobserved: bool,
) -> bool {
    &&& o.len() == old.count()
    &&& new.wf()
    &&& new.lines() == old.lines().push(line)
    &&& new.senders() == kept(old.senders(), o)
    &&& new.joined_all() == kept(old.joined_all(), o)
    &&& new.received_all() == kept(
        old.received_all().map_values(|r: Seq<Seq<char>>| r.push(line)),
        o,
    )
    &&& unobserved == (forall|i: int| 0 <= i < o.len() ==> !(#[trigger] o[i]).0)
}

/// A live subscriber has received exactly the lines given to the registry
/// since it joined, in their original order: every line if it joined before
/// the first, and none of those given before it joined.
pub proof fn lemma_subscriber_sees_lines_since_joining(reg: &SubscriberRegistry, i: int)
    requires
        reg.wf(),
        0 <= i < reg.count(),
    ensures
        reg.joined(i) <= reg.lines().len(),
        reg.received(i) == reg.lines().subrange(reg.joined(i) as int, reg.lines().len() as int),
        reg.received(i).len() == reg.lines().len() - reg.joined(i),
{
}

proof fn lemma_kept_all<T>(s: Seq<T>, o: Seq<(bool, bool)>)
    requires
        s.len() == o.len(),
        forall|i: int| 0 <= i < o.len() ==> stays(#[trigger] o[i]),
    ensures
        kept(s, o) == s,
    decreases s.len(),
{
    if s.len() > 0 {
        assert(stays(o[o.len() - 1]));
        lemma_kept_all(s.drop_last(), o.drop_last());
        assert(s.drop_last().push(s.last()) =~= s);
    }
}

proof fn lemma_kept_none<T>(s: Seq<T>, o: Seq<(bool, bool)>)
    requires
        s.len() == o.len(),
        forall|i: int| 0 <= i < o.len() ==> !stays(#[trigger] o[i]),
    ensures
        kept(s, o).len() == 0,
    decreases s.len(),
{
    if s.len() > 0 {
        assert(!stays(o[o.len() - 1]));
        lemma_kept_none(s.drop_last(), o.drop_last());
    }
}

/// A pass in which every subscriber's channel accepted the line and stayed
/// open keeps every subscriber, in order, and each gets its copy; with at
/// least one subscriber the line is observed.
pub proof fn lemma_open_subscribers_kept(
    old: SubscriberRegistry,
    new: SubscriberRegistry,
    line: Seq<char>,
    o: Seq<(bool, bool)>,
    unobserved: bool,
)
    requires
        old.wf(),
        pass_settled(old, new, line, o, unobserved),
        forall|i: int| 0 <= i < o.len() ==> stays(#[trigger] o[i]),
    ensures
        new.count() == old.count(),
        forall|k: int|
            0 <= k < new.count() ==> #[trigger] new.joined(k) == old.joined(k) && new.received(k)
                == old.received(k).push(line),
        old.count() > 0 ==> !unobserved,
{
    lemma_kept_all(old.senders(), o);
    lemma_kept_all(old.joined_all(), o);
    lemma_kept_all(old.received_all().map_values(|r: Seq<Seq<char>>| r.push(line)), o);
    if old.count() > 0 {
        assert(stays(o[0]));
    }
}

/// A pass in which no channel stayed open leaves no subscriber; when no
/// channel accepted the line either, the line is unobserved and belongs on
/// the fallback output.
pub proof fn lemma_closed_subscribers_fall_back(
    old: SubscriberRegistry,
    new: SubscriberRegistry,
    line: Seq<char>,
    o: Seq<(bool, bool)>,
    unobserved: bool,
)
    requires
        old.wf(),
        pass_settled(old, new, line, o, unobserved),
        forall|i: int| 0 <= i < o.len() ==> !(#[trigger] o[i]).0,
    ensures
        new.count() == 0,
        unobserved,
        new.lines() == old.lines().push(line),
{
    lemma_kept_none(old.senders(), o);
}

/// With no subscribers, a line given to the registry is unobserved, so it
/// goes to the fallback output once, and the registry stays empty.
pub proof fn lemma_no_subscribers_fall_back(
    old: SubscriberRegistry,
    new: SubscriberRegistry,
    line: Seq<char>,
    o: Seq<(bool, bool)>,
    unobserved: bool,
)
    requires
        old.wf(),
        old.count() == 0,
        pass_settled(old, new, line, o, unobserved),
    ensures
        unobserved,
        new.count() == 0,
        new.lines() == old.lines().push(line),
{
}

impl SubscriberRegistry {
    /// Every line given to the registry so far, in order.
    pub closed spec fn lines(&self) -> Seq<Seq<char>> {
        self.lines@
    }

    /// The sending halves of the live subscribers' channels, in order.
    pub closed spec fn senders(&self) -> Seq<Sender<String>> {
        self.senders@
    }

    /// The number of live subscribers.
    pub open spec fn count(&self) -> nat {
        self.senders().len()
    }

    /// For each live subscriber, how many lines had been given to the
    /// registry when it joined.
    pub closed spec fn joined_all(&self) -> Seq<nat> {
        self.joined@
    }

    /// For each live subscriber, the lines its channel accepted.
    pub closed spec fn received_all(&self) -> Seq<Seq<Seq<char>>> {
        self.received@
    }

    pub open spec fn joined(&self, i: int) -> nat {
        self.joined_all()[i]
    }

    pub open spec fn received(&self, i: int) -> Seq<Seq<char>> {
        self.received_all()[i]
    }

    pub closed spec fn wf(&self) -> bool {
        &&& self.joined@.len() == self.senders@.len()
        &&& self.received@.len() == self.senders@.len()
        &&& forall|i: int|
            0 <= i < self.senders@.len() ==> #[trigger] self.joined@[i] <= self.lines@.len()
        &&& forall|i: int|
            0 <= i < self.senders@.len() ==> #[trigger] self.received@[i]
                == self.lines@.subrange(self.joined@[i] as int, self.lines@.len() as int)
    }

    pub fn new() -> (r: SubscriberRegistry)
        ensures
            r.wf(),
            r.count() == 0,
            r.lines() == Seq::<Seq<char>>::empty(),
    {
        SubscriberRegistry {
            senders: Vec::new(),
            lines: Ghost(Seq::empty()),
            joined: Ghost(Seq::empty()),
            received: Ghost(Seq::empty()),
        }
    }

    pub fn len(&self) -> (r: usize)
        ensures
            r == self.count(),
    {
        self.senders.len()
    }

    /// Adds a subscriber that receives every line given from now on, and
    /// none given before.
    pub fn subscribe(&mut self) -> (r: Receiver<String>)
        requires
            old(self).wf(),
        ensures
            final(self).wf(),
            final(self).lines() == old(self).lines(),
            final(self).count() == old(self).count() + 1,
            final(self).senders().drop_last() == old(self).senders(),
            forall|i: int|
                0 <= i < old(self).count() ==> final(self).joined(i) == old(self).joined(i)
                    && final(self).received(i) == old(self).received(i),
            final(self).joined(old(self).count() as int) == old(self).lines().len(),
            final(self).received(old(self).count() as int) == Seq::<Seq<char>>::empty(),
    {
        let (sender, receiver) = unbounded_channel();
        self.senders.push(sender);
        proof {
            let n = self.lines@.len();
            self.joined@ = self.joined@.push(n);
            self.received@ = self.received@.push(Seq::empty());
            assert(self.lines@.subrange(n as int, n as int) =~= Seq::<Seq<char>>::empty());
            assert(self.senders@.drop_last() =~= old(self).senders@);
        }
        receiver
    }

    /// Settles a pass that offered `line` to every subscriber, given each
    /// send's outcome in subscriber order: whether the channel accepted the
    /// line, and whether it was closed after the pass. Subscribers that
    /// accepted and are open stay; the others go. Returns whether no channel
    /// accepted the line, in which case it belongs on the fallback output.
    pub fn settle_pass(&mut self, line: &String, outcomes: &Vec<(bool, bool)>) -> (unobserved: bool)
        requires
            old(self).wf(),
            outcomes@.len() == old(self).count(),
        ensures
            pass_settled(*old(self), *final(self), line@, outcomes@, unobserved),
    {
        let ghost o = outcomes@;
        let ghost n = o.len();
        let ghost old_senders = self.senders@;
        let ghost old_joined = self.joined@;
        let ghost ext = self.received@.map_values(|r: Seq<Seq<char>>| r.push(line@));
        proof {
            let old_lines = self.lines@;
            self.lines@ = old_lines.push(line@);
            self.received@ = ext;
            assert forall|k: int| 0 <= k < self.senders@.len() implies #[trigger] self.received@[k]
                == self.lines@.subrange(self.joined@[k] as int, self.lines@.len() as int) by {
                assert(old(self).received@[k] == old_lines.subrange(
                    self.joined@[k] as int,
                    old_lines.len() as int,
                ));
                assert(self.lines@.subrange(self.joined@[k] as int, self.lines@.len() as int)
                    =~= old_lines.subrange(self.joined@[k] as int, old_lines.len() as int).push(
                    line@,
                ));
            }
            assert(old_senders.subrange(0, 0) =~= Seq::<Sender<String>>::empty());
            assert(old_senders.subrange(0, n as int) =~= old_senders);
            assert(old_joined.subrange(0, n as int) =~= old_joined);
            assert(ext.subrange(0, n as int) =~= ext);
            assert(o.subrange(0, n as int) =~= o);
        }
        let mut accepted_any = false;
        let mut i: usize = 0;
        let mut j: usize = 0;
        while j < outcomes.len()
            invariant
                o == outcomes@,
                n == o.len(),
                old_senders.len() == n,
                old_joined.len() == n,
                ext.len() == n,
                0 <= j <= n,
                self.senders@.len() == i + (n - j),
                i <= j,
                self.joined@.len() == self.senders@.len(),
                self.received@.len() == self.senders@.len(),
                forall|k: int|
                    0 <= k < self.senders@.len() ==> #[trigger] self.joined@[k]
                        <= self.lines@.len(),
                forall|k: int|
                    0 <= k < self.senders@.len() ==> #[trigger] self.received@[k]
                        == self.lines@.subrange(self.joined@[k] as int, self.lines@.len() as int),
                self.lines@ == old(self).lines@.push(line@),
                i == kept(old_senders.subrange(0, j as int), o.subrange(0, j as int)).len(),
                i == kept(old_joined.subrange(0, j as int), o.subrange(0, j as int)).len(),
                i == kept(ext.subrange(0, j as int), o.subrange(0, j as int)).len(),
                self.senders@ == kept(old_senders.subrange(0, j as int), o.subrange(0, j as int))
                    + old_senders.subrange(j as int, n as int),
                self.joined@ == kept(old_joined.subrange(0, j as int), o.subrange(0, j as int))
                    + old_joined.subrange(j as int, n as int),
                self.received@ == kept(ext.subrange(0, j as int), o.subrange(0, j as int))
                    + ext.subrange(j as int, n as int),
                accepted_any == (exists|k: int| 0 <= k < j && (#[trigger] o[k]).0),
            decreases n - j,
        {
            let (accepted, closed) = outcomes[j];
            let ghost j0 = j as int;
            proof {
                assert(o.subrange(0, j0 + 1).drop_last() =~= o.subrange(0, j0));
                assert(o.subrange(0, j0 + 1).last() == o[j0]);
                assert(old_senders.subrange(0, j0 + 1).drop_last() =~= old_senders.subrange(0, j0));
                assert(old_senders.subrange(0, j0 + 1).last() == old_senders[j0]);
                assert(old_joined.subrange(0, j0 + 1).drop_last() =~= old_joined.subrange(0, j0));
                assert(old_joined.subrange(0, j0 + 1).last() == old_joined[j0]);
                assert(ext.subrange(0, j0 + 1).drop_last() =~= ext.subrange(0, j0));
                assert(ext.subrange(0, j0 + 1).last() == ext[j0]);
                assert(self.senders@[i as int] == old_senders[j0]);
                assert(self.joined@[i as int] == old_joined[j0]);
                assert(self.received@[i as int] == ext[j0]);
            }
            if accepted && !closed {
                proof {
                    assert(self.senders@ =~= kept(
                        old_senders.subrange(0, j0 + 1),
                        o.subrange(0, j0 + 1),
                    ) + old_senders.subrange(j0 + 1, n as int));
                    assert(self.joined@ =~= kept(
                        old_joined.subrange(0, j0 + 1),
                        o.subrange(0, j0 + 1),
                    ) + old_joined.subrange(j0 + 1, n as int));
                    assert(self.received@ =~= kept(ext.subrange(0, j0 + 1), o.subrange(0, j0 + 1))
                        + ext.subrange(j0 + 1, n as int));
                }
                i += 1;
            } else {
                let _ = self.senders.remove(i);
                proof {
                    let ghost jn = self.joined@.remove(i as int);
                    let ghost rn = self.received@.remove(i as int);
                    assert forall|k: int| 0 <= k < jn.len() implies #[trigger] jn[k]
                        <= self.lines@.len() by {
                        if k >= i {
                            assert(jn[k] == self.joined@[k + 1]);
                        }
                    }
                    assert forall|k: int| 0 <= k < jn.len() implies #[trigger] rn[k]
                        == self.lines@.subrange(jn[k] as int, self.lines@.len() as int) by {
                        if k >= i {
                            assert(jn[k] == self.joined@[k + 1]);
                            assert(rn[k] == self.received@[k + 1]);
                        }
                    }
                    self.joined@ = jn;
                    self.received@ = rn;
                    assert(self.senders@ =~= kept(
                        old_senders.subrange(0, j0 + 1),
                        o.subrange(0, j0 + 1),
                    ) + old_senders.subrange(j0 + 1, n as int));
                    assert(self.joined@ =~= kept(
                        old_joined.subrange(0, j0 + 1),
                        o.subrange(0, j0 + 1),
                    ) + old_joined.subrange(j0 + 1, n as int));
                    assert(self.received@ =~= kept(ext.subrange(0, j0 + 1), o.subrange(0, j0 + 1))
                        + ext.subrange(j0 + 1, n as int));
                }
            }
            accepted_any = accepted_any || accepted;
            j += 1;
        }
        proof {
            assert(self.senders@ =~= kept(old_senders, o));
            assert(self.joined@ =~= kept(old_joined, o));
            assert(self.received@ =~= kept(ext, o));
        }
        !accepted_any
    }

    /// Offers `line` to every subscriber, in order, then drops those whose
    /// channel refused it or has closed. Returns whether no channel took the
    /// line, in which case it belongs on the fallback output.
    pub fn deliver(&mut self, line: String) -> (unobserved: bool)
        requires
            old(self).wf(),
        ensures
            exists|o: Seq<(bool, bool)>|
                pass_settled(*old(self), *final(self), line@, o, unobserved),
    {
        let mut outcomes: Vec<(bool, bool)> = Vec::new();
        let mut i: usize = 0;
        while i < self.senders.len()
            invariant
                i <= self.senders@.len(),
                outcomes@.len() == i,
            decreases self.senders@.len() - i,
        {
            let accepted = try_send_line(&self.senders[i], line.clone());
            outcomes.push((accepted, false));
            i += 1;
        }
        let mut k: usize = 0;
        while k < outcomes.len()
            invariant
                outcomes@.len() == self.senders@.len(),
                k <= outcomes@.len(),
            decreases outcomes@.len() - k,
        {
            let closed = sender_is_closed(&self.senders[k]);
            let accepted = outcomes[k].0;
            outcomes.set(k, (accepted, closed));
            k += 1;
        }
        let unobserved = self.settle_pass(&line, &outcomes);
        unobserved
    }
}

} // verus!
