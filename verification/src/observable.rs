use core::marker::PhantomData;

use vstd::prelude::*;

use crate::observer::Observer;
use crate::registry::Registry;
use crate::registry::WeakRef;
use crate::registry::deliver_one;
use crate::registry::live;

verus! {

/// The fan-out publisher: an ordered sequence of non-owning references to
/// observers that live in a [`Registry`].
///
/// The observable never owns a subscriber. Its view is the sequence of slot
/// indices it has registered, in registration order; that order also defines
/// the index used for targeted delivery, and it never changes because
/// subscriptions are only ever appended. A subscription whose slot has died
/// stays in place as a permanently failing entry.
pub struct Observable<T> {
    subscribers: Vec<WeakRef>,
    message_type: PhantomData<T>,
}

/// The registry contents after attempting delivery of `m` through each slot
/// index in `subs`, front to back: every attempt completes before the next
/// one starts, and a failing attempt leaves the registry as it was.
pub open spec fn deliver_seq<T, O: Observer<T>>(
    reg: Seq<Option<O>>,
    subs: Seq<int>,
    m: T,
) -> Seq<Option<O>>
    decreases subs.len(),
{
    if subs.len() == 0 {
        reg
    } else {
        deliver_seq(deliver_one(reg, subs[0], m), subs.drop_first(), m)
    }
}

/// How many of the slot indices in `subs` are live in `reg`; an index that
/// occurs twice is counted twice, one delivery per subscription.
pub open spec fn live_count<O>(reg: Seq<Option<O>>, subs: Seq<int>) -> nat
    decreases subs.len(),
{
    if subs.len() == 0 {
        0
    } else {
        (if live(reg, subs[0]) {
            1nat
        } else {
            0nat
        }) + live_count(reg, subs.drop_first())
    }
}

/// One delivery attempt never changes which slots are live, nor how many
/// slots the registry has: an observer only mutates, it never appears or
/// disappears through delivery.
pub proof fn lemma_deliver_one_preserves_live<T, O: Observer<T>>(reg: Seq<Option<O>>, i: int, m: T)
    ensures
        deliver_one(reg, i, m).len() == reg.len(),
        forall|j: int| live(#[trigger] deliver_one(reg, i, m), j) == live(reg, j),
{
}

/// A whole fan-out pass preserves liveness and slot count as well.
pub proof fn lemma_deliver_seq_preserves_live<T, O: Observer<T>>(
    reg: Seq<Option<O>>,
    subs: Seq<int>,
    m: T,
)
    ensures
        deliver_seq(reg, subs, m).len() == reg.len(),
        forall|j: int| live(#[trigger] deliver_seq(reg, subs, m), j) == live(reg, j),
    decreases subs.len(),
{
    if subs.len() > 0 {
        lemma_deliver_one_preserves_live(reg, subs[0], m);
        lemma_deliver_seq_preserves_live(deliver_one(reg, subs[0], m), subs.drop_first(), m);
    }
}

/// Delivering through one more subscription at the back is one more delivery
/// attempt after the rest.
pub proof fn lemma_deliver_seq_push<T, O: Observer<T>>(
    reg: Seq<Option<O>>,
    subs: Seq<int>,
    i: int,
    m: T,
)
    ensures
        deliver_seq(reg, subs.push(i), m) == deliver_one(deliver_seq(reg, subs, m), i, m),
    decreases subs.len(),
{
    if subs.len() == 0 {
        assert(subs.push(i)[0] == i);
        assert(subs.push(i).drop_first() =~= subs);
        assert(deliver_seq(reg, subs.push(i), m) == deliver_seq(
            deliver_one(reg, i, m),
            subs.push(i).drop_first(),
            m,
        ));
        assert(deliver_seq(deliver_one(reg, i, m), subs, m) == deliver_one(reg, i, m));
    } else {
        assert(subs.push(i)[0] == subs[0]);
        assert(subs.push(i).drop_first() =~= subs.drop_first().push(i));
        lemma_deliver_seq_push(deliver_one(reg, subs[0], m), subs.drop_first(), i, m);
    }
}

/// Counting one more subscription at the back adds one exactly when its slot
/// is live.
pub proof fn lemma_live_count_push<O>(reg: Seq<Option<O>>, subs: Seq<int>, i: int)
    ensures
        live_count(reg, subs.push(i)) == live_count(reg, subs) + (if live(reg, i) {
            1nat
        } else {
            0nat
        }),
    decreases subs.len(),
{
    if subs.len() == 0 {
        assert(subs.push(i).drop_first() =~= subs);
    } else {
        assert(subs.push(i).drop_first() =~= subs.drop_first().push(i));
        lemma_live_count_push(reg, subs.drop_first(), i);
    }
}

/// When every slot named by `subs` is live, a fan-out pass counts every
/// subscription.
pub proof fn lemma_live_count_all_live<O>(reg: Seq<Option<O>>, subs: Seq<int>)
    requires
        forall|k: int| 0 <= k < subs.len() ==> live(reg, #[trigger] subs[k]),
    ensures
        live_count(reg, subs) == subs.len(),
    decreases subs.len(),
{
    if subs.len() > 0 {
        assert(forall|k: int|
            0 <= k < subs.drop_first().len() ==> subs.drop_first()[k] == subs[k + 1]);
        lemma_live_count_all_live(reg, subs.drop_first());
    }
}

/// Fan-out law: when every slot named by `subs` is live and no slot is named
/// twice, one fan-out pass reaches every subscriber — the count equals the
/// number of subscriptions, each subscribed observer ends up notified exactly
/// once with the message, and every slot that was not subscribed keeps its
/// old contents.
pub proof fn lemma_fan_out_reaches_every_live_observer<T, O: Observer<T>>(
    reg: Seq<Option<O>>,
    subs: Seq<int>,
    m: T,
)
    requires
        forall|k: int| 0 <= k < subs.len() ==> live(reg, #[trigger] subs[k]),
        forall|k1: int, k2: int| 0 <= k1 < k2 < subs.len() ==> subs[k1] != subs[k2],
    ensures
        live_count(reg, subs) == subs.len(),
        forall|k: int|
            0 <= k < subs.len() ==> deliver_seq(reg, subs, m)[#[trigger] subs[k]] == Some(
                (reg[subs[k]]->0).notified(m),
            ),
        forall|j: int|
            0 <= j < reg.len() && !subs.contains(j) ==> deliver_seq(reg, subs, m)[j] == reg[j],
    decreases subs.len(),
{
    lemma_live_count_all_live(reg, subs);
    if subs.len() > 0 {
        let rest = subs.drop_first();
        let reg1 = deliver_one(reg, subs[0], m);
        let result = deliver_seq(reg, subs, m);
        assert(forall|k: int| 0 <= k < rest.len() ==> rest[k] == subs[k + 1]);
        lemma_deliver_one_preserves_live(reg, subs[0], m);
        lemma_deliver_seq_preserves_live(reg, subs, m);
        lemma_fan_out_reaches_every_live_observer(reg1, rest, m);
        assert(result == deliver_seq(reg1, rest, m));
        assert forall|j: int| rest.contains(j) implies subs.contains(j) by {
            let k = choose|k: int| 0 <= k < rest.len() && rest[k] == j;
            assert(subs[k + 1] == j);
        }
        assert(!rest.contains(subs[0])) by {
            if rest.contains(subs[0]) {
                let k = choose|k: int| 0 <= k < rest.len() && rest[k] == subs[0];
                assert(subs[k + 1] == subs[0]);
            }
        }
        assert forall|k: int|
            0 <= k < subs.len() implies result[#[trigger] subs[k]] == Some(
            (reg[subs[k]]->0).notified(m),
        ) by {
            if k == 0 {
                assert(result[subs[0]] == reg1[subs[0]]);
                assert(reg1[subs[0]] == Some((reg[subs[0]]->0).notified(m)));
            } else {
                assert(rest[k - 1] == subs[k]);
                assert(reg1[subs[k]] == reg[subs[k]]);
                assert(result[subs[k]] == Some((reg1[subs[k]]->0).notified(m)));
            }
        }
        assert forall|j: int|
            0 <= j < reg.len() && !subs.contains(j) implies result[j] == reg[j] by {
            assert(!rest.contains(j));
            assert(j != subs[0]) by {
                assert(subs.contains(subs[0]));
            }
            assert(result[j] == reg1[j]);
        }
    }
}

/// Dead-reference law, count side: a subscription whose slot is dead
/// contributes nothing to the delivery count — the count is exactly the one
/// of the subscription sequence without that entry.
pub proof fn lemma_dead_subscription_not_counted<O>(reg: Seq<Option<O>>, subs: Seq<int>, k: int)
    requires
        0 <= k < subs.len(),
        !live(reg, subs[k]),
    ensures
        live_count(reg, subs) == live_count(reg, subs.remove(k)),
    decreases subs.len(),
{
    if k == 0 {
        assert(subs.remove(0) =~= subs.drop_first());
    } else {
        lemma_dead_subscription_not_counted(reg, subs.drop_first(), k - 1);
        assert(subs.remove(k)[0] == subs[0]);
        assert(subs.remove(k).drop_first() =~= subs.drop_first().remove(k - 1));
    }
}

/// Dead-reference law, effect side: a delivery pass over a subscription
/// sequence with a dead entry changes the registry exactly as the pass
/// without that entry would — the dead reference is skipped, nothing crashes,
/// nothing else is disturbed.
pub proof fn lemma_dead_subscription_skipped<T, O: Observer<T>>(
    reg: Seq<Option<O>>,
    subs: Seq<int>,
    k: int,
    m: T,
)
    requires
        0 <= k < subs.len(),
        !live(reg, subs[k]),
    ensures
        deliver_seq(reg, subs, m) == deliver_seq(reg, subs.remove(k), m),
    decreases subs.len(),
{
    if k == 0 {
        assert(subs.remove(0) =~= subs.drop_first());
        assert(deliver_one(reg, subs[0], m) == reg);
    } else {
        let reg1 = deliver_one(reg, subs[0], m);
        lemma_deliver_one_preserves_live(reg, subs[0], m);
        lemma_dead_subscription_skipped(reg1, subs.drop_first(), k - 1, m);
        assert(subs.remove(k)[0] == subs[0]);
        assert(subs.remove(k).drop_first() =~= subs.drop_first().remove(k - 1));
    }
}

/// Order law: with two distinct live subscriptions, the delivery count is
/// the same whichever of the two was registered first, while each observer's
/// final state folds the messages in the order they were sent — after
/// sending `x` and then `y` to all, both observers reflect `y` last.
pub proof fn lemma_two_subscriber_order<T, O: Observer<T>>(
    reg: Seq<Option<O>>,
    a: int,
    b: int,
    x: T,
    y: T,
)
    requires
        live(reg, a),
        live(reg, b),
        a != b,
    ensures
        live_count(reg, seq![a, b]) == live_count(reg, seq![b, a]),
        deliver_seq(deliver_seq(reg, seq![a, b], x), seq![a, b], y)[a] == Some(
            ((reg[a]->0).notified(x)).notified(y),
        ),
        deliver_seq(deliver_seq(reg, seq![a, b], x), seq![a, b], y)[b] == Some(
            ((reg[b]->0).notified(x)).notified(y),
        ),
{
    lemma_two_subscribers_deliver(reg, a, b, x);
    let after_x = deliver_seq(reg, seq![a, b], x);
    lemma_deliver_seq_preserves_live(reg, seq![a, b], x);
    lemma_two_subscribers_deliver(after_x, a, b, y);
    lemma_live_count_all_live(reg, seq![a, b]);
    lemma_live_count_all_live(reg, seq![b, a]);
}

/// Delivery to exactly the two distinct live subscriptions `a` then `b`:
/// each observer reacts once, every other slot stays as it was.
proof fn lemma_two_subscribers_deliver<T, O: Observer<T>>(reg: Seq<Option<O>>, a: int, b: int, m: T)
    requires
        live(reg, a),
        live(reg, b),
        a != b,
    ensures
        deliver_seq(reg, seq![a, b], m).len() == reg.len(),
        deliver_seq(reg, seq![a, b], m)[a] == Some((reg[a]->0).notified(m)),
        deliver_seq(reg, seq![a, b], m)[b] == Some((reg[b]->0).notified(m)),
        forall|j: int|
            0 <= j < reg.len() && j != a && j != b ==> deliver_seq(reg, seq![a, b], m)[j] == reg[j],
{
    let s = seq![a, b];
    assert(s[0] == a && s[1] == b);
    assert(s.drop_first() =~= seq![b]);
    let reg1 = deliver_one(reg, a, m);
    assert(deliver_seq(reg, s, m) == deliver_seq(reg1, seq![b], m));
    assert(seq![b][0] == b);
    assert(deliver_seq(reg1, seq![b], m) == deliver_seq(
        deliver_one(reg1, b, m),
        seq![b].drop_first(),
        m,
    ));
    assert(seq![b].drop_first().len() == 0);
    assert(deliver_seq(reg1, seq![b], m) == deliver_one(reg1, b, m));
}

impl<T> View for Observable<T> {
    type V = Seq<int>;

    closed spec fn view(&self) -> Seq<int> {
        self.subscribers@.map_values(|w: WeakRef| w.index())
    }
}

impl<T> Observable<T> {
    /// An observable with no subscriptions.
    pub fn new() -> (observable: Observable<T>)
        ensures
            observable@ == Seq::<int>::empty(),
    {
        let observable = Observable { subscribers: Vec::new(), message_type: PhantomData };
        proof {
            assert(observable@ =~= Seq::<int>::empty());
        }
        observable
    }

    /// Append a non-owning reference to the subscription sequence. The new
    /// subscription gets the next zero-based registration index — the old
    /// number of subscriptions — whether or not its slot is (still) alive:
    /// liveness is checked at delivery time, never here.
    pub fn register(&mut self, observer: WeakRef)
        ensures
            final(self)@ == old(self)@.push(observer.index()),
            final(self)@.len() == old(self)@.len() + 1,
            final(self)@[old(self)@.len() as int] == observer.index(),
    {
        self.subscribers.push(observer);
        proof {
            old(self).subscribers@.lemma_push_map_commute(|w: WeakRef| w.index(), observer);
            assert(self@ =~= old(self)@.push(observer.index()));
        }
    }

    /// Deliver `message` to the single subscription at `index`, if there is
    /// one and its slot is still live. Returns whether the observer was
    /// reached; an out-of-range index or a dead slot reports failure and
    /// mutates nothing. No slot other than the targeted one is ever touched.
    pub fn send_to<O: Observer<T>>(
        &self,
        registry: &mut Registry<O>,
        message: &T,
        index: usize,
    ) -> (delivered: bool)
        ensures
            index < self@.len() ==> {
                &&& delivered == live(old(registry)@, self@[index as int])
                &&& final(registry)@ == deliver_one(old(registry)@, self@[index as int], *message)
            },
            index >= self@.len() ==> !delivered && final(registry)@ == old(registry)@,
            forall|j: int|
                0 <= j < old(registry)@.len() && (index >= self@.len() || j != self@[
                    index as int
                ]) ==> final(registry)@[j] == old(registry)@[j],
    {
        if index < self.subscribers.len() {
            let weak = self.subscribers[index];
            registry.notify_weak(weak, message)
        } else {
            false
        }
    }

    /// Deliver `message` once through every subscription, in registration
    /// order, each attempt completing before the next starts. A failed
    /// attempt — dead slot, or reference outside the registry — is skipped
    /// silently and never stops the pass. Returns how many observers were
    /// reached; zero successes is an ordinary outcome, not an error.
    pub fn send_to_all<O: Observer<T>>(&self, registry: &mut Registry<O>, message: &T) -> (count:
        usize)
        ensures
            final(registry)@ == deliver_seq(old(registry)@, self@, *message),
            count == live_count(old(registry)@, self@),
    {
        let mut count: usize = 0;
        let mut index: usize = 0;
        while index < self.subscribers.len()
            invariant
                index <= self.subscribers.len(),
                count <= index,
                self@.len() == self.subscribers@.len(),
                registry@ == deliver_seq(old(registry)@, self@.take(index as int), *message),
                count == live_count(old(registry)@, self@.take(index as int)),
            decreases self.subscribers.len() - index,
        {
            let delivered = self.send_to(registry, message, index);
            if delivered {
                count = count + 1;
            }
            proof {
                assert(self@.take(index as int + 1) =~= self@.take(index as int).push(
                    self@[index as int],
                ));
                lemma_deliver_seq_push(
                    old(registry)@,
                    self@.take(index as int),
                    self@[index as int],
                    *message,
                );
                lemma_deliver_seq_preserves_live(
                    old(registry)@,
                    self@.take(index as int),
                    *message,
                );
                lemma_live_count_push(old(registry)@, self@.take(index as int), self@[
                    index as int
                ]);
            }
            index = index + 1;
        }
        proof {
            assert(self@.take(self.subscribers@.len() as int) =~= self@);
        }
        count
    }
}

} // verus!
