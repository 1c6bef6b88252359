//! A bounded message bus with four priorities. What cannot be queued or handled
//! is kept, up to a limit, as a dead letter.
use std::collections::VecDeque;

use vstd::prelude::*;

verus! {

#[derive(Debug, Clone, Copy, PartialEq, Eq, PartialOrd, Ord, Structural)]
pub enum Priority {
    P0,
    P1,
    P2,
    P3,
}

#[derive(Debug, PartialEq, Eq)]
pub struct Message {
    pub from: String,
    pub to: String,
    pub priority: Priority,
    pub content: Vec<u8>,
}

pub struct MessageView {
    pub from: Seq<char>,
    pub to: Seq<char>,
    pub priority: Priority,
    pub content: Seq<u8>,
}

impl View for Message {
    type V = MessageView;

    open spec fn view(&self) -> MessageView {
        MessageView {
            from: self.from@,
            to: self.to@,
            priority: self.priority,
            content: self.content@,
        }
    }
}

impl Clone for Message {
    fn clone(&self) -> (r: Self)
        ensures
            r@ == self@,
    {
        let content = self.content.clone();
        assert(content@ =~= self.content@);
        Message { from: self.from.clone(), to: self.to.clone(), priority: self.priority, content }
    }
}

#[derive(Debug, PartialEq, Eq)]
pub struct DeadLetter {
    pub message: Message,
    pub reason: String,
}

pub struct DeadLetterView {
    pub message: MessageView,
    pub reason: Seq<char>,
}

impl View for DeadLetter {
    type V = DeadLetterView;

    open spec fn view(&self) -> DeadLetterView {
        DeadLetterView { message: self.message@, reason: self.reason@ }
    }
}

impl Clone for DeadLetter {
    fn clone(&self) -> (r: Self)
        ensures
            r@ == self@,
    {
        DeadLetter { message: self.message.clone(), reason: self.reason.clone() }
    }
}

/// What a bus holds: one queue for each priority, the most urgent first, and the
/// dead letters, the oldest first.
pub struct BusView {
    pub capacity: nat,
    pub queues: Seq<Seq<MessageView>>,
    pub dead_letters: Seq<DeadLetterView>,
    pub dead_letter_capacity: nat,
}

/// The place of a priority among the queues.
pub open spec fn queue_of(priority: Priority) -> int {
    match priority {
        Priority::P0 => 0,
        Priority::P1 => 1,
        Priority::P2 => 2,
        Priority::P3 => 3,
    }
}

/// All queued messages in the order in which they will be handed out.
pub open spec fn delivery_order(queues: Seq<Seq<MessageView>>) -> Seq<MessageView> {
    queues[0] + queues[1] + queues[2] + queues[3]
}

/// How many dead letters a bus keeps: as many as it queues messages, at least one.
pub open spec fn dead_letter_limit(capacity: nat) -> nat {
    if capacity == 0 {
        1
    } else {
        capacity
    }
}

impl BusView {
    pub open spec fn queued(self) -> nat {
        delivery_order(self.queues).len()
    }

    pub open spec fn wf(self) -> bool {
        &&& self.queues.len() == 4
        &&& self.queued() <= self.capacity
        &&& self.dead_letters.len() <= self.dead_letter_capacity
        &&& self.dead_letter_capacity == dead_letter_limit(self.capacity)
        &&& forall|q: int, i: int|
            0 <= q < 4 && 0 <= i < self.queues[q].len() ==> queue_of(
                (#[trigger] self.queues[q][i]).priority,
            ) == q
    }
}

/// The bus after `dead` was put aside: the oldest dead letter leaves a full list.
pub open spec fn with_dead_letter(b: BusView, dead: DeadLetterView) -> BusView {
    let kept = if b.dead_letters.len() >= b.dead_letter_capacity {
        b.dead_letters.drop_first()
    } else {
        b.dead_letters
    };
    BusView { dead_letters: kept.push(dead), ..b }
}

/// The first queue that holds a message.
pub open spec fn first_waiting(queues: Seq<Seq<MessageView>>) -> Option<int> {
    if queues[0].len() > 0 {
        Some(0)
    } else if queues[1].len() > 0 {
        Some(1)
    } else if queues[2].len() > 0 {
        Some(2)
    } else if queues[3].len() > 0 {
        Some(3)
    } else {
        None
    }
}

pub open spec fn backpressure_letter(message: MessageView) -> DeadLetterView {
    DeadLetterView { message, reason: "backpressure_capacity_exceeded"@ }
}

pub struct MessageBus {
    capacity: usize,
    urgent: VecDeque<Message>,
    high: VecDeque<Message>,
    normal: VecDeque<Message>,
    low: VecDeque<Message>,
    dead_letters: Vec<DeadLetter>,
    dead_letter_capacity: usize,
}

spec fn message_views(s: Seq<Message>) -> Seq<MessageView> {
    Seq::new(s.len(), |i: int| s[i]@)
}

pub open spec fn dead_letter_views(s: Seq<DeadLetter>) -> Seq<DeadLetterView> {
    Seq::new(s.len(), |i: int| s[i]@)
}

impl View for MessageBus {
    type V = BusView;

    closed spec fn view(&self) -> BusView {
        BusView {
            capacity: self.capacity as nat,
            queues: seq![
                message_views(self.urgent@),
                message_views(self.high@),
                message_views(self.normal@),
                message_views(self.low@),
            ],
            dead_letters: dead_letter_views(self.dead_letters@),
            dead_letter_capacity: self.dead_letter_capacity as nat,
        }
    }
}

pub open spec fn empty_bus(capacity: nat) -> BusView {
    BusView {
        capacity,
        queues: seq![Seq::empty(), Seq::empty(), Seq::empty(), Seq::empty()],
        dead_letters: Seq::empty(),
        dead_letter_capacity: dead_letter_limit(capacity),
    }
}

impl MessageBus {
    pub open spec fn wf(self) -> bool {
        self@.wf()
    }

    pub fn new() -> (b: Self)
        ensures
            b.wf(),
            b@ == empty_bus(1024),
    {
        Self::with_capacity(1024)
    }

    pub fn with_capacity(capacity: usize) -> (b: Self)
        ensures
            b.wf(),
            b@ == empty_bus(capacity as nat),
    {
        let b = MessageBus {
            capacity,
            urgent: VecDeque::new(),
            high: VecDeque::new(),
            normal: VecDeque::new(),
            low: VecDeque::new(),
            dead_letters: Vec::new(),
            dead_letter_capacity: if capacity < 1 {
                1
            } else {
                capacity
            },
        };
        proof {
            assert(message_views(b.urgent@) =~= Seq::<MessageView>::empty());
            assert(b@.queues =~= empty_bus(capacity as nat).queues);
            assert(b@.dead_letters =~= Seq::<DeadLetterView>::empty());
        }
        b
    }

    /// Queues `message` behind those of its priority; on a full bus it becomes a
    /// dead letter and is handed back.
    pub fn publish(&mut self, message: Message) -> (r: Result<(), DeadLetter>)
        requires
            old(self).wf(),
        ensures
            final(self).wf(),
            (final(self)@, r is Ok) == publish_outcome(old(self)@, message@),
            match r {
                Ok(_) => {
                    &&& old(self)@.queued() < old(self)@.capacity
                    &&& final(self)@ == published(old(self)@, message@)
                },
                Err(dead) => {
                    &&& old(self)@.queued() >= old(self)@.capacity
                    &&& dead@ == backpressure_letter(message@)
                    &&& final(self)@ == with_dead_letter(old(self)@, dead@)
                },
            },
    {
        if self.len() >= self.capacity {
            let dead = DeadLetter {
                message,
                reason: "backpressure_capacity_exceeded".to_owned(),
            };
            let copy = dead.clone();
            self.push_dead_letter(copy);
            return Err(dead);
        }
        let ghost view = message@;
        let ghost before = *self;
        match message.priority {
            Priority::P0 => {
                self.urgent.push_back(message);
                assert(message_views(self.urgent@) =~= message_views(before.urgent@).push(view));
            },
            Priority::P1 => {
                self.high.push_back(message);
                assert(message_views(self.high@) =~= message_views(before.high@).push(view));
            },
            Priority::P2 => {
                self.normal.push_back(message);
                assert(message_views(self.normal@) =~= message_views(before.normal@).push(view));
            },
            Priority::P3 => {
                self.low.push_back(message);
                assert(message_views(self.low@) =~= message_views(before.low@).push(view));
            },
        }
        proof {
            assert(self@.queues =~= published(before@, view).queues);
        }
        Ok(())
    }

    /// Takes the oldest message of the most urgent priority that has one.
    pub fn pop_next(&mut self) -> (r: Option<Message>)
        requires
            old(self).wf(),
        ensures
            final(self).wf(),
            match r {
                Some(m) => {
                    &&& first_waiting(old(self)@.queues) is Some
                    &&& m@ == delivery_order(old(self)@.queues)[0]
                    &&& final(self)@ == popped(old(self)@)
                },
                None => {
                    &&& old(self)@.queued() == 0
                    &&& final(self)@ == old(self)@
                },
            },
    {
        let ghost before = *self;
        if let Some(m) = self.urgent.pop_front() {
            proof {
                assert(message_views(self.urgent@) =~= message_views(before.urgent@).drop_first());
                assert(self@.queues =~= popped(before@).queues);
                assert(m@ == message_views(before.urgent@)[0]);
            }
            return Some(m);
        }
        assert(self@ == before@);
        if let Some(m) = self.high.pop_front() {
            proof {
                assert(message_views(self.high@) =~= message_views(before.high@).drop_first());
                assert(self@.queues =~= popped(before@).queues);
                assert(m@ == message_views(before.high@)[0]);
            }
            return Some(m);
        }
        if let Some(m) = self.normal.pop_front() {
            proof {
                assert(message_views(self.normal@) =~= message_views(before.normal@).drop_first());
                assert(self@.queues =~= popped(before@).queues);
                assert(m@ == message_views(before.normal@)[0]);
            }
            return Some(m);
        }
        if let Some(m) = self.low.pop_front() {
            proof {
                assert(message_views(self.low@) =~= message_views(before.low@).drop_first());
                assert(self@.queues =~= popped(before@).queues);
                assert(m@ == message_views(before.low@)[0]);
            }
            return Some(m);
        }
        None
    }

    /// Puts `message` aside as a dead letter.
    pub fn reject(&mut self, message: Message, reason: &str)
        requires
            old(self).wf(),
        ensures
            final(self).wf(),
            final(self)@ == with_dead_letter(
                old(self)@,
                (DeadLetterView { message: message@, reason: reason@ }),
            ),
    {
        self.push_dead_letter(DeadLetter { message, reason: reason.to_owned() });
    }

    /// The number of queued messages.
    pub fn len(&self) -> (n: usize)
        requires
            self.wf(),
        ensures
            n == self@.queued(),
    {
        self.urgent.len() + self.high.len() + self.normal.len() + self.low.len()
    }

    pub fn is_empty(&self) -> (b: bool)
        requires
            self.wf(),
        ensures
            b == (self@.queued() == 0),
    {
        self.len() == 0
    }

    pub fn dead_letters(&self) -> (d: &[DeadLetter])
        ensures
            dead_letter_views(d@) == self@.dead_letters,
    {
        self.dead_letters.as_slice()
    }

    fn push_dead_letter(&mut self, dead: DeadLetter)
        requires
            old(self).wf(),
        ensures
            final(self).wf(),
            final(self)@ == with_dead_letter(old(self)@, dead@),
    {
        let ghost before = *self;
        let ghost view = dead@;
        if self.dead_letters.len() >= self.dead_letter_capacity {
            let _ = self.dead_letters.remove(0);
        }
        self.dead_letters.push(dead);
        assert(self@.dead_letters =~= with_dead_letter(before@, view).dead_letters);
    }
}

impl Default for MessageBus {
    fn default() -> (b: Self)
        ensures
            b.wf(),
            b@ == empty_bus(1024),
    {
        Self::new()
    }
}

/// The bus after `m` was queued.
pub open spec fn published(b: BusView, m: MessageView) -> BusView {
    let q = queue_of(m.priority);
    BusView { queues: b.queues.update(q, b.queues[q].push(m)), ..b }
}

/// The bus after a message was to be queued, and whether it was: a full bus puts it aside.
pub open spec fn publish_outcome(b: BusView, m: MessageView) -> (BusView, bool) {
    if b.queued() < b.capacity {
        (published(b, m), true)
    } else {
        (with_dead_letter(b, backpressure_letter(m)), false)
    }
}

/// The bus after its next message was taken.
pub open spec fn popped(b: BusView) -> BusView {
    match first_waiting(b.queues) {
        Some(q) => BusView { queues: b.queues.update(q, b.queues[q].drop_first()), ..b },
        None => b,
    }
}

/// Taking a message takes the first one in delivery order and leaves the others
/// in their order.
pub proof fn law_pop_takes_the_front(b: BusView)
    requires
        b.wf(),
        b.queued() > 0,
    ensures
        delivery_order(popped(b).queues) == delivery_order(b.queues).drop_first(),
{
    assert(delivery_order(popped(b).queues) =~= delivery_order(b.queues).drop_first());
}

/// No message is handed out before a queued one of a more urgent priority.
pub proof fn law_delivery_respects_priority(b: BusView, i: int, j: int)
    requires
        b.wf(),
        0 <= i < j < b.queued(),
    ensures
        queue_of(delivery_order(b.queues)[i].priority) <= queue_of(
            delivery_order(b.queues)[j].priority,
        ),
{
    lemma_priority_at(b, i);
    lemma_priority_at(b, j);
}

/// The queue from which the message at place `i` of the delivery order comes.
spec fn queue_at(b: BusView, i: int) -> int {
    if i < b.queues[0].len() {
        0
    } else if i < b.queues[0].len() + b.queues[1].len() {
        1
    } else if i < b.queues[0].len() + b.queues[1].len() + b.queues[2].len() {
        2
    } else {
        3
    }
}

proof fn lemma_priority_at(b: BusView, i: int)
    requires
        b.wf(),
        0 <= i < b.queued(),
    ensures
        queue_of(delivery_order(b.queues)[i].priority) == queue_at(b, i),
{
    let a0 = b.queues[0].len() as int;
    let a1 = a0 + b.queues[1].len();
    let a2 = a1 + b.queues[2].len();
    if i < a0 {
        assert(delivery_order(b.queues)[i] == b.queues[0][i]);
    } else if i < a1 {
        assert(delivery_order(b.queues)[i] == b.queues[1][i - a0]);
    } else if i < a2 {
        assert(delivery_order(b.queues)[i] == b.queues[2][i - a1]);
    } else {
        assert(delivery_order(b.queues)[i] == b.queues[3][i - a2]);
    }
}

/// Messages of one priority leave in the order in which they came: a new message
/// goes behind all queued ones that are at least as urgent and before all others.
pub proof fn law_publish_keeps_order(b: BusView, m: MessageView)
    requires
        b.wf(),
    ensures
        exists|k: int|
            {
                &&& 0 <= k <= b.queued()
                &&& delivery_order(published(b, m).queues) == #[trigger] delivery_order(
                    b.queues,
                ).insert(k, m)
                &&& forall|i: int|
                    0 <= i < k ==> queue_of((#[trigger] delivery_order(b.queues)[i]).priority)
                        <= queue_of(m.priority)
                &&& forall|i: int|
                    k <= i < b.queued() ==> queue_of(
                        (#[trigger] delivery_order(b.queues)[i]).priority,
                    ) > queue_of(m.priority)
            },
{
    let q = queue_of(m.priority);
    let a0 = b.queues[0].len() as int;
    let a1 = a0 + b.queues[1].len();
    let a2 = a1 + b.queues[2].len();
    let a3 = a2 + b.queues[3].len();
    let k = if q == 0 {
        a0
    } else if q == 1 {
        a1
    } else if q == 2 {
        a2
    } else {
        a3
    };
    assert(delivery_order(published(b, m).queues) =~= delivery_order(b.queues).insert(k, m));
    assert forall|i: int| 0 <= i < b.queued() implies queue_of(
        (#[trigger] delivery_order(b.queues)[i]).priority,
    ) == queue_at(b, i) by {
        lemma_priority_at(b, i);
    }
}

/// A message is queued exactly if there is room. One that is not is put aside with the
/// reason, and what is queued stays as it is.
pub proof fn law_a_full_bus_puts_messages_aside(b: BusView, m: MessageView)
    requires
        b.wf(),
    ensures
        ({
            let (c, queued) = publish_outcome(b, m);
            let n = delivery_order(b.queues).len();
            &&& queued <==> n < b.capacity
            &&& c.capacity == b.capacity
            &&& queued ==> delivery_order(c.queues).len() == n + 1 && delivery_order(
                c.queues,
            ).contains(m) && c.dead_letters == b.dead_letters
            &&& !queued ==> c.queues == b.queues && c.dead_letters.last().message == m
                && c.dead_letters.last().reason == "backpressure_capacity_exceeded"@
        }),
{
    if b.queued() < b.capacity {
        law_publish_keeps_order(b, m);
        let k = choose|k: int|
            {
                &&& 0 <= k <= b.queued()
                &&& delivery_order(published(b, m).queues) == #[trigger] delivery_order(
                    b.queues,
                ).insert(k, m)
            };
        assert(delivery_order(published(b, m).queues)[k] == m);
    }
}

/// A message that is put aside is the last of the dead letters; the others keep their
/// order, and only where there is no room the oldest of them leaves.
pub proof fn law_dead_letters_are_kept_in_order(b: BusView, dead: DeadLetterView)
    requires
        b.wf(),
    ensures
        ({
            let c = with_dead_letter(b, dead);
            &&& c.queues == b.queues
            &&& c.dead_letters.last() == dead
            &&& c.dead_letters.len() <= b.dead_letter_capacity
            &&& b.dead_letters.len() < b.dead_letter_capacity ==> c.dead_letters.drop_last()
                == b.dead_letters
            &&& b.dead_letters.len() == b.dead_letter_capacity ==> c.dead_letters.drop_last()
                == b.dead_letters.skip(1)
        }),
{
    let c = with_dead_letter(b, dead);
    if b.dead_letters.len() < b.dead_letter_capacity {
        assert(c.dead_letters.drop_last() =~= b.dead_letters);
    } else {
        assert(c.dead_letters.drop_last() =~= b.dead_letters.skip(1));
    }
}

/// P0 is the most urgent priority, P3 the least; on an empty bus a message is the next one,
/// and the next message is one of the most urgent ones.
pub proof fn law_the_most_urgent_message_is_next(b: BusView, m: MessageView)
    requires
        b.wf(),
        b.queued() > 0,
    ensures
        queue_of(Priority::P0) < queue_of(Priority::P1) < queue_of(Priority::P2) < queue_of(
            Priority::P3,
        ),
        first_waiting(b.queues) is Some,
        delivery_order(b.queues).contains(m) ==> queue_of(delivery_order(b.queues)[0].priority)
            <= queue_of(m.priority),
        delivery_order(popped(b).queues).len() == b.queued() - 1,
        popped(b).dead_letters == b.dead_letters,
{
    law_pop_takes_the_front(b);
    if delivery_order(b.queues).contains(m) {
        let i = choose|i: int|
            0 <= i < delivery_order(b.queues).len() && delivery_order(b.queues)[i] == m;
        if i > 0 {
            law_delivery_respects_priority(b, 0, i);
        }
    }
}

/// A bus begins without messages, and keeps as many dead letters as messages, but at least
/// one.
pub proof fn law_how_a_bus_begins(capacity: nat)
    ensures
        delivery_order(empty_bus(capacity).queues).len() == 0,
        empty_bus(capacity).dead_letters.len() == 0,
        empty_bus(capacity).capacity == capacity,
        empty_bus(capacity).dead_letter_capacity >= 1,
        capacity >= 1 ==> empty_bus(capacity).dead_letter_capacity == capacity,
        empty_bus(0).dead_letter_capacity == 1,
{
}

} // verus!
