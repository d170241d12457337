//! Reliable delivery: every message sent through the manager stays pending
//! until the peer acknowledges it, is sent again when its retry time comes,
//! and is given up after the configured number of retries or when it has
//! been pending for too long.

use vstd::prelude::*;
use vstd::std_specs::hash::*;
use vstd::std_specs::iter::IteratorSpec;
use vstd::set_lib::*;
use vstd::string::*;
use crate::text::{decimal, push_decimal};
use std::collections::HashMap;
use crate::channel::{OutboundQueue, QueueView};
use crate::clock::{Duration, Instant};
use crate::error::ChatError;
use crate::protocol::{Message, MessageView};

verus! {

broadcast use group_hash_axioms;

/// Settings of the reliability layer.
#[derive(Debug, Clone, Copy, PartialEq, Eq, Structural)]
pub struct ReliabilityConfig {
    /// How many times an unacknowledged message is sent again.
    pub retry_attempts: u8,
    /// Time between one transmission of a message and the next.
    pub retry_delay: Duration,
    /// How long a message may stay pending before it is given up.
    pub ack_timeout: Duration,
    /// Time between two sweeps for messages that have been pending too long.
    pub cleanup_interval: Duration,
}

impl Default for ReliabilityConfig {
    fn default() -> (config: ReliabilityConfig)
        ensures
            config == (ReliabilityConfig {
                retry_attempts: 3,
                retry_delay: Duration { millis: 2_000 },
                ack_timeout: Duration { millis: 10_000 },
                cleanup_interval: Duration { millis: 30_000 },
            }),
    {
        ReliabilityConfig {
            retry_attempts: 3,
            retry_delay: Duration::from_secs(2),
            ack_timeout: Duration::from_secs(10),
            cleanup_interval: Duration::from_secs(30),
        }
    }
}

/// A message that was sent and has not been acknowledged.
pub struct PendingMessage {
    /// The message as it was sent.
    pub message: Message,
    /// When it was first sent.
    pub sent_at: Instant,
    /// How many times it has been sent again.
    pub retry_count: u8,
    /// When it is due to be sent again.
    pub next_retry: Instant,
}

/// Mathematical view of a [`PendingMessage`].
pub struct PendingView {
    pub message: MessageView,
    pub sent_at: Instant,
    pub retry_count: u8,
    pub next_retry: Instant,
}

impl View for PendingMessage {
    type V = PendingView;

    open spec fn view(&self) -> PendingView {
        PendingView {
            message: self.message@,
            sent_at: self.sent_at,
            retry_count: self.retry_count,
            next_retry: self.next_retry,
        }
    }
}

/// The entry under which a message is first recorded.
pub open spec fn first_pending(message: MessageView, now: Instant, config: ReliabilityConfig)
    -> PendingView {
    PendingView {
        message,
        sent_at: now,
        retry_count: 0,
        next_retry: now.spec_plus(config.retry_delay),
    }
}

/// Whether the retry time of an entry has come.
pub open spec fn retry_due(p: PendingView, now: Instant) -> bool {
    now.spec_reached(p.next_retry)
}

/// Whether an entry has used up its retries.
pub open spec fn exhausted(p: PendingView, config: ReliabilityConfig) -> bool {
    p.retry_count >= config.retry_attempts
}

/// Whether a tick at `now` sends the message of an entry again.
pub open spec fn resent_on_tick(p: PendingView, now: Instant, config: ReliabilityConfig) -> bool {
    retry_due(p, now) && !exhausted(p, config)
}

/// Whether a tick at `now` gives an entry up for want of retries.
pub open spec fn timed_out_on_tick(p: PendingView, now: Instant, config: ReliabilityConfig)
    -> bool {
    retry_due(p, now) && exhausted(p, config)
}

/// An entry after its message was sent again at `now`.
pub open spec fn retried(p: PendingView, now: Instant, config: ReliabilityConfig) -> PendingView {
    PendingView {
        retry_count: (p.retry_count + 1) as u8,
        next_retry: now.spec_plus(config.retry_delay),
        ..p
    }
}

/// What a tick at `now` makes of an entry; `None` where the entry is dropped.
/// An entry that is not due stays as it is. A due entry without retries left
/// is dropped. Any other due entry is retried, or dropped where the outbound
/// queue is closed.
pub open spec fn after_tick(p: PendingView, now: Instant, config: ReliabilityConfig, open: bool)
    -> Option<PendingView> {
    if !retry_due(p, now) {
        Some(p)
    } else if exhausted(p, config) {
        None
    } else if open {
        Some(retried(p, now, config))
    } else {
        None
    }
}

/// The pending messages after a tick at `now`.
pub open spec fn pending_after_tick(
    pending: Map<u64, PendingView>,
    now: Instant,
    config: ReliabilityConfig,
    open: bool,
) -> Map<u64, PendingView> {
    Map::new(
        |id: u64| pending.contains_key(id) && after_tick(pending[id], now, config, open) is Some,
        |id: u64| after_tick(pending[id], now, config, open)->0,
    )
}

/// Whether an entry has been pending for longer than the acknowledgment
/// timeout.
pub open spec fn expired(p: PendingView, now: Instant, config: ReliabilityConfig) -> bool {
    now.spec_later_than(p.sent_at, config.ack_timeout)
}

/// The pending messages after a sweep at `now`.
pub open spec fn pending_after_cleanup(
    pending: Map<u64, PendingView>,
    now: Instant,
    config: ReliabilityConfig,
) -> Map<u64, PendingView> {
    Map::new(
        |id: u64| pending.contains_key(id) && !expired(pending[id], now, config),
        |id: u64| pending[id],
    )
}

/// The messages of the entries `ids`, in that order.
pub open spec fn messages_of(pending: Map<u64, PendingView>, ids: Seq<u64>) -> Seq<MessageView> {
    ids.map_values(|id: u64| pending[id].message)
}

/// What one tick did.
#[derive(Debug)]
pub struct RetryReport {
    /// Ids of the messages that were sent again, in the order they were
    /// queued.
    pub resent: Vec<u64>,
    /// Ids of the messages given up because their retries were used up.
    pub timed_out: Vec<u64>,
    /// Ids of the messages dropped because the outbound queue is closed.
    pub undelivered: Vec<u64>,
}

proof fn lemma_push_contains(s: Seq<u64>, v: u64, x: u64)
    ensures
        s.push(v).contains(x) <==> (s.contains(x) || x == v),
        (s.no_duplicates() && !s.contains(v)) ==> s.push(v).no_duplicates(),
{
    let longer = s.push(v);
    if s.contains(x) {
        let j = choose|j: int| 0 <= j < s.len() && s[j] == x;
        assert(longer[j] == x);
    }
    if x == v {
        assert(longer[s.len() as int] == x);
    }
    if longer.contains(x) {
        let j = choose|j: int| 0 <= j < longer.len() && longer[j] == x;
        if j < s.len() {
            assert(s[j] == x);
        }
    }
}

proof fn lemma_take_contains(s: Seq<u64>, i: int, x: u64)
    requires
        0 <= i < s.len(),
    ensures
        s.take(i + 1).contains(x) <==> (s.take(i).contains(x) || s[i] == x),
        s.no_duplicates() ==> !s.take(i).contains(s[i]),
{
    let longer = s.take(i + 1);
    let shorter = s.take(i);
    if shorter.contains(x) {
        let j = choose|j: int| 0 <= j < shorter.len() && shorter[j] == x;
        assert(longer[j] == x);
    }
    if s[i] == x {
        assert(longer[i] == x);
    }
    if longer.contains(x) {
        let j = choose|j: int| 0 <= j < longer.len() && longer[j] == x;
        if j < i {
            assert(shorter[j] == x);
        }
    }
    if s.no_duplicates() && shorter.contains(s[i]) {
        let j = choose|j: int| 0 <= j < shorter.len() && shorter[j] == s[i];
        assert(s[j] == s[i]);
    }
}

/// Among the ids `among`, those whose entry has been retried `count` times.
pub open spec fn counted(pending: Map<u64, PendingView>, among: Set<u64>, count: u8) -> Set<u64> {
    among.filter(|id: u64| pending[id].retry_count == count)
}

/// The ids of the pending messages that have been retried `count` times.
pub open spec fn with_retry_count(pending: Map<u64, PendingView>, count: u8) -> Set<u64> {
    counted(pending, pending.dom(), count)
}

/// The part of the statistics text for one retry count, empty where no
/// message has that count.
pub open spec fn entry_text(distribution: Map<u8, usize>, count: u8) -> Seq<char> {
    if distribution.contains_key(count) {
        decimal(count as nat) + ":"@ + decimal(distribution[count] as nat) + " "@
    } else {
        Seq::empty()
    }
}

/// The parts of the statistics text for the retry counts below `bound`, in
/// ascending order.
pub open spec fn entries_text(distribution: Map<u8, usize>, bound: nat) -> Seq<char>
    decreases bound,
{
    if bound == 0 {
        Seq::empty()
    } else {
        entries_text(distribution, (bound - 1) as nat) + entry_text(
            distribution,
            (bound - 1) as u8,
        )
    }
}

/// The statistics text: the number of pending messages and, where there are
/// any, how many of them have been retried how often.
pub open spec fn stats_text(total: usize, distribution: Map<u8, usize>) -> Seq<char> {
    let head = "Pending messages: "@ + decimal(total as nat);
    if distribution.dom().len() == 0 {
        head
    } else {
        head + " (retries: "@ + entries_text(distribution, 256) + ")"@
    }
}

/// Numbers about the pending messages, for diagnostics.
#[derive(Debug)]
pub struct ReliabilityStats {
    /// Number of pending messages.
    pub total_pending: usize,
    /// For each retry count that occurs, the number of pending messages
    /// with that count.
    pub retry_distribution: HashMap<u8, usize>,
}

impl ReliabilityStats {
    /// Whether these are the statistics of `pending`.
    pub open spec fn describes(&self, pending: Map<u64, PendingView>) -> bool {
        &&& self.total_pending == pending.dom().len()
        &&& forall|count: u8|
            #![trigger self.retry_distribution@.contains_key(count)]
            self.retry_distribution@.contains_key(count) <==> with_retry_count(
                pending,
                count,
            ).len() > 0
        &&& forall|count: u8|
            #![trigger self.retry_distribution@[count]]
            self.retry_distribution@.contains_key(count) ==> self.retry_distribution@[count]
                == with_retry_count(pending, count).len()
    }

    /// The statistics as one line of text, retry counts in ascending order.
    #[verifier::rlimit(50)]
    pub fn to_string(&self) -> (s: String)
        ensures
            s@ == stats_text(self.total_pending, self.retry_distribution@),
    {
        let mut s = "Pending messages: ".to_owned();
        push_decimal(&mut s, self.total_pending as u64);
        if self.retry_distribution.len() == 0 {
            return s;
        }
        let ghost head = s@;
        s.append(" (retries: ");
        let mut count: u8 = 0;
        let mut done = false;
        while !done
            invariant
                head == "Pending messages: "@ + decimal(self.total_pending as nat),
                !done ==> s@ == head + " (retries: "@ + entries_text(
                    self.retry_distribution@,
                    count as nat,
                ),
                done ==> s@ == head + " (retries: "@ + entries_text(
                    self.retry_distribution@,
                    256,
                ),
            decreases
                    if done {
                        0int
                    } else {
                        256 - count
                    },
        {
            let ghost so_far = s@;
            match self.retry_distribution.get(&count) {
                Some(n) => {
                    push_decimal(&mut s, count as u64);
                    s.append(":");
                    push_decimal(&mut s, *n as u64);
                    s.append(" ");
                },
                None => {},
            }
            assert(s@ =~= so_far + entry_text(self.retry_distribution@, count));
            assert(s@ =~= head + " (retries: "@ + entries_text(
                self.retry_distribution@,
                (count + 1) as nat,
            ));
            if count == 255 {
                done = true;
            } else {
                count += 1;
            }
        }
        s.append(")");
        s
    }
}

/// What a run of ticks, with the outbound queue open, makes of an entry;
/// `None` once the entry has been dropped.
pub open spec fn after_ticks(p: PendingView, ticks: Seq<Instant>, config: ReliabilityConfig)
    -> Option<PendingView>
    decreases ticks.len(),
{
    if ticks.len() == 0 {
        Some(p)
    } else {
        match after_ticks(p, ticks.drop_last(), config) {
            Some(q) => after_tick(q, ticks.last(), config, true),
            None => None,
        }
    }
}

/// How many times a run of ticks sends the message of an entry again.
pub open spec fn resends(p: PendingView, ticks: Seq<Instant>, config: ReliabilityConfig) -> nat
    decreases ticks.len(),
{
    if ticks.len() == 0 {
        0
    } else {
        let earlier = resends(p, ticks.drop_last(), config);
        match after_ticks(p, ticks.drop_last(), config) {
            Some(q) => if resent_on_tick(q, ticks.last(), config) {
                earlier + 1
            } else {
                earlier
            },
            None => earlier,
        }
    }
}

/// Whether every tick of a run comes when the entry, if it is still there,
/// is due.
pub open spec fn each_tick_due(p: PendingView, ticks: Seq<Instant>, config: ReliabilityConfig)
    -> bool
    decreases ticks.len(),
{
    if ticks.len() == 0 {
        true
    } else {
        &&& each_tick_due(p, ticks.drop_last(), config)
        &&& after_ticks(p, ticks.drop_last(), config) matches Some(q) ==> retry_due(
            q,
            ticks.last(),
        )
    }
}

/// The pending messages after a run of ticks with the outbound queue open.
pub open spec fn pending_after_ticks(
    pending: Map<u64, PendingView>,
    ticks: Seq<Instant>,
    config: ReliabilityConfig,
) -> Map<u64, PendingView>
    decreases ticks.len(),
{
    if ticks.len() == 0 {
        pending
    } else {
        pending_after_tick(
            pending_after_ticks(pending, ticks.drop_last(), config),
            ticks.last(),
            config,
            true,
        )
    }
}

/// A message that is never acknowledged is sent again once at each of its
/// first `retry_attempts` due ticks, each time with its next retry one retry
/// delay after the tick, and is still pending after them.
pub proof fn lemma_retried_until_limit(
    message: MessageView,
    sent: Instant,
    ticks: Seq<Instant>,
    config: ReliabilityConfig,
)
    requires
        ticks.len() <= config.retry_attempts,
        each_tick_due(first_pending(message, sent, config), ticks, config),
    ensures
        resends(first_pending(message, sent, config), ticks, config) == ticks.len(),
        after_ticks(first_pending(message, sent, config), ticks, config) matches Some(q) && q
            == (PendingView {
            message,
            sent_at: sent,
            retry_count: ticks.len() as u8,
            next_retry: if ticks.len() == 0 {
                sent.spec_plus(config.retry_delay)
            } else {
                ticks.last().spec_plus(config.retry_delay)
            },
        }),
    decreases ticks.len(),
{
    if ticks.len() > 0 {
        lemma_retried_until_limit(message, sent, ticks.drop_last(), config);
    }
}

/// A message that is never acknowledged is dropped at the due tick that
/// follows its last retry: after `retry_attempts + 1` due ticks it has been
/// sent again exactly `retry_attempts` times and is no longer pending.
pub proof fn lemma_dropped_after_limit(
    message: MessageView,
    sent: Instant,
    ticks: Seq<Instant>,
    config: ReliabilityConfig,
)
    requires
        ticks.len() == config.retry_attempts + 1,
        each_tick_due(first_pending(message, sent, config), ticks, config),
    ensures
        resends(first_pending(message, sent, config), ticks, config) == config.retry_attempts,
        after_ticks(first_pending(message, sent, config), ticks, config) is None,
{
    lemma_retried_until_limit(message, sent, ticks.drop_last(), config);
}

/// A tick before the retry time of an entry leaves the entry as it is and
/// sends nothing: two transmissions of a message are at least one retry
/// delay apart.
pub proof fn lemma_no_retry_before_due(p: PendingView, now: Instant, config: ReliabilityConfig)
    requires
        now.millis < p.next_retry.millis,
    ensures
        !resent_on_tick(p, now, config),
        after_tick(p, now, config, true) == Some(p),
{
}

/// Once a message is acknowledged, no run of ticks sends it again: ticks
/// never add to the pending messages, and only pending messages are sent.
pub proof fn lemma_acknowledged_never_resent(
    pending: Map<u64, PendingView>,
    id: u64,
    ticks: Seq<Instant>,
    config: ReliabilityConfig,
)
    ensures
        !pending_after_ticks(pending.remove(id), ticks, config).contains_key(id),
        forall|other: u64|
            pending_after_ticks(pending.remove(id), ticks, config).contains_key(other)
                ==> pending.contains_key(other),
    decreases ticks.len(),
{
    if ticks.len() > 0 {
        lemma_acknowledged_never_resent(pending, id, ticks.drop_last(), config);
    }
}

/// What a reliability manager holds, as plain values.
pub struct ManagerView {
    /// The settings.
    pub config: ReliabilityConfig,
    /// The pending messages by message id.
    pub pending: Map<u64, PendingView>,
}

/// Tracks unacknowledged messages and decides what is sent again.
pub struct ReliabilityManager {
    config: ReliabilityConfig,
    pending_messages: HashMap<u64, PendingMessage>,
}

impl View for ReliabilityManager {
    type V = ManagerView;

    closed spec fn view(&self) -> ManagerView {
        ManagerView {
            config: self.config,
            pending: Map::new(
                |id: u64| self.pending_messages@.contains_key(id),
                |id: u64| self.pending_messages@[id]@,
            ),
        }
    }
}

impl ReliabilityManager {
    /// A manager with the given settings and nothing pending.
    pub fn new(config: ReliabilityConfig) -> (manager: ReliabilityManager)
        ensures
            manager@.config == config,
            manager@.pending == Map::<u64, PendingView>::empty(),
    {
        let manager = ReliabilityManager { config, pending_messages: HashMap::new() };
        assert(manager@.pending =~= Map::<u64, PendingView>::empty());
        manager
    }

    /// Queues `message` on the outbound queue and records it as pending,
    /// with no retries yet and its first retry one retry delay from `now`.
    /// Fails with `PeerDisconnected`, and changes nothing, exactly where the
    /// queue is closed.
    pub fn send_reliable(&mut self, message: Message, now: Instant, outbound: &mut OutboundQueue)
        -> (r: Result<(), ChatError>)
        ensures
            if old(outbound)@.closed {
                &&& r == Err::<(), ChatError>(ChatError::PeerDisconnected)
                &&& final(self)@ == old(self)@
                &&& final(outbound)@ == old(outbound)@
            } else {
                &&& r is Ok
                &&& final(outbound)@ == (QueueView {
                    messages: old(outbound)@.messages.push(message@),
                    closed: false,
                })
                &&& final(self)@ == (ManagerView {
                    pending: old(self)@.pending.insert(
                        message.id,
                        first_pending(message@, now, old(self)@.config),
                    ),
                    ..old(self)@
                })
            },
    {
        let id = message.id;
        match outbound.send(message.clone()) {
            Ok(()) => {},
            Err(e) => {
                return Err(e);
            },
        }
        let entry = PendingMessage {
            message,
            sent_at: now,
            retry_count: 0,
            next_retry: now.plus(self.config.retry_delay),
        };
        self.pending_messages.insert(id, entry);
        assert(self@.pending =~= old(self)@.pending.insert(
            id,
            first_pending(message@, now, old(self)@.config),
        ));
        Ok(())
    }

    /// Takes the message with id `message_id` off the pending list and says
    /// whether it was there.
    pub fn handle_acknowledgment(&mut self, message_id: u64) -> (known: bool)
        ensures
            known == old(self)@.pending.contains_key(message_id),
            final(self)@ == (ManagerView {
                pending: old(self)@.pending.remove(message_id),
                ..old(self)@
            }),
    {
        let removed = self.pending_messages.remove(&message_id);
        assert(self@.pending =~= old(self)@.pending.remove(message_id));
        removed.is_some()
    }

    /// Number of pending messages.
    pub fn pending_count(&self) -> (n: usize)
        ensures
            n == self@.pending.dom().len(),
            self@.pending.dom().finite(),
    {
        assert(self@.pending.dom() =~= self.pending_messages@.dom());
        self.pending_messages.len()
    }

    /// Whether the message with id `message_id` is pending.
    pub fn is_pending(&self, message_id: u64) -> (pending: bool)
        ensures
            pending == self@.pending.contains_key(message_id),
    {
        self.pending_messages.contains_key(&message_id)
    }

    /// How many times the pending message with id `message_id` has been sent
    /// again, if it is pending.
    pub fn retry_count(&self, message_id: u64) -> (count: Option<u8>)
        ensures
            match count {
                Some(n) => self@.pending.contains_key(message_id) && n
                    == self@.pending[message_id].retry_count,
                None => !self@.pending.contains_key(message_id),
            },
    {
        match self.pending_messages.get(&message_id) {
            Some(entry) => Some(entry.retry_count),
            None => None,
        }
    }

    /// The settings.
    pub fn config(&self) -> (config: ReliabilityConfig)
        ensures
            config == self@.config,
    {
        self.config
    }

    /// One tick of the retry timer at `now`. Every pending message whose
    /// retry time has come is given up if it has no retries left; otherwise
    /// its retry count goes up by one, its next retry is one retry delay
    /// from `now`, and it is queued again on the outbound queue. Messages
    /// that are not due stay as they are. Where the queue is closed, the
    /// messages that would have been sent again are dropped instead.
    #[verifier::rlimit(50)]
    pub fn process_retries(&mut self, now: Instant, outbound: &mut OutboundQueue) -> (report:
        RetryReport)
        ensures
            final(self)@.config == old(self)@.config,
            final(self)@.pending == pending_after_tick(
                old(self)@.pending,
                now,
                old(self)@.config,
                !old(outbound)@.closed,
            ),
            final(outbound)@ == (QueueView {
                messages: old(outbound)@.messages + messages_of(
                    old(self)@.pending,
                    report.resent@,
                ),
                closed: old(outbound)@.closed,
            }),
            report.resent@.no_duplicates(),
            report.timed_out@.no_duplicates(),
            report.undelivered@.no_duplicates(),
            forall|id: u64|
                report.resent@.contains(id) <==> (!old(outbound)@.closed && old(
                    self,
                )@.pending.contains_key(id) && resent_on_tick(
                    old(self)@.pending[id],
                    now,
                    old(self)@.config,
                )),
            forall|id: u64|
                report.undelivered@.contains(id) <==> (old(outbound)@.closed && old(
                    self,
                )@.pending.contains_key(id) && resent_on_tick(
                    old(self)@.pending[id],
                    now,
                    old(self)@.config,
                )),
            forall|id: u64|
                report.timed_out@.contains(id) <==> (old(self)@.pending.contains_key(id)
                    && timed_out_on_tick(old(self)@.pending[id], now, old(self)@.config)),
    {
        let ids = self.pending_ids();
        let open = !outbound.is_closed();
        let config = self.config;
        let ghost before = self@.pending;
        let ghost queued = outbound@.messages;
        let mut resent: Vec<u64> = Vec::new();
        let mut timed_out: Vec<u64> = Vec::new();
        let mut undelivered: Vec<u64> = Vec::new();
        let mut i: usize = 0;
        assert(outbound@.messages =~= queued + messages_of(before, resent@));
        while i < ids.len()
            invariant
                i <= ids@.len(),
                ids@.no_duplicates(),
                forall|id: u64| ids@.contains(id) <==> before.contains_key(id),
                self.config == config,
                open == !outbound@.closed,
                forall|id: u64|
                    #![trigger self@.pending.contains_key(id)]
                    #![trigger before.contains_key(id)]
                    self@.pending.contains_key(id) <==> (before.contains_key(id) && (
                    ids@.take(i as int).contains(id) ==> after_tick(
                        before[id],
                        now,
                        config,
                        open,
                    ) is Some)),
                forall|id: u64|
                    #![trigger self@.pending[id]]
                    self@.pending.contains_key(id) ==> self@.pending[id] == (if ids@.take(
                        i as int,
                    ).contains(id) {
                        after_tick(before[id], now, config, open)->0
                    } else {
                        before[id]
                    }),
                outbound@.messages == queued + messages_of(before, resent@),
                resent@.no_duplicates(),
                timed_out@.no_duplicates(),
                undelivered@.no_duplicates(),
                forall|id: u64|
                    resent@.contains(id) <==> (open && ids@.take(i as int).contains(id)
                        && resent_on_tick(before[id], now, config)),
                forall|id: u64|
                    undelivered@.contains(id) <==> (!open && ids@.take(i as int).contains(id)
                        && resent_on_tick(before[id], now, config)),
                forall|id: u64|
                    timed_out@.contains(id) <==> (ids@.take(i as int).contains(id)
                        && timed_out_on_tick(before[id], now, config)),
            decreases ids@.len() - i,
        {
            let id = ids[i];
            let ghost seen = ids@.take(i as int);
            let ghost pending_now = self@.pending;
            let ghost resent_before = resent@;
            let ghost timed_out_before = timed_out@;
            let ghost undelivered_before = undelivered@;
            proof {
                assert(ids@.contains(id));
                assert forall|x: u64|
                    ids@.take(i + 1).contains(x) <==> (seen.contains(x) || x == id) by {
                    lemma_take_contains(ids@, i as int, x);
                }
                lemma_take_contains(ids@, i as int, id);
                assert(pending_now.contains_key(id));
                assert(pending_now[id] == before[id]);
            }
            let (due, spent) = match self.pending_messages.get(&id) {
                Some(entry) => (
                    now.reached(entry.next_retry),
                    entry.retry_count >= config.retry_attempts,
                ),
                None => (false, false),
            };
            assert(due == retry_due(before[id], now));
            assert(spent == exhausted(before[id], config));
            if due {
                let taken = self.pending_messages.remove(&id);
                assert(self@.pending =~= pending_now.remove(id));
                assert(taken matches Some(entry) && entry@ == before[id]);
                if spent {
                    let ghost old_list = timed_out@;
                    timed_out.push(id);
                    proof {
                        assert forall|x: u64|
                            timed_out@.contains(x) <==> (old_list.contains(x) || x == id) by {
                            lemma_push_contains(old_list, id, x);
                        }
                        lemma_push_contains(old_list, id, id);
                    }
                } else if open {
                    match taken {
                        Some(entry) => {
                            let copy = entry.message.clone();
                            let again = PendingMessage {
                                message: entry.message,
                                sent_at: entry.sent_at,
                                retry_count: entry.retry_count + 1,
                                next_retry: now.plus(config.retry_delay),
                            };
                            let _ = outbound.send(copy);
                            self.pending_messages.insert(id, again);
                            assert(self@.pending =~= pending_now.insert(
                                id,
                                retried(before[id], now, config),
                            ));
                            let ghost old_list = resent@;
                            resent.push(id);
                            proof {
                                assert forall|x: u64|
                                    resent@.contains(x) <==> (old_list.contains(x) || x == id) by {
                                    lemma_push_contains(old_list, id, x);
                                }
                                lemma_push_contains(old_list, id, id);
                                assert(messages_of(before, resent@) =~= messages_of(
                                    before,
                                    old_list,
                                ).push(before[id].message));
                                assert(outbound@.messages =~= queued + messages_of(
                                    before,
                                    resent@,
                                ));
                            }
                        },
                        None => {},
                    }
                } else {
                    let ghost old_list = undelivered@;
                    undelivered.push(id);
                    proof {
                        assert forall|x: u64|
                            undelivered@.contains(x) <==> (old_list.contains(x) || x == id) by {
                            lemma_push_contains(old_list, id, x);
                        }
                        lemma_push_contains(old_list, id, id);
                    }
                }
            }
            proof {
                let grown = ids@.take(i + 1);
                assert forall|x: u64|
                    resent@.contains(x) <==> (open && grown.contains(x) && resent_on_tick(
                        before[x],
                        now,
                        config,
                    )) by {
                    lemma_take_contains(ids@, i as int, x);
                    lemma_push_contains(resent_before, id, x);
                    assert(resent_before.contains(x) <==> (open && seen.contains(x)
                        && resent_on_tick(before[x], now, config)));
                }
                assert forall|x: u64|
                    undelivered@.contains(x) <==> (!open && grown.contains(x) && resent_on_tick(
                        before[x],
                        now,
                        config,
                    )) by {
                    lemma_take_contains(ids@, i as int, x);
                    lemma_push_contains(undelivered_before, id, x);
                    assert(undelivered_before.contains(x) <==> (!open && seen.contains(x)
                        && resent_on_tick(before[x], now, config)));
                }
                assert forall|x: u64|
                    timed_out@.contains(x) <==> (grown.contains(x) && timed_out_on_tick(
                        before[x],
                        now,
                        config,
                    )) by {
                    lemma_take_contains(ids@, i as int, x);
                    lemma_push_contains(timed_out_before, id, x);
                    assert(timed_out_before.contains(x) <==> (seen.contains(x)
                        && timed_out_on_tick(before[x], now, config)));
                }
            }
            i += 1;
        }
        proof {
            assert(ids@.take(i as int) =~= ids@);
            assert(self@.pending =~= pending_after_tick(before, now, config, open));
        }
        RetryReport { resent, timed_out, undelivered }
    }

    /// One sweep at `now`: drops every message that has been pending for
    /// longer than the acknowledgment timeout, whatever its retry count, and
    /// returns how many were dropped.
    #[verifier::rlimit(50)]
    pub fn cleanup_old_messages(&mut self, now: Instant) -> (dropped: usize)
        ensures
            final(self)@.config == old(self)@.config,
            final(self)@.pending == pending_after_cleanup(
                old(self)@.pending,
                now,
                old(self)@.config,
            ),
            dropped == old(self)@.pending.dom().len() - final(self)@.pending.dom().len(),
    {
        let ids = self.pending_ids();
        let config = self.config;
        let initial = self.pending_messages.len();
        let ghost before = self@.pending;
        assert(before.dom() =~= self.pending_messages@.dom());
        let mut i: usize = 0;
        while i < ids.len()
            invariant
                i <= ids@.len(),
                ids@.no_duplicates(),
                forall|id: u64| ids@.contains(id) <==> before.contains_key(id),
                self.config == config,
                forall|id: u64|
                    #![trigger self@.pending.contains_key(id)]
                    #![trigger before.contains_key(id)]
                    self@.pending.contains_key(id) <==> (before.contains_key(id) && (
                    ids@.take(i as int).contains(id) ==> !expired(before[id], now, config))),
                forall|id: u64|
                    #![trigger self@.pending[id]]
                    self@.pending.contains_key(id) ==> self@.pending[id] == before[id],
            decreases ids@.len() - i,
        {
            let id = ids[i];
            let ghost pending_now = self@.pending;
            proof {
                assert(ids@.contains(id));
                assert forall|x: u64|
                    ids@.take(i + 1).contains(x) <==> (ids@.take(i as int).contains(x) || x
                        == id) by {
                    lemma_take_contains(ids@, i as int, x);
                }
                lemma_take_contains(ids@, i as int, id);
                assert(pending_now.contains_key(id));
            }
            let old_enough = match self.pending_messages.get(&id) {
                Some(entry) => now.later_than(entry.sent_at, config.ack_timeout),
                None => false,
            };
            assert(pending_now[id] == before[id]);
            assert(old_enough == expired(before[id], now, config));
            if old_enough {
                self.pending_messages.remove(&id);
                assert(self@.pending =~= pending_now.remove(id));
            }
            i += 1;
        }
        proof {
            assert(ids@.take(i as int) =~= ids@);
            assert(self@.pending =~= pending_after_cleanup(before, now, config));
            assert(self@.pending.dom() =~= self.pending_messages@.dom());
            assert(self@.pending.dom().subset_of(before.dom()));
            lemma_len_subset(self@.pending.dom(), before.dom());
        }
        initial - self.pending_messages.len()
    }

    /// The number of pending messages and, for each retry count that occurs,
    /// the number of pending messages with that count.
    #[verifier::rlimit(50)]
    pub fn get_stats(&self) -> (stats: ReliabilityStats)
        ensures
            stats.describes(self@.pending),
    {
        let ids = self.pending_ids();
        let ghost pending = self@.pending;
        assert(pending.dom() =~= self.pending_messages@.dom());
        let mut distribution: HashMap<u8, usize> = HashMap::new();
        let ghost mut done: Set<u64> = Set::empty();
        let mut i: usize = 0;
        proof {
            assert forall|count: u8| counted(pending, done, count).len() == 0 by {
                assert(counted(pending, done, count) =~= Set::<u64>::empty());
            }
        }
        while i < ids.len()
            invariant
                i <= ids@.len(),
                ids@.no_duplicates(),
                pending == self@.pending,
                pending.dom().finite(),
                forall|id: u64| ids@.contains(id) <==> pending.contains_key(id),
                forall|id: u64| done.contains(id) <==> ids@.take(i as int).contains(id),
                done.finite(),
                done.len() == i,
                done.subset_of(pending.dom()),
                forall|count: u8|
                    #![trigger distribution@.contains_key(count)]
                    distribution@.contains_key(count) <==> counted(pending, done, count).len()
                        > 0,
                forall|count: u8|
                    #![trigger distribution@[count]]
                    distribution@.contains_key(count) ==> distribution@[count] == counted(
                        pending,
                        done,
                        count,
                    ).len(),
            decreases ids@.len() - i,
        {
            let id = ids[i];
            let ghost earlier = done;
            proof {
                assert(ids@.contains(id));
                lemma_take_contains(ids@, i as int, id);
                assert forall|x: u64|
                    ids@.take(i + 1).contains(x) <==> (ids@.take(i as int).contains(x) || x
                        == id) by {
                    lemma_take_contains(ids@, i as int, x);
                }
            }
            let count = match self.pending_messages.get(&id) {
                Some(entry) => entry.retry_count,
                None => 0,
            };
            let so_far = match distribution.get(&count) {
                Some(n) => *n,
                None => 0,
            };
            proof {
                done = earlier.insert(id);
                assert(pending[id].retry_count == count);
                lemma_len_subset(counted(pending, earlier, count), earlier);
                lemma_len_subset(done, pending.dom());
                assert(counted(pending, done, count) =~= counted(pending, earlier, count).insert(
                    id,
                ));
                assert forall|other: u8| other != count implies counted(pending, done, other)
                    == counted(pending, earlier, other) by {
                    assert(counted(pending, done, other) =~= counted(pending, earlier, other));
                }
                assert(so_far == counted(pending, earlier, count).len());
            }
            distribution.insert(count, so_far + 1);
            i += 1;
        }
        proof {
            assert(ids@.take(i as int) =~= ids@);
            assert(done =~= pending.dom());
        }
        ReliabilityStats { total_pending: self.pending_messages.len(), retry_distribution: distribution }
    }

    fn pending_ids(&self) -> (ids: Vec<u64>)
        ensures
            ids@.no_duplicates(),
            forall|id: u64| ids@.contains(id) <==> self.pending_messages@.contains_key(id),
    {
        let mut ids: Vec<u64> = Vec::new();
        let ghost all: Seq<u64> = spec_keys_iter(&self.pending_messages).remaining().unref();
        for key in it: self.pending_messages.keys()
            invariant
                ids@ == all.take(it.index()),
                all == it.seq().unref(),
                all.no_duplicates(),
                all.to_set() == self.pending_messages@.dom(),
        {
            ids.push(*key);
        }
        assert(ids@ =~= all);
        ids
    }
}

} // verus!
