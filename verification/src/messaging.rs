use vstd::prelude::*;
use crate::counter::Counter;
use crate::error::Error;
use crate::log::{newest_first, LogState, RecordLog, MAX_RECORDS};
use crate::principal::Principal;
use crate::record::{Amendable, Entry, Keyed};
use crate::scan::{count, kept_by, lemma_same_filter, named_by, newest, Filter};

verus! {

/// A message from a sender to a recipient. Only the mark that the recipient
/// has read it can change after it was sent.
#[derive(Debug, PartialEq, Eq)]
pub struct Message {
    pub id: u64,
    pub sender: Principal,
    pub recipient: Principal,
    pub content_hash: String,
    pub timestamp: u64,
    pub is_read: bool,
}

impl Clone for Message {
    fn clone(&self) -> (copy: Message)
        ensures
            copy == *self,
    {
        Message {
            id: self.id,
            sender: self.sender.clone(),
            recipient: self.recipient.clone(),
            content_hash: self.content_hash.clone(),
            timestamp: self.timestamp,
            is_read: self.is_read,
        }
    }
}

impl Entry for Message {
    open spec fn names(&self, actor: Seq<char>) -> bool {
        self.recipient@ == actor || self.sender@ == actor
    }

    open spec fn stamp(&self) -> u64 {
        self.timestamp
    }

    fn involves(&self, actor: &Principal) -> (hit: bool) {
        self.recipient.same_as(actor) || self.sender.same_as(actor)
    }

    fn duplicate(&self) -> (copy: Message) {
        self.clone()
    }
}

impl Keyed for Message {
    open spec fn key(&self) -> u64 {
        self.id
    }

    open spec fn sealed(self, id: u64, at: u64) -> Message {
        Message {
            id,
            sender: self.sender,
            recipient: self.recipient,
            content_hash: self.content_hash,
            timestamp: at,
            is_read: self.is_read,
        }
    }

    fn id(&self) -> (id: u64) {
        self.id
    }

    fn seal(self, id: u64, at: u64) -> (full: Message) {
        Message {
            id,
            sender: self.sender,
            recipient: self.recipient,
            content_hash: self.content_hash,
            timestamp: at,
            is_read: self.is_read,
        }
    }

    proof fn sealed_is_stamped(self, id: u64, at: u64) {
    }
}

impl Amendable for Message {
    open spec fn entitles(&self, caller: Seq<char>) -> bool {
        self.recipient@ == caller
    }

    open spec fn amended(&self) -> Message {
        Message {
            id: self.id,
            sender: self.sender,
            recipient: self.recipient,
            content_hash: self.content_hash,
            timestamp: self.timestamp,
            is_read: true,
        }
    }

    fn may_amend(&self, caller: &Principal) -> (entitled: bool) {
        self.recipient.same_as(caller)
    }

    fn amend(&self) -> (changed: Message) {
        Message {
            id: self.id,
            sender: self.sender.clone(),
            recipient: self.recipient.clone(),
            content_hash: self.content_hash.clone(),
            timestamp: self.timestamp,
            is_read: true,
        }
    }

    proof fn amended_keeps_identity(&self) {
    }
}

/// The counts of the messaging service: how many messages were sent, and the
/// identifier that the next one will get.
#[derive(Clone, Copy, Debug, PartialEq, Eq, Structural)]
pub struct MessageStats {
    pub total_messages: u64,
    pub next_message_id: u64,
}

/// The filter for what `actor` has not read yet: the messages to that actor
/// that do not carry the mark.
pub open spec fn unread_by(actor: Seq<char>) -> spec_fn(Message) -> bool {
    |m: Message| m.recipient@ == actor && !m.is_read
}

/// The filter for the messages to one actor that the actor has not read.
pub struct UnreadBy<'a> {
    pub actor: &'a Principal,
}

impl<'a> Filter<Message> for UnreadBy<'a> {
    open spec fn keeps(&self, record: Message) -> bool {
        record.recipient@ == self.actor@ && !record.is_read
    }

    fn admits(&self, record: &Message) -> (hit: bool) {
        record.recipient.same_as(self.actor) && !record.is_read
    }
}

/// The messaging service: a log of the messages that were sent.
pub struct MessagingContract {
    log: RecordLog<Message>,
}

impl View for MessagingContract {
    type V = LogState<Message>;

    closed spec fn view(&self) -> LogState<Message> {
        self.log@
    }
}

impl MessagingContract {
    /// The service is one that the engine hands out.
    pub closed spec fn wf(&self) -> bool {
        self.log.wf()
    }

    /// The counts that belong to a state of the service.
    pub open spec fn stats_of(state: LogState<Message>) -> MessageStats {
        MessageStats { total_messages: state.records.len() as u64, next_message_id: state.next_id() }
    }

    /// What is known of every service that the engine hands out.
    pub proof fn lemma_valid(&self)
        requires
            self.wf(),
        ensures
            self@.valid(),
    {
    }

    /// A service that was never set up.
    pub fn new() -> (service: MessagingContract)
        ensures
            service.wf(),
            service@ == LogState::<Message>::fresh(),
    {
        MessagingContract { log: RecordLog::new() }
    }

    /// Sets the service up: no message is sent yet and the first will get the
    /// identifier 1. A service that was set up before stays as it is.
    pub fn init(&mut self) -> (res: Result<(), Error>)
        requires
            old(self).wf(),
        ensures
            final(self).wf(),
            res is Ok,
            final(self)@ == old(self)@.set_up(),
    {
        self.log.init();
        Ok(())
    }

    /// Sends a message from `sender` to `recipient` at the instant `now`. The
    /// caller must have proved the identity of the sender, and the service
    /// must have been set up. The message gets the next identifier, which is
    /// returned, and is not read yet. A refusal leaves the service as it is.
    pub fn send_message(
        &mut self,
        sender_authorized: bool,
        sender: Principal,
        recipient: Principal,
        content_hash: String,
        now: u64,
    ) -> (res: Result<u64, Error>)
        requires
            old(self).wf(),
            old(self)@.records.len() < MAX_RECORDS,
        ensures
            final(self).wf(),
            !sender_authorized ==> res == Err::<u64, Error>(Error::Unauthorized),
            sender_authorized && !old(self)@.ready ==> res == Err::<u64, Error>(
                Error::NotInitialized,
            ),
            sender_authorized && old(self)@.ready ==> res == Ok::<u64, Error>(old(self)@.next_id()),
            res is Err ==> final(self)@ == old(self)@,
            res is Ok ==> final(self)@.ready && final(self)@.records == old(self)@.records.push(
                Message {
                    id: old(self)@.next_id(),
                    sender,
                    recipient,
                    content_hash,
                    timestamp: now,
                    is_read: false,
                },
            ),
            old(self)@.chronological() && (old(self)@.records.len() == 0
                || old(self)@.records.last().stamp() <= now) ==> final(self)@.chronological(),
    {
        if !sender_authorized {
            return Err(Error::Unauthorized);
        }
        let draft = Message { id: 0, sender, recipient, content_hash, timestamp: 0, is_read: false };
        self.log.append(draft, now)
    }

    /// Marks the message `message_id` as read by `user`. The caller must have
    /// proved the identity of `user`, the message must exist, and `user` must
    /// be its recipient. Then the message carries the mark and nothing else
    /// has changed. A refusal leaves the service as it is.
    pub fn mark_as_read(&mut self, user_authorized: bool, user: &Principal, message_id: u64) -> (res:
        Result<(), Error>)
        requires
            old(self).wf(),
        ensures
            final(self).wf(),
            res == old(self)@.verdict(user_authorized, message_id, user@),
            res is Ok ==> final(self)@ == old(self)@.amended(message_id),
            res is Err ==> final(self)@ == old(self)@,
            user_authorized && !old(self)@.holds(message_id) ==> res == Err::<(), Error>(
                Error::NotFound,
            ) && final(self)@ == old(self)@,
            old(self)@.chronological() ==> final(self)@.chronological(),
    {
        self.log.amend(user_authorized, message_id, user)
    }

    /// Copies of the messages that `user` sent or received, the most recently
    /// sent first, at most `limit` of them.
    pub fn get_messages(&self, user: &Principal, limit: u32) -> (out: Vec<Message>)
        ensures
            out@ == newest(self@.records, named_by::<Message>(user@), limit as nat),
            out@.len() <= limit,
            self@.valid() && self@.chronological() ==> newest_first(out@),
    {
        self.log.recent(user, limit)
    }

    /// The number of messages to `user` that `user` has not read.
    pub fn get_unread_count(&self, user: &Principal) -> (unread: u32)
        requires
            self.wf(),
        ensures
            unread == self@.records.filter(unread_by(user@)).len(),
    {
        let filter = UnreadBy { actor: user };
        proof {
            lemma_same_filter(self@.records, kept_by::<Message, UnreadBy>(filter), unread_by(user@));
        }
        count(self.log.records(), &filter) as u32
    }

    /// The counts of the service: the number of messages that were ever sent,
    /// and the identifier of the next. A service that was never set up has none.
    pub fn get_stats(&self) -> (res: Result<MessageStats, Error>)
        requires
            self.wf(),
        ensures
            self@.ready ==> res == Ok::<MessageStats, Error>(Self::stats_of(self@)),
            !self@.ready ==> res == Err::<MessageStats, Error>(Error::NotInitialized),
    {
        match self.log.counter() {
            Some(c) => Ok(
                MessageStats { total_messages: c.total_count(), next_message_id: c.next_id() },
            ),
            None => Err(Error::NotInitialized),
        }
    }

    /// The service that was stored as `stats` and `messages`, if the two make
    /// a service that the engine could have handed out: the counts agree with
    /// the messages, and the k-th message has the identifier k.
    pub fn restore(stats: Option<MessageStats>, messages: Vec<Message>) -> (service: Option<
        MessagingContract,
    >)
        ensures
            service is Some <==> {
                &&& LogState { ready: stats is Some, records: messages@ }.valid()
                &&& stats matches Some(s) ==> s == Self::stats_of(
                    LogState { ready: true, records: messages@ },
                )
            },
            service matches Some(m) ==> m.wf() && m@ == (LogState {
                ready: stats is Some,
                records: messages@,
            }),
    {
        let counter = match stats {
            Some(s) => match Counter::restore(s.next_message_id, s.total_messages) {
                Some(c) => Some(c),
                None => {
                    return None;
                },
            },
            None => None,
        };
        match RecordLog::restore(counter, messages) {
            Some(log) => Some(MessagingContract { log }),
            None => None,
        }
    }

    /// The number of messages that were sent.
    pub fn len(&self) -> (n: usize)
        ensures
            n == self@.records.len(),
    {
        self.log.len()
    }

    /// The counts and the messages, to be stored.
    pub fn into_parts(self) -> (parts: (Option<MessageStats>, Vec<Message>))
        requires
            self.wf(),
        ensures
            parts.0 is Some <==> self@.ready,
            parts.0 matches Some(s) ==> s == Self::stats_of(self@),
            parts.1@ == self@.records,
    {
        let (counter, messages) = self.log.into_parts();
        let stats = match counter {
            Some(c) => Some(
                MessageStats { total_messages: c.total_count(), next_message_id: c.next_id() },
            ),
            None => None,
        };
        (stats, messages)
    }
}

} // verus!
