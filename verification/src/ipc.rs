//! Bookkeeping of the line-framed IPC protocol shared by both daemons: the
//! versioned slot of the latest event, what each connection has already
//! forwarded, the outgoing byte queue, and the client's inbox.

use vstd::prelude::*;

verus! {

/// The byte that ends every frame on the wire.
pub const FRAME_END: u8 = 10;

/// A frame the server sends: an event or the answer to a request.
#[derive(Clone, Copy, Debug, PartialEq, Eq, Structural)]
pub enum Frame<E, R> {
    Event(E),
    Response(R),
}

/// The latest event and how many events were published so far.
pub struct EventSlot<E> {
    pub version: u64,
    pub latest: Option<E>,
}

impl<E> EventSlot<E> {
    /// Nothing published yet.
    pub fn new() -> (slot: EventSlot<E>)
        ensures
            slot.version == 0,
            slot.latest.is_none(),
    {
        EventSlot { version: 0, latest: None }
    }

    /// Publishes the event a request produced, if it produced one: the version
    /// counts it and the slot holds it from now on. Returns whether anything
    /// was published, that is whether connections must be woken.
    pub fn publish(&mut self, event: Option<E>) -> (published: bool)
        requires
            event.is_some() ==> old(self).version < u64::MAX,
        ensures
            published == event.is_some(),
            published ==> final(self).version == old(self).version + 1 && final(self).latest
                == event,
            !published ==> final(self).version == old(self).version && final(self).latest == old(
                self,
            ).latest,
    {
        match event {
            Some(e) => {
                self.version = self.version + 1;
                self.latest = Some(e);
                true
            },
            None => false,
        }
    }

    /// The version and the latest event, read together.
    pub fn snapshot(&self) -> (snapshot: (u64, Option<&E>))
        ensures
            snapshot.0 == self.version,
            snapshot.1 == match self.latest {
                Some(e) => Some(&e),
                None => None::<&E>,
            },
    {
        match &self.latest {
            Some(e) => (self.version, Some(e)),
            None => (self.version, None),
        }
    }
}

/// How far one connection has followed the event slot.
#[derive(Clone, Copy, Debug, PartialEq, Eq, Structural)]
pub struct Subscriber {
    pub last_seen_version: u64,
}

/// What a connection forwards when it reads a snapshot: the event, if the
/// version is newer than the last one it saw.
pub open spec fn forwarded<'a, E>(last_seen: u64, snapshot: (u64, Option<&'a E>)) -> Option<&'a E> {
    if snapshot.0 > last_seen {
        snapshot.1
    } else {
        None
    }
}

impl Subscriber {
    /// A connection that has seen nothing.
    pub fn new() -> (subscriber: Subscriber)
        ensures
            subscriber.last_seen_version == 0,
    {
        Subscriber { last_seen_version: 0 }
    }

    /// Reads a snapshot of the event slot: a newer version moves the
    /// connection forward and hands out its event to forward; an old one is
    /// dropped.
    pub fn observe<'a, E>(&mut self, snapshot: (u64, Option<&'a E>)) -> (event: Option<&'a E>)
        ensures
            event == forwarded(old(self).last_seen_version, snapshot),
            final(self).last_seen_version == if snapshot.0 > old(self).last_seen_version {
                snapshot.0
            } else {
                old(self).last_seen_version
            },
    {
        if snapshot.0 > self.last_seen_version {
            self.last_seen_version = snapshot.0;
            snapshot.1
        } else {
            None
        }
    }
}

/// Which readiness a connection waits for.
#[derive(Clone, Copy, Debug, PartialEq, Eq, Structural)]
pub enum Interest {
    Readable,
    ReadableWritable,
}

/// A connection waits to write only while bytes are queued.
pub open spec fn interest_for(queued: nat) -> Interest {
    if queued == 0 {
        Interest::Readable
    } else {
        Interest::ReadableWritable
    }
}

/// Queues one frame: its bytes, then the end-of-frame byte.
pub fn queue_frame(out: &mut Vec<u8>, frame: &[u8])
    ensures
        final(out)@ == old(out)@ + frame@ + seq![FRAME_END],
{
    let mut i: usize = 0;
    while i < frame.len()
        invariant
            0 <= i <= frame@.len(),
            out@ == old(out)@ + frame@.subrange(0, i as int),
        decreases frame@.len() - i,
    {
        out.push(frame[i]);
        i = i + 1;
        assert(frame@.subrange(0, i as int) == frame@.subrange(0, i - 1) + seq![frame@[i - 1]]);
    }
    assert(frame@.subrange(0, frame@.len() as int) == frame@);
    out.push(FRAME_END);
}

/// Drops the first `written` queued bytes, which the socket accepted.
pub fn consume_written(out: &mut Vec<u8>, written: usize)
    requires
        written <= old(out)@.len(),
    ensures
        final(out)@ == old(out)@.subrange(written as int, old(out)@.len() as int),
{
    let rest = out.split_off(written);
    *out = rest;
}

/// The readiness to wait for with `out` queued.
pub fn interest_after_flush(out: &Vec<u8>) -> (interest: Interest)
    ensures
        interest == interest_for(out@.len()),
{
    if out.len() == 0 {
        Interest::Readable
    } else {
        Interest::ReadableWritable
    }
}

/// A connection ends once the client hung up and everything queued was sent.
pub fn connection_finished(client_disconnected: bool, out: &Vec<u8>) -> (finished: bool)
    ensures
        finished == (client_disconnected && out@.len() == 0),
{
    client_disconnected && out.len() == 0
}

/// The client's hold of the latest event that arrived while it waited for an
/// answer.
pub struct Inbox<E> {
    pub pending_event: Option<E>,
}

impl<E> Inbox<E> {
    /// Nothing held.
    pub fn new() -> (inbox: Inbox<E>)
        ensures
            inbox.pending_event.is_none(),
    {
        Inbox { pending_event: None }
    }

    /// Takes a frame read while waiting for the answer to a request: the
    /// answer is returned; an event is held in place of any older one, and the
    /// wait goes on.
    pub fn receive_while_waiting<R>(&mut self, frame: Frame<E, R>) -> (answer: Option<R>)
        ensures
            match frame {
                Frame::Response(r) => answer == Some(r) && final(self).pending_event
                    == old(self).pending_event,
                Frame::Event(e) => answer.is_none() && final(self).pending_event == Some(e),
            },
    {
        match frame {
            Frame::Response(r) => Some(r),
            Frame::Event(e) => {
                self.pending_event = Some(e);
                None
            },
        }
    }

    /// Hands out the held event, if any, and holds nothing afterwards.
    pub fn take_event(&mut self) -> (event: Option<E>)
        ensures
            event == old(self).pending_event,
            final(self).pending_event.is_none(),
    {
        self.pending_event.take()
    }
}

/// What a frame read while polling for events gives: an event, or `None` for
/// a stale answer that arrived instead.
pub fn event_of_frame<E, R>(frame: Frame<E, R>) -> (event: Option<E>)
    ensures
        match frame {
            Frame::Event(e) => event == Some(e),
            Frame::Response(_) => event.is_none(),
        },
{
    match frame {
        Frame::Event(e) => Some(e),
        Frame::Response(_) => None,
    }
}

/// A connection forwards each published event at most once: reading the same
/// snapshot again, after it moved forward, forwards nothing.
pub proof fn events_are_forwarded_once<E>(last_seen: u64, snapshot: (u64, Option<&E>))
    ensures
        forwarded(last_seen, snapshot).is_some() ==> forwarded(snapshot.0, snapshot).is_none(),
{
}

/// A connection that has not seen the latest version forwards the latest
/// event, whatever it saw before; one that has seen it forwards nothing.
pub proof fn latest_event_reaches_every_connection<E>(slot: EventSlot<E>, last_seen: u64)
    ensures
        ({
            let snapshot = (slot.version, match slot.latest {
                Some(e) => Some(&e),
                None => None::<&E>,
            });
            &&& last_seen < slot.version ==> forwarded(last_seen, snapshot) == snapshot.1
            &&& last_seen >= slot.version ==> forwarded(last_seen, snapshot).is_none()
        }),
{
}

/// Queued frames stay in order and whole: after queueing `frame`, the queue
/// is what it held, the frame, and one end-of-frame byte; once the socket has
/// taken all of it, the connection waits only to read.
pub proof fn queued_frames_flush_completely(held: Seq<u8>, frame: Seq<u8>)
    ensures
        ({
            let queued = held + frame + seq![FRAME_END];
            &&& queued.len() == held.len() + frame.len() + 1
            &&& queued.subrange(0, held.len() as int) == held
            &&& queued.subrange(held.len() as int, (held.len() + frame.len()) as int) == frame
            &&& queued[queued.len() - 1] == FRAME_END
            &&& interest_for(queued.len()) == Interest::ReadableWritable
            &&& interest_for(queued.subrange(queued.len() as int, queued.len() as int).len())
                == Interest::Readable
        }),
{
    let queued = held + frame + seq![FRAME_END];
    assert(queued.subrange(0, held.len() as int) =~= held);
    assert(queued.subrange(held.len() as int, (held.len() + frame.len()) as int) =~= frame);
}

} // verus!
