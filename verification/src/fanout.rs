//! Fan-out discipline: a live-viewer counter whose increments and decrements
//! are always paired with a session's life, a latest-frame broadcast slot in
//! which a slow subscriber loses old frames rather than stalling the
//! publisher, and the per-connection session step.

use vstd::prelude::*;

verus! {

/// The count of live viewer connections: many writers (one per connection),
/// one reader (the renderer).
pub struct ViewerCounter {
    pub count: u64,
}

impl ViewerCounter {
    /// No viewers yet.
    pub fn new() -> (r: ViewerCounter)
        ensures
            r.count == 0,
    {
        ViewerCounter { count: 0 }
    }

    /// The current number of live viewers.
    pub fn current(&self) -> (r: u64)
        ensures
            r == self.count,
    {
        self.count
    }
}

/// The latest published frame, with a publication number. Only the newest
/// frame is ever kept: publishing overwrites, it never queues and never
/// blocks on any subscriber.
pub struct FrameBroadcast {
    pub latest: String,
    pub publish_count: u64,
}

impl FrameBroadcast {
    /// Nothing published yet.
    pub fn new() -> (r: FrameBroadcast)
        ensures
            r.publish_count == 0,
    {
        FrameBroadcast { latest: String::new(), publish_count: 0 }
    }

    /// Publishes a frame: it replaces whatever was there, whether or not any
    /// subscriber saw the old one.
    pub fn publish(&mut self, frame: String)
        requires
            old(self).publish_count < u64::MAX,
        ensures
            final(self).latest == frame,
            final(self).publish_count == old(self).publish_count + 1,
    {
        self.latest = frame;
        self.publish_count = self.publish_count + 1;
    }
}

/// One viewer's subscription: how far into the publication sequence it has
/// read.
pub struct Subscription {
    pub seen: u64,
}

impl Subscription {
    /// Subscribes at the current position: only frames published from now on
    /// are delivered.
    pub fn subscribe(b: &FrameBroadcast) -> (r: Subscription)
        ensures
            r.seen == b.publish_count,
    {
        Subscription { seen: b.publish_count }
    }

    /// Takes the newest unseen frame, if there is one. Frames that were
    /// overwritten before this call are lost to this subscriber, never
    /// delivered out of order, and never stall the publisher.
    pub fn poll(&mut self, b: &FrameBroadcast) -> (r: Option<String>)
        ensures
            b.publish_count > old(self).seen ==> r == Some(b.latest) && final(self).seen
                == b.publish_count,
            b.publish_count <= old(self).seen ==> r == None::<String> && *final(self) == *old(
                self,
            ),
    {
        if b.publish_count > self.seen {
            self.seen = b.publish_count;
            Some(b.latest.clone())
        } else {
            None
        }
    }
}

/// What a connection task observes while it streams.
pub enum ViewerEvent {
    /// A frame arrived from the broadcast.
    Frame(String),
    /// Writing to the viewer's socket failed.
    WriteFailed,
    /// The broadcast can no longer deliver to this subscriber.
    StreamClosed,
}

/// What the connection task must do next.
pub enum ViewerAction {
    /// Write this frame to the socket.
    SendFrame(String),
    /// Restore the viewer's terminal and close the connection.
    Cleanup,
}

/// One viewer connection's life: opened on accept, closed on the first write
/// failure or when the broadcast ends. Its opening and closing are paired
/// exactly with one increment and one decrement of the viewer counter.
pub struct ViewerSession {
    pub live: bool,
}

impl ViewerSession {
    /// Accepting a connection: the viewer counter rises by exactly one.
    pub fn open(counter: &mut ViewerCounter) -> (r: ViewerSession)
        requires
            old(counter).count < u64::MAX,
        ensures
            r.live,
            final(counter).count == old(counter).count + 1,
    {
        counter.count = counter.count + 1;
        ViewerSession { live: true }
    }

    /// One step of the streaming loop. A frame is forwarded and the session
    /// stays live; a write failure or a closed stream ends the session and
    /// gives the counter's decrement back — exactly once, whatever else
    /// happens to other sessions.
    pub fn on_event(&mut self, event: ViewerEvent, counter: &mut ViewerCounter) -> (act:
        ViewerAction)
        requires
            old(self).live,
            old(counter).count >= 1,
        ensures
            match event {
                ViewerEvent::Frame(f) => act == ViewerAction::SendFrame(f) && final(self).live
                    && final(counter).count == old(counter).count,
                ViewerEvent::WriteFailed | ViewerEvent::StreamClosed => act
                    == ViewerAction::Cleanup && !final(self).live && final(counter).count == old(
                    counter,
                ).count - 1,
            },
    {
        match event {
            ViewerEvent::Frame(f) => ViewerAction::SendFrame(f),
            ViewerEvent::WriteFailed => {
                self.live = false;
                counter.count = counter.count - 1;
                ViewerAction::Cleanup
            },
            ViewerEvent::StreamClosed => {
                self.live = false;
                counter.count = counter.count - 1;
                ViewerAction::Cleanup
            },
        }
    }
}

} // verus!
