//! The per-connection registries: the invocations a client awaits, the
//! invocations a server runs, and the upload streams a server receives.
//!
//! Sharing them between tasks (behind a lock) is the caller's business;
//! these types hold the maps and their rules.

use vstd::prelude::*;
use crate::registry::Registry;

verus! {

/// The invocations a client waits on, each with the channel its response
/// messages go to.
pub struct Invocations<S> {
    invocations: Registry<S>,
}

impl<S> View for Invocations<S> {
    type V = Map<Seq<char>, S>;

    closed spec fn view(&self) -> Map<Seq<char>, S> {
        self.invocations@
    }
}

impl<S> Invocations<S> {
    /// No invocation is awaited.
    pub fn new() -> (r: Self)
        ensures
            r@ == Map::<Seq<char>, S>::empty(),
    {
        Invocations { invocations: Registry::new() }
    }

    /// Awaits a response to the invocation `id` on `sender`.
    pub fn insert_invocation(&mut self, id: String, sender: S)
        ensures
            final(self)@ == old(self)@.insert(id@, sender),
    {
        let _ = self.invocations.insert(id, sender);
    }

    /// Awaits the items of the streaming invocation `id` on `sender`.
    pub fn insert_stream_invocation(&mut self, id: String, sender: S)
        ensures
            final(self)@ == old(self)@.insert(id@, sender),
    {
        let _ = self.invocations.insert(id, sender);
    }

    /// Stops awaiting the invocation `id`; returns its channel.
    pub fn remove_invocation(&mut self, id: &str) -> (r: Option<S>)
        ensures
            match r {
                Some(s) => old(self)@.contains_key(id@) && s == old(self)@[id@],
                None => !old(self)@.contains_key(id@),
            },
            final(self)@ == old(self)@.remove(id@),
    {
        let r = self.invocations.remove(id);
        proof {
            if r is None {
                assert(old(self)@.remove(id@) =~= old(self)@);
            }
        }
        r
    }

    /// Stops awaiting the streaming invocation `id`.
    pub fn remove_stream_invocation(&mut self, id: &str)
        ensures
            final(self)@ == old(self)@.remove(id@),
    {
        let _ = self.remove_invocation(id);
    }

    /// The channel of the invocation `id`, if it is awaited.
    pub fn get(&self, id: &str) -> (r: Option<&S>)
        ensures
            match r {
                Some(s) => self@.contains_key(id@) && *s == self@[id@],
                None => !self@.contains_key(id@),
            },
    {
        self.invocations.get(id)
    }

    /// The number of awaited invocations.
    pub fn len(&self) -> (r: usize)
        ensures
            r == self@.len(),
    {
        self.invocations.len()
    }
}

/// The invocations a server is running, each with the handle that stops it
/// (a task handle or a cancellation token).
pub struct InflightInvocations<H> {
    value: Registry<H>,
}

impl<H> View for InflightInvocations<H> {
    type V = Map<Seq<char>, H>;

    closed spec fn view(&self) -> Map<Seq<char>, H> {
        self.value@
    }
}

impl<H> InflightInvocations<H> {
    /// No invocation is running.
    pub fn new() -> (r: Self)
        ensures
            r@ == Map::<Seq<char>, H>::empty(),
    {
        InflightInvocations { value: Registry::new() }
    }

    /// Forgets the invocation `invocation_id` and returns its handle, which
    /// the caller stops; nothing happens for an unknown id.
    pub fn cancel(&mut self, invocation_id: &str) -> (r: Option<H>)
        ensures
            match r {
                Some(h) => old(self)@.contains_key(invocation_id@) && h == old(self)@[invocation_id@],
                None => !old(self)@.contains_key(invocation_id@),
            },
            final(self)@ == old(self)@.remove(invocation_id@),
    {
        let r = self.value.remove(invocation_id);
        proof {
            if r is None {
                assert(old(self)@.remove(invocation_id@) =~= old(self)@);
            }
        }
        r
    }

    /// Forgets the invocation `invocation_id`, which has finished.
    pub fn remove(&mut self, invocation_id: &str)
        ensures
            final(self)@ == old(self)@.remove(invocation_id@),
    {
        let _ = self.cancel(invocation_id);
    }

    /// The handle of the invocation `invocation_id`.
    pub fn get(&self, invocation_id: &str) -> (r: Option<&H>)
        ensures
            match r {
                Some(h) => self@.contains_key(invocation_id@) && *h == self@[invocation_id@],
                None => !self@.contains_key(invocation_id@),
            },
    {
        self.value.get(invocation_id)
    }

    /// Records the running invocation `invocation_id` with its handle.
    pub fn insert(&mut self, invocation_id: String, handle: H)
        ensures
            final(self)@ == old(self)@.insert(invocation_id@, handle),
    {
        let _ = self.value.insert(invocation_id, handle);
    }

    /// Records the cancellation token of the invocation `invocation_id`.
    pub fn insert_token(&mut self, invocation_id: String, cancellation_token: H)
        ensures
            final(self)@ == old(self)@.insert(invocation_id@, cancellation_token),
    {
        self.insert(invocation_id, cancellation_token);
    }
}

/// The upload streams a server receives, each with the sink its items go
/// to.
pub struct UploadSinks<K> {
    value: Registry<K>,
}

impl<K> View for UploadSinks<K> {
    type V = Map<Seq<char>, K>;

    closed spec fn view(&self) -> Map<Seq<char>, K> {
        self.value@
    }
}

impl<K> UploadSinks<K> {
    /// No upload stream is open.
    pub fn new() -> (r: Self)
        ensures
            r@ == Map::<Seq<char>, K>::empty(),
    {
        UploadSinks { value: Registry::new() }
    }

    /// Opens the upload stream `stream_id` with its sink.
    pub fn insert(&mut self, stream_id: String, sink: K)
        ensures
            final(self)@ == old(self)@.insert(stream_id@, sink),
    {
        let _ = self.value.insert(stream_id, sink);
    }

    /// The sink of the upload stream `stream_id`.
    pub fn get_sink(&self, stream_id: &str) -> (r: Option<&K>)
        ensures
            match r {
                Some(k) => self@.contains_key(stream_id@) && *k == self@[stream_id@],
                None => !self@.contains_key(stream_id@),
            },
    {
        self.value.get(stream_id)
    }

    /// Closes the upload stream `stream_id`, dropping its sink.
    pub fn remove(&mut self, stream_id: &str)
        ensures
            final(self)@ == old(self)@.remove(stream_id@),
    {
        let r = self.value.remove(stream_id);
        proof {
            if r is None {
                assert(old(self)@.remove(stream_id@) =~= old(self)@);
            }
        }
    }
}

/// The client streams a hub receives, each with the sink its items go to.
pub struct ClientStreamMap<K> {
    value: Registry<K>,
}

impl<K> View for ClientStreamMap<K> {
    type V = Map<Seq<char>, K>;

    closed spec fn view(&self) -> Map<Seq<char>, K> {
        self.value@
    }
}

impl<K> ClientStreamMap<K> {
    /// No client stream is open.
    pub fn new() -> (r: Self)
        ensures
            r@ == Map::<Seq<char>, K>::empty(),
    {
        ClientStreamMap { value: Registry::new() }
    }

    /// Opens the client stream `stream_id` with its sink.
    pub fn insert(&mut self, stream_id: String, sink: K)
        ensures
            final(self)@ == old(self)@.insert(stream_id@, sink),
    {
        let _ = self.value.insert(stream_id, sink);
    }
}

/// A handle registered under an id is what a lookup of that id finds, and
/// what removing that id hands back; afterwards the id is unknown, and
/// every other id keeps its handle.
pub proof fn law_register_then_lookup_and_remove<H>(
    m: Map<Seq<char>, H>,
    id: Seq<char>,
    handle: H,
    other: Seq<char>,
)
    requires
        other != id,
    ensures
        m.insert(id, handle).contains_key(id),
        m.insert(id, handle)[id] == handle,
        !m.insert(id, handle).remove(id).contains_key(id),
        m.insert(id, handle).remove(id).contains_key(other) == m.contains_key(other),
        m.contains_key(other) ==> m.insert(id, handle).remove(id)[other] == m[other],
{
}

} // verus!
