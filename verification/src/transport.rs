//! The unified duplex byte-stream abstraction: a plaintext and an encrypted
//! variant behind one read/write/flush interface.  Callers never branch on
//! the variant; everything observable about a stream is its I/O model
//! (injected bytes, read cursor, written bytes, flushed bytes), and both
//! variants behave identically over that model.

use vstd::prelude::*;

verus! {

/// An in-memory duplex byte channel: bytes injected for reading, a cursor
/// over them, bytes written but not yet flushed, and bytes flushed out.
struct ChannelState {
    incoming: Vec<u8>,
    consumed: usize,
    pending: Vec<u8>,
    sent: Vec<u8>,
}

enum StreamInner {
    Plaintext(ChannelState),
    Encrypted(ChannelState),
}

/// A duplex byte stream with a plaintext and an encrypted variant.
pub struct TransportStream {
    inner: StreamInner,
}

impl TransportStream {
    /// Bytes the peer has injected for reading.
    pub closed spec fn incoming(self) -> Seq<u8> {
        match self.inner {
            StreamInner::Plaintext(c) => c.incoming@,
            StreamInner::Encrypted(c) => c.incoming@,
        }
    }

    /// How many injected bytes have been read so far.
    pub closed spec fn consumed(self) -> nat {
        match self.inner {
            StreamInner::Plaintext(c) => c.consumed as nat,
            StreamInner::Encrypted(c) => c.consumed as nat,
        }
    }

    /// Bytes written but not yet flushed to the wire.
    pub closed spec fn pending(self) -> Seq<u8> {
        match self.inner {
            StreamInner::Plaintext(c) => c.pending@,
            StreamInner::Encrypted(c) => c.pending@,
        }
    }

    /// Bytes flushed to the wire.
    pub closed spec fn sent(self) -> Seq<u8> {
        match self.inner {
            StreamInner::Plaintext(c) => c.sent@,
            StreamInner::Encrypted(c) => c.sent@,
        }
    }

    /// Whether this is the encrypted variant.
    pub closed spec fn is_encrypted(self) -> bool {
        self.inner is Encrypted
    }

    /// The whole observable state of a stream.
    pub open spec fn io_model(self) -> (Seq<u8>, nat, Seq<u8>, Seq<u8>) {
        (self.incoming(), self.consumed(), self.pending(), self.sent())
    }

    /// The read cursor never passes the end of the injected bytes.
    pub open spec fn wf(self) -> bool {
        self.consumed() <= self.incoming().len()
    }

    /// What a read of capacity `cap` returns: the next injected bytes after
    /// the cursor, at most `cap` of them.
    pub open spec fn next_chunk(self, cap: nat) -> Seq<u8> {
        let rem = self.incoming().len() - self.consumed();
        let k = if cap <= rem {
            cap as int
        } else {
            rem
        };
        self.incoming().subrange(self.consumed() as int, self.consumed() + k)
    }

    /// A plaintext stream over the given injected bytes.
    pub fn new_plaintext(injected: Vec<u8>) -> (r: TransportStream)
        ensures
            r.wf(),
            !r.is_encrypted(),
            r.io_model() == (injected@, 0nat, Seq::<u8>::empty(), Seq::<u8>::empty()),
    {
        TransportStream {
            inner: StreamInner::Plaintext(
                ChannelState { incoming: injected, consumed: 0, pending: Vec::new(), sent: Vec::new() },
            ),
        }
    }

    /// An encrypted stream over the given injected bytes.
    pub fn new_encrypted(injected: Vec<u8>) -> (r: TransportStream)
        ensures
            r.wf(),
            r.is_encrypted(),
            r.io_model() == (injected@, 0nat, Seq::<u8>::empty(), Seq::<u8>::empty()),
    {
        TransportStream {
            inner: StreamInner::Encrypted(
                ChannelState { incoming: injected, consumed: 0, pending: Vec::new(), sent: Vec::new() },
            ),
        }
    }

    /// Read up to `cap` bytes.  A zero-length result means end of stream
    /// (or a zero capacity); bytes are consumed exactly once, in order.
    pub fn read(&mut self, cap: usize) -> (r: Vec<u8>)
        requires
            old(self).wf(),
        ensures
            final (self).wf(),
            r@ == old(self).next_chunk(cap as nat),
            final (self).incoming() == old(self).incoming(),
            final (self).consumed() == old(self).consumed() + r@.len(),
            final (self).pending() == old(self).pending(),
            final (self).sent() == old(self).sent(),
            final (self).is_encrypted() == old(self).is_encrypted(),
            r@.len() == 0 <==> (cap == 0 || old(self).consumed() == old(self).incoming().len()),
    {
        match &mut self.inner {
            StreamInner::Plaintext(c) => channel_read(c, cap),
            StreamInner::Encrypted(c) => channel_read(c, cap),
        }
    }

    /// Queue all of `bytes` for sending.
    pub fn write_all(&mut self, bytes: &[u8])
        requires
            old(self).wf(),
        ensures
            final (self).wf(),
            final (self).pending() == old(self).pending() + bytes@,
            final (self).incoming() == old(self).incoming(),
            final (self).consumed() == old(self).consumed(),
            final (self).sent() == old(self).sent(),
            final (self).is_encrypted() == old(self).is_encrypted(),
    {
        match &mut self.inner {
            StreamInner::Plaintext(c) => channel_write(c, bytes),
            StreamInner::Encrypted(c) => channel_write(c, bytes),
        }
    }

    /// Force queued bytes to the wire.
    pub fn flush(&mut self)
        requires
            old(self).wf(),
        ensures
            final (self).wf(),
            final (self).pending() == Seq::<u8>::empty(),
            final (self).sent() == old(self).sent() + old(self).pending(),
            final (self).incoming() == old(self).incoming(),
            final (self).consumed() == old(self).consumed(),
            final (self).is_encrypted() == old(self).is_encrypted(),
    {
        match &mut self.inner {
            StreamInner::Plaintext(c) => channel_flush(c),
            StreamInner::Encrypted(c) => channel_flush(c),
        }
    }

    /// A copy of the bytes flushed to the wire so far.
    pub fn sent_bytes(&self) -> (r: Vec<u8>)
        ensures
            r@ == self.sent(),
    {
        match &self.inner {
            StreamInner::Plaintext(c) => copy_bytes(&c.sent),
            StreamInner::Encrypted(c) => copy_bytes(&c.sent),
        }
    }

    /// A copy of the bytes written but not yet flushed.
    pub fn pending_bytes(&self) -> (r: Vec<u8>)
        ensures
            r@ == self.pending(),
    {
        match &self.inner {
            StreamInner::Plaintext(c) => copy_bytes(&c.pending),
            StreamInner::Encrypted(c) => copy_bytes(&c.pending),
        }
    }

    /// Read chunks until a read returns zero bytes, and no further: the
    /// result is exactly the injected bytes the cursor had not yet passed,
    /// and afterwards the cursor sits at the end of the stream.
    pub fn read_to_end(&mut self) -> (r: Vec<u8>)
        requires
            old(self).wf(),
        ensures
            final (self).wf(),
            r@ == old(self).incoming().skip(old(self).consumed() as int),
            final (self).consumed() == final (self).incoming().len(),
            final (self).incoming() == old(self).incoming(),
            final (self).pending() == old(self).pending(),
            final (self).sent() == old(self).sent(),
            final (self).is_encrypted() == old(self).is_encrypted(),
    {
        let mut out: Vec<u8> = Vec::new();
        loop
            invariant
                self.wf(),
                self.incoming() == old(self).incoming(),
                self.pending() == old(self).pending(),
                self.sent() == old(self).sent(),
                self.is_encrypted() == old(self).is_encrypted(),
                old(self).consumed() <= self.consumed(),
                out@ == old(self).incoming().subrange(
                    old(self).consumed() as int,
                    self.consumed() as int,
                ),
            ensures
                self.wf(),
                self.incoming() == old(self).incoming(),
                self.pending() == old(self).pending(),
                self.sent() == old(self).sent(),
                self.is_encrypted() == old(self).is_encrypted(),
                old(self).consumed() <= self.consumed(),
                out@ == old(self).incoming().subrange(
                    old(self).consumed() as int,
                    self.consumed() as int,
                ),
                self.consumed() == self.incoming().len(),
            decreases self.incoming().len() - self.consumed(),
        {
            let mut chunk = self.read(1024);
            if chunk.len() == 0 {
                break ;
            }
            out.append(&mut chunk);
        }
        proof {
            assert(out@ =~= old(self).incoming().skip(old(self).consumed() as int));
        }
        out
    }
}

fn copy_bytes(v: &Vec<u8>) -> (r: Vec<u8>)
    ensures
        r@ == v@,
{
    let n = v.len();
    let mut out: Vec<u8> = Vec::new();
    let mut i: usize = 0;
    while i < n
        invariant
            i <= n,
            n == v@.len(),
            out@ == v@.take(i as int),
        decreases n - i,
    {
        out.push(v[i]);
        proof {
            assert(v@.take(i as int).push(v@[i as int]) =~= v@.take(i + 1 as int));
        }
        i = i + 1;
    }
    proof {
        assert(v@.take(n as int) =~= v@);
    }
    out
}

fn channel_read(c: &mut ChannelState, cap: usize) -> (r: Vec<u8>)
    requires
        old(c).consumed <= old(c).incoming@.len(),
    ensures
        final (c).consumed <= final (c).incoming@.len(),
        final (c).incoming@ == old(c).incoming@,
        final (c).pending@ == old(c).pending@,
        final (c).sent@ == old(c).sent@,
        r@ == ({
            let rem = old(c).incoming@.len() - old(c).consumed;
            let k = if cap <= rem {
                cap as int
            } else {
                rem
            };
            old(c).incoming@.subrange(old(c).consumed as int, old(c).consumed + k)
        }),
        final (c).consumed == old(c).consumed + r@.len(),
{
    let n = c.incoming.len();
    let rem = n - c.consumed;
    let k = if cap <= rem {
        cap
    } else {
        rem
    };
    let mut out: Vec<u8> = Vec::new();
    let mut t: usize = 0;
    while t < k
        invariant
            t <= k,
            n == c.incoming@.len(),
            c.consumed + k <= n,
            out@ == c.incoming@.subrange(c.consumed as int, c.consumed + t),
        decreases k - t,
    {
        let b = c.incoming[c.consumed + t];
        out.push(b);
        proof {
            assert(out@ =~= c.incoming@.subrange(c.consumed as int, c.consumed + t + 1));
        }
        t = t + 1;
    }
    c.consumed = c.consumed + k;
    out
}

fn channel_write(c: &mut ChannelState, bytes: &[u8])
    ensures
        final (c).pending@ == old(c).pending@ + bytes@,
        final (c).incoming@ == old(c).incoming@,
        final (c).consumed == old(c).consumed,
        final (c).sent@ == old(c).sent@,
{
    let n = bytes.len();
    let mut i: usize = 0;
    while i < n
        invariant
            i <= n,
            n == bytes@.len(),
            c.pending@ == old(c).pending@ + bytes@.take(i as int),
            c.incoming@ == old(c).incoming@,
            c.consumed == old(c).consumed,
            c.sent@ == old(c).sent@,
        decreases n - i,
    {
        c.pending.push(bytes[i]);
        proof {
            assert(old(c).pending@ + bytes@.take(i as int) + seq![bytes@[i as int]] =~= old(
                c,
            ).pending@ + bytes@.take(i + 1 as int));
        }
        i = i + 1;
    }
    proof {
        assert(bytes@.take(n as int) =~= bytes@);
    }
}

fn channel_flush(c: &mut ChannelState)
    ensures
        final (c).pending@ == Seq::<u8>::empty(),
        final (c).sent@ == old(c).sent@ + old(c).pending@,
        final (c).incoming@ == old(c).incoming@,
        final (c).consumed == old(c).consumed,
{
    c.sent.append(&mut c.pending);
}

/// Transport uniformity: two streams with the same I/O model are
/// indistinguishable through the read/write/flush interface, whether or not
/// either of them is the encrypted variant — every contract above speaks
/// only of the model, and the model determines each read's result.
pub proof fn lemma_transport_uniformity(a: TransportStream, b: TransportStream, cap: nat)
    requires
        a.io_model() == b.io_model(),
    ensures
        a.next_chunk(cap) == b.next_chunk(cap),
        a.wf() == b.wf(),
{
}

/// After end of stream a read returns zero bytes, whatever its capacity: a
/// reader that stops on a zero-length read consumes nothing past the end.
pub proof fn lemma_read_at_end(s: TransportStream, cap: nat)
    requires
        s.wf(),
        s.consumed() == s.incoming().len(),
    ensures
        s.next_chunk(cap).len() == 0,
{
}

} // verus!
