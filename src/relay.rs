//! A bounded relay of byte blocks: a push-style sink on the producing side
//! and a pull-style reader on the consuming side, joined by a channel that
//! holds at most one pending block.
use vstd::prelude::*;
use std::sync::mpsc::{Receiver, SyncSender};

verus! {

#[verifier::external_type_specification]
#[verifier::external_body]
#[verifier::reject_recursive_types(T)]
pub struct ExSyncSender<T>(SyncSender<T>);

#[verifier::external_type_specification]
#[verifier::external_body]
#[verifier::reject_recursive_types(T)]
pub struct ExReceiver<T>(Receiver<T>);

/// How many blocks may wait in the channel before the sink blocks.
pub const RELAY_CAPACITY: usize = 1;

/// Relies on `std::sync::mpsc::sync_channel`: a channel whose sender blocks
/// while `bound` blocks are pending.
#[verifier::external_body]
fn relay_channel(bound: usize) -> (SyncSender<Vec<u8>>, Receiver<Vec<u8>>) {
    std::sync::mpsc::sync_channel(bound)
}

/// Relies on `SyncSender::send`: hands a block to the channel, and fails
/// only once the receiving side is gone.
#[verifier::external_body]
fn send_block(tx: &SyncSender<Vec<u8>>, block: Vec<u8>) -> bool {
    tx.send(block).is_ok()
}

/// Relies on `Receiver::recv`: the next block in sending order, or nothing
/// once every sender is gone and the channel is empty.
#[verifier::external_body]
fn recv_block(rx: &Receiver<Vec<u8>>) -> Option<Vec<u8>> {
    rx.recv().ok()
}

/// The bytes of a sequence of blocks, one after another.
pub open spec fn flatten(blocks: Seq<Seq<u8>>) -> Seq<u8>
    decreases blocks.len(),
{
    if blocks.len() == 0 {
        seq![]
    } else {
        flatten(blocks.drop_last()) + blocks.last()
    }
}

/// The receiving side is gone, so a block could not be handed off.
#[derive(PartialEq, Eq, Structural, Clone, Copy, Debug)]
pub enum SinkError {
    BrokenPipe,
}

/// Every block has exactly `size` bytes.
pub open spec fn blocks_of_size(blocks: Seq<Seq<u8>>, size: nat) -> bool {
    forall|i: int| 0 <= i < blocks.len() ==> #[trigger] blocks[i].len() == size
}

/// The blocks of `after` beyond those of `before`, when `after` extends it.
pub open spec fn new_blocks(before: Seq<Seq<u8>>, after: Seq<Seq<u8>>) -> Seq<Seq<u8>> {
    after.subrange(before.len() as int, after.len() as int)
}

/// `after` is `before` with blocks added at the end.
pub open spec fn extends(before: Seq<Seq<u8>>, after: Seq<Seq<u8>>) -> bool {
    before.len() <= after.len() && after.subrange(0, before.len() as int) == before
}

proof fn lemma_flatten_push(blocks: Seq<Seq<u8>>, b: Seq<u8>)
    ensures
        flatten(blocks.push(b)) == flatten(blocks) + b,
{
    assert(blocks.push(b).drop_last() =~= blocks);
}

/// The producing side: collects written bytes and hands them off in blocks
/// of exactly `block_size` bytes, keeping fewer than that pending.
pub struct ChannelSink {
    buffer: Vec<u8>,
    block_size: usize,
    tx: SyncSender<Vec<u8>>,
    sent: Ghost<Seq<Seq<u8>>>,
}

impl ChannelSink {
    /// Bytes written and not yet handed off.
    pub closed spec fn pending(&self) -> Seq<u8> {
        self.buffer@
    }

    /// The blocks handed off so far, in order.
    pub closed spec fn sent(&self) -> Seq<Seq<u8>> {
        self.sent@
    }

    /// How many bytes make up a block.
    pub closed spec fn block_size(&self) -> usize {
        self.block_size
    }

    /// Fewer than a block's worth of bytes is pending.
    pub open spec fn wf(&self) -> bool {
        0 < self.block_size() && self.pending().len() < self.block_size()
    }

    /// Creates a sink and the receiving end of its channel, which holds at
    /// most one pending block.
    pub fn new(block_size: usize) -> (r: (Self, Receiver<Vec<u8>>))
        requires
            block_size > 0,
        ensures
            r.0.wf(),
            r.0.block_size() == block_size,
            r.0.pending() == Seq::<u8>::empty(),
            r.0.sent() == Seq::<Seq<u8>>::empty(),
    {
        let (tx, rx) = relay_channel(RELAY_CAPACITY);
        (ChannelSink { buffer: Vec::new(), block_size, tx, sent: Ghost(Seq::empty()) }, rx)
    }

    /// Appends `buf`, then hands off full blocks from the front of the
    /// pending bytes while there are enough of them. On success the whole of
    /// `buf` counts as written; once a hand-off fails, the pending bytes are
    /// dropped and the failure is returned.
    pub fn write(&mut self, buf: &[u8]) -> (r: Result<usize, SinkError>)
        requires
            old(self).wf(),
        ensures
            final(self).wf(),
            final(self).block_size() == old(self).block_size(),
            extends(old(self).sent(), final(self).sent()),
            blocks_of_size(new_blocks(old(self).sent(), final(self).sent()), old(self).block_size() as nat),
            r is Ok ==> r == Ok::<usize, SinkError>(buf@.len() as usize)
                && flatten(new_blocks(old(self).sent(), final(self).sent())) + final(self).pending()
                    == old(self).pending() + buf@,
            old(self).pending().len() + buf@.len() < old(self).block_size() ==> r == Ok::<usize, SinkError>(buf@.len() as usize)
                && final(self).pending() == old(self).pending() + buf@
                && final(self).sent() == old(self).sent(),
            r is Err ==> flatten(new_blocks(old(self).sent(), final(self).sent())).len() + old(self).block_size()
                <= (old(self).pending() + buf@).len(),
            r is Err ==> r == Err::<usize, SinkError>(SinkError::BrokenPipe)
                && final(self).pending() == Seq::<u8>::empty()
                && flatten(new_blocks(old(self).sent(), final(self).sent())).len()
                    < (old(self).pending() + buf@).len()
                && flatten(new_blocks(old(self).sent(), final(self).sent()))
                    == (old(self).pending() + buf@).subrange(0, flatten(new_blocks(old(self).sent(), final(self).sent())).len() as int),
    {
        let ghost joined = self.buffer@ + buf@;
        let ghost before = self.sent@;
        let mut more = vstd::slice::slice_to_vec(buf);
        self.buffer.append(&mut more);
        let ghost mut fresh: Seq<Seq<u8>> = Seq::empty();
        assert(self.sent@ =~= before + fresh);
        assert(flatten(fresh) + self.buffer@ =~= joined);
        while self.buffer.len() >= self.block_size
            invariant
                0 < self.block_size,
                self.block_size == old(self).block_size,
                self.sent@ == before + fresh,
                before == old(self).sent@,
                blocks_of_size(fresh, self.block_size as nat),
                flatten(fresh) + self.buffer@ == joined,
                joined == old(self).buffer@ + buf@,
            decreases self.buffer@.len(),
        {
            let ghost whole = self.buffer@;
            let rest = self.buffer.split_off(self.block_size);
            let mut block: Vec<u8> = rest;
            std::mem::swap(&mut self.buffer, &mut block);
            let ghost b = block@;
            let ghost tail = self.buffer@;
            assert(whole =~= b + tail);
            proof {
                lemma_flatten_push(fresh, b);
                assert(flatten(fresh) + b + self.buffer@ =~= flatten(fresh) + (b + self.buffer@));
            }
            if send_block(&self.tx, block) {
                proof {
                    fresh = fresh.push(b);
                }
                self.sent = Ghost(self.sent@.push(b));
                assert(self.sent@ =~= before + fresh);
            } else {
                self.buffer = Vec::new();
                assert(new_blocks(before, self.sent@) =~= fresh);
                assert(self.sent@.subrange(0, before.len() as int) =~= before);
                assert(joined =~= flatten(fresh) + (b + tail));
                assert(joined.subrange(0, flatten(fresh).len() as int) =~= flatten(fresh));
                return Err(SinkError::BrokenPipe);
            }
        }
        assert(new_blocks(before, self.sent@) =~= fresh);
        assert(self.sent@.subrange(0, before.len() as int) =~= before);
        proof {
            if fresh.len() == 0 {
                assert(self.sent@ =~= before);
                assert(self.buffer@ =~= joined);
            }
        }
        Ok(buf.len())
    }

    /// Hands off whatever is pending, if anything, as one short block.
    pub fn flush(&mut self) -> (r: Result<(), SinkError>)
        requires
            old(self).wf(),
        ensures
            final(self).wf(),
            final(self).block_size() == old(self).block_size(),
            final(self).pending() == Seq::<u8>::empty(),
            old(self).pending().len() == 0 ==> r is Ok && final(self).sent() == old(self).sent(),
            old(self).pending().len() > 0 && r is Ok ==> final(self).sent() == old(self).sent().push(old(self).pending()),
            old(self).pending().len() > 0 && r is Err ==> final(self).sent() == old(self).sent(),
    {
        if self.buffer.len() > 0 {
            let mut block: Vec<u8> = Vec::new();
            std::mem::swap(&mut self.buffer, &mut block);
            let ghost b = block@;
            if send_block(&self.tx, block) {
                self.sent = Ghost(self.sent@.push(b));
                Ok(())
            } else {
                Err(SinkError::BrokenPipe)
            }
        } else {
            Ok(())
        }
    }
}

/// The consuming side: keeps what is left of the last block received and
/// serves reads from it, taking the next block from the channel only when
/// nothing is left.
pub struct XzDecoder {
    buffer: Vec<u8>,
    rx: Receiver<Vec<u8>>,
    received: Ghost<Seq<Seq<u8>>>,
    delivered: Ghost<Seq<u8>>,
}

impl XzDecoder {
    /// What is left of the last block received.
    pub closed spec fn pending(&self) -> Seq<u8> {
        self.buffer@
    }

    /// The blocks received so far, in order.
    pub closed spec fn received(&self) -> Seq<Seq<u8>> {
        self.received@
    }

    /// The bytes handed to readers so far, in order.
    pub closed spec fn delivered(&self) -> Seq<u8> {
        self.delivered@
    }

    /// Every byte received is either delivered or pending, in order, and
    /// what is pending is no more than the last block received.
    pub open spec fn wf(&self) -> bool {
        &&& self.delivered() + self.pending() == flatten(self.received())
        &&& self.received().len() == 0 ==> self.pending().len() == 0
        &&& self.received().len() > 0 ==> self.pending().len() <= self.received().last().len()
    }

    /// A reader over the blocks arriving on `rx`.
    pub fn with_receiver(rx: Receiver<Vec<u8>>) -> (r: Self)
        ensures
            r.wf(),
            r.received() == Seq::<Seq<u8>>::empty(),
            r.delivered() == Seq::<u8>::empty(),
            r.pending() == Seq::<u8>::empty(),
    {
        let r = XzDecoder { buffer: Vec::new(), rx, received: Ghost(Seq::empty()), delivered: Ghost(Seq::empty()) };
        assert(r.delivered() + r.pending() =~= flatten(r.received()));
        r
    }

    /// Copies the front of what is pending into `buf`, as much as fits.
    fn deliver(&mut self, buf: &mut [u8]) -> (n: usize)
        requires
            old(self).wf(),
        ensures
            final(self).wf(),
            final(self).received() == old(self).received(),
            n == if old(self).pending().len() < old(buf)@.len() {
                old(self).pending().len() as int
            } else {
                old(buf)@.len() as int
            },
            final(buf)@.len() == old(buf)@.len(),
            final(buf)@.subrange(0, n as int) == old(self).pending().subrange(0, n as int),
            final(buf)@.subrange(n as int, final(buf)@.len() as int)
                == old(buf)@.subrange(n as int, old(buf)@.len() as int),
            final(self).pending() == old(self).pending().subrange(n as int, old(self).pending().len() as int),
            final(self).delivered() == old(self).delivered() + final(buf)@.subrange(0, n as int),
    {
        let ghost mid = self.buffer@;
        let ghost old_delivered = self.delivered@;
        let avail = self.buffer.len();
        let n: usize = if avail < buf.len() { avail } else { buf.len() };
        let mut i: usize = 0;
        while i < n
            invariant
                i <= n,
                n <= self.buffer@.len(),
                n <= buf@.len(),
                self.buffer@ == mid,
                buf@.len() == old(buf)@.len(),
                forall|k: int| 0 <= k < i ==> buf@[k] == mid[k],
                forall|k: int| n <= k < buf@.len() ==> buf@[k] == old(buf)@[k],
            decreases n - i,
        {
            buf[i] = self.buffer[i];
            i = i + 1;
        }
        let rest = self.buffer.split_off(n);
        self.buffer = rest;
        self.delivered = Ghost(self.delivered@ + mid.subrange(0, n as int));
        assert(buf@.subrange(0, n as int) =~= mid.subrange(0, n as int));
        assert(buf@.subrange(n as int, buf@.len() as int) =~= old(buf)@.subrange(n as int, old(buf)@.len() as int));
        assert(mid =~= mid.subrange(0, n as int) + mid.subrange(n as int, mid.len() as int));
        assert(self.delivered@ + self.buffer@ =~= old_delivered + mid);
        n
    }

    /// Serves a read once nothing is pending, given what the channel gave:
    /// a block is recorded as received and the read is served from it; no
    /// block means the stream has ended, and 0 bytes are read.
    pub fn serve(&mut self, block: Option<Vec<u8>>, buf: &mut [u8]) -> (n: usize)
        requires
            old(self).wf(),
            old(self).pending().len() == 0,
        ensures
            final(self).wf(),
            final(self).delivered() == old(self).delivered() + final(buf)@.subrange(0, n as int),
            final(buf)@.len() == old(buf)@.len(),
            final(buf)@.subrange(n as int, final(buf)@.len() as int)
                == old(buf)@.subrange(n as int, old(buf)@.len() as int),
            match block {
                Some(b) => final(self).received() == old(self).received().push(b@)
                    && n == (if b@.len() < old(buf)@.len() { b@.len() as int } else { old(buf)@.len() as int })
                    && final(buf)@.subrange(0, n as int) == b@.subrange(0, n as int)
                    && final(self).pending() == b@.subrange(n as int, b@.len() as int),
                None => n == 0 && final(self).received() == old(self).received()
                    && final(buf)@ == old(buf)@ && final(self).pending() == Seq::<u8>::empty(),
            },
    {
        match block {
            Some(block) => {
                let ghost b = block@;
                self.buffer = block;
                self.received = Ghost(self.received@.push(b));
                proof {
                    lemma_flatten_push(old(self).received@, b);
                }
                assert(old(self).delivered@ + old(self).buffer@ =~= old(self).delivered@);
                assert(self.delivered@ + self.buffer@ == flatten(self.received@));
                self.deliver(buf)
            },
            None => {
                assert(buf@.subrange(0, 0) =~= Seq::<u8>::empty());
                assert(self.delivered@ + buf@.subrange(0, 0) =~= self.delivered@);
                0
            },
        }
    }

    /// Copies up to `buf.len()` bytes into the front of `buf` and returns
    /// how many. When nothing is pending the next block is taken first; a
    /// closed channel ends the stream, and then 0 is returned.
    pub fn read(&mut self, buf: &mut [u8]) -> (n: usize)
        requires
            old(self).wf(),
        ensures
            final(self).wf(),
            final(buf)@.len() == old(buf)@.len(),
            final(buf)@.subrange(n as int, final(buf)@.len() as int)
                == old(buf)@.subrange(n as int, old(buf)@.len() as int),
            final(self).delivered() == old(self).delivered() + final(buf)@.subrange(0, n as int),
            ({
                let source = if old(self).pending().len() > 0 {
                    old(self).pending()
                } else if final(self).received().len() > old(self).received().len() {
                    final(self).received().last()
                } else {
                    Seq::<u8>::empty()
                };
                &&& old(self).pending().len() > 0 ==> final(self).received() == old(self).received()
                &&& old(self).pending().len() == 0 ==> (final(self).received() == old(self).received()
                    || final(self).received() == old(self).received().push(final(self).received().last()))
                &&& n == if source.len() < old(buf)@.len() { source.len() as int } else { old(buf)@.len() as int }
                &&& final(buf)@.subrange(0, n as int) == source.subrange(0, n as int)
                &&& final(self).pending() == source.subrange(n as int, source.len() as int)
            }),
    {
        if self.buffer.len() == 0 {
            let block = recv_block(&self.rx);
            self.serve(block, buf)
        } else {
            self.deliver(buf)
        }
    }
}

/// A block that is a prefix of a sequence of blocks gives a prefix of its
/// bytes.
proof fn lemma_flatten_prefix(blocks: Seq<Seq<u8>>, k: int)
    requires
        0 <= k <= blocks.len(),
    ensures
        flatten(blocks.take(k)).len() <= flatten(blocks).len(),
        flatten(blocks.take(k)) == flatten(blocks).take(flatten(blocks.take(k)).len() as int),
    decreases blocks.len(),
{
    if k == blocks.len() {
        assert(blocks.take(k) =~= blocks);
    } else {
        lemma_flatten_prefix(blocks.drop_last(), k);
        assert(blocks.drop_last().take(k) =~= blocks.take(k));
        let f = flatten(blocks.drop_last());
        assert(flatten(blocks) == f + blocks.last());
        assert((f + blocks.last()).take(flatten(blocks.take(k)).len() as int)
            =~= f.take(flatten(blocks.take(k)).len() as int));
    }
}

/// Reads never run ahead of what was received: the bytes read so far,
/// followed by what is pending, are exactly the received blocks in order,
/// and no more than one block is held back. So when the channel delivers
/// the blocks a sink handed off, in the order it handed them off, the bytes
/// read so far are a prefix of what the sink handed off; and when no block
/// handed off is longer than `bound` (a sink's blocks are never longer than
/// its block size), the reader holds at most `bound` bytes of lookahead.
pub proof fn reads_follow_sent_blocks(d: &XzDecoder, sent: Seq<Seq<u8>>, bound: nat)
    requires
        d.wf(),
        d.received().len() <= sent.len(),
        d.received() == sent.take(d.received().len() as int),
    ensures
        d.delivered() + d.pending() == flatten(d.received()),
        d.received().len() > 0 ==> d.pending().len() <= d.received().last().len(),
        d.delivered().len() <= flatten(sent).len(),
        d.delivered() == flatten(sent).take(d.delivered().len() as int),
        (forall|i: int| 0 <= i < sent.len() ==> #[trigger] sent[i].len() <= bound)
            ==> d.pending().len() <= bound,
{
    let k = d.received().len() as int;
    lemma_flatten_prefix(sent, k);
    let whole = flatten(sent);
    let got = flatten(d.received());
    assert(got == whole.take(got.len() as int));
    assert(d.delivered() =~= got.take(d.delivered().len() as int));
    assert(d.delivered() =~= whole.take(d.delivered().len() as int));
    if k > 0 {
        assert(d.received().last() == sent[k - 1]);
    }
}

} // verus!
