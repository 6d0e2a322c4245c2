//! Chunked framing of messages.
//!
//! A message is sent as chunks of at most the chunk capacity, each a `u16`
//! big-endian size followed by that many bytes, and ends with an empty chunk
//! (`00 00`).

use crate::bytes::{be, be_value, lemma_be_round_trip, lemma_pow256_facts, push_be, read_be};
use crate::error::{PackError, UnpackError};
use crate::packstream::{dec, pack, push_bytes, unpack};
use crate::value::{model, Value, ValueModel};
use vstd::prelude::*;

verus! {

broadcast use vstd::seq_lib::group_seq_properties;

/// Why a message could not be read.
#[derive(Debug, Clone, Copy, PartialEq, Eq, Structural)]
pub enum MessageReadError {
    /// The bytes of the message do not decode to a value.
    UnpackError(UnpackError),
    /// The input ended before the empty chunk that closes the message.
    TruncatedInput,
    /// The message ended before any byte of content.
    EmptyChunk,
}

/// Why a message could not be written.
#[derive(Debug, Clone, Copy, PartialEq, Eq, Structural)]
pub enum MessageWriteError {
    /// The value has no byte form.
    PackError(PackError),
}

/// The chunks of `p`, each at most `cap` bytes, without the closing empty chunk.
pub open spec fn chunked(p: Seq<u8>, cap: nat) -> Seq<u8>
    decreases p.len(),
{
    if cap == 0 || p.len() == 0 {
        Seq::empty()
    } else if p.len() <= cap {
        be(p.len(), 2) + p
    } else {
        be(cap, 2) + p.subrange(0, cap as int) + chunked(p.subrange(cap as int, p.len() as int), cap)
    }
}

/// The framed form of a message: its chunks, then the empty chunk.
pub open spec fn framed(p: Seq<u8>, cap: nat) -> Seq<u8> {
    chunked(p, cap) + seq![0u8, 0u8]
}

/// The contents of the chunks at the start of `b` up to the empty chunk, with
/// the number of bytes taken, empty chunk included.
pub open spec fn unchunk(b: Seq<u8>) -> Result<(Seq<u8>, nat), MessageReadError>
    decreases b.len(),
{
    if b.len() < 2 {
        Err(MessageReadError::TruncatedInput)
    } else {
        let n = be_value(b.subrange(0, 2));
        if n == 0 {
            Ok((Seq::empty(), 2))
        } else if b.len() < 2 + n {
            Err(MessageReadError::TruncatedInput)
        } else {
            match unchunk(b.subrange((2 + n) as int, b.len() as int)) {
                Ok((rest, k)) => Ok((b.subrange(2, (2 + n) as int) + rest, 2 + n + k)),
                Err(e) => Err(e),
            }
        }
    }
}

/// The message at the start of `b`: its contents, which must not be empty,
/// with the number of bytes it takes.
pub open spec fn unframe(b: Seq<u8>) -> Result<(Seq<u8>, nat), MessageReadError> {
    match unchunk(b) {
        Ok((p, k)) => if p.len() == 0 {
            Err(MessageReadError::EmptyChunk)
        } else {
            Ok((p, k))
        },
        Err(e) => Err(e),
    }
}

/// Contents `d` taking `k` bytes, then what `r` reads.
pub open spec fn then_chunks(d: Seq<u8>, k: nat, r: Result<(Seq<u8>, nat), MessageReadError>) -> Result<
    (Seq<u8>, nat),
    MessageReadError,
> {
    match r {
        Ok((rest, k2)) => Ok((d + rest, k + k2)),
        Err(e) => Err(e),
    }
}

/// Reading back the chunks of `p` gives `p`, whatever follows.
pub proof fn lemma_unchunk_chunked(p: Seq<u8>, cap: nat, rest: Seq<u8>)
    requires
        0 < cap <= 0xFFFF,
    ensures
        unchunk(chunked(p, cap) + seq![0u8, 0u8] + rest) == Ok::<_, MessageReadError>(
            (p, chunked(p, cap).len() + 2),
        ),
    decreases p.len(),
{
    lemma_pow256_facts();
    let b = chunked(p, cap) + seq![0u8, 0u8] + rest;
    if p.len() == 0 {
        assert(b.subrange(0, 2) =~= seq![0u8, 0u8]);
        assert(be_value(seq![0u8, 0u8]) == 0) by {
            reveal_with_fuel(be_value, 3);
            assert(seq![0u8, 0u8].drop_last() =~= seq![0u8]);
            assert(seq![0u8].drop_last() =~= Seq::<u8>::empty());
        }
        assert(p =~= Seq::<u8>::empty());
    } else if p.len() <= cap {
        lemma_be_round_trip(p.len(), 2);
        assert(b.subrange(0, 2) =~= be(p.len(), 2));
        let after = b.subrange((2 + p.len()) as int, b.len() as int);
        assert(after =~= chunked(Seq::empty(), cap) + seq![0u8, 0u8] + rest);
        lemma_unchunk_chunked(Seq::empty(), cap, rest);
        assert(b.subrange(2, (2 + p.len()) as int) =~= p);
        assert(p + Seq::<u8>::empty() =~= p);
    } else {
        let tail = p.subrange(cap as int, p.len() as int);
        lemma_be_round_trip(cap, 2);
        assert(b.subrange(0, 2) =~= be(cap, 2));
        let after = b.subrange((2 + cap) as int, b.len() as int);
        assert(after =~= chunked(tail, cap) + seq![0u8, 0u8] + rest);
        lemma_unchunk_chunked(tail, cap, rest);
        assert(b.subrange(2, (2 + cap) as int) =~= p.subrange(0, cap as int));
        assert(p.subrange(0, cap as int) + tail =~= p);
    }
}

/// Framing then reading back a message gives the message, for every chunk
/// capacity, whatever follows it on the wire.
pub proof fn lemma_unframe_framed(p: Seq<u8>, cap: nat, rest: Seq<u8>)
    requires
        p.len() > 0,
        0 < cap <= 0xFFFF,
    ensures
        unframe(framed(p, cap) + rest) == Ok::<_, MessageReadError>((p, framed(p, cap).len())),
{
    lemma_unchunk_chunked(p, cap, rest);
}

/// The framed form of a message with chunks of at most `cap` bytes.
pub fn frame(payload: &[u8], cap: u16) -> (r: Vec<u8>)
    requires
        cap > 0,
    ensures
        r@ == framed(payload@, cap as nat),
{
    let mut out: Vec<u8> = Vec::new();
    let mut p: usize = 0;
    let c = cap as usize;
    assert(payload@.subrange(0, payload@.len() as int) =~= payload@);
    while p < payload.len()
        invariant
            p <= payload@.len(),
            c == cap as usize,
            c > 0,
            out@ + chunked(payload@.subrange(p as int, payload@.len() as int), c as nat) == chunked(
                payload@,
                c as nat,
            ),
        decreases payload.len() - p,
    {
        let ghost s = payload@.subrange(p as int, payload@.len() as int);
        let left = payload.len() - p;
        let k = if left <= c {
            left
        } else {
            c
        };
        let ghost pre = out@;
        push_be(&mut out, k as u64, 2);
        let mut j: usize = 0;
        while j < k
            invariant
                j <= k,
                p + k <= payload.len(),
                out@ == pre + be(k as nat, 2) + payload@.subrange(p as int, p + j),
            decreases k - j,
        {
            out.push(payload[p + j]);
            j = j + 1;
            assert(out@ =~= pre + be(k as nat, 2) + payload@.subrange(p as int, p + j));
        }
        proof {
            let s2 = payload@.subrange(p + k, payload@.len() as int);
            assert(s.subrange(0, k as int) =~= payload@.subrange(p as int, p + k));
            assert(s.subrange(k as int, s.len() as int) =~= s2);
            if left <= c {
                assert(s2 =~= Seq::<u8>::empty());
                assert(s =~= payload@.subrange(p as int, p + k));
            }
            assert(out@ + chunked(s2, c as nat) =~= pre + chunked(s, c as nat));
        }
        p = p + k;
    }
    assert(chunked(payload@.subrange(p as int, payload@.len() as int), c as nat) =~= Seq::<
        u8,
    >::empty());
    out.push(0);
    out.push(0);
    assert(out@ =~= framed(payload@, cap as nat));
    out
}

/// The pieces, one after the other.
pub open spec fn concat_all(pieces: Seq<Vec<u8>>) -> Seq<u8>
    decreases pieces.len(),
{
    if pieces.len() == 0 {
        Seq::empty()
    } else {
        concat_all(pieces.drop_last()) + pieces.last()@
    }
}

/// The framed form of a message cut at its chunk boundaries: each chunk with
/// its size, then the empty chunk, so that each can be sent and flushed in turn.
pub fn frame_chunks(payload: &[u8], cap: u16) -> (r: Vec<Vec<u8>>)
    requires
        cap > 0,
    ensures
        concat_all(r@) == framed(payload@, cap as nat),
        forall|i: int| 0 <= i < r@.len() ==> (#[trigger] r@[i])@.len() <= cap + 2,
{
    let mut out: Vec<Vec<u8>> = Vec::new();
    let mut p: usize = 0;
    let c = cap as usize;
    assert(payload@.subrange(0, payload@.len() as int) =~= payload@);
    assert(out@ =~= Seq::<Vec<u8>>::empty());
    while p < payload.len()
        invariant
            p <= payload@.len(),
            c == cap as usize,
            c > 0,
            concat_all(out@) + chunked(payload@.subrange(p as int, payload@.len() as int), c as nat)
                == chunked(payload@, c as nat),
            forall|i: int| 0 <= i < out@.len() ==> (#[trigger] out@[i])@.len() <= cap + 2,
        decreases payload.len() - p,
    {
        let ghost s = payload@.subrange(p as int, payload@.len() as int);
        let left = payload.len() - p;
        let k = if left <= c {
            left
        } else {
            c
        };
        let mut piece: Vec<u8> = Vec::new();
        push_be(&mut piece, k as u64, 2);
        let mut j: usize = 0;
        while j < k
            invariant
                j <= k,
                p + k <= payload.len(),
                piece@ == be(k as nat, 2) + payload@.subrange(p as int, p + j),
            decreases k - j,
        {
            piece.push(payload[p + j]);
            j = j + 1;
            assert(piece@ =~= be(k as nat, 2) + payload@.subrange(p as int, p + j));
        }
        let ghost before = out@;
        proof {
            crate::bytes::lemma_be_round_trip(k as nat, 2);
        }
        out.push(piece);
        proof {
            let s2 = payload@.subrange(p + k, payload@.len() as int);
            assert(out@.drop_last() =~= before);
            assert(s.subrange(0, k as int) =~= payload@.subrange(p as int, p + k));
            assert(s.subrange(k as int, s.len() as int) =~= s2);
            if left <= c {
                assert(s2 =~= Seq::<u8>::empty());
                assert(s =~= payload@.subrange(p as int, p + k));
            }
            assert(concat_all(out@) + chunked(s2, c as nat) =~= concat_all(before) + chunked(
                s,
                c as nat,
            ));
        }
        p = p + k;
    }
    assert(chunked(payload@.subrange(p as int, payload@.len() as int), c as nat) =~= Seq::<
        u8,
    >::empty());
    let ghost before = out@;
    let mut end: Vec<u8> = Vec::new();
    end.push(0);
    end.push(0);
    out.push(end);
    assert(out@.drop_last() =~= before);
    assert(concat_all(out@) =~= framed(payload@, cap as nat));
    out
}

/// The contents of the message at the start of `b`, with the number of bytes
/// it takes, closing empty chunk included.
pub fn unframe_message(b: &[u8]) -> (r: Result<(Vec<u8>, usize), MessageReadError>)
    ensures
        match r {
            Ok((p, k)) => unframe(b@) == Ok::<_, MessageReadError>((p@, k as nat)),
            Err(e) => unframe(b@) == Err::<(Seq<u8>, nat), _>(e),
        },
{
    let mut data: Vec<u8> = Vec::new();
    let mut pos: usize = 0;
    proof {
        lemma_pow256_facts();
        assert(b@.subrange(0, b@.len() as int) =~= b@);
        match unchunk(b@) {
            Ok((rest, k)) => assert(Seq::<u8>::empty() + rest =~= rest),
            Err(_) => {},
        }
    }
    loop
        invariant
            pos <= b@.len(),
            unchunk(b@) == then_chunks(
                data@,
                pos as nat,
                unchunk(b@.subrange(pos as int, b@.len() as int)),
            ),
        decreases b@.len() - pos,
    {
        let ghost s = b@.subrange(pos as int, b@.len() as int);
        if b.len() - pos < 2 {
            return Err(MessageReadError::TruncatedInput);
        }
        let size = read_be(b, pos, 2);
        proof {
            crate::bytes::lemma_be_value_bound(b@.subrange(pos as int, pos + 2));
            lemma_pow256_facts();
        }
        let n = size as usize;
        assert(s.subrange(0, 2) =~= b@.subrange(pos as int, pos + 2));
        if n == 0 {
            assert(unchunk(s) == Ok::<_, MessageReadError>((Seq::<u8>::empty(), 2nat)));
            assert(data@ + Seq::<u8>::empty() =~= data@);
            assert(unchunk(b@) == Ok::<_, MessageReadError>((data@, (pos + 2) as nat)));
            if data.len() == 0 {
                return Err(MessageReadError::EmptyChunk);
            }
            return Ok((data, pos + 2));
        }
        if b.len() - pos - 2 < n {
            return Err(MessageReadError::TruncatedInput);
        }
        let ghost pre = data@;
        let mut j: usize = 0;
        while j < n
            invariant
                j <= n,
                pos + 2 + n <= b.len(),
                data@ == pre + b@.subrange(pos + 2, pos + 2 + j),
            decreases n - j,
        {
            data.push(b[pos + 2 + j]);
            j = j + 1;
            assert(data@ =~= pre + b@.subrange(pos + 2, pos + 2 + j));
        }
        proof {
            assert(s.subrange(2, 2 + n) =~= b@.subrange(pos + 2, pos + 2 + n));
            assert(s.subrange(2 + n, s.len() as int) =~= b@.subrange(
                pos + 2 + n,
                b@.len() as int,
            ));
            match unchunk(b@.subrange(pos + 2 + n, b@.len() as int)) {
                Ok((rest, k)) => {
                    assert(pre + (b@.subrange(pos + 2, pos + 2 + n) + rest) =~= data@ + rest);
                },
                Err(_) => {},
            }
        }
        pos = pos + 2 + n;
    }
}

/// The size that a chunk header announces; zero closes a message.
pub fn chunk_size(header: [u8; 2]) -> (r: u16)
    ensures
        r as nat == be_value(header@),
{
    let h = header.as_slice();
    proof {
        lemma_pow256_facts();
        crate::bytes::lemma_be_value_bound(h@);
        assert(h@.subrange(0, 2) =~= h@);
    }
    read_be(h, 0, 2) as u16
}

/// A message being written: its contents and the capacity of its chunks.
pub struct Message {
    chunk_capacity: u16,
    data: Vec<u8>,
}

impl Message {
    /// The chunk capacity of the message.
    pub closed spec fn capacity(&self) -> nat {
        self.chunk_capacity as nat
    }

    /// The contents written so far.
    pub closed spec fn contents(&self) -> Seq<u8> {
        self.data@
    }

    /// An empty message with chunks of at most `chunk_capacity` bytes, with room
    /// reserved for `initial_chunks` chunks.
    pub fn new_alloc(initial_chunks: usize, chunk_capacity: u16) -> (r: Message)
        requires
            chunk_capacity > 0,
        ensures
            r.capacity() == chunk_capacity,
            r.contents() == Seq::<u8>::empty(),
    {
        let room: usize = if initial_chunks <= 64 {
            assert(initial_chunks * (chunk_capacity as usize) <= 64 * 0xFFFF) by (nonlinear_arith)
                requires
                    initial_chunks <= 64,
                    chunk_capacity <= 0xFFFF,
            ;
            initial_chunks * chunk_capacity as usize
        } else {
            0
        };
        Message { chunk_capacity, data: Vec::with_capacity(room) }
    }

    /// Appends bytes to the contents.
    pub fn write(&mut self, bytes: &[u8])
        ensures
            final(self).capacity() == old(self).capacity(),
            final(self).contents() == old(self).contents() + bytes@,
    {
        push_bytes(&mut self.data, bytes);
    }

    /// The contents of the message.
    pub fn contents_bytes(&self) -> (r: &Vec<u8>)
        ensures
            r@ == self.contents(),
    {
        &self.data
    }

    /// The framed form of the message.
    pub fn pack(&self) -> (r: Vec<u8>)
        requires
            self.capacity() > 0,
        ensures
            r@ == framed(self.contents(), self.capacity()),
    {
        frame(self.data.as_slice(), self.chunk_capacity)
    }

    /// The message at the start of `b`, with the number of bytes it takes; its
    /// chunk capacity is the size of its first chunk.
    pub fn unpack(b: &[u8]) -> (r: Result<(Message, usize), MessageReadError>)
        ensures
            match r {
                Ok((m, k)) => unframe(b@) == Ok::<_, MessageReadError>((m.contents(), k as nat))
                    && m.capacity() == be_value(b@.subrange(0, 2)),
                Err(e) => unframe(b@) == Err::<(Seq<u8>, nat), _>(e),
            },
    {
        match unframe_message(b) {
            Ok((data, k)) => {
                let first = chunk_size([b[0], b[1]]);
                assert(seq![b@[0], b@[1]] =~= b@.subrange(0, 2));
                Ok((Message { chunk_capacity: first, data }, k))
            },
            Err(e) => Err(e),
        }
    }
}

/// A value written as one framed message.
pub fn write_message(v: &Value, chunk_capacity: u16) -> (r: Result<Vec<u8>, MessageWriteError>)
    requires
        chunk_capacity > 0,
    ensures
        r is Ok <==> crate::packstream::encodable(model(*v)),
        r matches Ok(bytes) ==> bytes@ == framed(
            crate::packstream::enc(model(*v)),
            chunk_capacity as nat,
        ),
{
    match pack(v) {
        Ok(bytes) => Ok(frame(bytes.as_slice(), chunk_capacity)),
        Err(e) => Err(MessageWriteError::PackError(e)),
    }
}

/// The value carried by the framed message at the start of `b`, with the
/// number of bytes the message takes.
pub open spec fn read_msg(b: Seq<u8>) -> Result<(ValueModel, nat), MessageReadError> {
    match unframe(b) {
        Ok((p, k)) => match dec(p) {
            Ok((v, _)) => Ok((v, k)),
            Err(e) => Err(MessageReadError::UnpackError(e)),
        },
        Err(e) => Err(e),
    }
}

/// The value carried by the framed message at the start of `b`, with the
/// number of bytes the message takes.
pub fn read_message(b: &[u8]) -> (r: Result<(Value, usize), MessageReadError>)
    ensures
        match r {
            Ok((v, k)) => read_msg(b@) == Ok::<_, MessageReadError>((model(v), k as nat)),
            Err(e) => read_msg(b@) == Err::<(ValueModel, nat), _>(e),
        },
{
    match unframe_message(b) {
        Ok((data, k)) => match unpack(data.as_slice()) {
            Ok((v, _)) => Ok((v, k)),
            Err(e) => Err(MessageReadError::UnpackError(e)),
        },
        Err(e) => Err(e),
    }
}

/// One chunk of a message: a buffer of at most `capacity` bytes, with a read
/// cursor.
#[derive(Debug, Clone, PartialEq)]
pub struct Chunk {
    capacity: usize,
    bytes: Vec<u8>,
    read_cursor: usize,
}

impl Chunk {
    /// The chunk holds no more than its capacity, a `u16`, and its cursor
    /// stays within what was written.
    pub closed spec fn wf(&self) -> bool {
        &&& self.capacity <= 0xFFFF
        &&& self.bytes@.len() <= self.capacity
        &&& self.read_cursor <= self.bytes@.len()
    }

    /// The most bytes the chunk holds.
    pub closed spec fn spec_capacity(&self) -> nat {
        self.capacity as nat
    }

    /// The bytes written into the chunk.
    pub closed spec fn contents(&self) -> Seq<u8> {
        self.bytes@
    }

    /// How many bytes have been read.
    pub closed spec fn cursor(&self) -> nat {
        self.read_cursor as nat
    }

    /// An empty chunk of at most `max_size` bytes.
    pub fn new(max_size: u16) -> (r: Chunk)
        ensures
            r.wf(),
            r.spec_capacity() == max_size,
            r.contents() == Seq::<u8>::empty(),
            r.cursor() == 0,
    {
        Chunk { capacity: max_size as usize, bytes: Vec::new(), read_cursor: 0 }
    }

    /// Whether there is room for another byte.
    pub fn has_capacity(&self) -> (r: bool)
        ensures
            r == (self.contents().len() < self.spec_capacity()),
    {
        self.capacity > self.bytes.len()
    }

    pub fn capacity(&self) -> (r: usize)
        ensures
            r == self.spec_capacity(),
    {
        self.capacity
    }

    /// How many bytes have been written.
    pub fn written(&self) -> (r: usize)
        ensures
            r == self.contents().len(),
    {
        self.bytes.len()
    }

    /// Whether every written byte has been read.
    pub fn eof(&self) -> (r: bool)
        ensures
            r == (self.contents().len() <= self.cursor()),
    {
        self.bytes.len() <= self.read_cursor
    }

    /// Writes as many of `bytes` as there is room for; gives the position in
    /// `bytes` where what did not fit starts, or nothing when all fitted. A
    /// full chunk takes nothing and gives `0`, whatever the input.
    pub fn write(&mut self, bytes: &[u8]) -> (r: Option<usize>)
        requires
            old(self).wf(),
        ensures
            final(self).wf(),
            final(self).spec_capacity() == old(self).spec_capacity(),
            final(self).cursor() == old(self).cursor(),
            ({
                let room = old(self).spec_capacity() - old(self).contents().len();
                if room == 0 {
                    r == Some(0usize) && final(self).contents() == old(self).contents()
                } else if bytes@.len() <= room {
                    r is None && final(self).contents() == old(self).contents() + bytes@
                } else {
                    r == Some(room as usize) && final(self).contents() == old(self).contents()
                        + bytes@.subrange(0, room as int)
                }
            }),
    {
        let room = self.capacity - self.bytes.len();
        let take = if bytes.len() <= room {
            bytes.len()
        } else {
            room
        };
        let ghost pre = self.bytes@;
        let mut j: usize = 0;
        while j < take
            invariant
                j <= take,
                take <= bytes@.len(),
                self.bytes@ == pre + bytes@.subrange(0, j as int),
                self.capacity == old(self).capacity,
                self.read_cursor == old(self).read_cursor,
                pre == old(self).bytes@,
                pre.len() + take <= self.capacity <= 0xFFFF,
                old(self).read_cursor <= pre.len(),
            decreases take - j,
        {
            self.bytes.push(bytes[j]);
            j = j + 1;
            assert(self.bytes@ =~= pre + bytes@.subrange(0, j as int));
        }
        if room == 0 {
            assert(bytes@.subrange(0, 0) =~= Seq::<u8>::empty());
            assert(self.bytes@ =~= pre);
            Some(0)
        } else if bytes.len() <= room {
            assert(bytes@.subrange(0, bytes@.len() as int) =~= bytes@);
            None
        } else {
            Some(room)
        }
    }

    /// Reads at most `max` of the bytes not read yet, and moves the cursor past them.
    pub fn read(&mut self, max: usize) -> (r: Vec<u8>)
        requires
            old(self).wf(),
        ensures
            final(self).wf(),
            final(self).spec_capacity() == old(self).spec_capacity(),
            final(self).contents() == old(self).contents(),
            ({
                let rest = old(self).contents().len() - old(self).cursor();
                let n = if max <= rest {
                    max as int
                } else {
                    rest
                };
                r@ == old(self).contents().subrange(
                    old(self).cursor() as int,
                    old(self).cursor() + n,
                ) && final(self).cursor() == old(self).cursor() + n
            }),
    {
        let rest = self.bytes.len() - self.read_cursor;
        let n = if max <= rest {
            max
        } else {
            rest
        };
        let start = self.read_cursor;
        let mut out: Vec<u8> = Vec::new();
        let mut j: usize = 0;
        while j < n
            invariant
                j <= n,
                start + n <= self.bytes.len(),
                out@ == self.bytes@.subrange(start as int, start + j),
            decreases n - j,
        {
            out.push(self.bytes[start + j]);
            j = j + 1;
            assert(out@ =~= self.bytes@.subrange(start as int, start + j));
        }
        self.read_cursor = start + n;
        out
    }

    /// Moves the read cursor.
    pub fn set_cursor(&mut self, new_cursor: usize)
        requires
            old(self).wf(),
            new_cursor <= old(self).contents().len(),
        ensures
            final(self).wf(),
            final(self).cursor() == new_cursor,
            final(self).contents() == old(self).contents(),
            final(self).spec_capacity() == old(self).spec_capacity(),
    {
        self.read_cursor = new_cursor;
    }

    /// The chunk on the wire: its size, then its bytes.
    pub fn pack(&self) -> (r: Vec<u8>)
        ensures
            r@ == be(self.contents().len(), 2) + self.contents(),
    {
        let mut out: Vec<u8> = Vec::new();
        push_be(&mut out, self.bytes.len() as u64, 2);
        push_bytes(&mut out, self.bytes.as_slice());
        out
    }

    /// The chunk at the start of `b`: a size, then that many bytes; its capacity
    /// is its size. Also gives the number of bytes it takes.
    pub fn unpack(b: &[u8]) -> (r: Result<(Chunk, usize), MessageReadError>)
        ensures
            b@.len() < 2 ==> r == Err::<(Chunk, usize), _>(MessageReadError::TruncatedInput),
            b@.len() >= 2 ==> ({
                let n = be_value(b@.subrange(0, 2));
                if b@.len() < 2 + n {
                    r == Err::<(Chunk, usize), _>(MessageReadError::TruncatedInput)
                } else {
                    r matches Ok((c, k)) && k == 2 + n && c.wf() && c.contents() == b@.subrange(
                        2,
                        (2 + n) as int,
                    ) && c.spec_capacity() == n && c.cursor() == 0
                }
            }),
    {
        if b.len() < 2 {
            return Err(MessageReadError::TruncatedInput);
        }
        let size = read_be(b, 0, 2);
        proof {
            crate::bytes::lemma_be_value_bound(b@.subrange(0, 2));
            lemma_pow256_facts();
        }
        let n = size as usize;
        if b.len() - 2 < n {
            return Err(MessageReadError::TruncatedInput);
        }
        let mut bytes: Vec<u8> = Vec::new();
        let mut j: usize = 0;
        while j < n
            invariant
                j <= n,
                2 + n <= b.len(),
                bytes@ == b@.subrange(2, 2 + j),
            decreases n - j,
        {
            bytes.push(b[2 + j]);
            j = j + 1;
            assert(bytes@ =~= b@.subrange(2, 2 + j));
        }
        Ok((Chunk { capacity: n, bytes, read_cursor: 0 }, 2 + n))
    }
}

} // verus!
