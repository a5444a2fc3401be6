use vstd::prelude::*;

verus! {

/// Largest payload of one message.
pub const MAX_LENGTH: usize = 4096;

/// How much of the length prefix of the message being read has arrived.
#[derive(Clone, Copy, Debug, PartialEq, Eq, Structural)]
pub enum Length {
    Zero,
    OneByte(usize),
    TwoBytes(usize),
}

/// Reads and writes messages prefixed with their length in two bytes, big
/// endian. Reading is driven from outside: `read_len` says how many bytes
/// the next read of the underlying stream may deliver, and `read` takes
/// what it delivered.
#[derive(Debug)]
pub struct LenIO<T> {
    pub inner: T,
    buf: Vec<u8>,
    len: Length,
    pos: usize,
}

/// What a read of the underlying stream led to.
#[derive(Debug, PartialEq, Eq)]
pub enum ReadStep {
    /// Part of the length prefix arrived; read again.
    Continue,
    /// A whole message arrived: its payload followed by one zero byte.
    Frame(Vec<u8>),
    /// Part of the payload arrived; the rest is still to come.
    Unfinished,
}

/// The reader's state after it takes `data` in state `(len, pos, buf)`.
pub open spec fn read_state(len: Length, pos: int, buf: Seq<u8>, data: Seq<u8>) -> (Length, int, Seq<u8>) {
    match len {
        Length::Zero => {
            let b = if data.len() > 0 { buf.update(0, data[0]) } else { buf };
            (Length::OneByte(b[0] as usize), pos, b)
        },
        Length::OneByte(hi) => {
            let b = if data.len() > 0 { buf.update(0, data[0]) } else { buf };
            (Length::TwoBytes((hi * 256 + b[0]) as usize), pos, b)
        },
        Length::TwoBytes(l) => {
            let b = buf.take(pos) + data + buf.skip(pos + data.len());
            if pos + data.len() == l {
                (Length::Zero, 0, b.update(l as int, 0))
            } else {
                (Length::TwoBytes(l), pos + data.len(), b)
            }
        },
    }
}

/// What taking `data` in state `(len, pos, buf)` leads to: a whole message
/// when the payload is complete.
pub open spec fn read_step(len: Length, pos: int, buf: Seq<u8>, data: Seq<u8>) -> Option<Seq<u8>> {
    match len {
        Length::TwoBytes(l) => if pos + data.len() == l {
            Some((buf.take(pos) + data).take(l as int).push(0))
        } else {
            None
        },
        _ => None,
    }
}

/// Taking `data` in this state stays within the buffer: at most `read_len`
/// bytes, and a length prefix of at most `MAX_LENGTH`.
pub open spec fn read_fits(len: Length, pos: int, buf: Seq<u8>, data: Seq<u8>) -> bool {
    match len {
        Length::Zero => data.len() <= 1,
        Length::OneByte(hi) => data.len() <= 1 && hi * 256 + (if data.len() > 0 { data[0] } else { buf[0] }) <= MAX_LENGTH,
        Length::TwoBytes(l) => pos + data.len() <= l,
    }
}

impl<T> LenIO<T> {
    /// The reader's state: how much of the prefix arrived, how much of the
    /// payload, and the buffer.
    pub closed spec fn stream(&self) -> T {
        self.inner
    }

    pub closed spec fn state(&self) -> (Length, int, Seq<u8>) {
        (self.len, self.pos as int, self.buf@)
    }

    /// The buffer holds a payload of at most `MAX_LENGTH` bytes and one more.
    pub closed spec fn wf(&self) -> bool {
        &&& self.buf@.len() == MAX_LENGTH + 1
        &&& match self.len {
            Length::Zero => self.pos == 0,
            Length::OneByte(hi) => hi < 256 && self.pos == 0,
            Length::TwoBytes(l) => self.pos <= l <= MAX_LENGTH,
        }
    }

    pub fn new(inner: T) -> (r: Self)
        ensures
            r.stream() == inner,
            r.wf(),
            r.state().0 == Length::Zero,
            r.state().1 == 0,
            r.state().2 == Seq::new((MAX_LENGTH + 1) as nat, |i: int| 0u8),
    {
        let r = Self { inner, buf: vec![0u8; MAX_LENGTH + 1], len: Length::Zero, pos: 0 };
        assert(r.buf@ =~= Seq::new((MAX_LENGTH + 1) as nat, |i: int| 0u8));
        r
    }

    /// How many bytes the next read of the underlying stream may deliver.
    pub fn read_len(&self) -> (n: usize)
        requires
            self.wf(),
        ensures
            n == match self.state().0 {
                Length::TwoBytes(l) => l - self.state().1,
                _ => 1,
            },
    {
        match self.len {
            Length::TwoBytes(l) => l - self.pos,
            _ => 1,
        }
    }

    /// Whether `read` can take `data` in the present state.
    pub fn can_read(&self, data: &[u8]) -> (r: bool)
        requires
            self.wf(),
        ensures
            r == read_fits(self.state().0, self.state().1, self.state().2, data@),
    {
        match self.len {
            Length::Zero => data.len() <= 1,
            Length::OneByte(hi) => {
                if data.len() > 1 {
                    return false;
                }
                let lo = if data.len() > 0 { data[0] } else { self.buf[0] };
                hi * 256 + (lo as usize) <= MAX_LENGTH
            },
            Length::TwoBytes(l) => data.len() <= l - self.pos,
        }
    }

    /// Takes the bytes a read of the underlying stream delivered (see
    /// `read_state` and `read_step`).
    pub fn read(&mut self, data: &[u8]) -> (r: ReadStep)
        requires
            old(self).wf(),
            read_fits(old(self).state().0, old(self).state().1, old(self).state().2, data@),
        ensures
            final(self).wf(),
            final(self).stream() == old(self).stream(),
            final(self).state() == read_state(old(self).state().0, old(self).state().1, old(self).state().2, data@),
            match read_step(old(self).state().0, old(self).state().1, old(self).state().2, data@) {
                Some(f) => r matches ReadStep::Frame(v) && v@ == f,
                None => if old(self).state().0 is TwoBytes { r == ReadStep::Unfinished } else { r == ReadStep::Continue },
            },
    {
        let len = self.len;
        match len {
            Length::Zero => {
                if data.len() > 0 {
                    self.buf.set(0, data[0]);
                }
                let b: u8 = self.buf[0];
                self.len = Length::OneByte(b as usize);
                ReadStep::Continue
            },
            Length::OneByte(hi) => {
                if data.len() > 0 {
                    self.buf.set(0, data[0]);
                }
                let b: u8 = self.buf[0];
                assert(b == (if data@.len() > 0 { data@[0] } else { old(self).buf@[0] }));
                assert(hi * 256 + b <= MAX_LENGTH);
                self.len = Length::TwoBytes(hi * 256 + (b as usize));
                ReadStep::Continue
            },
            Length::TwoBytes(l) => {
                let ghost b0 = self.buf@;
                let pos = self.pos;
                copy_into(&mut self.buf, pos, data);
                self.pos = pos + data.len();
                if self.pos == l {
                    self.buf.set(l, 0);
                    let frame = prefix_of(&self.buf, l + 1);
                    self.pos = 0;
                    self.len = Length::Zero;
                    assert(frame@ =~= (b0.take(pos as int) + data@).take(l as int).push(0));
                    ReadStep::Frame(frame)
                } else {
                    ReadStep::Unfinished
                }
            },
        }
    }

    /// The two length bytes, big endian, that go on the wire before `bytes`.
    pub fn write(&self, bytes: &[u8]) -> (h: [u8; 2])
        requires
            bytes@.len() <= MAX_LENGTH,
        ensures
            h@ == length_prefix(bytes@.len() as int),
    {
        let len = bytes.len();
        let h = [(len / 256) as u8, (len % 256) as u8];
        assert(h@ =~= length_prefix(len as int));
        h
    }
}

/// Writes `data` over `buf` from index `at` on.
fn copy_into(buf: &mut Vec<u8>, at: usize, data: &[u8])
    requires
        at + data@.len() <= old(buf)@.len(),
    ensures
        final(buf)@.len() == old(buf)@.len(),
        final(buf)@ == old(buf)@.take(at as int) + data@ + old(buf)@.skip(at + data@.len()),
{
    let ghost b0 = buf@;
    let mut i: usize = 0;
    while i < data.len()
        invariant
            0 <= i <= data@.len(),
            at + data@.len() <= b0.len(),
            at + data.len() <= buf.len(),
            buf@.len() == b0.len(),
            buf@ == b0.take(at as int) + data@.take(i as int) + b0.skip(at + i),
        decreases data@.len() - i,
    {
        buf.set(at + i, data[i]);
        i = i + 1;
        assert(buf@ =~= b0.take(at as int) + data@.take(i as int) + b0.skip(at + i));
    }
    assert(data@.take(data@.len() as int) =~= data@);
}

/// The first `n` bytes of `buf`.
fn prefix_of(buf: &Vec<u8>, n: usize) -> (r: Vec<u8>)
    requires
        n <= buf@.len(),
    ensures
        r@ == buf@.take(n as int),
{
    let mut r: Vec<u8> = Vec::new();
    let mut j: usize = 0;
    while j < n
        invariant
            0 <= j <= n,
            n <= buf@.len(),
            r@ == buf@.take(j as int),
        decreases n - j,
    {
        r.push(buf[j]);
        j = j + 1;
        assert(r@ =~= buf@.take(j as int));
    }
    r
}

/// The length prefix of a message of `n` bytes: high byte, then low byte.
pub open spec fn length_prefix(n: int) -> Seq<u8> {
    seq![(n / 256) as u8, (n % 256) as u8]
}

/// What a writer sends is read back: a fresh reader fed the two length
/// bytes one read at a time, then the payload in two reads split anywhere,
/// gives back the payload followed by one zero byte, on the last read only,
/// and is fresh again. Each read is one that `read` takes.
pub proof fn written_message_reads_back(buf: Seq<u8>, payload: Seq<u8>, k: int)
    requires
        buf.len() == MAX_LENGTH + 1,
        payload.len() <= MAX_LENGTH,
        0 <= k <= payload.len(),
    ensures
        ({
            let h = length_prefix(payload.len() as int);
            let s1 = read_state(Length::Zero, 0, buf, h.take(1));
            let s2 = read_state(s1.0, s1.1, s1.2, h.skip(1));
            let s3 = read_state(s2.0, s2.1, s2.2, payload.take(k));
            &&& read_fits(Length::Zero, 0, buf, h.take(1))
            &&& read_fits(s1.0, s1.1, s1.2, h.skip(1))
            &&& read_step(Length::Zero, 0, buf, h.take(1)) is None
            &&& read_step(s1.0, s1.1, s1.2, h.skip(1)) is None
            &&& if k < payload.len() {
                let s4 = read_state(s3.0, s3.1, s3.2, payload.skip(k));
                &&& read_fits(s2.0, s2.1, s2.2, payload.take(k))
                &&& read_step(s2.0, s2.1, s2.2, payload.take(k)) is None
                &&& read_fits(s3.0, s3.1, s3.2, payload.skip(k))
                &&& read_step(s3.0, s3.1, s3.2, payload.skip(k)) == Some(payload.push(0))
                &&& s4.0 == Length::Zero && s4.1 == 0
            } else {
                &&& read_fits(s2.0, s2.1, s2.2, payload)
                &&& read_step(s2.0, s2.1, s2.2, payload) == Some(payload.push(0))
                &&& s3.0 == Length::Zero && s3.1 == 0
            }
        }),
{
    let n = payload.len() as int;
    let h = length_prefix(n);
    assert(h.take(1) =~= seq![(n / 256) as u8]);
    assert(h.skip(1) =~= seq![(n % 256) as u8]);
    let hi = (n / 256) as u8;
    let lo = (n % 256) as u8;
    assert(hi as int == n / 256);
    assert(lo as int == n % 256);
    assert(hi * 256 + lo == n);
    let s1 = read_state(Length::Zero, 0, buf, h.take(1));
    let s2 = read_state(s1.0, s1.1, s1.2, h.skip(1));
    assert(s2.0 == Length::TwoBytes(n as usize));
    assert(s2.1 == 0);
    assert(payload.take(n) =~= payload);
    if k < n {
        let s3 = read_state(s2.0, s2.1, s2.2, payload.take(k));
        assert(s3.1 == k);
        assert((s3.2.take(k) + payload.skip(k)) =~= payload) by {
            assert(s3.2.take(k) =~= payload.take(k));
        }
        assert((s3.2.take(k) + payload.skip(k)).take(n) =~= payload);
    } else {
        assert((s2.2.take(0) + payload).take(n) =~= payload);
    }
}

} // verus!
