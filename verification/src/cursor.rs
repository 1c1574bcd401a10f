use vstd::prelude::*;

verus! {

/// `buf` extended with zero bytes up to `pos`, if it is shorter.
pub open spec fn padded(buf: Seq<u8>, pos: nat) -> Seq<u8> {
    if pos <= buf.len() {
        buf
    } else {
        buf + Seq::new((pos - buf.len()) as nat, |i: int| 0u8)
    }
}

/// `buf` with `bytes` written over it from `pos` on: what comes before `pos`
/// is kept (extended with zero bytes where `pos` lies past the end), the
/// bytes follow, and then what of `buf` lies after them.
pub open spec fn write_at(buf: Seq<u8>, pos: nat, bytes: Seq<u8>) -> Seq<u8> {
    let p = padded(buf, pos);
    let end = pos + bytes.len();
    p.take(pos as int) + bytes + if end < p.len() {
        p.subrange(end as int, p.len() as int)
    } else {
        Seq::empty()
    }
}

/// An in-memory byte buffer with a position, to which writes go: writing
/// overwrites the bytes at the position and extends the buffer where they
/// run past its end, and moves the position past them.
pub struct Cursor {
    inner: Vec<u8>,
    pos: usize,
}

impl View for Cursor {
    /// The bytes, and the position.
    type V = (Seq<u8>, nat);

    closed spec fn view(&self) -> (Seq<u8>, nat) {
        (self.inner@, self.pos as nat)
    }
}

impl Cursor {
    /// A cursor over `inner`, at its start.
    pub fn new(inner: Vec<u8>) -> (c: Cursor)
        ensures
            c@ == (inner@, 0nat),
    {
        Cursor { inner, pos: 0 }
    }

    pub fn position(&self) -> (p: usize)
        ensures
            p == self@.1,
    {
        self.pos
    }

    pub fn set_position(&mut self, pos: usize)
        ensures
            final(self)@ == (old(self)@.0, pos as nat),
    {
        self.pos = pos;
    }

    pub fn get_ref(&self) -> (r: &Vec<u8>)
        ensures
            r@ == self@.0,
    {
        &self.inner
    }

    pub fn into_inner(self) -> (r: Vec<u8>)
        ensures
            r@ == self@.0,
    {
        self.inner
    }

    /// Writes `bytes` at the position and moves the position past them.
    pub(crate) fn write_all(&mut self, bytes: &[u8])
        ensures
            final(self)@ == (write_at(old(self)@.0, old(self)@.1, bytes@), old(self)@.1 + bytes@.len()),
    {
        let pos = self.pos;
        let ghost start = self.inner@;
        while self.inner.len() < pos
            invariant
                self.pos == pos,
                start == old(self)@.0,
                start.len() <= self.inner@.len(),
                self.inner@.len() > start.len() ==> self.inner@.len() <= pos,
                self.inner@ == start + Seq::new((self.inner@.len() - start.len()) as nat, |i: int| 0u8),
            decreases pos - self.inner@.len(),
        {
            self.inner.push(0u8);
            assert(self.inner@ =~= start + Seq::new((self.inner@.len() - start.len()) as nat, |i: int| 0u8));
        }
        let ghost p = self.inner@;
        assert(p == padded(start, pos as nat)) by {
            if pos <= start.len() {
                assert(p =~= start);
            } else {
                assert(p.len() == pos);
            }
        }
        let n = bytes.len();
        let mut i: usize = 0;
        while i < n
            invariant
                self.pos == pos,
                p == padded(old(self)@.0, pos as nat),
                pos <= p.len(),
                i <= n,
                n == bytes@.len(),
                self.inner@ == write_at(p, pos as nat, bytes@.take(i as int)),
            decreases n - i,
        {
            let len = self.inner.len();
            let ghost before = self.inner@;
            let ghost t = bytes@.take(i as int);
            let ghost t1 = bytes@.take(i + 1);
            assert(t1 == t.push(bytes@[i as int]));
            assert(before.len() >= pos + i) by {
                assert(write_at(p, pos as nat, t).len() >= pos + t.len());
            }
            if pos + i < len {
                self.inner.set(pos + i, bytes[i]);
                assert(self.inner@ =~= write_at(p, pos as nat, t1));
            } else {
                self.inner.push(bytes[i]);
                let _len = self.inner.len();
                assert(self.inner@ =~= write_at(p, pos as nat, t1));
            }
            i += 1;
        }
        assert(bytes@.take(n as int) == bytes@);
        assert(write_at(p, pos as nat, bytes@) =~= write_at(old(self)@.0, pos as nat, bytes@));
        let _len = self.inner.len();
        self.pos = pos + n;
    }
}

} // verus!
