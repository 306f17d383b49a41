use vstd::prelude::*;
use crate::socket::Error;

verus! {

/// The first index at or after `from` where `s` holds `byte`, or `s.len()`
/// when there is none.
pub open spec fn find_byte(s: Seq<u8>, byte: u8, from: int) -> int
    decreases s.len() - from,
{
    if from >= s.len() {
        s.len() as int
    } else if s[from] == byte {
        from
    } else {
        find_byte(s, byte, from + 1)
    }
}

/// `find_byte` lies between `from` and the end, holds `byte` when it is not
/// the end, and no index before it does.
pub proof fn lemma_find_byte(s: Seq<u8>, byte: u8, from: int)
    requires
        0 <= from <= s.len(),
    ensures
        from <= find_byte(s, byte, from) <= s.len(),
        find_byte(s, byte, from) < s.len() ==> s[find_byte(s, byte, from)] == byte,
        forall|i: int| from <= i < find_byte(s, byte, from) ==> s[i] != byte,
    decreases s.len() - from,
{
    if from < s.len() && s[from] != byte {
        lemma_find_byte(s, byte, from + 1);
    }
}

/// A read position over a borrowed run of bytes.
pub struct ByteCursor<'a> {
    inner: &'a [u8],
    pos: usize,
}

impl<'a> ByteCursor<'a> {
    /// The bytes the cursor reads.
    pub closed spec fn data(&self) -> Seq<u8> {
        self.inner@
    }

    /// How many bytes have been read.
    pub closed spec fn pos(&self) -> nat {
        self.pos as nat
    }

    #[verifier::type_invariant]
    spec fn inv(&self) -> bool {
        self.pos <= self.inner@.len()
    }

    /// A cursor at the start of `inner`.
    pub fn new(inner: &'a [u8]) -> (c: Self)
        ensures
            c.data() == inner@,
            c.pos() == 0,
    {
        ByteCursor { inner, pos: 0 }
    }

    /// How many bytes have been read; never more than there are.
    pub fn position(&self) -> (p: usize)
        ensures
            p == self.pos(),
            p <= self.data().len(),
    {
        proof {
            use_type_invariant(self);
        }
        self.pos
    }

    /// The bytes the cursor reads.
    pub fn get_ref(&self) -> (r: &'a [u8])
        ensures
            r@ == self.data(),
    {
        self.inner
    }

    /// The bytes not read yet.
    pub fn remaining_slice(&self) -> (r: &'a [u8])
        ensures
            self.pos() <= self.data().len(),
            r@ == self.data().subrange(self.pos() as int, self.data().len() as int),
    {
        proof {
            use_type_invariant(self);
        }
        vstd::slice::slice_subrange(self.inner, self.pos, self.inner.len())
    }

    /// Moves the position `amt` bytes on, but not past the end.
    pub fn consume(&mut self, amt: usize)
        ensures
            final(self).data() == old(self).data(),
            final(self).pos() == (if old(self).pos() + amt <= old(self).data().len() {
                old(self).pos() + amt
            } else {
                old(self).data().len() as int
            }),
    {
        proof {
            use_type_invariant(&*self);
        }
        let len: usize = self.inner.len();
        if amt <= len - self.pos {
            self.pos = self.pos + amt;
        } else {
            self.pos = len;
        }
    }
}

/// The reader a handler decodes frames from. It reads the bytes received so
/// far and, where a plain in-memory reader would report the end of its data,
/// reports `Error::WouldBlock`: more may come from the socket later.
pub struct AsyncReader<'a> {
    inner: ByteCursor<'a>,
}

impl<'a> AsyncReader<'a> {
    /// The bytes the reader reads.
    pub closed spec fn data(&self) -> Seq<u8> {
        self.inner.data()
    }

    /// How many bytes have been read.
    pub closed spec fn pos(&self) -> nat {
        self.inner.pos()
    }

    /// The bytes not read yet.
    pub open spec fn rest(&self) -> Seq<u8> {
        self.data().subrange(self.pos() as int, self.data().len() as int)
    }

    pub fn new(inner: ByteCursor<'a>) -> (r: Self)
        ensures
            r.data() == inner.data(),
            r.pos() == inner.pos(),
    {
        AsyncReader { inner }
    }

    pub fn into_inner(self) -> (c: ByteCursor<'a>)
        ensures
            c.data() == self.data(),
            c.pos() == self.pos(),
    {
        self.inner
    }

    /// How many bytes have been read; never more than there are.
    pub fn position(&self) -> (p: usize)
        ensures
            p == self.pos(),
            p <= self.data().len(),
    {
        self.inner.position()
    }

    /// The bytes not read yet, or `Error::WouldBlock` when none are left.
    pub fn fill_buf(&self) -> (r: Result<&'a [u8], Error>)
        ensures
            self.pos() <= self.data().len(),
            self.pos() == self.data().len() <==> r matches Err(Error::WouldBlock),
            r matches Ok(b) ==> b@ == self.rest(),
            r is Ok || r matches Err(Error::WouldBlock),
    {
        let rest = self.inner.remaining_slice();
        if rest.len() == 0 {
            Err(Error::WouldBlock)
        } else {
            Ok(rest)
        }
    }

    /// Marks `amt` of the bytes that `fill_buf` gave as read (no more than
    /// there are).
    pub fn consume(&mut self, amt: usize)
        ensures
            final(self).data() == old(self).data(),
            final(self).pos() == (if old(self).pos() + amt <= old(self).data().len() {
                old(self).pos() + amt
            } else {
                old(self).data().len() as int
            }),
    {
        self.inner.consume(amt);
    }

    /// Copies as many unread bytes as fit into `buf`, and reads past them.
    /// At the end of the data, a read into a non-empty `buf` gives
    /// `Error::WouldBlock` and changes nothing: the rest has not arrived.
    pub fn read(&mut self, buf: &mut [u8]) -> (r: Result<usize, Error>)
        ensures
            final(self).data() == old(self).data(),
            old(self).rest().len() == 0 && old(buf)@.len() > 0 ==> {
                &&& r matches Err(Error::WouldBlock)
                &&& final(self).pos() == old(self).pos()
                &&& final(buf)@ == old(buf)@
            },
            !(old(self).rest().len() == 0 && old(buf)@.len() > 0) ==> (r matches Ok(n) && {
                &&& n == (if old(buf)@.len() < old(self).rest().len() {
                    old(buf)@.len()
                } else {
                    old(self).rest().len()
                })
                &&& final(self).pos() == old(self).pos() + n
                &&& final(buf)@ == old(self).rest().subrange(0, n as int) + old(buf)@.subrange(
                    n as int,
                    old(buf)@.len() as int,
                )
            }),
    {
        let rest = self.inner.remaining_slice();
        if rest.len() == 0 && buf.len() > 0 {
            return Err(Error::WouldBlock);
        }
        let n: usize = if buf.len() < rest.len() {
            buf.len()
        } else {
            rest.len()
        };
        let ghost orig = buf@;
        let mut i: usize = 0;
        while i < n
            invariant
                n <= buf@.len(),
                n <= rest@.len(),
                i <= n,
                buf@.len() == orig.len(),
                forall|j: int| 0 <= j < i ==> buf@[j] == rest@[j],
                forall|j: int| i <= j < buf@.len() ==> buf@[j] == orig[j],
            decreases n - i,
        {
            buf[i] = rest[i];
            i = i + 1;
        }
        proof {
            assert(buf@ =~= rest@.subrange(0, n as int) + orig.subrange(n as int, orig.len() as int));
        }
        self.inner.consume(n);
        Ok(n)
    }

    /// Appends to `out` the unread bytes up to and including the first
    /// `byte`, and reads past them. When no `byte` is left it appends and
    /// reads everything that is left, and gives `Error::WouldBlock`, since
    /// the rest of the line has not arrived; when nothing is left it changes
    /// nothing and gives `Error::WouldBlock` as well.
    pub fn read_until(&mut self, byte: u8, out: &mut Vec<u8>) -> (r: Result<usize, Error>)
        ensures
            final(self).data() == old(self).data(),
            ({
                let end: int = find_byte(old(self).data(), byte, old(self).pos() as int);
                let len: int = old(self).data().len() as int;
                if end < len {
                    &&& r == Ok::<usize, Error>((end + 1 - old(self).pos()) as usize)
                    &&& final(self).pos() == end + 1
                    &&& final(out)@ == old(out)@ + old(self).data().subrange(
                        old(self).pos() as int,
                        end + 1,
                    )
                } else {
                    &&& r matches Err(Error::WouldBlock)
                    &&& final(self).pos() == len
                    &&& final(out)@ == old(out)@ + old(self).rest()
                }
            }),
    {
        let rest = self.inner.remaining_slice();
        let ghost data = self.data();
        let ghost start = self.pos() as int;
        proof {
            lemma_find_byte(data, byte, start);
        }
        let mut i: usize = 0;
        while i < rest.len() && rest[i] != byte
            invariant
                i <= rest@.len(),
                rest@ == data.subrange(start, data.len() as int),
                0 <= start <= data.len(),
                find_byte(data, byte, start) == find_byte(data, byte, start + i),
            decreases rest@.len() - i,
        {
            i = i + 1;
        }
        let found = i < rest.len();
        let take: usize = if found {
            i + 1
        } else {
            i
        };
        let mut k: usize = 0;
        let ghost orig = out@;
        while k < take
            invariant
                take <= rest@.len(),
                k <= take,
                out@ == orig + rest@.subrange(0, k as int),
            decreases take - k,
        {
            out.push(rest[k]);
            k = k + 1;
            proof {
                assert(out@ =~= orig + rest@.subrange(0, k as int));
            }
        }
        self.inner.consume(take);
        proof {
            if !found {
                assert(rest@.subrange(0, take as int) =~= rest@);
            } else {
                assert(rest@.subrange(0, take as int) =~= data.subrange(start, start + i + 1));
            }
        }
        if found {
            Ok(take)
        } else {
            Err(Error::WouldBlock)
        }
    }
}

} // verus!
