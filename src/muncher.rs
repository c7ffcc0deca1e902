use crate::error::Error;
use vstd::prelude::*;

verus! {

/// The allocation ceiling a new decoder starts with: one GiB.
pub const DEFAULT_MAX_ALLOC: usize = 1073741824;

/// A decoder over a sequence of bytes, read from the front.
///
/// It owns the bytes and an allocation ceiling: the largest length, taken
/// from the input, that it will allocate a buffer for.
pub struct Muncher {
    data: Vec<u8>,
    pos: usize,
    alloc_limit_bytes: usize,
}

/// What taking `n` bytes from `rest` yields, and the bytes left after it.
/// When fewer than `n` are there, all of them are consumed.
pub open spec fn take_spec(rest: Seq<u8>, n: nat) -> (Result<Seq<u8>, Error>, Seq<u8>) {
    if n <= rest.len() {
        (Ok(rest.take(n as int)), rest.skip(n as int))
    } else {
        (Err(Error::UnexpectedEof), Seq::empty())
    }
}

/// A byte-buffer result seen as a sequence.
pub open spec fn bytes_view(r: Result<Vec<u8>, Error>) -> Result<Seq<u8>, Error> {
    match r {
        Ok(v) => Ok(v@),
        Err(e) => Err(e),
    }
}

/// How many bytes of `s` come before the first `d` (all of them if none is `d`).
pub open spec fn delim_pos(s: Seq<u8>, d: u8) -> nat
    decreases s.len(),
{
    if s.len() == 0 {
        0
    } else if s[0] == d {
        0
    } else {
        1 + delim_pos(s.drop_first(), d)
    }
}

/// The bytes of `rest` up to and including the first `d` (all of them if
/// there is none), and the bytes left after them.
pub open spec fn until_spec(rest: Seq<u8>, d: u8) -> (Seq<u8>, Seq<u8>) {
    let p = delim_pos(rest, d) as int;
    if p < rest.len() {
        (rest.take(p + 1), rest.skip(p + 1))
    } else {
        (rest, Seq::empty())
    }
}

/// The first `d` in `s` stands at `i` when no earlier byte is `d` and `s`
/// ends or holds `d` at `i`.
proof fn lemma_delim_pos(s: Seq<u8>, d: u8, i: int)
    requires
        0 <= i <= s.len(),
        forall|k: int| 0 <= k < i ==> s[k] != d,
        i == s.len() || s[i] == d,
    ensures
        delim_pos(s, d) == i,
    decreases i,
{
    if i > 0 {
        let t = s.drop_first();
        assert forall|k: int| 0 <= k < i - 1 implies t[k] != d by {
            assert(t[k] == s[k + 1]);
        }
        if i < s.len() {
            assert(t[i - 1] == s[i]);
        }
        lemma_delim_pos(t, d, i - 1);
    }
}

impl Muncher {
    #[verifier::type_invariant]
    spec fn inv(&self) -> bool {
        self.pos <= self.data@.len()
    }

    /// The bytes not yet read.
    pub closed spec fn rest(&self) -> Seq<u8> {
        self.data@.subrange(self.pos as int, self.data@.len() as int)
    }

    /// The allocation ceiling, in bytes.
    pub closed spec fn max_alloc(&self) -> usize {
        self.alloc_limit_bytes
    }

    /// Creates a decoder over `data` with the default ceiling of one GiB.
    pub fn new(data: Vec<u8>) -> (m: Self)
        ensures
            m.rest() == data@,
            m.max_alloc() == DEFAULT_MAX_ALLOC,
    {
        let m = Muncher { data, pos: 0, alloc_limit_bytes: DEFAULT_MAX_ALLOC };
        assert(m.rest() =~= m.data@);
        m
    }

    /// Sets the allocation ceiling (in bytes) for every later read.
    ///
    /// This guards against garbage taken as a length, which could otherwise
    /// ask for an allocation of terabytes.
    pub fn set_max_alloc(&mut self, alloc_limit_bytes: usize) -> (r: &mut Self)
        ensures
            r.max_alloc() == alloc_limit_bytes,
            r.rest() == old(self).rest(),
            *final(self) == *final(r),
    {
        proof {
            use_type_invariant(&*self);
        }
        self.alloc_limit_bytes = alloc_limit_bytes;
        self
    }

    /// The current allocation ceiling, in bytes.
    pub fn max_alloc_bytes(&self) -> (r: usize)
        ensures
            r == self.max_alloc(),
    {
        self.alloc_limit_bytes
    }

    /// The bytes not yet read, without consuming them.
    pub fn fill_buf(&self) -> (r: &[u8])
        ensures
            r@ == self.rest(),
    {
        proof {
            use_type_invariant(self);
        }
        vstd::slice::slice_subrange(self.data.as_slice(), self.pos, self.data.len())
    }

    /// Marks `amount` bytes as read; past the end, everything is read.
    pub fn consume(&mut self, amount: usize)
        ensures
            final(self).rest() == old(self).rest().skip(
                if amount <= old(self).rest().len() {
                    amount as int
                } else {
                    old(self).rest().len() as int
                },
            ),
            final(self).max_alloc() == old(self).max_alloc(),
    {
        proof {
            use_type_invariant(&*self);
        }
        let left = self.data.len() - self.pos;
        if amount <= left {
            self.pos = self.pos + amount;
        } else {
            self.pos = self.data.len();
        }
        assert(self.rest() =~= old(self).rest().skip(
            if amount <= left {
                amount as int
            } else {
                left as int
            },
        ));
    }

    /// Copies as many unread bytes as `buf` holds (or as are left) into the
    /// front of `buf`, consumes them, and returns how many there were.
    pub fn read(&mut self, buf: &mut [u8]) -> (r: usize)
        ensures
            r == (if old(buf)@.len() <= old(self).rest().len() {
                old(buf)@.len()
            } else {
                old(self).rest().len()
            }),
            final(buf)@ == old(self).rest().take(r as int) + old(buf)@.skip(r as int),
            final(self).rest() == old(self).rest().skip(r as int),
            final(self).max_alloc() == old(self).max_alloc(),
    {
        proof {
            use_type_invariant(&*self);
        }
        let len = self.data.len();
        let left = len - self.pos;
        let n = if buf.len() <= left {
            buf.len()
        } else {
            left
        };
        let mut i: usize = 0;
        while i < n
            invariant
                i <= n,
                len == self.data@.len(),
                self.pos + n <= len,
                n <= buf@.len(),
                buf@.len() == old(buf)@.len(),
                buf@ =~= self.data@.subrange(self.pos as int, self.pos + i) + old(buf)@.skip(
                    i as int,
                ),
            decreases n - i,
        {
            buf[i] = self.data[self.pos + i];
            i = i + 1;
        }
        self.pos = self.pos + n;
        assert(buf@ =~= old(self).rest().take(n as int) + old(buf)@.skip(n as int));
        assert(self.rest() =~= old(self).rest().skip(n as int));
        n
    }

    /// Takes exactly `n` bytes; when fewer are left, consumes them all and
    /// fails with `UnexpectedEof`.
    pub(crate) fn take_bytes(&mut self, n: usize) -> (r: Result<Vec<u8>, Error>)
        ensures
            (bytes_view(r), final(self).rest()) == take_spec(old(self).rest(), n as nat),
            final(self).max_alloc() == old(self).max_alloc(),
    {
        proof {
            use_type_invariant(&*self);
        }
        let left = self.data.len() - self.pos;
        if n > left {
            self.pos = self.data.len();
            assert(self.rest() =~= Seq::<u8>::empty());
            return Err(Error::UnexpectedEof);
        }
        let len = self.data.len();
        let mut out: Vec<u8> = Vec::with_capacity(n);
        let mut i: usize = 0;
        while i < n
            invariant
                i <= n,
                len == self.data@.len(),
                self.pos <= len,
                n <= len - self.pos,
                out@ =~= self.data@.subrange(self.pos as int, self.pos + i),
            decreases n - i,
        {
            out.push(self.data[self.pos + i]);
            i = i + 1;
        }
        self.pos = self.pos + n;
        assert(out@ =~= old(self).rest().take(n as int));
        assert(self.rest() =~= old(self).rest().skip(n as int));
        Ok(out)
    }

    /// Takes the bytes up to and including the first `delim`, or all that are
    /// left when none is `delim`.
    pub(crate) fn read_until(&mut self, delim: u8) -> (r: Vec<u8>)
        ensures
            r@ == until_spec(old(self).rest(), delim).0,
            final(self).rest() == until_spec(old(self).rest(), delim).1,
            final(self).max_alloc() == old(self).max_alloc(),
    {
        proof {
            use_type_invariant(&*self);
        }
        let len = self.data.len();
        let start = self.pos;
        let mut i: usize = start;
        let mut found = false;
        let mut out: Vec<u8> = Vec::new();
        while i < len && !found
            invariant
                start <= i <= len,
                len == self.data@.len(),
                out@ =~= self.data@.subrange(start as int, i as int),
                !found ==> forall|k: int| start <= k < i ==> self.data@[k] != delim,
                found ==> i > start && self.data@[i - 1] == delim && forall|k: int|
                    start <= k < i - 1 ==> self.data@[k] != delim,
            decreases len - i,
        {
            let c = self.data[i];
            out.push(c);
            i = i + 1;
            if c == delim {
                found = true;
            }
        }
        proof {
            let s = old(self).rest();
            if found {
                lemma_delim_pos(s, delim, i - 1 - start);
                assert(out@ =~= s.take(i - start));
            } else {
                lemma_delim_pos(s, delim, s.len() as int);
                assert(out@ =~= s);
            }
        }
        self.pos = i;
        proof {
            let s = old(self).rest();
            if found {
                assert(self.rest() =~= s.skip(i - start));
            } else {
                assert(self.rest() =~= Seq::<u8>::empty());
            }
        }
        out
    }
}

} // verus!
