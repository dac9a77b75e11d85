use vstd::prelude::*;
use crate::Error;

verus! {

/// A sequential byte source: the bytes not yet consumed, in order.
pub struct Reader {
    data: Vec<u8>,
    pos: usize,
}

/// What a read of `n` bytes does: it succeeds exactly when `n` bytes are left,
/// hands them out and consumes them; otherwise it fails and consumes nothing.
pub open spec fn read_spec(n: nat, before: Seq<u8>, after: Seq<u8>, r: Result<Vec<u8>, Error>) -> bool {
    match r {
        Ok(v) => n <= before.len() && v@ == before.take(n as int) && after == before.skip(n as int),
        Err(e) => e == Error::UnexpectedEnd && before.len() < n && after == before,
    }
}

impl View for Reader {
    type V = Seq<u8>;

    closed spec fn view(&self) -> Seq<u8> {
        self.data@.skip(self.pos as int)
    }
}

impl Reader {
    #[verifier::type_invariant]
    closed spec fn inv(self) -> bool {
        self.pos <= self.data.len()
    }

    /// A source that yields the bytes of `data`.
    pub fn new(data: Vec<u8>) -> (r: Reader)
        ensures
            r@ == data@,
    {
        let r = Reader { data, pos: 0 };
        assert(r.data@.skip(0) =~= r.data@);
        r
    }

    /// Number of bytes not yet consumed.
    pub fn remaining(&self) -> (r: usize)
        ensures
            r == self@.len(),
    {
        proof {
            use_type_invariant(self);
        }
        self.data.len() - self.pos
    }

    /// Consumes the next `n` bytes.
    pub fn take(&mut self, n: usize) -> (r: Result<Vec<u8>, Error>)
        ensures
            read_spec(n as nat, old(self)@, final(self)@, r),
    {
        proof {
            use_type_invariant(&*self);
        }
        if self.data.len() - self.pos < n {
            return Err(Error::UnexpectedEnd);
        }
        let ghost before = self@;
        let mut out: Vec<u8> = Vec::with_capacity(n);
        let mut i: usize = 0;
        while i < n
            invariant
                self.pos + n <= self.data.len(),
                before == self.data@.skip(self.pos as int),
                i <= n,
                out@ == before.take(i as int),
            decreases n - i,
        {
            out.push(self.data[self.pos + i]);
            i = i + 1;
            assert(out@ =~= before.take(i as int));
        }
        self.pos = self.pos + n;
        assert(self@ =~= before.skip(n as int));
        Ok(out)
    }
}

} // verus!
