//! The executable traversal.

use crate::laws::{law_reported_len_is_exact, law_reported_len_is_lower_bound};
use crate::model::{ceil_div, lemma_ceil_div_is, Cursor};
use vstd::prelude::*;
use vstd::slice::slice_subrange;

verus! {

/// A traversal of a slice in windows of `read_size` elements, taken
/// `chunk_size` elements apart, starting at the beginning of the slice.
///
/// The traversal borrows the slice and holds the part of it that has not
/// been passed over yet. Its view is the [`Cursor`] it stands at.
#[must_use]
pub struct Chonks<'a, T: 'a> {
    v: &'a [T],
    chunk_size: usize,
    read_size: usize,
    source: Ghost<Seq<T>>,
    position: Ghost<nat>,
}

impl<'a, T> View for Chonks<'a, T> {
    type V = Cursor<T>;

    closed spec fn view(&self) -> Cursor<T> {
        Cursor {
            source: self.source@,
            position: self.position@,
            chunk_size: self.chunk_size as nat,
            read_size: self.read_size as nat,
        }
    }
}

impl<'a, T> Chonks<'a, T> {
    /// The slice held is what the cursor says remains.
    pub closed spec fn holds_remaining(&self) -> bool {
        self.v@ == self@.remaining()
    }

    /// Every traversal stands at a well-formed cursor and holds exactly the
    /// elements that remain there.
    #[verifier::type_invariant]
    pub open spec fn inv(&self) -> bool {
        self@.wf() && self.holds_remaining()
    }

    /// A traversal over the whole of `slice` with windows of
    /// `chunk_size + read_ahead` elements, `chunk_size` apart.
    pub fn new(slice: &'a [T], chunk_size: usize, read_ahead: usize) -> (res: Self)
        requires
            chunk_size >= 1,
            chunk_size + read_ahead <= usize::MAX,
        ensures
            res@ == Cursor::fresh(slice@, chunk_size as nat, read_ahead as nat),
    {
        assert(slice@ == slice@.skip(0));
        Chonks {
            v: slice,
            chunk_size,
            read_size: chunk_size + read_ahead,
            source: Ghost(slice@),
            position: Ghost(0),
        }
    }

    /// Leaves the traversal exhausted: nothing remains, the position is the
    /// end of the source.
    fn exhaust(&mut self)
        ensures
            final(self)@ == (Cursor { position: old(self)@.source.len(), ..old(self)@ }),
    {
        proof {
            use_type_invariant(&*self);
        }
        let empty: &'a [T] = &[];
        assert(empty@ =~= self.source@.skip(self.source@.len() as int));
        *self = Chonks {
            v: empty,
            chunk_size: self.chunk_size,
            read_size: self.read_size,
            source: self.source,
            position: Ghost(self.source@.len()),
        };
    }

    /// Emits the next window and steps on by `chunk_size`. Where fewer than
    /// `read_size` elements remain, all of them are emitted as the last
    /// window. Once nothing remains, nothing is emitted, now and ever after.
    pub fn next(&mut self) -> (res: Option<&'a [T]>)
        ensures
            final(self)@ == old(self)@.advance(),
            final(self)@.source == old(self)@.source,
            match res {
                Some(w) => !old(self)@.exhausted() && w@ == old(self)@.window(),
                None => old(self)@.exhausted() && final(self)@.exhausted(),
            },
            res matches Some(w) ==> 1 <= w@.len() <= old(self)@.read_size,
    {
        proof {
            use_type_invariant(&*self);
        }
        let v = self.v;
        let len = v.len();
        if v.is_empty() {
            None
        } else if len < self.read_size {
            assert(v@ =~= self@.window());
            self.exhaust();
            Some(v)
        } else {
            let window = slice_subrange(v, 0, self.read_size);
            let rest = slice_subrange(v, self.chunk_size, len);
            assert(window@ =~= self@.window());
            assert(rest@ =~= self.source@.skip(self.position@ + self.chunk_size));
            *self = Chonks {
                v: rest,
                chunk_size: self.chunk_size,
                read_size: self.read_size,
                source: self.source,
                position: Ghost((self.position@ + self.chunk_size) as nat),
            };
            Some(window)
        }
    }

    /// The number of windows the traversal reports as left, as a lower and
    /// an upper bound: the remaining length divided by `read_size`, rounded
    /// up. No fewer plain steps than that are left, and exactly that many on
    /// a cursor whose count is exact.
    pub fn size_hint(&self) -> (res: (usize, Option<usize>))
        ensures
            res.0 == self@.reported_len(),
            res.1 == Some(res.0),
            res.0 <= self@.windows_left(),
            self@.count_is_exact() <==> res.0 == self@.windows_left(),
    {
        proof {
            use_type_invariant(self);
            law_reported_len_is_lower_bound(self@);
            if self@.count_is_exact() {
                law_reported_len_is_exact(self@);
            }
        }
        let len = self.v.len();
        if self.v.is_empty() {
            proof {
                lemma_ceil_div_is(0, self.read_size as nat, 0);
            }
            (0, Some(0))
        } else if len < self.read_size {
            proof {
                lemma_ceil_div_is(len as nat, self.read_size as nat, 1);
            }
            (1, Some(1))
        } else {
            let n = len / self.read_size;
            let rem = len % self.read_size;
            proof {
                lemma_ceil_div_is(
                    len as nat,
                    self.read_size as nat,
                    ceil_div(len as nat, self.read_size as nat),
                );
            }
            let n = if rem > 0 {
                assert(n < len) by (nonlinear_arith)
                    requires
                        n * self.read_size < len,
                        self.read_size >= 1,
                ;
                n + 1
            } else {
                n
            };
            (n, Some(n))
        }
    }

    /// The number of windows the traversal reports as left.
    pub fn len(&self) -> (n: usize)
        ensures
            n == self@.reported_len(),
            n <= self@.windows_left(),
            self@.count_is_exact() <==> n == self@.windows_left(),
    {
        self.size_hint().0
    }

    /// Consumes the traversal and returns the number of windows it reports
    /// as left.
    pub fn count(self) -> (n: usize)
        ensures
            n == self@.reported_len(),
            n <= self@.windows_left(),
            self@.count_is_exact() <==> n == self@.windows_left(),
    {
        self.len()
    }

    /// Skips `n` windows of `read_size` elements and emits the one that
    /// follows, leaving the traversal just past it. Where the remaining
    /// elements end before that window begins, the traversal is exhausted
    /// and nothing is emitted.
    pub fn nth(&mut self, n: usize) -> (res: Option<&'a [T]>)
        ensures
            final(self)@ == old(self)@.advance_past(n as nat),
            final(self)@.source == old(self)@.source,
            match res {
                Some(w) => old(self)@.reaches(n as nat) && w@ == old(self)@.window_at(n as nat),
                None => !old(self)@.reaches(n as nat) && final(self)@.exhausted(),
            },
            res matches Some(w) ==> 1 <= w@.len() <= old(self)@.read_size,
    {
        proof {
            use_type_invariant(&*self);
        }
        let v = self.v;
        let len = v.len();
        match n.checked_mul(self.read_size) {
            Some(start) if start < len => {
                let end = match start.checked_add(self.read_size) {
                    Some(i) if i < len => i,
                    _ => len,
                };
                let window = slice_subrange(v, start, end);
                let rest = slice_subrange(v, end, len);
                assert(window@ =~= self@.window_at(n as nat));
                assert(rest@ =~= self.source@.skip(self.position@ + end));
                *self = Chonks {
                    v: rest,
                    chunk_size: self.chunk_size,
                    read_size: self.read_size,
                    source: self.source,
                    position: Ghost((self.position@ + end) as nat),
                };
                Some(window)
            },
            _ => {
                self.exhaust();
                None
            },
        }
    }
}

impl<T> Clone for Chonks<'_, T> {
    /// An independent traversal at the same cursor over the same slice.
    fn clone(&self) -> (res: Self)
        ensures
            res == *self,
    {
        proof {
            use_type_invariant(self);
        }
        Chonks {
            v: self.v,
            chunk_size: self.chunk_size,
            read_size: self.read_size,
            source: self.source,
            position: self.position,
        }
    }
}

} // verus!
