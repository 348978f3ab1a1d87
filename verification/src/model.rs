//! The mathematical model of a traversal: a cursor over a sequence.

use vstd::prelude::*;

verus! {

/// Least `q` with `q * b >= a`, for `b > 0`.
pub open spec fn ceil_div(a: nat, b: nat) -> nat {
    if a % b == 0 {
        a / b
    } else {
        a / b + 1
    }
}

/// `ceil_div(a, b)` is the one `q` with `(q - 1) * b < a <= q * b`.
pub proof fn lemma_ceil_div_is(a: nat, b: nat, q: nat)
    by (nonlinear_arith)
    requires
        b > 0,
    ensures
        ceil_div(a, b) == q <==> (q - 1) * b < a <= q * b,
{
}

/// The smaller of two naturals.
pub open spec fn least(a: nat, b: nat) -> nat {
    if a <= b {
        a
    } else {
        b
    }
}

/// A position in a source sequence, with the two step parameters.
///
/// Everything before `position` has been passed over; the elements from
/// `position` on are what remains.
pub struct Cursor<T> {
    /// The sequence the traversal was built on. No operation changes it.
    pub source: Seq<T>,
    /// Index in `source` where the remaining elements begin.
    pub position: nat,
    /// Distance between the starts of two consecutive windows.
    pub chunk_size: nat,
    /// Length of every window but possibly the last.
    pub read_size: nat,
}

impl<T> Cursor<T> {
    /// The cursor a new traversal starts from.
    pub open spec fn fresh(source: Seq<T>, chunk_size: nat, read_ahead: nat) -> Self {
        Cursor { source, position: 0, chunk_size, read_size: chunk_size + read_ahead }
    }

    /// The step is positive, a window is at least a step long, and the
    /// position lies within the source.
    pub open spec fn wf(self) -> bool {
        &&& 1 <= self.chunk_size <= self.read_size
        &&& self.position <= self.source.len()
    }

    /// The elements not yet passed over: a suffix of the source.
    pub open spec fn remaining(self) -> Seq<T> {
        self.source.skip(self.position as int)
    }

    /// How many elements remain.
    pub open spec fn remaining_len(self) -> nat {
        if self.position <= self.source.len() {
            (self.source.len() - self.position) as nat
        } else {
            0
        }
    }

    /// Nothing remains.
    pub open spec fn exhausted(self) -> bool {
        self.remaining_len() == 0
    }

    /// Index just past the window that a plain step emits: `read_size`
    /// elements on, or the end of the source where fewer remain.
    pub open spec fn window_end(self) -> nat {
        least(self.position + self.read_size, self.source.len())
    }

    /// The window that a plain step emits from a cursor that is not
    /// exhausted.
    pub open spec fn window(self) -> Seq<T> {
        self.source.subrange(self.position as int, self.window_end() as int)
    }

    /// The cursor after a plain step. A full window moves the position on by
    /// `chunk_size`; a shorter one is the last and moves it to the end. An
    /// exhausted cursor stays where it is.
    pub open spec fn advance(self) -> Self {
        Cursor {
            position: if self.remaining_len() < self.read_size {
                self.source.len()
            } else {
                self.position + self.chunk_size
            },
            ..self
        }
    }

    /// The cursor after `k` plain steps.
    pub open spec fn after(self, k: nat) -> Self
        decreases k,
    {
        if k == 0 {
            self
        } else {
            self.advance().after((k - 1) as nat)
        }
    }

    /// Index where the window of plain step `k` begins, counting from 0,
    /// while steps are left.
    pub open spec fn step_start(self, k: nat) -> nat {
        self.position + k * self.chunk_size
    }

    /// Index just past the window of plain step `k`.
    pub open spec fn step_end(self, k: nat) -> nat {
        least(self.step_start(k) + self.read_size, self.source.len())
    }

    /// How many plain steps emit a window before the cursor is exhausted.
    pub open spec fn windows_left(self) -> nat
        decreases self.remaining_len(),
    {
        if self.exhausted() || self.chunk_size == 0 {
            0
        } else {
            1 + self.advance().windows_left()
        }
    }

    /// How many plain steps emit a full window of `read_size` elements.
    pub open spec fn full_windows(self) -> nat {
        if self.remaining_len() < self.read_size {
            0
        } else {
            ((self.remaining_len() - self.read_size) / (self.chunk_size as int) + 1) as nat
        }
    }

    /// How many elements remain once every full window has been emitted.
    pub open spec fn tail_len(self) -> nat {
        (self.remaining_len() - self.full_windows() * self.chunk_size) as nat
    }

    /// The count a traversal reports for itself: the remaining length
    /// divided by `read_size`, rounded up.
    pub open spec fn reported_len(self) -> nat {
        ceil_div(self.remaining_len(), self.read_size)
    }

    /// Whether the reported count is the number of plain steps that are
    /// left: there is no read-ahead, or the windows reported, laid
    /// `chunk_size` apart, reach past the end of what remains.
    pub open spec fn count_is_exact(self) -> bool {
        ||| self.chunk_size == self.read_size
        ||| self.remaining_len() < self.read_size + (self.reported_len() - 1) * self.chunk_size
    }

    /// Whether a plain step leaves the cursor at the end of the window it
    /// emits: there is no read-ahead, or the window is the last.
    pub open spec fn steps_to_window_end(self) -> bool {
        ||| self.chunk_size == self.read_size
        ||| self.remaining_len() < self.read_size
    }

    /// Whether the window that lies `n` whole windows ahead begins inside
    /// the remaining elements.
    pub open spec fn reaches(self, n: nat) -> bool {
        n * self.read_size < self.remaining_len()
    }

    /// Index where the window `n` whole windows ahead begins.
    pub open spec fn skip_start(self, n: nat) -> nat {
        self.position + n * self.read_size
    }

    /// Index just past the window `n` whole windows ahead.
    pub open spec fn skip_end(self, n: nat) -> nat {
        least(self.skip_start(n) + self.read_size, self.source.len())
    }

    /// The window that a skip over `n` windows emits where it reaches one.
    pub open spec fn window_at(self, n: nat) -> Seq<T> {
        self.source.subrange(self.skip_start(n) as int, self.skip_end(n) as int)
    }

    /// The cursor after a skip over `n` windows: just past the window it
    /// emits, or at the end of the source where it reaches none.
    pub open spec fn advance_past(self, n: nat) -> Self {
        Cursor {
            position: if self.reaches(n) {
                self.skip_end(n)
            } else {
                self.source.len()
            },
            ..self
        }
    }
}

} // verus!
