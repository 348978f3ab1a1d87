//! What holds of every well-formed cursor, and so of every traversal.

use crate::model::{lemma_ceil_div_is, Cursor};
use vstd::prelude::*;

verus! {

/// A fresh cursor with a positive step is well-formed, stands at the start
/// and has the whole source remaining.
pub proof fn law_fresh_cursor<T>(source: Seq<T>, chunk_size: nat, read_ahead: nat)
    requires
        chunk_size >= 1,
    ensures
        Cursor::fresh(source, chunk_size, read_ahead).wf(),
        Cursor::fresh(source, chunk_size, read_ahead).position == 0,
        Cursor::fresh(source, chunk_size, read_ahead).remaining() == source,
        Cursor::fresh(source, chunk_size, read_ahead).read_size == chunk_size + read_ahead,
{
    assert(source.skip(0) =~= source);
}

/// A plain step keeps the cursor well-formed and the source as it was. The
/// position never moves back, and moves on whenever a window is emitted, so
/// what remains is always a shorter suffix of the same source. The next
/// window begins no later than the emitted one ends.
pub proof fn law_step_moves_forward<T>(c: Cursor<T>)
    requires
        c.wf(),
    ensures
        c.advance().wf(),
        c.advance().source == c.source,
        c.advance().chunk_size == c.chunk_size,
        c.advance().read_size == c.read_size,
        c.position <= c.advance().position <= c.window_end(),
        !c.exhausted() ==> c.advance().remaining_len() < c.remaining_len(),
{
}

/// A skip keeps the cursor well-formed and the source as it was. The position
/// never moves back, and where a window is emitted the cursor stands at its
/// end.
pub proof fn law_skip_moves_forward<T>(c: Cursor<T>, n: nat)
    requires
        c.wf(),
    ensures
        c.advance_past(n).wf(),
        c.advance_past(n).source == c.source,
        c.advance_past(n).chunk_size == c.chunk_size,
        c.advance_past(n).read_size == c.read_size,
        c.position <= c.advance_past(n).position,
        c.reaches(n) ==> c.advance_past(n).position == c.skip_end(n),
        c.reaches(n) ==> c.advance_past(n).remaining_len() < c.remaining_len(),
        !c.reaches(n) ==> c.advance_past(n).exhausted(),
{
}

/// An exhausted cursor stays as it is under every step and skip, and no
/// window is left or reported.
pub proof fn law_exhausted_stays<T>(c: Cursor<T>, n: nat)
    requires
        c.wf(),
        c.exhausted(),
    ensures
        c.advance() == c,
        c.advance_past(n) == c,
        !c.reaches(n),
        c.windows_left() == 0,
        c.reported_len() == 0,
{
    lemma_ceil_div_is(0, c.read_size, 0);
}

/// Every window that a plain step emits is a stretch of the source that
/// begins at the position, holds at least one element and at most
/// `read_size`, and is a prefix of what remains.
pub proof fn law_window_bounds<T>(c: Cursor<T>)
    requires
        c.wf(),
        !c.exhausted(),
    ensures
        1 <= c.window().len() <= c.read_size,
        c.window().len() == c.window_end() - c.position,
        c.window() == c.remaining().take(c.window().len() as int),
        c.window().len() < c.read_size ==> c.advance().exhausted(),
{
    assert(c.window() =~= c.remaining().take(c.window().len() as int));
}

/// Every window that a skip emits is a stretch of the source that holds at
/// least one element and at most `read_size`, and begins `n * read_size`
/// elements into what remains.
pub proof fn law_skipped_window_bounds<T>(c: Cursor<T>, n: nat)
    requires
        c.wf(),
        c.reaches(n),
    ensures
        1 <= c.window_at(n).len() <= c.read_size,
        c.window_at(n).len() == c.skip_end(n) - c.skip_start(n),
        c.window_at(n) == c.remaining().subrange(
            (n * c.read_size) as int,
            (n * c.read_size + c.window_at(n).len()) as int,
        ),
{
    assert(c.window_at(n) =~= c.remaining().subrange(
        (n * c.read_size) as int,
        (n * c.read_size + c.window_at(n).len()) as int,
    ));
}

/// Where fewer than `read_size` elements remain, and at least one, exactly
/// one window is left: all that remains.
pub proof fn law_last_window<T>(c: Cursor<T>)
    requires
        c.wf(),
        0 < c.remaining_len() < c.read_size,
    ensures
        c.window() == c.remaining(),
        c.window().len() == c.remaining_len(),
        c.advance().exhausted(),
        c.windows_left() == 1,
        c.reported_len() == 1,
{
    assert(c.window() =~= c.remaining());
    assert(c.advance().windows_left() == 0);
    lemma_ceil_div_is(c.remaining_len(), c.read_size, 1);
}

/// A skip over no window emits what a plain step emits, on every cursor.
/// Where there is no read-ahead, or the window is the last, it also leaves
/// the cursor where the plain step leaves it.
pub proof fn law_skip_zero_is_step<T>(c: Cursor<T>)
    requires
        c.wf(),
        c.steps_to_window_end(),
    ensures
        c.reaches(0) <==> !c.exhausted(),
        c.window_at(0) == c.window(),
        c.advance_past(0) == c.advance(),
{
}

/// Where there is read-ahead and a full window is emitted, a skip over no
/// window emits what a plain step emits but leaves the cursor at the end of
/// the window, beyond where the plain step leaves it.
pub proof fn law_skip_zero_oversteps<T>(c: Cursor<T>)
    requires
        c.wf(),
        !c.steps_to_window_end(),
    ensures
        c.reaches(0),
        !c.exhausted(),
        c.window_at(0) == c.window(),
        c.advance_past(0).position == c.position + c.read_size,
        c.advance().position == c.position + c.chunk_size,
        c.advance_past(0).position > c.advance().position,
{
}

/// Quotient and remainder of `x` by `d`, with their bounds.
proof fn lemma_div_mod_parts(x: int, d: int)
    by (nonlinear_arith)
    requires
        0 <= x,
        0 < d,
    ensures
        x == (x / d) * d + x % d,
        0 <= x % d < d,
        0 <= x / d,
        x < d ==> x / d == 0,
        x >= d ==> (x - d) / d == x / d - 1,
        x >= d ==> (x - d) % d == x % d,
{
}

/// Each plain step that emits a full window leaves one full window fewer
/// and the same tail.
proof fn lemma_full_window_step<T>(c: Cursor<T>)
    requires
        c.wf(),
        c.remaining_len() >= c.read_size,
    ensures
        c.advance().full_windows() + 1 == c.full_windows(),
        c.advance().tail_len() == c.tail_len(),
        c.full_windows() * c.chunk_size <= c.remaining_len(),
{
    let x = c.remaining_len() - c.read_size;
    let d = c.chunk_size as int;
    lemma_div_mod_parts(x, d);
    let f = c.full_windows() as int;
    assert((f - 1) * d == f * d - d) by (nonlinear_arith);
}

/// After `k` plain steps the source and the step parameters are as they
/// were. While full windows are left, each step moves the position on by
/// `chunk_size`; one step after the last full window the cursor is
/// exhausted.
pub proof fn law_after_positions<T>(c: Cursor<T>, k: nat)
    requires
        c.wf(),
    ensures
        c.after(k).wf(),
        c.after(k).source == c.source,
        c.after(k).chunk_size == c.chunk_size,
        c.after(k).read_size == c.read_size,
        k <= c.full_windows() ==> c.after(k).position == c.position + k * c.chunk_size,
        k > c.full_windows() ==> c.after(k).exhausted(),
    decreases k,
{
    if k > 0 {
        let d = c.advance();
        let j = (k - 1) as nat;
        law_after_positions(d, j);
        if c.remaining_len() >= c.read_size {
            lemma_full_window_step(c);
            assert(k * c.chunk_size == j * c.chunk_size + c.chunk_size) by (nonlinear_arith)
                requires
                    k == j + 1,
            ;
        }
    }
}

/// The plain steps that are left are the full windows, and one more for the
/// tail where the full windows leave any element over.
pub proof fn law_windows_left<T>(c: Cursor<T>)
    requires
        c.wf(),
    ensures
        c.windows_left() == c.full_windows() + if c.tail_len() > 0 { 1nat } else { 0nat },
        c.tail_len() < c.read_size,
        c.tail_len() == 0 <==> c.exhausted() || (c.chunk_size == c.read_size
            && c.remaining_len() % c.chunk_size == 0),
    decreases c.remaining_len(),
{
    if c.exhausted() {
    } else if c.remaining_len() < c.read_size {
        assert(c.advance().windows_left() == 0);
        assert(c.full_windows() == 0);
        assert(c.tail_len() == c.remaining_len());
        if c.chunk_size == c.read_size {
            lemma_div_mod_parts(c.remaining_len() as int, c.chunk_size as int);
        }
    } else {
        lemma_full_window_step(c);
        law_windows_left(c.advance());
        lemma_div_mod_parts(c.remaining_len() as int, c.chunk_size as int);
    }
}

/// The cursor is exhausted after `k` plain steps exactly from
/// `windows_left` steps on. Before that, step `k` emits the stretch of the
/// source that begins `k * chunk_size` elements after the position and ends
/// `read_size` elements on, or at the end of the source.
pub proof fn law_kth_window<T>(c: Cursor<T>, k: nat)
    requires
        c.wf(),
    ensures
        c.after(k).exhausted() <==> k >= c.windows_left(),
        k < c.windows_left() ==> c.after(k).position == c.step_start(k),
        k < c.windows_left() ==> c.step_start(k) < c.step_end(k) <= c.source.len(),
        k < c.windows_left() ==> c.after(k).window() == c.source.subrange(
            c.step_start(k) as int,
            c.step_end(k) as int,
        ),
{
    law_after_positions(c, k);
    law_windows_left(c);
    if c.remaining_len() >= c.read_size {
        lemma_full_window_step(c);
    }
    let f = c.full_windows();
    if k < f {
        assert(k * c.chunk_size + c.chunk_size <= f * c.chunk_size) by (nonlinear_arith)
            requires
                k + 1 <= f,
                c.chunk_size >= 0,
        ;
    }
}

/// What relates the quotient `q` of `len - r` by `c` to the ceiling `n` of
/// `len` by `r`, where `c < r <= len`.
proof fn lemma_counts_with_read_ahead(len: int, c: int, r: int, q: int, m: int, n: int)
    by (nonlinear_arith)
    requires
        1 <= c < r <= len,
        0 <= q,
        0 <= m < c,
        len - r == q * c + m,
        (n - 1) * r < len <= n * r,
    ensures
        n <= q + 2,
        n == q + 2 <==> len < r + (n - 1) * c,
{
}

/// What relates the quotient `q` of `len - c` by `c` to the ceiling `n` of
/// `len` by `c`, where `c <= len`.
proof fn lemma_counts_without_read_ahead(len: int, c: int, q: int, m: int, n: int)
    by (nonlinear_arith)
    requires
        1 <= c <= len,
        0 <= q,
        0 <= m < c,
        len - c == q * c + m,
        (n - 1) * c < len <= n * c,
    ensures
        n == q + 1 + if m > 0 { 1int } else { 0int },
{
}

/// The reported count never exceeds the number of plain steps that are
/// left, and equals it exactly on the cursors whose count is exact.
proof fn lemma_reported_len_against_windows_left<T>(c: Cursor<T>)
    requires
        c.wf(),
    ensures
        c.reported_len() <= c.windows_left(),
        c.reported_len() == c.windows_left() <==> c.count_is_exact(),
{
    law_windows_left(c);
    let len = c.remaining_len() as int;
    let r = c.read_size as int;
    let n = c.reported_len();
    let d = c.chunk_size as int;
    lemma_ceil_div_is(c.remaining_len(), c.read_size, n);
    if len == 0 {
        lemma_ceil_div_is(0, c.read_size, 0);
        assert((n - 1) * d == -d) by (nonlinear_arith)
            requires
                n == 0,
        ;
    } else if len < r {
        lemma_ceil_div_is(c.remaining_len(), c.read_size, 1);
        assert((n - 1) * d == 0) by (nonlinear_arith)
            requires
                n == 1,
        ;
    } else {
        lemma_div_mod_parts(len - r, d);
        let q = (len - r) / d;
        let m = (len - r) % d;
        lemma_full_window_step(c);
        assert(c.full_windows() == q + 1);
        assert(c.tail_len() == m + (r - d)) by (nonlinear_arith)
            requires
                c.tail_len() == len - c.full_windows() * d,
                c.full_windows() == q + 1,
                len - r == q * d + m,
        ;
        if d == r {
            lemma_counts_without_read_ahead(len, d, q, m, n as int);
        } else {
            lemma_counts_with_read_ahead(len, d, r, q, m, n as int);
        }
    }
}

/// On a cursor whose count is exact, the reported count is the number of
/// plain steps that emit a window before the cursor is exhausted.
pub proof fn law_reported_len_is_exact<T>(c: Cursor<T>)
    requires
        c.wf(),
        c.count_is_exact(),
    ensures
        c.reported_len() == c.windows_left(),
{
    lemma_reported_len_against_windows_left(c);
}

/// The reported count never exceeds the number of plain steps that are
/// left, and falls short of it on every cursor whose count is not exact.
pub proof fn law_reported_len_is_lower_bound<T>(c: Cursor<T>)
    requires
        c.wf(),
    ensures
        c.reported_len() <= c.windows_left(),
        !c.count_is_exact() ==> c.reported_len() < c.windows_left(),
{
    lemma_reported_len_against_windows_left(c);
}

/// Where there is no read-ahead every cursor's count is exact, and so is
/// that of every cursor with fewer than `read_size` elements left.
pub proof fn law_count_is_exact_without_read_ahead<T>(c: Cursor<T>)
    requires
        c.wf(),
        c.chunk_size == c.read_size || c.remaining_len() < c.read_size,
    ensures
        c.count_is_exact(),
        c.reported_len() == c.windows_left(),
{
    if c.chunk_size != c.read_size {
        if c.exhausted() {
            lemma_ceil_div_is(0, c.read_size, 0);
        } else {
            lemma_ceil_div_is(c.remaining_len(), c.read_size, 1);
        }
    }
    lemma_reported_len_against_windows_left(c);
}

/// One more plain step after `k` is `k + 1` plain steps.
pub proof fn law_after_unfolds<T>(c: Cursor<T>, k: nat)
    ensures
        c.after(k + 1) == c.after(k).advance(),
    decreases k,
{
    if k > 0 {
        law_after_unfolds(c.advance(), (k - 1) as nat);
    } else {
        assert(c.after(1) == c.advance().after(0));
    }
}

/// Where there is no read-ahead, a skip over `n` windows is `n + 1` plain
/// steps of which the last window is kept.
pub proof fn law_skip_is_steps_without_read_ahead<T>(c: Cursor<T>, n: nat)
    requires
        c.wf(),
        c.chunk_size == c.read_size,
    ensures
        c.reaches(n) <==> !c.after(n).exhausted(),
        c.reaches(n) ==> c.window_at(n) == c.after(n).window(),
        c.advance_past(n) == c.after(n + 1),
{
    let len = c.remaining_len() as int;
    let r = c.read_size as int;
    law_after_positions(c, n);
    law_after_positions(c, n + 1);
    law_after_unfolds(c, n);
    if len >= r {
        lemma_div_mod_parts(len - r, r);
    }
    let f = c.full_windows() as int;
    assert(n * r < len ==> n <= f) by (nonlinear_arith)
        requires
            1 <= r,
            0 <= len,
            len < r ==> f == 0,
            len >= r ==> len - r == (f - 1) * r + (len - r) % r && 0 <= (len - r) % r < r,
    ;
}

/// Every element that remains lies in the window of some cursor that plain
/// steps lead to before they are exhausted.
proof fn lemma_coverage_by_steps<T>(c: Cursor<T>, i: int)
    requires
        c.wf(),
        c.position <= i < c.source.len(),
    ensures
        exists|k: nat|
            k < c.windows_left() && (#[trigger] c.after(k)).position <= i < c.after(k).window_end(),
    decreases c.remaining_len(),
{
    if i < c.window_end() {
        assert(c.after(0) == c);
        assert(0 < c.windows_left());
    } else {
        let d = c.advance();
        lemma_coverage_by_steps(d, i);
        let j = choose|j: nat|
            j < d.windows_left() && (#[trigger] d.after(j)).position <= i < d.after(j).window_end();
        let k = j + 1;
        assert(c.after(k) == d.after(j));
        assert(k < c.windows_left());
    }
}

/// Every element that remains lies in a window that some plain step emits:
/// the windows that are left cover what remains without a gap.
pub proof fn law_coverage<T>(c: Cursor<T>, i: int)
    requires
        c.wf(),
        c.position <= i < c.source.len(),
    ensures
        exists|k: nat| k < c.windows_left() && #[trigger] c.step_start(k) <= i < c.step_end(k),
{
    lemma_coverage_by_steps(c, i);
    let k = choose|k: nat|
        k < c.windows_left() && (#[trigger] c.after(k)).position <= i < c.after(k).window_end();
    law_after_positions(c, k);
    law_kth_window(c, k);
    assert(c.step_start(k) <= i < c.step_end(k));
}

} // verus!
