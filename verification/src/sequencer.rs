//! The gradient sequencer: a cursor over the `(width, start)` pairs of
//! a frozen character source, producing one window per step, widths
//! ascending and, within a width, starts ascending.

use crate::counting::{
    lemma_windows_through_closed_form, lemma_windows_through_full, lemma_windows_through_mono,
    row_len, windows_through,
};
use vstd::prelude::*;
use vstd::string::StrSliceExecFns;
use vstd::string::StringExecFns;

verus! {

/// A lazy enumerator of the contiguous sub-windows of a character
/// sequence. Windows come out in triangular order: every window of
/// width 1 from left to right, then every window of width 2, and so on,
/// up to the source's length or the configured maximum width.
#[derive(Clone, Debug, PartialEq, Eq, PartialOrd, Ord, Hash)]
pub struct Gradient {
    input: String,
    length: usize,
    start: usize,
    end: usize,
    width: usize,
    wide: bool,
    max_width: Option<usize>,
}

impl Gradient {
    /// The frozen source sequence being windowed.
    pub closed spec fn source(self) -> Seq<char> {
        self.input@
    }

    /// The configured width cap, if any.
    pub closed spec fn spec_max_width(self) -> Option<usize> {
        self.max_width
    }

    /// Width of the current window.
    pub closed spec fn spec_width(self) -> nat {
        self.width as nat
    }

    /// Start of the current window (inclusive).
    pub closed spec fn spec_start(self) -> nat {
        self.start as nat
    }

    /// End of the current window (exclusive).
    pub closed spec fn spec_end(self) -> nat {
        self.end as nat
    }

    /// Whether any window has been produced yet: a fresh sequencer
    /// still has `end == 0`, while every produced window is non-empty.
    pub open spec fn started(self) -> bool {
        self.spec_end() != 0
    }

    /// The largest width that will ever be produced: the source length,
    /// lowered to the configured maximum width when one is set.
    pub open spec fn cap(self) -> nat {
        let n = self.source().len();
        match self.spec_max_width() {
            Some(m) => if m as nat <= n { m as nat } else { n },
            None => n,
        }
    }

    /// How many windows this sequencer will produce in all.
    pub open spec fn total(self) -> nat {
        windows_through(self.source().len(), self.cap())
    }

    /// How many windows this sequencer has already produced: all full
    /// rows below the current width, plus the current row up to and
    /// including the current start.
    pub open spec fn emitted(self) -> nat
        recommends
            self.wf(),
    {
        if !self.started() {
            0
        } else {
            windows_through(self.source().len(), (self.spec_width() - 1) as nat)
                + self.spec_start() + 1
        }
    }

    /// Structural invariant. A fresh sequencer sits just before the
    /// first window of width 1; afterwards the cursor always denotes
    /// the window it produced last: a half-open range `[start, end)` of
    /// the configured width, inside the source and the width cap, with
    /// the row-boundary flag down exactly at the right edge.
    pub closed spec fn wf(self) -> bool {
        let n = self.input@.len();
        &&& self.length == n
        &&& if self.end == 0 {
            &&& self.start == 0
            &&& self.width == 1
            &&& self.wide
        } else {
            &&& 1 <= self.width <= n
            &&& self.max_width is Some ==> self.width <= self.max_width->0
            &&& self.end == self.start + self.width
            &&& self.end <= n
            &&& self.wide == (self.end < n)
        }
    }

    /// True when no further window exists: an empty source, or the
    /// single full-span window was just produced.
    pub open spec fn is_finished(self) -> bool {
        let n = self.source().len();
        n == 0 || (self.spec_end() == n && self.spec_width() == n)
    }

    /// An unbounded sequencer over `s`, positioned before the first
    /// window.
    pub fn new(s: &str) -> (g: Gradient)
        ensures
            g.wf(),
            g.source() == s@,
            g.spec_max_width() is None,
            !g.started(),
            g.emitted() == 0,
    {
        Gradient::with_max_width(s, None)
    }

    /// A sequencer over `s` that stops strictly before producing any
    /// window wider than `max_width`, when a bound is given. A bound of
    /// zero means no window is ever produced.
    pub fn with_max_width(s: &str, max_width: Option<usize>) -> (g: Gradient)
        ensures
            g.wf(),
            g.source() == s@,
            g.spec_max_width() == max_width,
            !g.started(),
            g.emitted() == 0,
    {
        let length: usize = s.unicode_len();
        Gradient {
            input: String::from_str(s),
            length,
            start: 0,
            end: 0,
            width: 1,
            wide: true,
            max_width,
        }
    }

    /// Element count of the source.
    pub fn len(&self) -> (r: usize)
        requires
            self.wf(),
        ensures
            r == self.source().len(),
    {
        self.length
    }

    /// Width of the current window.
    pub fn width(&self) -> (r: usize)
        ensures
            r == self.spec_width(),
    {
        self.width
    }

    /// Start of the current window (inclusive).
    pub fn start(&self) -> (r: usize)
        ensures
            r == self.spec_start(),
    {
        self.start
    }

    /// End of the current window (exclusive).
    pub fn end(&self) -> (r: usize)
        ensures
            r == self.spec_end(),
    {
        self.end
    }

    /// The current window as a half-open index range into the source.
    pub fn range(&self) -> (r: core::ops::Range<usize>)
        ensures
            r.start == self.spec_start(),
            r.end == self.spec_end(),
    {
        self.start()..self.end()
    }

    /// Whether enumeration has reached the terminal state: the source
    /// is empty, or the full-span window was just produced.
    pub fn finished(&self) -> (r: bool)
        requires
            self.wf(),
        ensures
            r == self.is_finished(),
    {
        if self.length == 0 {
            return true;
        }
        if self.end == self.length {
            if self.width == self.length {
                return true;
            }
        }
        false
    }

    /// The current window, materialized as a fresh copy of the source
    /// elements in `[start, end)`.
    pub fn window(&self) -> (r: String)
        requires
            self.wf(),
        ensures
            r@ == self.source().subrange(self.spec_start() as int, self.spec_end() as int),
    {
        String::from_str(self.input.as_str().substring_char(self.start, self.end))
    }

    /// Width of the window that would be produced next: the current
    /// row's while it can still slide right, one more at a row
    /// boundary, and 1 before the first window.
    pub open spec fn next_width(self) -> nat {
        if !self.started() {
            1
        } else if self.spec_end() < self.source().len() {
            self.spec_width()
        } else {
            self.spec_width() + 1
        }
    }

    /// Start of the window that would be produced next: one to the
    /// right while the row can still slide, back to 0 at a row
    /// boundary and before the first window.
    pub open spec fn next_start(self) -> nat {
        if self.started() && self.spec_end() < self.source().len() {
            self.spec_start() + 1
        } else {
            0
        }
    }

    /// Advances the cursor by one step and returns the next window, or
    /// `None` once every window within the source and the width cap has
    /// been produced. Exhaustion never mutates the cursor, so every
    /// call after the last window keeps returning `None`.
    pub fn next(&mut self) -> (r: Option<String>)
        requires
            old(self).wf(),
        ensures
            final(self).wf(),
            final(self).source() == old(self).source(),
            final(self).spec_max_width() == old(self).spec_max_width(),
            old(self).emitted() >= old(self).total() ==> {
                &&& r is None
                &&& *final(self) == *old(self)
            },
            old(self).emitted() < old(self).total() ==> {
                &&& r is Some
                &&& final(self).spec_width() == old(self).next_width()
                &&& final(self).spec_start() == old(self).next_start()
                &&& final(self).spec_end() == old(self).next_start() + old(self).next_width()
                &&& r->0@ == old(self).source().subrange(
                    final(self).spec_start() as int,
                    final(self).spec_end() as int,
                )
                &&& final(self).started()
                &&& final(self).emitted() == old(self).emitted() + 1
            },
    {
        if self.finished() {
            proof {
                lemma_finished_all_emitted(*self);
            }
            return None;
        }
        proof {
            lemma_advance_bounds(*self);
        }
        let (w, s): (usize, usize) = if self.wide {
            (self.width, self.end + 1 - self.width)
        } else {
            (self.width + 1, 0)
        };
        if let Some(m) = self.max_width {
            if w > m {
                proof {
                    lemma_capped_all_emitted(*self);
                }
                return None;
            }
        }
        proof {
            lemma_step_emits(*self);
        }
        self.width = w;
        self.start = s;
        self.end = s + w;
        self.wide = self.end < self.length;
        Some(self.window())
    }

    /// The current window, borrowed from the source for as long as the
    /// sequencer itself lives.
    pub fn input(&self) -> (r: &str)
        requires
            self.wf(),
        ensures
            r@ == self.source().subrange(self.spec_start() as int, self.spec_end() as int),
    {
        self.input.as_str().substring_char(self.start, self.end)
    }
}

/// Law: an unbounded sequencer over a non-empty source of `n` elements
/// produces exactly `n * (n + 1) / 2` windows.
pub proof fn lemma_unbounded_window_count(g: Gradient)
    requires
        g.wf(),
        g.spec_max_width() is None,
        g.source().len() > 0,
    ensures
        g.total() == g.source().len() * (g.source().len() + 1) / 2,
{
    lemma_windows_through_full(g.source().len());
}

/// Law: with a configured maximum width `k` below the source length
/// `n`, the sequencer produces exactly the sum, for each width in
/// `1 ..= k`, of `n - width + 1` windows — in closed form,
/// `n*k - k*(k - 1)/2`.
pub proof fn lemma_bounded_window_count(g: Gradient, k: usize)
    requires
        g.wf(),
        g.spec_max_width() == Some(k),
        k < g.source().len(),
    ensures
        g.total() == windows_through(g.source().len(), k as nat),
        g.total() == g.source().len() * k - k * (k - 1) / 2,
{
    lemma_windows_through_closed_form(g.source().len(), k as nat);
}

/// Law: windows come out in strictly increasing `(width, start)`
/// lexicographic order, and the width itself never decreases: the
/// position of the window produced next is lexicographically above the
/// position of the window produced last.
pub proof fn lemma_lex_increasing(g: Gradient)
    requires
        g.wf(),
        g.started(),
    ensures
        g.next_width() >= g.spec_width(),
        g.next_width() > g.spec_width() || (g.next_width() == g.spec_width()
            && g.next_start() > g.spec_start()),
{
}

/// Law: an empty source produces zero windows, whatever the maximum
/// width configuration.
pub proof fn lemma_empty_source_no_windows(g: Gradient)
    requires
        g.wf(),
        g.source().len() == 0,
    ensures
        g.total() == 0,
        g.emitted() == 0,
{
}

/// Law: a maximum width of zero produces zero windows.
pub proof fn lemma_zero_cap_no_windows(g: Gradient)
    requires
        g.wf(),
        g.spec_max_width() == Some(0usize),
    ensures
        g.total() == 0,
{
}

/// Law: once a window has been produced, the cursor always denotes it:
/// a half-open range of exactly the current width that lies inside the
/// source.
pub proof fn lemma_cursor_invariants(g: Gradient)
    requires
        g.wf(),
        g.started(),
    ensures
        1 <= g.spec_width() <= g.source().len(),
        g.spec_start() + g.spec_width() == g.spec_end(),
        g.spec_end() <= g.source().len(),
{
}

/// Law: the emitted count never exceeds the total.
pub proof fn lemma_emitted_le_total(g: Gradient)
    requires
        g.wf(),
    ensures
        g.emitted() <= g.total(),
{
    let n = g.source().len();
    if g.started() {
        let w = g.spec_width();
        assert(g.spec_start() + 1 <= row_len(n, w));
        assert(windows_through(n, w) == windows_through(n, (w - 1) as nat) + row_len(n, w));
        assert(w <= g.cap());
        lemma_windows_through_mono(n, w, g.cap());
    }
}

/// Law: a sequencer that reports itself finished has produced every
/// window it ever will.
pub proof fn lemma_finished_all_emitted(g: Gradient)
    requires
        g.wf(),
        g.is_finished(),
    ensures
        g.emitted() == g.total(),
{
    let n = g.source().len();
    if n == 0 {
        assert(g.total() == 0);
    } else {
        assert(g.spec_start() == 0);
        assert(g.cap() == n);
        assert(windows_through(n, n) == windows_through(n, (n - 1) as nat) + row_len(n, n));
    }
}

/// When the next row would exceed the configured cap, every window
/// within the cap has already been produced.
proof fn lemma_capped_all_emitted(g: Gradient)
    requires
        g.wf(),
        !g.is_finished(),
        g.spec_max_width() is Some,
        g.next_width() > g.spec_max_width()->0 as nat,
    ensures
        g.emitted() == g.total(),
{
    let n = g.source().len();
    if !g.started() {
        assert(g.cap() == 0);
        assert(g.total() == 0);
    } else {
        let w = g.spec_width();
        assert(g.spec_end() == n);
        assert(g.cap() == w);
        assert(windows_through(n, w) == windows_through(n, (w - 1) as nat) + row_len(n, w));
    }
}

/// The tentative next cursor position stays within the source, and
/// taking it raises the emitted count by exactly one.
proof fn lemma_advance_bounds(g: Gradient)
    requires
        g.wf(),
        !g.is_finished(),
    ensures
        g.source().len() > 0,
        1 <= g.next_width() <= g.source().len(),
        g.next_start() + g.next_width() <= g.source().len(),
        g.spec_end() + 1 >= g.spec_width(),
        windows_through(g.source().len(), (g.next_width() - 1) as nat) + g.next_start() + 1
            == g.emitted() + 1,
{
    let n = g.source().len();
    if g.started() && g.spec_end() == n {
        let w = g.spec_width();
        assert(windows_through(n, w) == windows_through(n, (w - 1) as nat) + row_len(n, w));
    }
}

/// One more window still fits under the cap: the emitted count has not
/// reached the total yet.
proof fn lemma_step_emits(g: Gradient)
    requires
        g.wf(),
        !g.is_finished(),
        g.spec_max_width() is Some ==> g.next_width() <= g.spec_max_width()->0 as nat,
    ensures
        g.emitted() + 1 <= g.total(),
{
    let n = g.source().len();
    let w = g.next_width();
    lemma_advance_bounds(g);
    assert(g.next_start() + 1 <= row_len(n, w));
    assert(windows_through(n, w) == windows_through(n, (w - 1) as nat) + row_len(n, w));
    assert(w <= g.cap());
    lemma_windows_through_mono(n, w, g.cap());
}

} // verus!
