use vstd::prelude::*;

use crate::num::{cast, trunc_div, NumKind};
use num_traits::NumCast;

verus! {

/// Why an operation of a moving average failed.
#[derive(Clone, Copy, Debug, PartialEq, Eq)]
pub enum MovAvgError {
    /// A value could not be represented in the target numeric type.
    Cast,
    /// The accumulator left the range of its type.
    Overflow,
    /// No value has been fed yet.
    Empty,
}

impl MovAvgError {
    /// A human-readable description of the error.
    pub fn message(&self) -> (r: &'static str) {
        match self {
            MovAvgError::Cast => "Failed to cast value to the target type.",
            MovAvgError::Overflow => "Accumulator type add overflow.",
            MovAvgError::Empty => "The MovAvg state is empty.",
        }
    }
}

/// `x` lies in the range of the numeric type `K`.
pub open spec fn in_range<K: NumKind>(x: int) -> bool {
    K::min_value() <= x <= K::max_value()
}

/// The mathematical values of a sequence of numbers.
pub open spec fn values<K: NumKind>(s: Seq<K>) -> Seq<int> {
    s.map_values(|x: K| x.value())
}

/// The sum of a sequence of integers.
pub open spec fn sum(s: Seq<int>) -> int
    decreases s.len(),
{
    if s.len() == 0 {
        0
    } else {
        sum(s.drop_last()) + s.last()
    }
}

/// Summing `s` from the first element to the last in the accumulator type `A`:
/// the sum, or the error met at the first element that does not fit (`Cast`)
/// or whose addition leaves the range of `A` (`Overflow`).
pub open spec fn seed_outcome<A: NumKind>(s: Seq<int>) -> Result<int, MovAvgError>
    decreases s.len(),
{
    if s.len() == 0 {
        Ok(0)
    } else {
        match seed_outcome::<A>(s.drop_last()) {
            Err(e) => Err(e),
            Ok(acc) => if !in_range::<A>(s.last()) {
                Err(MovAvgError::Cast)
            } else if !in_range::<A>(acc + s.last()) {
                Err(MovAvgError::Overflow)
            } else {
                Ok(acc + s.last())
            },
        }
    }
}

proof fn lemma_seed_outcome_sum<A: NumKind>(s: Seq<int>)
    ensures
        seed_outcome::<A>(s) matches Ok(acc) ==> acc == sum(s),
        seed_outcome::<A>(s) is Ok ==> forall|i: int| 0 <= i < s.len() ==> #[trigger] in_range::<A>(s[i]),
    decreases s.len(),
{
    if s.len() > 0 {
        lemma_seed_outcome_sum::<A>(s.drop_last());
        if seed_outcome::<A>(s) is Ok {
            assert forall|i: int| 0 <= i < s.len() implies #[trigger] in_range::<A>(s[i]) by {
                if i < s.len() - 1 {
                    assert(s[i] == s.drop_last()[i]);
                }
            }
        }
    }
}

/// Sum the samples of `window_buffer` in the accumulator type `A`, front to back.
///
/// Fails with `Cast` at the first sample that `A` cannot hold, and with
/// `Overflow` where a partial sum leaves the range of `A`.
pub fn initialize_accu<T: NumKind + NumCast, A: NumKind + NumCast>(window_buffer: &[T]) -> (r: Result<A, MovAvgError>)
    ensures
        match seed_outcome::<A>(values(window_buffer@)) {
            Ok(s) => r matches Ok(a) && a.value() == s,
            Err(e) => r == Err::<A, MovAvgError>(e),
        },
{
    let mut accu = A::zero();
    let mut i: usize = 0;
    while i < window_buffer.len()
        invariant
            i <= window_buffer@.len(),
            seed_outcome::<A>(values(window_buffer@).take(i as int)) == Ok::<int, MovAvgError>(accu.value()),
        decreases window_buffer@.len() - i,
    {
        let ghost w = values(window_buffer@);
        assert(w.take(i + 1).drop_last() == w.take(i as int));
        let value = match cast::<T, A>(window_buffer[i]) {
            Some(v) => v,
            None => {
                proof {
                    lemma_seed_prefix_err::<A>(w, i + 1);
                }
                return Err(MovAvgError::Cast);
            },
        };
        accu = match accu.add_checked(value) {
            Some(s) => s,
            None => {
                proof {
                    lemma_seed_prefix_err::<A>(w, i + 1);
                }
                return Err(MovAvgError::Overflow);
            },
        };
        i = i + 1;
    }
    assert(values(window_buffer@).take(i as int) == values(window_buffer@));
    Ok(accu)
}

/// An error met on a prefix is the error of the whole sequence.
proof fn lemma_seed_prefix_err<A: NumKind>(s: Seq<int>, n: int)
    requires
        0 <= n <= s.len(),
        seed_outcome::<A>(s.take(n)) is Err,
    ensures
        seed_outcome::<A>(s) == seed_outcome::<A>(s.take(n)),
    decreases s.len() - n,
{
    if n < s.len() {
        assert(s.take(n + 1).drop_last() == s.take(n));
        lemma_seed_prefix_err::<A>(s, n + 1);
    } else {
        assert(s.take(n) == s);
    }
}

/// How an accumulator type brings its running sum up to date when the window
/// moves on by one sample.
///
/// `Self` is the accumulator type, `T` the sample type.
pub trait MovAvgAccu<T: NumKind>: NumKind {
    /// The new running sum, from the old one (`self`), the sample that leaves the
    /// window (`first_value`, zero while the window is not full), the sample that
    /// enters it (`input_value`) and the window as it stands after the entry.
    ///
    /// The update is checked: it fails with `Overflow` where the sum without
    /// the leaving sample, or the new sum, does not fit in `Self`.
    fn recalc_accu(self, first_value: Self, input_value: Self, window_buffer: &[T]) -> (r: Result<Self, MovAvgError>)
        ensures
            r is Ok <==> in_range::<Self>(self.value() - first_value.value())
                && in_range::<Self>(self.value() - first_value.value() + input_value.value()),
            r matches Ok(s) ==> s.value() == self.value() - first_value.value() + input_value.value(),
            r matches Err(e) ==> e == MovAvgError::Overflow,
    ;
}

impl<T: NumKind, A: NumKind> MovAvgAccu<T> for A {
    fn recalc_accu(self, first_value: Self, input_value: Self, _window_buffer: &[T]) -> (r: Result<Self, MovAvgError>) {
        // Take the leaving sample off the sum, then add the new one.
        match self.sub_checked(first_value) {
            Some(rest) => match rest.add_checked(input_value) {
                Some(s) => Ok(s),
                None => Err(MovAvgError::Overflow),
            },
            None => Err(MovAvgError::Overflow),
        }
    }
}

/// The value of a result that the caller's precondition makes `Ok`.
///
/// Were it an error after all, this panics with the error's message.
fn expect_ok<V>(r: Result<V, MovAvgError>) -> (v: V)
    requires
        r is Ok,
    ensures
        v == r->Ok_0,
{
    match r {
        Ok(v) => v,
        Err(e) => {
            let none: Option<V> = None;
            none.expect(e.message())
        },
    }
}

/// Simple moving average over the last `WINDOW_SIZE` samples fed into it.
///
/// * `T` - the sample type, which `feed` takes and the average comes in.
/// * `A` - the accumulator type, which holds the running sum of the window.
///   It should be at least as wide as `T`.
/// * `WINDOW_SIZE` - the number of samples that the window holds.
pub struct MovAvg<T, A, const WINDOW_SIZE: usize> {
    buffer: [T; WINDOW_SIZE],
    accu: A,
    nr_items: usize,
    index: usize,
}

impl<T: NumKind + NumCast, A: MovAvgAccu<T> + NumCast, const WINDOW_SIZE: usize> MovAvg<T, A, WINDOW_SIZE> {
    /// The buffer slot of the `j`-th oldest sample of a window whose oldest
    /// sample sits at slot `start`.
    pub open spec fn slot(start: int, j: int) -> int {
        if start + j < WINDOW_SIZE {
            start + j
        } else {
            start + j - WINDOW_SIZE
        }
    }

    /// The buffer slot of the oldest sample.
    closed spec fn start(&self) -> int {
        if self.nr_items == WINDOW_SIZE {
            self.index as int
        } else {
            0
        }
    }

    /// The values of the samples in the window, oldest first.
    pub closed spec fn window(&self) -> Seq<int> {
        Seq::new(self.nr_items as nat, |j: int| self.buffer@[Self::slot(self.start(), j)].value())
    }

    /// The internal state is consistent: the cursor points at the next slot to
    /// write, and the accumulator holds the sum of the window.
    pub closed spec fn wf(&self) -> bool {
        &&& WINDOW_SIZE > 0
        &&& self.nr_items <= WINDOW_SIZE
        &&& self.index < WINDOW_SIZE
        &&& self.nr_items < WINDOW_SIZE ==> self.index == self.nr_items
        &&& self.accu.value() == sum(self.window())
        &&& forall|j: int| 0 <= j < self.nr_items ==> #[trigger] in_range::<A>(self.window()[j])
    }

    /// The window `w` after `v` enters it: once the window is full, the
    /// oldest sample leaves.
    pub open spec fn pushed(w: Seq<int>, v: int) -> Seq<int> {
        if w.len() >= WINDOW_SIZE {
            w.drop_first().push(v)
        } else {
            w.push(v)
        }
    }

    /// The sample that leaves the window `w` when a new one enters: zero while
    /// the window is not full.
    pub open spec fn evicted(w: Seq<int>) -> int {
        if w.len() >= WINDOW_SIZE {
            w[0]
        } else {
            0
        }
    }

    /// The average of a non-empty window, truncated toward zero.
    pub open spec fn average(w: Seq<int>) -> int {
        trunc_div(sum(w), w.len() as int)
    }

    /// What feeding `v` into the window `w` yields: the new average, or the
    /// error, checked in this order: `v` or the new count does not fit in `A`
    /// (`Cast`); the sum without the leaving sample, or the new sum, does not
    /// fit in `A` (`Overflow`); the new average does not fit in `T` (`Cast`).
    pub open spec fn feed_outcome(w: Seq<int>, v: int) -> Result<int, MovAvgError> {
        let nw = Self::pushed(w, v);
        if !in_range::<A>(v) || !in_range::<A>(nw.len() as int) {
            Err(MovAvgError::Cast)
        } else if !in_range::<A>(sum(w) - Self::evicted(w)) || !in_range::<A>(sum(nw)) {
            Err(MovAvgError::Overflow)
        } else if !in_range::<T>(Self::average(nw)) {
            Err(MovAvgError::Cast)
        } else {
            Ok(Self::average(nw))
        }
    }

    /// What querying the window `w` yields: `Empty` for an empty window, `Cast`
    /// where the count does not fit in `A` or the average does not fit in `T`,
    /// and the average otherwise.
    pub open spec fn get_outcome(w: Seq<int>) -> Result<int, MovAvgError> {
        if w.len() == 0 {
            Err(MovAvgError::Empty)
        } else if !in_range::<A>(w.len() as int) || !in_range::<T>(Self::average(w)) {
            Err(MovAvgError::Cast)
        } else {
            Ok(Self::average(w))
        }
    }

    /// Construct a new, empty moving average.
    pub fn new() -> (r: Self)
        requires
            WINDOW_SIZE > 0,
        ensures
            r.wf(),
            r.window() == Seq::<int>::empty(),
    {
        Self::new_init([T::zero(); WINDOW_SIZE], 0)
    }

    /// Construct a moving average whose window holds the first `nr_populated`
    /// samples of `buffer`, oldest first. The other slots do not matter.
    pub fn new_init(buffer: [T; WINDOW_SIZE], nr_populated: usize) -> (r: Self)
        requires
            WINDOW_SIZE > 0,
            nr_populated <= WINDOW_SIZE,
            seed_outcome::<A>(values(buffer@.take(nr_populated as int))) is Ok,
        ensures
            r.wf(),
            r.window() == values(buffer@.take(nr_populated as int)),
    {
        let index: usize = if nr_populated == WINDOW_SIZE {
            0
        } else {
            nr_populated
        };
        let populated = vstd::slice::slice_subrange(buffer.as_slice(), 0, nr_populated);
        let accu: A = expect_ok(initialize_accu::<T, A>(populated));
        let r = MovAvg { buffer, accu, nr_items: nr_populated, index };
        proof {
            let w = values(buffer@.take(nr_populated as int));
            assert(populated@ == buffer@.take(nr_populated as int));
            assert(r.window() =~= w);
            lemma_seed_outcome_sum::<A>(w);
        }
        r
    }

    /// Empty the window, as if this moving average had just been built with
    /// `new`. The buffer's memory is not overwritten.
    pub fn reset(&mut self)
        requires
            old(self).wf(),
        ensures
            final(self).wf(),
            final(self).window() == Seq::<int>::empty(),
    {
        self.accu = A::zero();
        self.nr_items = 0;
        self.index = 0;
        proof {
            assert(self.window() =~= Seq::<int>::empty());
        }
    }

    /// Feed `value` into the window and return the new average.
    ///
    /// On error the moving average is left exactly as it was.
    pub fn try_feed(&mut self, value: T) -> (r: Result<T, MovAvgError>)
        requires
            old(self).wf(),
        ensures
            final(self).wf(),
            match Self::feed_outcome(old(self).window(), value.value()) {
                Ok(avg) => r matches Ok(x) && x.value() == avg && final(self).window() == Self::pushed(
                    old(self).window(),
                    value.value(),
                ),
                Err(e) => r == Err::<T, MovAvgError>(e) && *final(self) == *old(self),
            },
    {
        let ghost w = self.window();
        let ghost nw = Self::pushed(w, value.value());
        let full = self.nr_items >= WINDOW_SIZE;

        // The sample that leaves the window, if it is full.
        let first_value: A = if full {
            proof {
                assert(Self::slot(self.start(), 0) == self.index);
                assert(in_range::<A>(w[0]));
            }
            match cast::<T, A>(self.buffer[self.index]) {
                Some(v) => v,
                None => {
                    return Err(MovAvgError::Cast);
                },
            }
        } else {
            A::zero()
        };
        let a_value: A = match cast::<T, A>(value) {
            Some(v) => v,
            None => {
                return Err(MovAvgError::Cast);
            },
        };
        let new_nr_items: usize = if full {
            self.nr_items
        } else {
            self.nr_items + 1
        };
        let a_nr_items: A = match cast::<usize, A>(new_nr_items) {
            Some(n) => n,
            None => {
                return Err(MovAvgError::Cast);
            },
        };
        proof {
            assert(first_value.value() == Self::evicted(w));
            assert(nw.len() == new_nr_items);
            lemma_sum_pushed(w, value.value(), full);
        }

        // Insert the new sample; it is taken out again on error.
        let orig_item = self.buffer[self.index];
        self.buffer[self.index] = value;

        let res = self.accu.recalc_accu(
            first_value,
            a_value,
            vstd::slice::slice_subrange(self.buffer.as_slice(), 0, new_nr_items),
        );
        match res {
            Ok(new_accu) => {
                match cast::<A, T>(new_accu.div_trunc(a_nr_items)) {
                    Some(avg) => {
                        let ghost old_index = self.index;
                        self.nr_items = new_nr_items;
                        self.index = if self.index + 1 == WINDOW_SIZE {
                            0
                        } else {
                            self.index + 1
                        };
                        self.accu = new_accu;
                        proof {
                            self.lemma_window_after_insert(*old(self), value);
                        }
                        Ok(avg)
                    },
                    None => {
                        self.buffer[self.index] = orig_item;
                        proof {
                            assert(self.buffer =~= old(self).buffer);
                        }
                        Err(MovAvgError::Cast)
                    },
                }
            },
            Err(e) => {
                self.buffer[self.index] = orig_item;
                proof {
                    assert(self.buffer =~= old(self).buffer);
                }
                Err(e)
            },
        }
    }

    /// Feed `value` into the window and return the new average.
    ///
    /// The caller guarantees that the update succeeds; were it to fail, this
    /// panics with the error's message.
    pub fn feed(&mut self, value: T) -> (r: T)
        requires
            old(self).wf(),
            Self::feed_outcome(old(self).window(), value.value()) is Ok,
        ensures
            final(self).wf(),
            r.value() == Self::feed_outcome(old(self).window(), value.value())->Ok_0,
            final(self).window() == Self::pushed(old(self).window(), value.value()),
    {
        expect_ok(self.try_feed(value))
    }

    /// The current average, without changing any state.
    pub fn try_get(&self) -> (r: Result<T, MovAvgError>)
        requires
            self.wf(),
        ensures
            match Self::get_outcome(self.window()) {
                Ok(avg) => r matches Ok(x) && x.value() == avg,
                Err(e) => r == Err::<T, MovAvgError>(e),
            },
    {
        proof {
            A::lemma_bounds(self.accu);
            assert(self.window().len() == self.nr_items);
        }
        match cast::<usize, A>(self.nr_items) {
            Some(nr_items) => {
                if self.nr_items == 0 {
                    Err(MovAvgError::Empty)
                } else {
                    match cast::<A, T>(self.accu.div_trunc(nr_items)) {
                        Some(avg) => Ok(avg),
                        None => Err(MovAvgError::Cast),
                    }
                }
            },
            None => Err(MovAvgError::Cast),
        }
    }

    /// The current average, without changing any state.
    ///
    /// The caller guarantees that there is one; were there none, this panics
    /// with the error's message.
    pub fn get(&self) -> (r: T)
        requires
            self.wf(),
            Self::get_outcome(self.window()) is Ok,
        ensures
            r.value() == Self::get_outcome(self.window())->Ok_0,
    {
        expect_ok(self.try_get())
    }

    /// The window left by feeding the values `vs`, first to last, into the
    /// window `w`.
    pub open spec fn fed(w: Seq<int>, vs: Seq<int>) -> Seq<int>
        decreases vs.len(),
    {
        if vs.len() == 0 {
            w
        } else {
            Self::pushed(Self::fed(w, vs.drop_last()), vs.last())
        }
    }

    /// Where the latest `WINDOW_SIZE` values of `vs` begin.
    pub open spec fn latest_start(vs: Seq<int>) -> int {
        if vs.len() > WINDOW_SIZE {
            vs.len() - WINDOW_SIZE
        } else {
            0
        }
    }

    /// Fed into an empty moving average, values `v1 .. vk` leave in the window
    /// the last `min(k, WINDOW_SIZE)` of them; so where feeding `vk` succeeds,
    /// it reports their sum divided by their number, truncated toward zero.
    pub proof fn lemma_windowing(vs: Seq<int>)
        requires
            WINDOW_SIZE > 0,
        ensures
            Self::fed(Seq::empty(), vs) == vs.subrange(Self::latest_start(vs), vs.len() as int),
            vs.len() > 0 && Self::feed_outcome(Self::fed(Seq::empty(), vs.drop_last()), vs.last()) is Ok
                ==> Self::feed_outcome(Self::fed(Seq::empty(), vs.drop_last()), vs.last()) == Ok::<int, MovAvgError>(
                trunc_div(
                    sum(vs.subrange(Self::latest_start(vs), vs.len() as int)),
                    vs.len() - Self::latest_start(vs),
                ),
            ),
        decreases vs.len(),
    {
        if vs.len() > 0 {
            let prev = vs.drop_last();
            Self::lemma_windowing(prev);
            let w = Self::fed(Seq::empty(), prev);
            if prev.len() >= WINDOW_SIZE {
                assert(w.drop_first().push(vs.last()) =~= vs.subrange(Self::latest_start(vs), vs.len() as int));
            } else {
                assert(w.push(vs.last()) =~= vs.subrange(Self::latest_start(vs), vs.len() as int));
            }
        } else {
            assert(vs.subrange(0, 0) =~= Seq::<int>::empty());
        }
    }

    /// A moving average that has been fed nothing answers a query with `Empty`.
    pub proof fn lemma_empty_query()
        ensures
            Self::get_outcome(Seq::empty()) == Err::<int, MovAvgError>(MovAvgError::Empty),
    {
    }

    /// A moving average seeded with the values `items` (at most `WINDOW_SIZE`
    /// of them) has the window of an empty one fed `items` first to last; so
    /// both yield the same results for any values `vs` fed afterwards.
    pub proof fn lemma_seeded_equivalence(items: Seq<int>, vs: Seq<int>)
        requires
            WINDOW_SIZE > 0,
            items.len() <= WINDOW_SIZE,
        ensures
            Self::fed(Seq::empty(), items) == items,
            forall|i: int|
                0 <= i < vs.len() ==> #[trigger] Self::feed_outcome(Self::fed(items, vs.take(i)), vs[i])
                    == Self::feed_outcome(Self::fed(Self::fed(Seq::empty(), items), vs.take(i)), vs[i]),
            Self::get_outcome(Self::fed(items, vs)) == Self::get_outcome(
                Self::fed(Self::fed(Seq::empty(), items), vs),
            ),
    {
        Self::lemma_windowing(items);
        assert(items.subrange(0, items.len() as int) == items);
    }

    /// The window of `self`, which is `prev` with `value` written at its cursor
    /// and the count and cursor moved on, is `prev`'s window with `value` pushed.
    proof fn lemma_window_after_insert(&self, prev: Self, value: T)
        requires
            prev.wf(),
            self.buffer@ == prev.buffer@.update(prev.index as int, value),
            self.nr_items == (if prev.nr_items == WINDOW_SIZE { prev.nr_items } else { (prev.nr_items + 1) as usize }),
            self.index == (if prev.index + 1 == WINDOW_SIZE { 0 } else { (prev.index + 1) as usize }),
        ensures
            self.window() == Self::pushed(prev.window(), value.value()),
    {
        let w = prev.window();
        let nw = Self::pushed(w, value.value());
        assert forall|j: int| 0 <= j < nw.len() implies #[trigger] self.window()[j] == nw[j] by {
            if prev.nr_items == WINDOW_SIZE {
                if j < WINDOW_SIZE - 1 {
                    assert(nw[j] == w[j + 1]);
                } else {
                    assert(Self::slot(self.start(), j) == prev.index);
                }
            } else {
                if j < prev.nr_items {
                    assert(nw[j] == w[j]);
                }
            }
        }
        assert(self.window() =~= nw);
    }
}

/// Pushing `v` onto a window adds `v` to its sum; dropping the oldest sample
/// first also takes that sample off.
proof fn lemma_sum_pushed(w: Seq<int>, v: int, drop: bool)
    requires
        drop ==> w.len() > 0,
    ensures
        sum(w.push(v)) == sum(w) + v,
        drop ==> sum(w.drop_first().push(v)) == sum(w) - w[0] + v,
{
    assert(w.push(v).drop_last() == w);
    if drop {
        lemma_sum_first(w);
        assert(w.drop_first().push(v).drop_last() == w.drop_first());
    }
}

/// The sum of a non-empty sequence is its first element plus the sum of the rest.
proof fn lemma_sum_first(s: Seq<int>)
    requires
        s.len() > 0,
    ensures
        sum(s) == s[0] + sum(s.drop_first()),
    decreases s.len(),
{
    if s.len() == 1 {
        assert(sum(s.drop_last()) == 0);
        assert(sum(s.drop_first()) == 0);
    } else {
        let t = s.drop_first();
        lemma_sum_first(s.drop_last());
        assert(s.drop_last()[0] == s[0]);
        assert(s.drop_last().drop_first() == t.drop_last());
        assert(t.last() == s.last());
        assert(sum(t) == sum(t.drop_last()) + t.last());
    }
}

} // verus!
