use vstd::prelude::*;

verus! {

/// Number of samples in the analysis window (a power of two).
pub const WINDOW_LEN: usize = 2048;

/// Number of samples that one analysis pass takes in.
pub const CHUNK_LEN: usize = 128;

/// The analysis window once the samples `fed` have arrived: the most recent
/// 2048 of them in chronological order, preceded by zeros while fewer have
/// arrived.
pub open spec fn recent_window(fed: Seq<i16>) -> Seq<i16> {
    Seq::new(
        2048,
        |i: int| if fed.len() + i >= 2048 { fed[fed.len() + i - 2048] } else { 0i16 },
    )
}

/// The most recent 2048 samples, written in chunks of 128 at a cursor that
/// wraps around the buffer.
pub struct SampleRing {
    samples: Vec<i16>,
    cursor: usize,
    fed: Ghost<Seq<i16>>,
}

impl SampleRing {
    /// Every sample taken in so far, oldest first.
    pub closed spec fn history(&self) -> Seq<i16> {
        self.fed@
    }

    /// The sample at distance `i` after the cursor is the `i`-th sample of the
    /// chronological window.
    pub closed spec fn wf(&self) -> bool {
        &&& self.samples@.len() == 2048
        &&& self.cursor < 2048
        &&& self.cursor % 128 == 0
        &&& self.cursor == self.fed@.len() % 2048
        &&& forall|i: int|
            0 <= i < 2048 ==> #[trigger] self.samples@[(self.cursor + i) % 2048] == recent_window(
                self.fed@,
            )[i]
    }

    /// An empty ring: all zeros, nothing taken in.
    pub fn new() -> (r: SampleRing)
        ensures
            r.wf(),
            r.history() == Seq::<i16>::empty(),
    {
        let mut samples: Vec<i16> = Vec::new();
        let mut k: usize = 0;
        while k < WINDOW_LEN
            invariant
                k <= 2048,
                samples@.len() == k,
                forall|j: int| 0 <= j < k ==> samples@[j] == 0i16,
            decreases 2048 - k,
        {
            samples.push(0);
            k = k + 1;
        }
        let r = SampleRing { samples, cursor: 0, fed: Ghost(Seq::empty()) };
        assert forall|i: int| 0 <= i < 2048 implies #[trigger] r.samples@[(r.cursor + i) % 2048]
            == recent_window(r.fed@)[i] by {
            assert((0 + i) % 2048 == i);
        }
        r
    }

    /// Writes one chunk at the cursor and moves the cursor past it.
    pub fn ingest(&mut self, chunk: &[i16])
        requires
            old(self).wf(),
            chunk@.len() == 128,
        ensures
            final(self).wf(),
            final(self).history() == old(self).history() + chunk@,
    {
        let c = self.cursor;
        let mut k: usize = 0;
        while k < CHUNK_LEN
            invariant
                0 <= k <= 128,
                c == self.cursor,
                c + 128 <= 2048,
                chunk@.len() == 128,
                self.samples@.len() == 2048,
                forall|j: int|
                    0 <= j < 2048 ==> #[trigger] self.samples@[j] == if c <= j < c + k {
                        chunk@[j - c]
                    } else {
                        old(self).samples@[j]
                    },
                self.fed == old(self).fed,
            decreases 128 - k,
        {
            self.samples[c + k] = chunk[k];
            k = k + 1;
        }
        let ghost old_fed = self.fed@;
        self.fed = Ghost(old_fed + chunk@);
        self.cursor = (c + CHUNK_LEN) % WINDOW_LEN;
        proof {
            let len = old_fed.len();
            assert(self.cursor == self.fed@.len() % 2048) by {
                vstd::arithmetic::div_mod::lemma_add_mod_noop(len as int, 128, 2048);
                assert((128int) % 2048 == 128);
            }
            assert forall|i: int| 0 <= i < 2048 implies #[trigger] self.samples@[(self.cursor + i)
                % 2048] == recent_window(self.fed@)[i] by {
                if i < 1920 {
                    let q = (c + (i + 128)) % 2048;
                    assert((self.cursor + i) % 2048 == q);
                    assert(old(self).samples@[(c + (i + 128)) % 2048] == recent_window(old_fed)[i
                        + 128]);
                    assert(!(c <= q < c + 128));
                } else {
                    assert((self.cursor + i) % 2048 == c + (i - 1920));
                    assert(self.fed@[len + 128 + i - 2048] == chunk@[i - 1920]);
                }
            }
        }
    }

    /// The window in chronological order, read from the cursor onwards.
    pub fn chronological(&self) -> (w: Vec<i16>)
        requires
            self.wf(),
        ensures
            w@ == recent_window(self.history()),
    {
        let mut w: Vec<i16> = Vec::new();
        let mut i: usize = 0;
        while i < WINDOW_LEN
            invariant
                self.wf(),
                i <= 2048,
                w@.len() == i,
                forall|j: int| 0 <= j < i ==> w@[j] == recent_window(self.fed@)[j],
            decreases 2048 - i,
        {
            w.push(self.samples[(self.cursor + i) % WINDOW_LEN]);
            i = i + 1;
        }
        assert(w@ =~= recent_window(self.fed@));
        w
    }
}

} // verus!
