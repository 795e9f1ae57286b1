//! The debug log: a fixed ring of slots holding the most recent lines.
use vstd::prelude::*;

verus! {

/// Number of slots in the ring.
pub const LOG_SLOTS: usize = 256;

/// How many insertions ago slot `s` was written, given the slot written last.
pub open spec fn age(latest: int, s: int) -> int {
    if s <= latest {
        latest - s
    } else {
        latest + 256 - s
    }
}

/// The slot written last after `n` insertions.
pub open spec fn ring_latest(n: int) -> int {
    if n == 0 {
        255
    } else {
        (n - 1) % 256
    }
}

/// What slot `s` holds after the insertions `h`: the line inserted `age` insertions
/// before the last one, or nothing where fewer lines were inserted.
pub open spec fn slot_content(h: Seq<String>, s: int) -> Option<String> {
    let n = h.len() as int;
    let a = age(ring_latest(n), s);
    if a < n {
        Some(h[n - 1 - a])
    } else {
        None
    }
}

/// The last `min(n, 256)` lines of `h`, oldest first.
pub open spec fn recent(h: Seq<String>) -> Seq<String> {
    if h.len() <= 256 {
        h
    } else {
        h.subrange(h.len() - 256, h.len() as int)
    }
}

/// The lines still held after the insertions `h` are the last ones, none repeated and
/// none skipped: the final `min(n, 256)` lines, in the order they were inserted.
pub proof fn lemma_recent_lines(h: Seq<String>)
    ensures
        recent(h).len() == if h.len() <= 256 {
            h.len()
        } else {
            256
        },
        forall|i: int|
            0 <= i < recent(h).len() ==> #[trigger] recent(h)[i] == h[h.len() - recent(h).len()
                + i],
{
}

/// A ring of 256 slots indexed by a wrapping byte cursor. Each insertion writes the
/// slot after the one written last, overwriting the oldest line once the ring is full.
pub struct RecordBuff {
    log_lines: Vec<Option<String>>,
    latest_idx: u8,
    history: Ghost<Seq<String>>,
}

impl View for RecordBuff {
    type V = Seq<String>;

    /// Every line inserted so far, oldest first.
    closed spec fn view(&self) -> Seq<String> {
        self.history@
    }
}

impl RecordBuff {
    /// The cursor and every slot agree with the lines inserted so far.
    pub closed spec fn wf(&self) -> bool {
        let n = self.history@.len() as int;
        &&& self.log_lines@.len() == 256
        &&& self.latest_idx as int == ring_latest(n)
        &&& forall|s: int|
            0 <= s < 256 ==> #[trigger] self.log_lines@[s] == slot_content(self.history@, s)
    }

    /// An empty ring; the first insertion goes to slot 0.
    pub fn new() -> (r: RecordBuff)
        ensures
            r.wf(),
            r@ == Seq::<String>::empty(),
    {
        let mut log_lines: Vec<Option<String>> = Vec::new();
        let mut i: usize = 0;
        while i < LOG_SLOTS
            invariant
                i <= 256,
                log_lines@.len() == i,
                forall|s: int| 0 <= s < i ==> #[trigger] log_lines@[s] == None::<String>,
            decreases 256 - i,
        {
            log_lines.push(None);
            i += 1;
        }
        RecordBuff { log_lines, latest_idx: 255, history: Ghost(Seq::empty()) }
    }

    /// The slot written last.
    pub fn latest_idx(&self) -> (r: u8)
        requires
            self.wf(),
        ensures
            r as int == ring_latest(self@.len() as int),
    {
        self.latest_idx
    }

    /// The content of slot `i`.
    pub fn slot(&self, i: usize) -> (r: Option<String>)
        requires
            self.wf(),
            i < 256,
        ensures
            r == slot_content(self@, i as int),
    {
        match &self.log_lines[i] {
            Some(l) => Some(l.clone()),
            None => None,
        }
    }

    /// Stores `line` in the slot after the one written last.
    pub fn push_line(&mut self, line: String)
        requires
            old(self).wf(),
        ensures
            final(self).wf(),
            final(self)@ == old(self)@.push(line),
    {
        let idx: u8 = if self.latest_idx == 255 {
            0
        } else {
            self.latest_idx + 1
        };
        self.log_lines.set(idx as usize, Some(line));
        self.latest_idx = idx;
        self.history = Ghost(self.history@.push(line));
    }

    /// The lines still held, oldest first: the last 256 inserted, or all of them
    /// where fewer were.
    pub fn display_logs(&self) -> (r: Vec<String>)
        requires
            self.wf(),
        ensures
            r@ == recent(self@),
    {
        let ghost n = self.history@.len();
        let ghost m: int = if n <= 256 {
            n as int
        } else {
            256
        };
        let ghost latest = self.latest_idx as int;
        assert(latest == ring_latest(n as int));
        let next: u8 = if self.latest_idx == 255 {
            0
        } else {
            self.latest_idx + 1
        };
        let mut cur: u8 = if self.log_lines[next as usize].is_some() {
            next
        } else {
            0
        };
        let mut out: Vec<String> = Vec::new();
        let mut done = self.log_lines[cur as usize].is_none();
        while !done
            invariant
                self.wf(),
                n == self.history@.len(),
                latest == self.latest_idx as int,
                m == if n <= 256 {
                    n as int
                } else {
                    256
                },
                out@.len() <= m,
                out@ == self.history@.subrange(n - m, n - m + out@.len()),
                !done ==> out@.len() < m && age(latest, cur as int) == m - 1 - out@.len(),
                done ==> out@.len() == m,
            decreases m - out@.len() + if done {
                0int
            } else {
                1
            },
        {
            let ghost t = out@.len();
            match &self.log_lines[cur as usize] {
                Some(line) => {
                    out.push(line.clone());
                    done = cur == self.latest_idx;
                    cur = if cur == 255 {
                        0
                    } else {
                        cur + 1
                    };
                    proof {
                        assert(out@ =~= self.history@.subrange(n - m, n - m + t + 1));
                    }
                },
                None => {
                    done = true;
                },
            }
        }
        proof {
            assert(out@ =~= recent(self.history@));
        }
        out
    }
}

} // verus!
