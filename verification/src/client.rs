//! Client upload orchestration: the per-file decision against the
//! existence check, the permit pool bounding concurrent transfers, and
//! the progress counters.
//!
//! The network calls and file reads happen outside; what stands here
//! decides, for each discovered file, whether to skip it, report it, or
//! upload it, and accounts for the outcome.

use vstd::prelude::*;

use crate::digits::{dec_digits, push_decimal};

verus! {

/// Configuration of the upload run, as plain values.
pub struct Args {
    pub source_root: String,
    pub server_address: String,
    pub max_inflight_sends: usize,
    pub chunk_size: usize,
    pub dry_run: bool,
    pub send_notifications: bool,
}

impl Args {
    /// Chunks carry at least one byte; the transfer pool grants at
    /// least one permit.
    pub open spec fn wf(&self) -> bool {
        self.chunk_size >= 1 && self.max_inflight_sends >= 1
    }
}

/// Progress tallies of one run; monotonically non-decreasing,
/// observability only.
#[derive(Debug, Clone, Copy, PartialEq, Eq, Structural)]
pub struct Counters {
    pub found: u32,
    pub exist: u32,
    pub sent: u32,
}

impl Counters {
    /// A run that has seen nothing yet.
    pub fn new() -> (r: Self)
        ensures
            r.found == 0 && r.exist == 0 && r.sent == 0,
    {
        Counters { found: 0, exist: 0, sent: 0 }
    }

    /// Account one discovered file.
    pub fn note_found(&mut self)
        requires
            old(self).found < u32::MAX,
        ensures
            *final(self) == (Counters { found: (old(self).found + 1) as u32, ..*old(self) }),
    {
        self.found = self.found + 1;
    }

    /// Account one file the destination already has.
    pub fn note_exists(&mut self)
        requires
            old(self).exist < u32::MAX,
        ensures
            *final(self) == (Counters { exist: (old(self).exist + 1) as u32, ..*old(self) }),
    {
        self.exist = self.exist + 1;
    }

    /// Account one completed upload.
    pub fn note_sent(&mut self)
        requires
            old(self).sent < u32::MAX,
        ensures
            *final(self) == (Counters { sent: (old(self).sent + 1) as u32, ..*old(self) }),
    {
        self.sent = self.sent + 1;
    }

    /// The tallies as one progress line.
    pub fn describe(&self) -> (r: String)
        ensures
            r@ == counters_text_spec(*self),
    {
        let mut out = String::new();
        out.append("found: ");
        push_decimal(self.found as u64, &mut out);
        out.append(", exist: ");
        push_decimal(self.exist as u64, &mut out);
        out.append(", sent: ");
        push_decimal(self.sent as u64, &mut out);
        proof {
            assert(out@ =~= counters_text_spec(*self));
        }
        out
    }
}

/// The progress line for a set of tallies.
pub open spec fn counters_text_spec(c: Counters) -> Seq<char> {
    ("found: ")@ + dec_digits(c.found as nat) + (", exist: ")@ + dec_digits(c.exist as nat) + (
    ", sent: ")@ + dec_digits(c.sent as nat)
}

/// What to do with one discovered file, the existence answer in hand.
#[derive(Debug, Clone, Copy, PartialEq, Eq, Structural)]
pub enum FileAction {
    /// The destination has it: record the skip, read and send nothing.
    SkipExists,
    /// A dry run: report what would be uploaded, touch nothing.
    WouldUpload,
    /// Acquire a permit, read the file and stream it.
    Upload,
}

/// The per-file decision.
pub open spec fn plan_file_spec(exists: bool, dry_run: bool) -> FileAction {
    if exists {
        FileAction::SkipExists
    } else if dry_run {
        FileAction::WouldUpload
    } else {
        FileAction::Upload
    }
}

/// Decide what to do with one file once the existence check answered.
pub fn plan_file(exists: bool, dry_run: bool) -> (r: FileAction)
    ensures
        r == plan_file_spec(exists, dry_run),
{
    if exists {
        FileAction::SkipExists
    } else if dry_run {
        FileAction::WouldUpload
    } else {
        FileAction::Upload
    }
}

/// How many of the existence answers were positive.
pub open spec fn count_true(flags: Seq<bool>) -> int
    decreases flags.len(),
{
    if flags.len() == 0 {
        0
    } else {
        count_true(flags.drop_last()) + if flags.last() {
            1int
        } else {
            0int
        }
    }
}

/// No more answers are positive than there are answers.
pub proof fn lemma_count_true_bound(flags: Seq<bool>)
    ensures
        0 <= count_true(flags) <= flags.len(),
    decreases flags.len(),
{
    if flags.len() > 0 {
        lemma_count_true_bound(flags.drop_last());
    }
}

/// The counters a whole run ends with, given each file's existence
/// answer: every file is found, the positive answers are skips, and
/// the rest are sent unless the run is dry.
pub open spec fn run_counters_spec(flags: Seq<bool>, dry_run: bool) -> Counters {
    Counters {
        found: flags.len() as u32,
        exist: count_true(flags) as u32,
        sent: if dry_run {
            0u32
        } else {
            (flags.len() - count_true(flags)) as u32
        },
    }
}

/// Tally a whole run from the existence answers.
pub fn run_counters(flags: &Vec<bool>, dry_run: bool) -> (c: Counters)
    requires
        flags@.len() <= u32::MAX,
    ensures
        c == run_counters_spec(flags@, dry_run),
{
    proof {
        lemma_count_true_bound(flags@);
    }
    let mut c = Counters::new();
    let n: usize = flags.len();
    let mut i: usize = 0;
    while i < n
        invariant
            i <= n == flags@.len() <= u32::MAX,
            c == run_counters_spec(flags@.subrange(0, i as int), dry_run),
        decreases n - i,
    {
        proof {
            assert(flags@.subrange(0, i + 1).drop_last() =~= flags@.subrange(0, i as int));
            lemma_count_true_bound(flags@.subrange(0, i as int));
        }
        c.note_found();
        if flags[i] {
            c.note_exists();
        } else if !dry_run {
            c.note_sent();
        }
        i = i + 1;
    }
    proof {
        assert(flags@.subrange(0, n as int) =~= flags@);
    }
    c
}

/// A dry run and a real run over the same tree and destination state
/// find the same files and skip the same files; the dry run uploads
/// nothing.
pub proof fn lemma_dry_run_counters(flags: Seq<bool>)
    ensures
        run_counters_spec(flags, true).found == run_counters_spec(flags, false).found,
        run_counters_spec(flags, true).exist == run_counters_spec(flags, false).exist,
        run_counters_spec(flags, true).sent == 0,
        plan_file_spec(true, true) == plan_file_spec(true, false),
        forall|e: bool| plan_file_spec(e, true) != FileAction::Upload,
{
}

/// The pool of transfer permits: at most `total` expensive transfers
/// run at once.
#[derive(Debug, Clone, Copy, PartialEq, Eq, Structural)]
pub struct Permits {
    pub total: usize,
    pub available: usize,
}

impl Permits {
    /// Permits never outnumber the pool.
    pub open spec fn wf(&self) -> bool {
        self.available <= self.total
    }

    /// How many transfers hold a permit right now.
    pub open spec fn in_flight(&self) -> int {
        self.total - self.available
    }

    /// A full pool of `total` permits.
    pub fn new(total: usize) -> (r: Self)
        ensures
            r.wf(),
            r.total == total,
            r.in_flight() == 0,
    {
        Permits { total, available: total }
    }

    /// Take a permit if one is free: granted exactly when fewer than
    /// `total` transfers are in flight.
    pub fn try_acquire(&mut self) -> (granted: bool)
        requires
            old(self).wf(),
        ensures
            final(self).wf(),
            final(self).total == old(self).total,
            granted <==> old(self).available > 0,
            granted ==> final(self).in_flight() == old(self).in_flight() + 1,
            !granted ==> *final(self) == *old(self) && old(self).in_flight() == old(self).total,
    {
        if self.available > 0 {
            self.available = self.available - 1;
            true
        } else {
            false
        }
    }

    /// Hand a permit back once the transfer is over, well or badly.
    pub fn release(&mut self)
        requires
            old(self).wf(),
            old(self).in_flight() > 0,
        ensures
            final(self).wf(),
            final(self).total == old(self).total,
            final(self).in_flight() == old(self).in_flight() - 1,
    {
        self.available = self.available + 1;
    }
}

/// The concurrency bound: however acquisitions and releases interleave,
/// a well-formed pool never has more transfers in flight than its
/// size, and a transfer starts only when the count is strictly below
/// it.
pub proof fn lemma_inflight_bounded(p: Permits)
    requires
        p.wf(),
    ensures
        0 <= p.in_flight() <= p.total,
{
}

} // verus!
