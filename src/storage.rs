use vstd::prelude::*;
use vstd::string::*;

use crate::models::{batch_views, fits_within, BatchView, UsageBatch, MAX_PAYLOAD_BYTES};

verus! {

pub const QUEUE_FILE: &'static str = "usage_queue.json";

pub const COUNTERS_FILE: &'static str = "network_counters.json";

pub const DEVICE_FILE: &'static str = "device.json";

pub const TOKENS_FILE: &'static str = "tokens.json";

pub const CONFIG_FILE: &'static str = "config.json";

/// Relies on `std::path::MAIN_SEPARATOR_STR`: `/` on Unix, `\` on Windows.
#[verifier::external_body]
fn main_separator() -> (r: String)
    ensures
        r@ == "/"@ || r@ == "\\"@,
{
    std::path::MAIN_SEPARATOR_STR.to_string()
}

/// A file name placed under a directory: the separator goes between them
/// unless the directory already ends with it.
pub open spec fn joined(root: Seq<char>, sep: Seq<char>, name: Seq<char>) -> Seq<char> {
    if sep.is_suffix_of(root) {
        root + name
    } else {
        root + sep + name
    }
}

/// The per-user data directory and the five well-known files in it.
pub struct StoragePaths {
    root: String,
    separator: String,
}

impl StoragePaths {
    /// Paths under `root`, the data directory (resolved and created by the caller).
    pub fn new(root: String) -> (r: Self)
        ensures
            r.root() == root@,
            r.separator() == "/"@ || r.separator() == "\\"@,
    {
        StoragePaths { root, separator: main_separator() }
    }

    pub closed spec fn root(&self) -> Seq<char> {
        self.root@
    }

    pub closed spec fn separator(&self) -> Seq<char> {
        self.separator@
    }

    fn join(&self, name: &str) -> (r: String)
        ensures
            r@ == joined(self.root(), self.separator(), name@),
    {
        let mut r = self.root.clone();
        let n = r.as_str().unicode_len();
        let k = self.separator.as_str().unicode_len();
        let mut ends = k <= n;
        let mut i: usize = 0;
        while ends && i < k
            invariant
                r@ == self.root@,
                n == r@.len(),
                k == self.separator@.len(),
                i <= k,
                ends ==> k <= n,
                ends ==> forall|j: int| 0 <= j < i ==> self.separator@[j] == r@[n - k + j],
                !ends ==> !self.separator@.is_suffix_of(self.root@),
            decreases k - i + (if ends {
                1int
            } else {
                0int
            }),
        {
            if r.as_str().get_char(n - k + i) != self.separator.as_str().get_char(i) {
                ends = false;
            } else {
                i = i + 1;
            }
        }
        if ends {
            assert(self.separator@ =~= self.root@.subrange(n - k, n as int));
        } else {
            r.append(self.separator.as_str());
        }
        r.append(name);
        r
    }

    pub fn queue_path(&self) -> (r: String)
        ensures
            r@ == joined(self.root(), self.separator(), QUEUE_FILE@),
    {
        self.join(QUEUE_FILE)
    }

    pub fn counters_path(&self) -> (r: String)
        ensures
            r@ == joined(self.root(), self.separator(), COUNTERS_FILE@),
    {
        self.join(COUNTERS_FILE)
    }

    pub fn device_path(&self) -> (r: String)
        ensures
            r@ == joined(self.root(), self.separator(), DEVICE_FILE@),
    {
        self.join(DEVICE_FILE)
    }

    pub fn tokens_path(&self) -> (r: String)
        ensures
            r@ == joined(self.root(), self.separator(), TOKENS_FILE@),
    {
        self.join(TOKENS_FILE)
    }

    pub fn config_path(&self) -> (r: String)
        ensures
            r@ == joined(self.root(), self.separator(), CONFIG_FILE@),
    {
        self.join(CONFIG_FILE)
    }
}

/// The pending batches, oldest first; the file is rewritten from it after
/// every change.
pub struct UsageBatchStore {
    queue: Vec<UsageBatch>,
}

impl View for UsageBatchStore {
    type V = Seq<BatchView>;

    closed spec fn view(&self) -> Seq<BatchView> {
        batch_views(self.queue@)
    }
}

impl UsageBatchStore {
    /// A queue holding the batches read back from disk.
    pub fn new(loaded: Vec<UsageBatch>) -> (r: Self)
        ensures
            r@ == batch_views(loaded@),
    {
        UsageBatchStore { queue: loaded }
    }

    /// Appends the batch when it serializes within the payload ceiling;
    /// otherwise leaves the queue as it was and says so.
    pub fn enqueue(&mut self, batch: UsageBatch) -> (r: bool)
        ensures
            r == fits_within(batch@, MAX_PAYLOAD_BYTES as int),
            r ==> final(self)@ == old(self)@.push(batch@),
            !r ==> final(self)@ == old(self)@,
    {
        if !batch.size_fits() {
            return false;
        }
        let ghost b = batch@;
        self.queue.push(batch);
        assert(batch_views(self.queue@) =~= batch_views(old(self).queue@).push(b));
        true
    }

    /// A copy of the oldest batch.
    pub fn peek(&self) -> (r: Option<UsageBatch>)
        ensures
            self@.len() == 0 ==> r is None,
            self@.len() > 0 ==> (r matches Some(b) && b@ == self@[0]),
    {
        if self.queue.len() == 0 {
            None
        } else {
            Some(self.queue[0].clone())
        }
    }

    /// Removes and returns the oldest batch.
    pub fn pop(&mut self) -> (r: Option<UsageBatch>)
        ensures
            old(self)@.len() == 0 ==> r is None && final(self)@ == old(self)@,
            old(self)@.len() > 0 ==> (r matches Some(b) && b@ == old(self)@[0]) && final(self)@
                == old(self)@.drop_first(),
    {
        if self.queue.len() == 0 {
            None
        } else {
            let b = self.queue.remove(0);
            assert(batch_views(self.queue@) =~= batch_views(old(self).queue@).drop_first());
            Some(b)
        }
    }

    pub fn has_pending(&self) -> (r: bool)
        ensures
            r == (self@.len() > 0),
    {
        self.queue.len() > 0
    }

    pub fn queue_size(&self) -> (r: usize)
        ensures
            r == self@.len(),
    {
        self.queue.len()
    }

    pub fn clear_queue(&mut self)
        ensures
            final(self)@ == Seq::<BatchView>::empty(),
    {
        self.queue = Vec::new();
        assert(batch_views(self.queue@) =~= Seq::<BatchView>::empty());
    }

    /// Copies of the oldest `limit` batches (all of them if fewer).
    pub fn queue_preview(&self, limit: usize) -> (r: Vec<UsageBatch>)
        ensures
            batch_views(r@) == self@.take(
                if limit < self@.len() {
                    limit as int
                } else {
                    self@.len() as int
                },
            ),
    {
        let k = if limit < self.queue.len() {
            limit
        } else {
            self.queue.len()
        };
        let mut out: Vec<UsageBatch> = Vec::new();
        let mut i: usize = 0;
        while i < k
            invariant
                k <= self.queue@.len(),
                i <= k,
                batch_views(out@) =~= batch_views(self.queue@).take(i as int),
            decreases k - i,
        {
            let b = self.queue[i].clone();
            let ghost old_out = out@;
            out.push(b);
            assert(batch_views(out@) =~= batch_views(old_out).push(b@));
            i = i + 1;
        }
        out
    }
}

} // verus!
