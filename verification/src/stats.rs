//! The counters of a running miner, and which of its reports a request
//! asks for. Rates are real numbers and are worked out by whoever shows
//! them, from the samples kept here.

use crate::hexcode::text_bytes;
use vstd::prelude::*;

verus! {

/// The work of one device over one stretch of time, from which its rate
/// is had.
#[derive(Clone, Copy, Debug, PartialEq, Eq, Structural)]
pub struct RateSample {
    pub hashes: u64,
    pub elapsed_nanos: u128,
}

/// A snapshot of the counters.
#[derive(Debug)]
pub struct MinerStats {
    pub uptime_secs: u64,
    pub current_height: u64,
    pub total_hashes: u64,
    pub accepted_shares: u64,
    pub rejected_shares: u64,
    pub gpu_count: usize,
    /// The last sample of each device.
    pub per_gpu_sample: Vec<RateSample>,
    pub mining: bool,
    /// The uptime, in seconds, at which the last solution was accepted.
    pub last_solution_time: Option<u64>,
}

impl MinerStats {
    /// Whether there is one sample for each device.
    pub open spec fn wf(self) -> bool {
        self.per_gpu_sample@.len() == self.gpu_count
    }

    /// Whether every counter is at zero, no search is running and no
    /// solution was accepted yet.
    pub open spec fn at_start(self) -> bool {
        &&& self.uptime_secs == 0
        &&& self.current_height == 0
        &&& self.total_hashes == 0
        &&& self.accepted_shares == 0
        &&& self.rejected_shares == 0
        &&& !self.mining
        &&& self.last_solution_time is None
        &&& forall|i: int|
            0 <= i < self.per_gpu_sample@.len() ==> self.per_gpu_sample@[i] == (RateSample {
                hashes: 0,
                elapsed_nanos: 0,
            })
    }
}

impl Default for MinerStats {
    /// The counters of a miner without devices, at zero.
    fn default() -> (s: MinerStats)
        ensures
            s.wf(),
            s.at_start(),
            s.gpu_count == 0,
    {
        MinerStats {
            uptime_secs: 0,
            current_height: 0,
            total_hashes: 0,
            accepted_shares: 0,
            rejected_shares: 0,
            gpu_count: 0,
            per_gpu_sample: Vec::new(),
            mining: false,
            last_solution_time: None,
        }
    }
}

/// The counters of a miner with `gpu_count` devices.
pub struct StatsTracker {
    pub stats: MinerStats,
}

impl StatsTracker {
    /// Counters at zero for `gpu_count` devices.
    pub fn new(gpu_count: usize) -> (t: StatsTracker)
        ensures
            t.stats.wf(),
            t.stats.at_start(),
            t.stats.gpu_count == gpu_count,
    {
        let mut stats = MinerStats::default();
        let mut i: usize = 0;
        while i < gpu_count
            invariant
                i <= gpu_count,
                stats.per_gpu_sample@.len() == i,
                stats.at_start(),
            decreases gpu_count - i,
        {
            stats.per_gpu_sample.push(RateSample { hashes: 0, elapsed_nanos: 0 });
            i += 1;
        }
        stats.gpu_count = gpu_count;
        StatsTracker { stats }
    }

    /// The counters as they stand.
    pub fn get_stats(&self) -> (s: &MinerStats)
        ensures
            *s == self.stats,
    {
        &self.stats
    }

    /// Records the height that is being worked on.
    pub fn update_height(&mut self, height: u64)
        ensures
            *final(self) == (StatsTracker {
                stats: MinerStats { current_height: height, ..old(self).stats },
            }),
    {
        self.stats.current_height = height;
    }

    /// Records `hashes` hashes made in `elapsed_nanos` nanoseconds, at an
    /// uptime of `uptime_secs` seconds. The sample is kept for the device
    /// `gpu_id` if there is such a device, and dropped otherwise; the hashes
    /// count either way.
    pub fn update_hashrate(
        &mut self,
        hashes: u64,
        elapsed_nanos: u128,
        gpu_id: Option<usize>,
        uptime_secs: u64,
    )
        requires
            old(self).stats.total_hashes + hashes <= u64::MAX,
        ensures
            final(self).stats.total_hashes == old(self).stats.total_hashes + hashes,
            final(self).stats.uptime_secs == uptime_secs,
            final(self).stats.per_gpu_sample@ == match gpu_id {
                Some(id) => if id < old(self).stats.per_gpu_sample@.len() {
                    old(self).stats.per_gpu_sample@.update(
                        id as int,
                        RateSample { hashes, elapsed_nanos },
                    )
                } else {
                    old(self).stats.per_gpu_sample@
                },
                None => old(self).stats.per_gpu_sample@,
            },
            final(self).stats.current_height == old(self).stats.current_height,
            final(self).stats.accepted_shares == old(self).stats.accepted_shares,
            final(self).stats.rejected_shares == old(self).stats.rejected_shares,
            final(self).stats.gpu_count == old(self).stats.gpu_count,
            final(self).stats.mining == old(self).stats.mining,
            final(self).stats.last_solution_time == old(self).stats.last_solution_time,
    {
        self.stats.total_hashes = self.stats.total_hashes + hashes;
        self.stats.uptime_secs = uptime_secs;
        match gpu_id {
            Some(id) => {
                if id < self.stats.per_gpu_sample.len() {
                    self.stats.per_gpu_sample.set(id, RateSample { hashes, elapsed_nanos });
                }
            },
            None => {},
        }
    }

    /// Counts a solution that the node accepted, at an uptime of
    /// `uptime_secs` seconds.
    pub fn increment_accepted(&mut self, uptime_secs: u64)
        requires
            old(self).stats.accepted_shares < u64::MAX,
        ensures
            *final(self) == (StatsTracker {
                stats: MinerStats {
                    accepted_shares: (old(self).stats.accepted_shares + 1) as u64,
                    last_solution_time: Some(uptime_secs),
                    ..old(self).stats
                },
            }),
    {
        self.stats.accepted_shares = self.stats.accepted_shares + 1;
        self.stats.last_solution_time = Some(uptime_secs);
    }

    /// Counts a solution that the node rejected.
    pub fn increment_rejected(&mut self)
        requires
            old(self).stats.rejected_shares < u64::MAX,
        ensures
            *final(self) == (StatsTracker {
                stats: MinerStats {
                    rejected_shares: (old(self).stats.rejected_shares + 1) as u64,
                    ..old(self).stats
                },
            }),
    {
        self.stats.rejected_shares = self.stats.rejected_shares + 1;
    }

    /// Records whether a search is running.
    pub fn set_mining(&mut self, mining: bool)
        ensures
            *final(self) == (StatsTracker { stats: MinerStats { mining, ..old(self).stats } }),
    {
        self.stats.mining = mining;
    }
}

/// What a request to the statistics server asks for.
#[derive(Clone, Copy, Debug, PartialEq, Eq, Structural)]
pub enum StatsRoute {
    /// The snapshot of the counters.
    Stats,
    /// Whether the server is alive.
    Health,
    /// Nothing that the server has.
    NotFound,
}

impl StatsRoute {
    /// The body of the answer, for the routes whose answer is always the
    /// same.
    pub fn fixed_body(&self) -> (body: Option<&'static str>)
        ensures
            match *self {
                StatsRoute::Stats => body is None,
                StatsRoute::Health => body matches Some(text) && text@ == "{\"status\":\"ok\"}"@,
                StatsRoute::NotFound => body matches Some(text) && text@
                    == "{\"error\":\"not found\"}"@,
            },
    {
        match self {
            StatsRoute::Stats => None,
            StatsRoute::Health => Some("{\"status\":\"ok\"}"),
            StatsRoute::NotFound => Some("{\"error\":\"not found\"}"),
        }
    }

    /// Whether the answer may be read from pages of any origin: the
    /// counters may, the rest need not.
    pub fn allows_any_origin(&self) -> (r: bool)
        ensures
            r == (*self == StatsRoute::Stats),
    {
        match self {
            StatsRoute::Stats => true,
            _ => false,
        }
    }

    /// The status code of the answer.
    pub fn status_code(&self) -> (code: u16)
        ensures
            code == if *self == StatsRoute::NotFound {
                404u16
            } else {
                200u16
            },
    {
        match self {
            StatsRoute::NotFound => 404,
            _ => 200,
        }
    }
}

/// Whether two byte strings are the same.
pub fn same_bytes(a: &[u8], b: &[u8]) -> (r: bool)
    ensures
        r == (a@ == b@),
{
    if a.len() != b.len() {
        return false;
    }
    let mut i: usize = 0;
    while i < a.len()
        invariant
            i <= a.len(),
            a.len() == b.len(),
            forall|j: int| 0 <= j < i ==> a@[j] == b@[j],
        decreases a.len() - i,
    {
        if a[i] != b[i] {
            return false;
        }
        i += 1;
    }
    assert(a@ =~= b@);
    true
}

/// The route of a request path: `/stats` and `/api/stats` ask for the
/// counters, `/health` for a sign of life, and nothing else is served.
pub open spec fn route_of(path: Seq<char>) -> StatsRoute {
    if text_bytes(path) == text_bytes("/stats"@) || text_bytes(path) == text_bytes("/api/stats"@) {
        StatsRoute::Stats
    } else if text_bytes(path) == text_bytes("/health"@) {
        StatsRoute::Health
    } else {
        StatsRoute::NotFound
    }
}

/// The route of a request path.
pub fn route(path: &str) -> (r: StatsRoute)
    ensures
        r == route_of(path@),
{
    let bytes = path.as_bytes();
    if same_bytes(bytes, "/stats".as_bytes()) || same_bytes(bytes, "/api/stats".as_bytes()) {
        StatsRoute::Stats
    } else if same_bytes(bytes, "/health".as_bytes()) {
        StatsRoute::Health
    } else {
        StatsRoute::NotFound
    }
}

} // verus!
