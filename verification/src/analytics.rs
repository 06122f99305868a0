//! Requests to the analysis systems: their kinds, the cache key of a request, how long
//! each system takes, how a run ends, and the queue that hands requests out.

use vstd::prelude::*;
use crate::text::join3;

verus! {

/// An analysis system.
#[derive(Clone, Copy, Debug, PartialEq, Eq, Structural)]
pub enum AnalyticsSystem {
    MachineLearning,
    RiskManagement,
    MarketAnalysis,
    FraudDetection,
    SentimentAnalysis,
    PortfolioOptimization,
}

/// What an analysis request asks for.
#[derive(Clone, Copy, Debug, PartialEq, Eq, Structural)]
pub enum AnalysisRequestType {
    PricePrediction,
    RiskAssessment,
    MarketTrend,
    FraudDetection,
    SentimentAnalysis,
    PortfolioOptimization,
    AnomalyDetection,
}

/// How far a request has come.
#[derive(Clone, Copy, Debug, PartialEq, Eq, Structural)]
pub enum AnalysisStatus {
    Pending,
    Processing,
    Completed,
    Failed,
    Timeout,
}

/// The name of a system.
pub open spec fn system_name(s: AnalyticsSystem) -> Seq<char> {
    match s {
        AnalyticsSystem::MachineLearning => "MachineLearning"@,
        AnalyticsSystem::RiskManagement => "RiskManagement"@,
        AnalyticsSystem::MarketAnalysis => "MarketAnalysis"@,
        AnalyticsSystem::FraudDetection => "FraudDetection"@,
        AnalyticsSystem::SentimentAnalysis => "SentimentAnalysis"@,
        AnalyticsSystem::PortfolioOptimization => "PortfolioOptimization"@,
    }
}

/// The name of a request type.
pub open spec fn request_type_name(t: AnalysisRequestType) -> Seq<char> {
    match t {
        AnalysisRequestType::PricePrediction => "PricePrediction"@,
        AnalysisRequestType::RiskAssessment => "RiskAssessment"@,
        AnalysisRequestType::MarketTrend => "MarketTrend"@,
        AnalysisRequestType::FraudDetection => "FraudDetection"@,
        AnalysisRequestType::SentimentAnalysis => "SentimentAnalysis"@,
        AnalysisRequestType::PortfolioOptimization => "PortfolioOptimization"@,
        AnalysisRequestType::AnomalyDetection => "AnomalyDetection"@,
    }
}

/// The name of a system, e.g. "MachineLearning".
pub fn system_to_string(s: &AnalyticsSystem) -> (r: String)
    ensures
        r@ == system_name(*s),
{
    match s {
        AnalyticsSystem::MachineLearning => String::from_str("MachineLearning"),
        AnalyticsSystem::RiskManagement => String::from_str("RiskManagement"),
        AnalyticsSystem::MarketAnalysis => String::from_str("MarketAnalysis"),
        AnalyticsSystem::FraudDetection => String::from_str("FraudDetection"),
        AnalyticsSystem::SentimentAnalysis => String::from_str("SentimentAnalysis"),
        AnalyticsSystem::PortfolioOptimization => String::from_str("PortfolioOptimization"),
    }
}

/// The name of a request type, e.g. "PricePrediction".
pub fn request_type_to_string(t: &AnalysisRequestType) -> (r: String)
    ensures
        r@ == request_type_name(*t),
{
    match t {
        AnalysisRequestType::PricePrediction => String::from_str("PricePrediction"),
        AnalysisRequestType::RiskAssessment => String::from_str("RiskAssessment"),
        AnalysisRequestType::MarketTrend => String::from_str("MarketTrend"),
        AnalysisRequestType::FraudDetection => String::from_str("FraudDetection"),
        AnalysisRequestType::SentimentAnalysis => String::from_str("SentimentAnalysis"),
        AnalysisRequestType::PortfolioOptimization => String::from_str("PortfolioOptimization"),
        AnalysisRequestType::AnomalyDetection => String::from_str("AnomalyDetection"),
    }
}

/// Settings of the connection to the analysis systems.
#[derive(Debug)]
pub struct AnalyticsIntegrationConfig {
    pub systems: Vec<AnalyticsSystem>,
    pub request_timeout_ms: u64,
    pub max_concurrent_requests: usize,
    pub enable_caching: bool,
    pub cache_ttl_ms: u64,
    pub retry_attempts: u32,
    pub retry_interval_ms: u64,
}

impl Default for AnalyticsIntegrationConfig {
    /// All systems but portfolio optimization, 30 s per request, 100 at once, results
    /// cached for 5 minutes, 3 retries a second apart.
    fn default() -> (r: Self)
        ensures
            r.systems@ == seq![
                AnalyticsSystem::MachineLearning,
                AnalyticsSystem::RiskManagement,
                AnalyticsSystem::MarketAnalysis,
                AnalyticsSystem::FraudDetection,
                AnalyticsSystem::SentimentAnalysis,
            ],
            r.request_timeout_ms == 30000,
            r.max_concurrent_requests == 100,
            r.enable_caching,
            r.cache_ttl_ms == 300000,
            r.retry_attempts == 3,
            r.retry_interval_ms == 1000,
    {
        let mut systems: Vec<AnalyticsSystem> = Vec::new();
        systems.push(AnalyticsSystem::MachineLearning);
        systems.push(AnalyticsSystem::RiskManagement);
        systems.push(AnalyticsSystem::MarketAnalysis);
        systems.push(AnalyticsSystem::FraudDetection);
        systems.push(AnalyticsSystem::SentimentAnalysis);
        proof {
            assert(systems@ =~= seq![
                AnalyticsSystem::MachineLearning,
                AnalyticsSystem::RiskManagement,
                AnalyticsSystem::MarketAnalysis,
                AnalyticsSystem::FraudDetection,
                AnalyticsSystem::SentimentAnalysis,
            ]);
        }
        AnalyticsIntegrationConfig {
            systems,
            request_timeout_ms: 30000,
            max_concurrent_requests: 100,
            enable_caching: true,
            cache_ttl_ms: 300000,
            retry_attempts: 3,
            retry_interval_ms: 1000,
        }
    }
}

/// A request to an analysis system; `priority` runs from 1 to 10.
#[derive(Debug)]
pub struct AnalysisRequest {
    pub request_id: String,
    pub system: AnalyticsSystem,
    pub request_type: AnalysisRequestType,
    pub symbol: Option<String>,
    pub data: serde_json::Value,
    pub timestamp: u64,
    pub priority: u8,
    pub timeout_ms: u64,
}

/// The key under which a request's result is cached: system, request type and symbol
/// (empty when there is none), joined by '_'.
pub open spec fn cache_key(r: AnalysisRequest) -> Seq<char> {
    system_name(r.system) + "_"@ + request_type_name(r.request_type) + "_"@ + match r.symbol {
        Some(s) => s@,
        None => Seq::empty(),
    }
}

/// The key under which a request's result is cached.
pub fn generate_cache_key(request: &AnalysisRequest) -> (r: String)
    ensures
        r@ == cache_key(*request),
{
    let sys = system_to_string(&request.system);
    let kind = request_type_to_string(&request.request_type);
    let head = join3(sys.as_str(), "_", kind.as_str());
    let r = match &request.symbol {
        Some(s) => join3(head.as_str(), "_", s.as_str()),
        None => join3(head.as_str(), "_", ""),
    };
    proof {
        reveal_strlit("");
        assert(r@ =~= cache_key(*request));
    }
    r
}

/// How long a system takes: a base and the width of the range above it, in
/// milliseconds.
pub open spec fn processing_window(s: AnalyticsSystem) -> (u32, u32) {
    match s {
        AnalyticsSystem::MachineLearning => (2000, 3000),
        AnalyticsSystem::RiskManagement => (1000, 2000),
        AnalyticsSystem::MarketAnalysis => (1500, 2500),
        AnalyticsSystem::FraudDetection => (500, 1000),
        AnalyticsSystem::SentimentAnalysis => (3000, 4000),
        AnalyticsSystem::PortfolioOptimization => (5000, 5000),
    }
}

/// The base and width of a system's processing time.
pub fn processing_window_of(s: &AnalyticsSystem) -> (r: (u32, u32))
    ensures
        r == processing_window(*s),
{
    match s {
        AnalyticsSystem::MachineLearning => (2000, 3000),
        AnalyticsSystem::RiskManagement => (1000, 2000),
        AnalyticsSystem::MarketAnalysis => (1500, 2500),
        AnalyticsSystem::FraudDetection => (500, 1000),
        AnalyticsSystem::SentimentAnalysis => (3000, 4000),
        AnalyticsSystem::PortfolioOptimization => (5000, 5000),
    }
}

/// A system's processing time drawn at random from its window.
pub fn draw_processing_time(s: &AnalyticsSystem) -> (r: u32)
    ensures
        processing_window(*s).0 <= r < processing_window(*s).0 + processing_window(*s).1,
{
    let (base, width) = processing_window_of(s);
    base + crate::random::u32_in(0, width)
}

/// How a run ends: a timeout when it took longer than the request allows, otherwise
/// completed or failed as the system answered.
pub fn run_outcome(processing_time_ms: u64, timeout_ms: u64, succeeded: bool) -> (r: AnalysisStatus)
    ensures
        r == if processing_time_ms > timeout_ms {
            AnalysisStatus::Timeout
        } else if succeeded {
            AnalysisStatus::Completed
        } else {
            AnalysisStatus::Failed
        },
{
    if processing_time_ms > timeout_ms {
        AnalysisStatus::Timeout
    } else if succeeded {
        AnalysisStatus::Completed
    } else {
        AnalysisStatus::Failed
    }
}

/// Whether a cached result stored to expire at `expiry` still holds at `now`.
pub fn cache_fresh(now: u64, expiry: u64) -> (r: bool)
    ensures
        r == (now < expiry),
{
    now < expiry
}

/// The position of the request handed out next: the highest priority (10 is the
/// highest), and among those the earliest submitted.
pub open spec fn next_pos(q: Seq<AnalysisRequest>) -> int
    decreases q.len(),
{
    if q.len() <= 1 {
        0
    } else {
        let k = next_pos(q.drop_last());
        if q.last().priority > q[k].priority { q.len() - 1 } else { k }
    }
}

pub proof fn lemma_next_pos(q: Seq<AnalysisRequest>)
    requires
        q.len() > 0,
    ensures
        0 <= next_pos(q) < q.len(),
        forall|j: int| 0 <= j < q.len() ==> #[trigger] q[j].priority <= q[next_pos(q)].priority,
        forall|j: int| 0 <= j < next_pos(q) ==> #[trigger] q[j].priority < q[next_pos(q)].priority,
    decreases q.len(),
{
    if q.len() > 1 {
        lemma_next_pos(q.drop_last());
        let k = next_pos(q.drop_last());
        assert(q[k] == q.drop_last()[k]);
        assert forall|j: int| 0 <= j < q.len() implies #[trigger] q[j].priority <= q[next_pos(q)].priority by {
            if j < q.len() - 1 {
                assert(q.drop_last()[j] == q[j]);
            }
        }
        assert forall|j: int| 0 <= j < next_pos(q) implies #[trigger] q[j].priority < q[next_pos(q)].priority by {
            if j < q.len() - 1 {
                assert(q.drop_last()[j] == q[j]);
            }
        }
    }
}

/// The queue of analysis requests and the runs in flight: requests wait until the
/// analysis runs and fewer than the most runs at once are in flight.
pub struct AnalysisScheduler {
    queue: Vec<AnalysisRequest>,
    active: usize,
    max_concurrent: usize,
    analyzing: bool,
}

impl AnalysisScheduler {
    /// The waiting requests, oldest first.
    pub closed spec fn waiting(&self) -> Seq<AnalysisRequest> {
        self.queue@
    }

    /// The runs in flight.
    pub closed spec fn in_flight(&self) -> nat {
        self.active as nat
    }

    /// The most runs at once.
    pub closed spec fn limit(&self) -> usize {
        self.max_concurrent
    }

    /// Whether the analysis runs.
    pub closed spec fn running(&self) -> bool {
        self.analyzing
    }

    /// A scheduler with no requests, for the settings' most runs at once.
    pub fn new(config: &AnalyticsIntegrationConfig) -> (r: Self)
        ensures
            r.waiting().len() == 0,
            r.in_flight() == 0,
            r.limit() == config.max_concurrent_requests,
            !r.running(),
    {
        AnalysisScheduler {
            queue: Vec::new(),
            active: 0,
            max_concurrent: config.max_concurrent_requests,
            analyzing: false,
        }
    }

    /// Starts the analysis; false, and nothing changes, when it already runs.
    pub fn start_analysis(&mut self) -> (r: bool)
        ensures
            r == !old(self).running(),
            final(self).running(),
            final(self).waiting() == old(self).waiting(),
            final(self).in_flight() == old(self).in_flight(),
            final(self).limit() == old(self).limit(),
    {
        if self.analyzing {
            return false;
        }
        self.analyzing = true;
        true
    }

    /// Stops the analysis.
    pub fn stop_analysis(&mut self)
        ensures
            !final(self).running(),
            final(self).waiting() == old(self).waiting(),
            final(self).in_flight() == old(self).in_flight(),
            final(self).limit() == old(self).limit(),
    {
        self.analyzing = false;
    }

    /// Queues a request and answers its id.
    pub fn submit_analysis_request(&mut self, request: AnalysisRequest) -> (r: Result<String, String>)
        ensures
            r matches Ok(id) && id@ == request.request_id@,
            final(self).waiting() == old(self).waiting().push(request),
            final(self).in_flight() == old(self).in_flight(),
            final(self).limit() == old(self).limit(),
            final(self).running() == old(self).running(),
    {
        let id = request.request_id.clone();
        self.queue.push(request);
        Ok(id)
    }

    /// The number of waiting requests.
    pub fn pending_requests(&self) -> (r: usize)
        ensures
            r == self.waiting().len(),
    {
        self.queue.len()
    }

    /// The number of runs in flight.
    pub fn active_requests(&self) -> (r: usize)
        ensures
            r == self.in_flight(),
    {
        self.active
    }

    /// Whether the analysis runs.
    pub fn is_analyzing(&self) -> (r: bool)
        ensures
            r == self.running(),
    {
        self.analyzing
    }

    /// Hands out the next request when fewer than the most runs are in flight and one
    /// waits: the one with the highest priority, the earliest submitted among equals. The
    /// run is then counted in flight.
    pub fn next_request(&mut self) -> (r: Option<AnalysisRequest>)
        ensures
            final(self).limit() == old(self).limit(),
            final(self).running() == old(self).running(),
            (r is Some) == (old(self).in_flight() < old(self).limit() && old(self).waiting().len() > 0),
            r is None ==> final(self).waiting() == old(self).waiting() && final(self).in_flight()
                == old(self).in_flight(),
            r matches Some(q) ==> {
                let k = next_pos(old(self).waiting());
                &&& q == old(self).waiting()[k]
                &&& final(self).waiting() == old(self).waiting().remove(k)
                &&& final(self).in_flight() == old(self).in_flight() + 1
            },
    {
        if self.active >= self.max_concurrent || self.queue.len() == 0 {
            return None;
        }
        let n = self.queue.len();
        let mut k: usize = 0;
        let mut i: usize = 1;
        while i < n
            invariant
                n == self.queue@.len(),
                n > 0,
                1 <= i <= n,
                k == next_pos(self.queue@.take(i as int)),
            decreases n - i,
        {
            proof {
                let t = self.queue@.take(i + 1);
                assert(t.drop_last() =~= self.queue@.take(i as int));
                lemma_next_pos(self.queue@.take(i as int));
                assert(t[k as int] == self.queue@[k as int]);
            }
            if self.queue[i].priority > self.queue[k].priority {
                k = i;
            }
            i = i + 1;
        }
        proof {
            assert(self.queue@.take(n as int) =~= self.queue@);
            lemma_next_pos(self.queue@);
        }
        let q = self.queue.remove(k);
        self.active = self.active + 1;
        Some(q)
    }

    /// Ends a run in flight.
    pub fn finish_request(&mut self)
        requires
            old(self).in_flight() > 0,
        ensures
            final(self).in_flight() == old(self).in_flight() - 1,
            final(self).waiting() == old(self).waiting(),
            final(self).limit() == old(self).limit(),
            final(self).running() == old(self).running(),
    {
        self.active = self.active - 1;
    }
}

} // verus!
