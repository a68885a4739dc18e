//! Neural routing settings: the routing mode, the inference and collection
//! settings with their defaults, the mode changes the API accepts, and the
//! errors of the routing system.

use vstd::prelude::*;
use crate::text::{decimal, decimal_of, eq_str, extend_chars, extend_str, string_of};

verus! {

/// How routes are chosen.
#[derive(Debug, Clone, Copy, PartialEq, Eq, Structural)]
pub enum RoutingMode {
    /// Nearest neighbour only: no learned model, immediate.
    NN,
    /// Policy network, falling back to the nearest-neighbour router.
    Full,
}

/// The name of a mode (`nn` or `full`).
pub open spec fn mode_name(m: RoutingMode) -> Seq<char> {
    match m {
        RoutingMode::NN => "nn"@,
        RoutingMode::Full => "full"@,
    }
}

impl RoutingMode {
    /// The mode's name.
    pub fn as_str(&self) -> (r: &'static str)
        ensures
            r@ == mode_name(*self),
    {
        match self {
            RoutingMode::NN => "nn",
            RoutingMode::Full => "full",
        }
    }
}

/// Inference settings.
#[derive(Debug, Clone, Copy)]
pub struct InferenceConfig {
    /// Time budget of an inference, in milliseconds.
    pub timeout_ms: u64,
    /// Whether to fall back to the nearest-neighbour router when the policy
    /// network times out or is out of its domain.
    pub nn_fallback: bool,
}

/// Trajectory collection settings.
#[derive(Debug, Clone, Copy)]
pub struct CollectionConfig {
    /// Whether trajectories are collected.
    pub enabled: bool,
    /// How many trajectories are buffered before a flush.
    pub buffer_size: usize,
}

/// Switches default to on.
pub fn default_true() -> (r: bool)
    ensures
        r,
{
    true
}

/// Routing defaults to nearest neighbour only.
pub fn default_mode() -> (r: RoutingMode)
    ensures
        r == RoutingMode::NN,
{
    RoutingMode::NN
}

/// The inference budget defaults to 15 ms.
pub fn default_timeout_ms() -> (r: u64)
    ensures
        r == 15,
{
    15
}

/// Trajectories are flushed by 50 unless configured otherwise.
pub fn default_buffer_size() -> (r: usize)
    ensures
        r == 50,
{
    50
}

/// The CPU load is polled every 2 seconds unless configured otherwise.
pub fn default_poll_interval_secs() -> (r: u64)
    ensures
        r == 2,
{
    2
}

impl InferenceConfig {
    /// 15 ms, with the fallback on.
    pub fn default() -> (c: InferenceConfig)
        ensures
            c.timeout_ms == 15,
            c.nn_fallback,
    {
        InferenceConfig { timeout_ms: 15, nn_fallback: true }
    }
}

impl CollectionConfig {
    /// Collection on, flushed by 50.
    pub fn default() -> (c: CollectionConfig)
        ensures
            c.enabled,
            c.buffer_size == 50,
    {
        CollectionConfig { enabled: true, buffer_size: 50 }
    }
}

/// A request to change the routing mode.
#[derive(Debug, Clone)]
pub struct SetModeRequest {
    /// `nn` or `full`.
    pub mode: String,
}

/// A generic success reply.
#[derive(Debug, Clone)]
pub struct SuccessResponse {
    pub ok: bool,
    pub message: String,
}

/// The mode a name selects, exactly `nn` or `full`.
pub open spec fn mode_named(s: Seq<char>) -> Option<RoutingMode> {
    if s == "nn"@ {
        Some(RoutingMode::NN)
    } else if s == "full"@ {
        Some(RoutingMode::Full)
    } else {
        None
    }
}

/// The mode a name selects, or the message refusing it.
pub fn parse_mode(s: &str) -> (r: Result<RoutingMode, String>)
    ensures
        match mode_named(s@) {
            Some(m) => r == Ok::<RoutingMode, String>(m),
            None => r matches Err(e) && e@ == "Invalid mode '"@ + s@ + "': expected 'nn' or 'full'"@,
        },
{
    if eq_str(s, "nn") {
        Ok(RoutingMode::NN)
    } else if eq_str(s, "full") {
        Ok(RoutingMode::Full)
    } else {
        let mut v: Vec<char> = Vec::new();
        extend_str(&mut v, "Invalid mode '");
        extend_str(&mut v, s);
        extend_str(&mut v, "': expected 'nn' or 'full'");
        Err(string_of(v.as_slice()))
    }
}

/// A mode change: the new mode and the reply, or the message refusing the
/// request.
pub fn set_mode(req: &SetModeRequest) -> (r: Result<(RoutingMode, SuccessResponse), String>)
    ensures
        match mode_named(req.mode@) {
            Some(m) => r matches Ok((mode, resp)) && mode == m && resp.ok && resp.message@
                == "Neural routing mode set to '"@ + mode_name(m) + "'"@,
            None => r matches Err(e) && e@ == "Invalid mode '"@ + req.mode@
                + "': expected 'nn' or 'full'"@,
        },
{
    match parse_mode(req.mode.as_str()) {
        Ok(m) => {
            let mut v: Vec<char> = Vec::new();
            extend_str(&mut v, "Neural routing mode set to '");
            extend_str(&mut v, m.as_str());
            extend_str(&mut v, "'");
            Ok((m, SuccessResponse { ok: true, message: string_of(v.as_slice()) }))
        },
        Err(e) => Err(e),
    }
}

/// The reply to switching routing on or off.
pub fn toggle_response(enabled: bool) -> (r: SuccessResponse)
    ensures
        r.ok,
        r.message@ == (if enabled {
            "Neural routing enabled"@
        } else {
            "Neural routing disabled"@
        }),
{
    if enabled {
        SuccessResponse { ok: true, message: "Neural routing enabled".to_string() }
    } else {
        SuccessResponse { ok: true, message: "Neural routing disabled".to_string() }
    }
}

/// An error of the routing system.
#[derive(Debug, Clone)]
pub enum NeuralRoutingError {
    /// A decision vector is malformed.
    InvalidVector(String),
    /// No trajectory has the id.
    TrajectoryNotFound(String),
    /// The store failed.
    Storage(String),
    /// The graph database failed.
    Neo4j(String),
    /// A reward could not be computed.
    RewardError(String),
    /// The configuration is wrong.
    Config(String),
}

/// The message of an error.
pub open spec fn error_message(e: NeuralRoutingError) -> Seq<char> {
    match e {
        NeuralRoutingError::InvalidVector(s) => "Invalid decision vector: "@ + s@,
        NeuralRoutingError::TrajectoryNotFound(s) => "Trajectory not found: "@ + s@,
        NeuralRoutingError::Storage(s) => "Storage error: "@ + s@,
        NeuralRoutingError::Neo4j(s) => "Neo4j error: "@ + s@,
        NeuralRoutingError::RewardError(s) => "Reward computation error: "@ + s@,
        NeuralRoutingError::Config(s) => "Configuration error: "@ + s@,
    }
}

impl NeuralRoutingError {
    /// The error's message.
    pub fn message(&self) -> (r: String)
        ensures
            r@ == error_message(*self),
    {
        let (prefix, detail) = match self {
            NeuralRoutingError::InvalidVector(s) => ("Invalid decision vector: ", s),
            NeuralRoutingError::TrajectoryNotFound(s) => ("Trajectory not found: ", s),
            NeuralRoutingError::Storage(s) => ("Storage error: ", s),
            NeuralRoutingError::Neo4j(s) => ("Neo4j error: ", s),
            NeuralRoutingError::RewardError(s) => ("Reward computation error: ", s),
            NeuralRoutingError::Config(s) => ("Configuration error: ", s),
        };
        let mut v: Vec<char> = Vec::new();
        extend_str(&mut v, prefix);
        extend_str(&mut v, detail.as_str());
        string_of(v.as_slice())
    }
}

/// How a routing request is served.
#[derive(Debug, Clone, Copy, PartialEq, Eq, Structural)]
pub enum RoutePlan {
    /// Routing is off: no route.
    Disabled,
    /// Ask the nearest-neighbour router directly.
    NearestNeighbour,
    /// Ask the nearest-neighbour router within a budget of milliseconds;
    /// no route if it does not answer in time.
    NearestNeighbourWithin(u64),
}

/// How a request is served: nothing while routing is off; in `nn` mode the
/// nearest-neighbour router directly; in `full` mode the same router within
/// the inference budget (the policy network is not in service).
pub fn route_plan(enabled: bool, mode: RoutingMode, inference: &InferenceConfig) -> (r: RoutePlan)
    ensures
        !enabled ==> r == RoutePlan::Disabled,
        enabled && mode == RoutingMode::NN ==> r == RoutePlan::NearestNeighbour,
        enabled && mode == RoutingMode::Full ==> r == RoutePlan::NearestNeighbourWithin(
            inference.timeout_ms,
        ),
{
    if !enabled {
        RoutePlan::Disabled
    } else {
        match mode {
            RoutingMode::NN => RoutePlan::NearestNeighbour,
            RoutingMode::Full => RoutePlan::NearestNeighbourWithin(inference.timeout_ms),
        }
    }
}

/// What a CPU reading makes the CPU guard do.
#[derive(Debug, Clone, Copy, PartialEq, Eq, Structural)]
pub enum GuardTransition {
    /// Start pausing heavy work.
    Pause,
    /// Stop pausing and wake the waiting work.
    Resume,
    /// Keep the current state.
    Stay,
}

/// The CPU guard's circuit breaker with hysteresis: a running guard pauses
/// when the usage is above the pause threshold, a paused one resumes when it
/// is below the resume threshold, and otherwise nothing changes. The result
/// is whether the guard is paused afterwards, and the transition.
pub open spec fn guard_next(paused: bool, above_pause: bool, below_resume: bool) -> (
    bool,
    GuardTransition,
) {
    if !paused && above_pause {
        (true, GuardTransition::Pause)
    } else if paused && below_resume {
        (false, GuardTransition::Resume)
    } else {
        (paused, GuardTransition::Stay)
    }
}

/// One poll of the CPU guard, given whether the usage read is above the
/// pause threshold and whether it is below the resume threshold.
pub fn cpu_guard_step(paused: bool, above_pause: bool, below_resume: bool) -> (r: (
    bool,
    GuardTransition,
))
    ensures
        r == guard_next(paused, above_pause, below_resume),
{
    if !paused && above_pause {
        (true, GuardTransition::Pause)
    } else if paused && below_resume {
        (false, GuardTransition::Resume)
    } else {
        (paused, GuardTransition::Stay)
    }
}

/// Hysteresis: a reading between the two thresholds never changes the
/// guard, a change of state is always announced by its transition, and a
/// guard only resumes from a pause and only pauses while running.
pub proof fn lemma_guard_hysteresis(paused: bool, above_pause: bool, below_resume: bool)
    ensures
        !above_pause && !below_resume ==> guard_next(paused, above_pause, below_resume) == (
            paused,
            GuardTransition::Stay,
        ),
        guard_next(paused, above_pause, below_resume).0 != paused <==> guard_next(
            paused,
            above_pause,
            below_resume,
        ).1 != GuardTransition::Stay,
        guard_next(paused, above_pause, below_resume).1 == GuardTransition::Resume ==> paused,
        guard_next(paused, above_pause, below_resume).1 == GuardTransition::Pause ==> !paused,
{
}

/// The milliseconds between a decision and the one before it (the first
/// decision's own time), never negative.
pub open spec fn step_delta(ts: Seq<u64>, i: int) -> u64 {
    if i == 0 {
        ts[0]
    } else if ts[i] >= ts[i - 1] {
        (ts[i] - ts[i - 1]) as u64
    } else {
        0
    }
}

/// The time each decision of a trajectory took after the one before it.
pub fn step_deltas(timestamps_ms: &[u64]) -> (r: Vec<u64>)
    ensures
        r@.len() == timestamps_ms@.len(),
        forall|i: int| 0 <= i < r@.len() ==> #[trigger] r@[i] == step_delta(timestamps_ms@, i),
{
    let mut r: Vec<u64> = Vec::new();
    let mut prev: u64 = 0;
    let mut i: usize = 0;
    while i < timestamps_ms.len()
        invariant
            0 <= i <= timestamps_ms@.len(),
            r@.len() == i,
            i > 0 ==> prev == timestamps_ms@[i - 1],
            forall|k: int| 0 <= k < i ==> #[trigger] r@[k] == step_delta(timestamps_ms@, k),
        decreases timestamps_ms@.len() - i,
    {
        let t = timestamps_ms[i];
        let d = if i == 0 {
            t
        } else {
            t.saturating_sub(prev)
        };
        r.push(d);
        prev = t;
        i = i + 1;
    }
    r
}

/// The routing settings an update can change, but for the similarity
/// threshold, which is floating-point.
#[derive(Debug, Clone, Copy)]
pub struct RoutingSettings {
    /// Master switch.
    pub enabled: bool,
    /// Routing mode.
    pub mode: RoutingMode,
    /// Inference settings.
    pub inference: InferenceConfig,
    /// Collection settings.
    pub collection: CollectionConfig,
    /// How many neighbours the nearest-neighbour router considers.
    pub nn_top_k: usize,
    /// The age in days past which routes are ignored.
    pub nn_max_route_age_days: u32,
}

/// A partial update of the routing settings.
#[derive(Debug, Clone)]
pub struct SettingsUpdate {
    pub enabled: Option<bool>,
    pub mode: Option<String>,
    pub inference_timeout_ms: Option<u64>,
    pub nn_fallback: Option<bool>,
    pub collection_enabled: Option<bool>,
    pub collection_buffer_size: Option<usize>,
    pub nn_top_k: Option<usize>,
    pub nn_max_route_age_days: Option<u32>,
}

/// The value an update gives, or the current one.
pub open spec fn or_keep<T>(v: Option<T>, cur: T) -> T {
    match v {
        Some(x) => x,
        None => cur,
    }
}

/// The settings after an update that names no invalid mode.
pub open spec fn updated_settings(s: RoutingSettings, u: SettingsUpdate) -> RoutingSettings {
    RoutingSettings {
        enabled: or_keep(u.enabled, s.enabled),
        mode: match u.mode {
            Some(m) => match mode_named(m@) {
                Some(x) => x,
                None => s.mode,
            },
            None => s.mode,
        },
        inference: InferenceConfig {
            timeout_ms: or_keep(u.inference_timeout_ms, s.inference.timeout_ms),
            nn_fallback: or_keep(u.nn_fallback, s.inference.nn_fallback),
        },
        collection: CollectionConfig {
            enabled: or_keep(u.collection_enabled, s.collection.enabled),
            buffer_size: or_keep(u.collection_buffer_size, s.collection.buffer_size),
        },
        nn_top_k: or_keep(u.nn_top_k, s.nn_top_k),
        nn_max_route_age_days: or_keep(u.nn_max_route_age_days, s.nn_max_route_age_days),
    }
}

/// Applies a partial update: every field it gives changes, the others stay;
/// an invalid mode refuses the whole update and changes nothing.
pub fn apply_update(settings: &mut RoutingSettings, u: &SettingsUpdate) -> (r: Result<
    SuccessResponse,
    String,
>)
    ensures
        match u.mode {
            Some(m) if mode_named(m@) is None => *final(settings) == *old(settings) && (r matches Err(
                e,
            ) && e@ == "Invalid mode '"@ + m@ + "': expected 'nn' or 'full'"@),
            _ => *final(settings) == updated_settings(*old(settings), *u) && (r matches Ok(resp)
                && resp.ok && resp.message@ == "Neural routing configuration updated"@),
        },
{
    let mode = match &u.mode {
        Some(m) => match parse_mode(m.as_str()) {
            Ok(x) => x,
            Err(e) => {
                return Err(e);
            },
        },
        None => settings.mode,
    };
    let mut next = *settings;
    if let Some(e) = u.enabled {
        next.enabled = e;
    }
    next.mode = mode;
    if let Some(t) = u.inference_timeout_ms {
        next.inference.timeout_ms = t;
    }
    if let Some(f) = u.nn_fallback {
        next.inference.nn_fallback = f;
    }
    if let Some(c) = u.collection_enabled {
        next.collection.enabled = c;
    }
    if let Some(b) = u.collection_buffer_size {
        next.collection.buffer_size = b;
    }
    if let Some(k) = u.nn_top_k {
        next.nn_top_k = k;
    }
    if let Some(d) = u.nn_max_route_age_days {
        next.nn_max_route_age_days = d;
    }
    *settings = next;
    Ok(SuccessResponse { ok: true, message: "Neural routing configuration updated".to_string() })
}

// ============================================================================
// Trajectory endpoints
// ============================================================================

/// The dimension of a query embedding.
pub const TOTAL_DIM: usize = 256;

/// The trajectory store, or the request error where routing runs without
/// one.
pub fn get_store<T>(store: Option<T>) -> (r: Result<T, String>)
    ensures
        match store {
            Some(s) => r == Ok::<T, String>(s),
            None => r matches Err(e) && e@
                == "Trajectory store not available (neural routing may be disabled)"@,
        },
{
    match store {
        Some(s) => Ok(s),
        None => Err("Trajectory store not available (neural routing may be disabled)".to_string()),
    }
}

/// The page size of a trajectory listing: 50 by default, at most 200.
pub fn trajectory_page_limit(limit: Option<usize>) -> (r: usize)
    ensures
        r == (match limit {
            Some(l) => if l < 200 {
                l
            } else {
                200
            },
            None => 50,
        }),
{
    let l = match limit {
        Some(l) => l,
        None => 50,
    };
    if l < 200 {
        l
    } else {
        200
    }
}

/// The number of similar trajectories returned: 10 by default, at most 100.
pub fn similar_top_k(top_k: Option<usize>) -> (r: usize)
    ensures
        r == (match top_k {
            Some(k) => if k < 100 {
                k
            } else {
                100
            },
            None => 10,
        }),
{
    let k = match top_k {
        Some(k) => k,
        None => 10,
    };
    if k < 100 {
        k
    } else {
        100
    }
}

/// The error for an embedding of `len` values where the full dimension is
/// expected.
pub open spec fn wrong_dimension_text(len: nat) -> Seq<char> {
    "expected "@ + decimal(TOTAL_DIM as nat) + " dimensions, got "@ + decimal(len)
}

/// The dimension check of an embedding to validate: accepted only with the
/// full dimension, else an invalid-vector error naming both.
pub fn check_vector_dimension(len: usize) -> (r: Result<(), NeuralRoutingError>)
    ensures
        len == TOTAL_DIM <==> r is Ok,
        r matches Err(e) ==> (e matches NeuralRoutingError::InvalidVector(m) && m@
            == wrong_dimension_text(len as nat)),
{
    if len == TOTAL_DIM {
        return Ok(());
    }
    let mut v: Vec<char> = Vec::new();
    extend_str(&mut v, "expected ");
    let d = decimal_of(TOTAL_DIM as u64);
    extend_chars(&mut v, d.as_slice());
    extend_str(&mut v, " dimensions, got ");
    let g = decimal_of(len as u64);
    extend_chars(&mut v, g.as_slice());
    proof {
        assert(v@ =~= wrong_dimension_text(len as nat));
    }
    Err(NeuralRoutingError::InvalidVector(string_of(v.as_slice())))
}

/// A query embedding of `len` values is accepted only with the full
/// dimension.
pub fn check_embedding_dim(len: usize) -> (r: Result<(), String>)
    ensures
        len == TOTAL_DIM <==> r is Ok,
        r matches Err(e) ==> e@ == "Embedding must be "@ + decimal(TOTAL_DIM as nat) + "d, got "@
            + decimal(len as nat) + "d"@,
{
    if len == TOTAL_DIM {
        return Ok(());
    }
    let mut v: Vec<char> = Vec::new();
    extend_str(&mut v, "Embedding must be ");
    let d = decimal_of(TOTAL_DIM as u64);
    extend_chars(&mut v, d.as_slice());
    extend_str(&mut v, "d, got ");
    let g = decimal_of(len as u64);
    extend_chars(&mut v, g.as_slice());
    extend_str(&mut v, "d");
    Err(string_of(v.as_slice()))
}

/// The routing status: whether it is on, its mode's name, whether the CPU
/// guard holds it back, and the router's metrics.
#[derive(Debug, Clone)]
pub struct NeuralRoutingStatusResponse<M> {
    pub enabled: bool,
    pub mode: String,
    pub cpu_guard_paused: bool,
    pub metrics: M,
}

/// The status reply for the current settings.
pub fn status_response<M>(settings: &RoutingSettings, cpu_guard_paused: bool, metrics: M) -> (r:
    NeuralRoutingStatusResponse<M>)
    ensures
        r.enabled == settings.enabled,
        r.mode@ == mode_name(settings.mode),
        r.cpu_guard_paused == cpu_guard_paused,
        r.metrics == metrics,
{
    NeuralRoutingStatusResponse {
        enabled: settings.enabled,
        mode: settings.mode.as_str().to_string(),
        cpu_guard_paused,
        metrics,
    }
}

/// A page of trajectories and how many it holds.
#[derive(Debug, Clone)]
pub struct TrajectoryListResponse<T> {
    pub trajectories: Vec<T>,
    pub count: usize,
}

impl<T> TrajectoryListResponse<T> {
    /// The reply for a page of trajectories.
    pub fn new(trajectories: Vec<T>) -> (r: TrajectoryListResponse<T>)
        ensures
            r.trajectories@ == trajectories@,
            r.count == trajectories@.len(),
    {
        let count = trajectories.len();
        TrajectoryListResponse { trajectories, count }
    }
}

/// One trajectory with its nodes.
#[derive(Debug, Clone)]
pub struct TrajectoryDetailResponse<T> {
    pub trajectory: T,
}

/// The trajectory statistics.
#[derive(Debug, Clone)]
pub struct TrajectoryStatsResponse<S> {
    pub stats: S,
}

} // verus!
