use vstd::prelude::*;

verus! {

/// Discord webhook endpoints, one per notification channel.
#[derive(Debug, Clone)]
pub struct DiscordWebhooks {
    pub commands: Option<String>,
    pub api: Option<String>,
    pub heartbeat: Option<String>,
    pub file_changes: Option<String>,
    pub consciousness: Option<String>,
    pub alerts: Option<String>,
    pub hash_chain: Option<String>,
}

impl Default for DiscordWebhooks {
    fn default() -> (r: Self)
        ensures
            r.commands is None && r.api is None && r.heartbeat is None && r.file_changes is None
                && r.consciousness is None && r.alerts is None && r.hash_chain is None,
    {
        DiscordWebhooks {
            commands: None,
            api: None,
            heartbeat: None,
            file_changes: None,
            consciousness: None,
            alerts: None,
            hash_chain: None,
        }
    }
}

#[derive(Debug, Clone)]
pub struct DiscordConfig {
    pub enabled: bool,
    pub webhooks: DiscordWebhooks,
    /// Milliseconds between heartbeats.
    pub heartbeat_interval: u64,
}

impl Default for DiscordConfig {
    fn default() -> (r: Self)
        ensures
            r.enabled,
            r.heartbeat_interval == 60000,
            r.webhooks.commands is None && r.webhooks.api is None && r.webhooks.heartbeat is None
                && r.webhooks.file_changes is None && r.webhooks.consciousness is None
                && r.webhooks.alerts is None && r.webhooks.hash_chain is None,
    {
        DiscordConfig {
            enabled: true,
            webhooks: DiscordWebhooks::default(),
            heartbeat_interval: default_heartbeat_interval(),
        }
    }
}

#[derive(Debug, Clone)]
pub struct PsychologyConfig {
    pub enabled: bool,
    pub auto_load: bool,
    pub layers: Vec<String>,
}

impl Default for PsychologyConfig {
    fn default() -> (r: Self)
        ensures
            r.enabled && r.auto_load,
            r.layers@.map_values(|s: String| s@) == default_layer_names(),
    {
        PsychologyConfig { enabled: true, auto_load: true, layers: default_layers() }
    }
}

#[derive(Debug, Clone, Copy, PartialEq, Eq, Structural)]
pub struct HashChainConfig {
    pub enabled: bool,
    pub auto_verify: bool,
    pub alert_on_tamper: bool,
}

impl Default for HashChainConfig {
    fn default() -> (r: Self)
        ensures
            r.enabled && r.auto_verify && r.alert_on_tamper,
    {
        HashChainConfig { enabled: true, auto_verify: true, alert_on_tamper: true }
    }
}

#[derive(Debug, Clone)]
pub struct BrandingConfig {
    pub name: String,
    pub tagline: String,
}

impl Default for BrandingConfig {
    fn default() -> (r: Self)
        ensures
            r.name@ == "Helix"@,
            r.tagline@ == "AI Consciousness"@,
    {
        BrandingConfig { name: default_name(), tagline: default_tagline() }
    }
}

pub fn default_true() -> (r: bool)
    ensures
        r,
{
    true
}

pub fn default_heartbeat_interval() -> (r: u64)
    ensures
        r == 60000,
{
    60000
}

pub open spec fn default_layer_names() -> Seq<Seq<char>> {
    seq!["soul"@, "emotional"@, "relational"@, "prospective"@, "purpose"@]
}

/// The layers loaded by default.
pub fn default_layers() -> (r: Vec<String>)
    ensures
        r@.map_values(|s: String| s@) == default_layer_names(),
{
    let mut v: Vec<String> = Vec::new();
    v.push(String::from_str("soul"));
    v.push(String::from_str("emotional"));
    v.push(String::from_str("relational"));
    v.push(String::from_str("prospective"));
    v.push(String::from_str("purpose"));
    assert(v@.map_values(|s: String| s@) =~= default_layer_names());
    v
}

pub fn default_name() -> (r: String)
    ensures
        r@ == "Helix"@,
{
    String::from_str("Helix")
}

pub fn default_tagline() -> (r: String)
    ensures
        r@ == "AI Consciousness"@,
{
    String::from_str("AI Consciousness")
}

/// The display name of a psychology layer directory; an unknown id is shown as it is.
pub open spec fn layer_display_name(id: Seq<char>) -> Seq<char> {
    if id == "narrative"@ {
        "Narrative Core"@
    } else if id == "emotional"@ {
        "Emotional Memory"@
    } else if id == "relational"@ {
        "Relational Memory"@
    } else if id == "prospective"@ {
        "Prospective Self"@
    } else if id == "integration"@ {
        "Integration Rhythms"@
    } else if id == "transformation"@ {
        "Transformation"@
    } else if id == "purpose"@ {
        "Purpose Engine"@
    } else {
        id
    }
}

pub fn get_layer_display_name(id: &str) -> (r: String)
    ensures
        r@ == layer_display_name(id@),
{
    let key = String::from_str(id);
    if key == String::from_str("narrative") {
        String::from_str("Narrative Core")
    } else if key == String::from_str("emotional") {
        String::from_str("Emotional Memory")
    } else if key == String::from_str("relational") {
        String::from_str("Relational Memory")
    } else if key == String::from_str("prospective") {
        String::from_str("Prospective Self")
    } else if key == String::from_str("integration") {
        String::from_str("Integration Rhythms")
    } else if key == String::from_str("transformation") {
        String::from_str("Transformation")
    } else if key == String::from_str("purpose") {
        String::from_str("Purpose Engine")
    } else {
        key
    }
}

/// Contents of the soul file and its modification time (seconds since the Unix epoch).
#[derive(Debug, Clone)]
pub struct SoulResponse {
    pub content: String,
    pub last_modified: u64,
}

/// Health of one psychology layer's files.
#[derive(Debug, Clone)]
pub struct LayerStatus {
    pub id: String,
    pub name: String,
    /// One of healthy, warning, error, inactive.
    pub status: String,
    pub file_count: usize,
    pub total_files: usize,
    pub last_modified: Option<u64>,
}

/// Status of a scheduled job.
#[derive(Debug, Clone, Copy, PartialEq, Eq, Structural)]
pub enum JobStatus {
    Pending,
    Running,
    Completed,
    Failed,
    Paused,
}

/// The kind of a scheduled job.
#[derive(Debug, Clone, Copy, PartialEq, Eq, Structural)]
pub enum JobType {
    Consolidation,
    Synthesis,
    FullIntegration,
    MemoryFadeout,
    PatternAnalysis,
    RecommendationGeneration,
}

/// When the integration jobs run.
#[derive(Debug, Clone)]
pub struct SchedulerConfig {
    pub enabled: bool,
    pub daily_consolidation: bool,
    /// HH:MM
    pub consolidation_time: String,
    pub daily_synthesis: bool,
    /// HH:MM
    pub synthesis_time: String,
    pub weekly_full_integration: bool,
    /// Day of the week, 0 (Sunday) to 6.
    pub integration_day: String,
    /// HH:MM
    pub integration_time: String,
    pub monthly_synthesis: bool,
    /// Day of the month.
    pub synthesis_day: u32,
    pub max_concurrent_jobs: u32,
    pub timeout_seconds: u32,
}

impl Default for SchedulerConfig {
    fn default() -> (r: Self)
        ensures
            r.enabled && r.daily_consolidation && r.daily_synthesis && r.weekly_full_integration
                && r.monthly_synthesis,
            r.consolidation_time@ == "06:00"@,
            r.synthesis_time@ == "20:00"@,
            r.integration_day@ == "0"@,
            r.integration_time@ == "03:00"@,
            r.synthesis_day == 1,
            r.max_concurrent_jobs == 2,
            r.timeout_seconds == 1800,
    {
        SchedulerConfig {
            enabled: true,
            daily_consolidation: true,
            consolidation_time: String::from_str("06:00"),
            daily_synthesis: true,
            synthesis_time: String::from_str("20:00"),
            weekly_full_integration: true,
            integration_day: String::from_str("0"),
            integration_time: String::from_str("03:00"),
            monthly_synthesis: true,
            synthesis_day: 1,
            max_concurrent_jobs: 2,
            timeout_seconds: 1800,
        }
    }
}

/// Summary of the scheduler's jobs.
#[derive(Debug, Clone, Copy, PartialEq, Eq, Structural)]
pub struct SchedulerHealth {
    pub healthy: bool,
    pub total_jobs: usize,
    pub running: usize,
    pub failed: usize,
    pub paused: usize,
}

/// How many of the statuses equal `s`.
pub open spec fn count_status(statuses: Seq<JobStatus>, s: JobStatus) -> nat
    decreases statuses.len(),
{
    if statuses.len() == 0 {
        0
    } else {
        count_status(statuses.drop_last(), s) + if statuses.last() == s {
            1nat
        } else {
            0nat
        }
    }
}

/// The health of a set of jobs: healthy when none failed and fewer than ten run.
pub fn scheduler_health(statuses: &Vec<JobStatus>) -> (r: SchedulerHealth)
    ensures
        r.total_jobs == statuses@.len(),
        r.running == count_status(statuses@, JobStatus::Running),
        r.failed == count_status(statuses@, JobStatus::Failed),
        r.paused == count_status(statuses@, JobStatus::Paused),
        r.healthy == (r.failed == 0 && r.running < 10),
{
    let ghost ss = statuses@;
    let mut running: usize = 0;
    let mut failed: usize = 0;
    let mut paused: usize = 0;
    let mut i: usize = 0;
    while i < statuses.len()
        invariant
            i <= ss.len(),
            ss == statuses@,
            running == count_status(ss.take(i as int), JobStatus::Running),
            failed == count_status(ss.take(i as int), JobStatus::Failed),
            paused == count_status(ss.take(i as int), JobStatus::Paused),
            running <= i && failed <= i && paused <= i,
        decreases ss.len() - i,
    {
        proof {
            assert(ss.take(i + 1).drop_last() =~= ss.take(i as int));
        }
        match statuses[i] {
            JobStatus::Running => running = running + 1,
            JobStatus::Failed => failed = failed + 1,
            JobStatus::Paused => paused = paused + 1,
            _ => {},
        }
        i = i + 1;
    }
    proof {
        assert(ss.take(ss.len() as int) =~= ss);
    }
    SchedulerHealth {
        healthy: failed == 0 && running < 10,
        total_jobs: statuses.len(),
        running,
        failed,
        paused,
    }
}

/// Connection status of the local gateway.
#[derive(Debug, Clone, Copy, PartialEq, Eq, Structural)]
pub enum GatewayStatus {
    Stopped,
    Starting,
    Running,
    Unhealthy,
    Restarting,
}

impl Default for GatewayStatus {
    fn default() -> (r: Self)
        ensures
            r == GatewayStatus::Stopped,
    {
        GatewayStatus::Stopped
    }
}

/// A gateway status change, with its time in milliseconds since the Unix epoch.
#[derive(Debug, Clone)]
pub struct GatewayStatusEvent {
    pub status: GatewayStatus,
    pub message: Option<String>,
    pub timestamp: u64,
}

/// What the tray menu shows.
#[derive(Debug, Clone)]
pub struct TrayMenuState {
    pub gateway_running: bool,
    /// (name, status) of each agent.
    pub agents: Vec<(String, String)>,
    /// (name, status) of each channel.
    pub channels: Vec<(String, String)>,
    pub pending_approvals: u32,
    pub window_visible: bool,
    pub talk_mode_active: bool,
}

impl Default for TrayMenuState {
    fn default() -> (r: Self)
        ensures
            !r.gateway_running && r.agents@.len() == 0 && r.channels@.len() == 0
                && r.pending_approvals == 0 && !r.window_visible && !r.talk_mode_active,
    {
        TrayMenuState {
            gateway_running: false,
            agents: Vec::new(),
            channels: Vec::new(),
            pending_approvals: 0,
            window_visible: false,
            talk_mode_active: false,
        }
    }
}

/// The host the desktop shell runs on.
#[derive(Debug, Clone)]
pub struct SystemInfo {
    pub os: String,
    pub arch: String,
    pub platform: String,
    pub node_version: Option<String>,
    pub helix_version: String,
}

/// Where the shell keeps its files.
#[derive(Debug, Clone)]
pub struct HelixPaths {
    pub home: String,
    pub helix_dir: String,
    pub config_path: String,
    pub psychology_dir: String,
    pub logs_dir: String,
    pub sessions_dir: String,
}

} // verus!
