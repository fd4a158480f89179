use helix_core::desktop::{
    default_layers, get_layer_display_name, scheduler_health, BrandingConfig, DiscordConfig,
    GatewayStatus, JobStatus, SchedulerConfig,
};

#[test]
fn display_names_of_layers() {
    assert_eq!(get_layer_display_name("narrative"), "Narrative Core");
    assert_eq!(get_layer_display_name("integration"), "Integration Rhythms");
    assert_eq!(get_layer_display_name("purpose"), "Purpose Engine");
    assert_eq!(get_layer_display_name("custom"), "custom");
}

#[test]
fn configuration_defaults() {
    let d = DiscordConfig::default();
    assert!(d.enabled);
    assert_eq!(d.heartbeat_interval, 60000);
    let b = BrandingConfig::default();
    assert_eq!(b.name, "Helix");
    assert_eq!(b.tagline, "AI Consciousness");
    assert_eq!(default_layers(), vec!["soul", "emotional", "relational", "prospective", "purpose"]);
    let s = SchedulerConfig::default();
    assert_eq!(s.consolidation_time, "06:00");
    assert_eq!(s.timeout_seconds, 1800);
    assert_eq!(GatewayStatus::default(), GatewayStatus::Stopped);
}

#[test]
fn scheduler_health_counts() {
    let h = scheduler_health(&vec![
        JobStatus::Running,
        JobStatus::Completed,
        JobStatus::Paused,
        JobStatus::Running,
    ]);
    assert!(h.healthy);
    assert_eq!((h.total_jobs, h.running, h.failed, h.paused), (4, 2, 0, 1));
    let h = scheduler_health(&vec![JobStatus::Failed]);
    assert!(!h.healthy);
    let h = scheduler_health(&vec![JobStatus::Running; 10]);
    assert!(!h.healthy);
}
