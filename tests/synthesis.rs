use helix_core::synthesis::{
    cluster_count, description, detect_emotional_patterns, detect_semantic_patterns,
    detect_temporal_patterns, plan_synthesis, select_patterns, Memory, MemoryType, Pattern,
    PatternKind,
};

const HOUR: i64 = 3_600_000_000;
const T: i64 = 1_700_000_000_000_000;

/// A valence in units of 2^-32.
fn units(v: f64) -> i64 {
    (v * 4_294_967_296.0) as i64
}

fn mem(id: u128, created_at: i64, valence: Option<i64>) -> Memory {
    Memory {
        id,
        user_id: 42,
        memory_type: MemoryType::Episodic,
        content: format!("memory {}", id),
        emotional_valence: valence,
        created_at,
        last_accessed: None,
    }
}

fn kinds(ps: &[Pattern]) -> Vec<PatternKind> {
    ps.iter().map(|p| p.kind).collect()
}

#[test]
fn empty_synthesis_writes_nothing() {
    let plan = plan_synthesis(&Vec::new(), &Vec::new(), 700);
    assert!(plan.is_empty());
}

#[test]
fn temporal_closure_scenario() {
    let ms = vec![
        mem(1, T, None),
        mem(2, T - HOUR, None),
        mem(3, T - 2 * HOUR, None),
        mem(4, T - 40 * HOUR, None),
        mem(5, T - 41 * HOUR, None),
    ];
    let ps = detect_temporal_patterns(&ms);
    assert_eq!(ps.len(), 1);
    assert_eq!(ps[0].kind, PatternKind::TemporalCluster);
    assert_eq!(ps[0].memory_ids, vec![1, 2, 3]);
    assert_eq!(ps[0].confidence, 800);
    assert_eq!(description(&ps[0]), "Cluster of 3 memories within 24-hour period");
    assert!(description(&ps[0]).contains('3'));

    let labels = vec![None; 5];
    let plan = plan_synthesis(&ms, &labels, 700);
    assert_eq!(kinds(&plan), vec![PatternKind::TemporalCluster]);
}

#[test]
fn temporal_gap_over_24_hours_closes_the_group() {
    // Each gap of 24 h 59 min exceeds 24 hours: every group closes after one memory.
    let gap = 24 * HOUR + 59 * 60_000_000;
    let ms = vec![
        mem(1, T, None),
        mem(2, T - gap, None),
        mem(3, T - 2 * gap, None),
        mem(4, T - 2 * gap - 25 * HOUR, None),
    ];
    assert!(detect_temporal_patterns(&ms).is_empty());

    // A gap of 24.5 h splits; exactly 24 h does not.
    let ms = vec![
        mem(1, T, None),
        mem(2, T - HOUR, None),
        mem(3, T - 2 * HOUR, None),
        mem(4, T - 26 * HOUR - HOUR / 2, None),
        mem(5, T - 100 * HOUR, None),
    ];
    let ps = detect_temporal_patterns(&ms);
    assert_eq!(ps.len(), 1);
    assert_eq!(ps[0].memory_ids, vec![1, 2, 3]);

    let ms = vec![
        mem(1, T, None),
        mem(2, T - 24 * HOUR, None),
        mem(3, T - 48 * HOUR, None),
        mem(4, T - 48 * HOUR - 1 - 24 * HOUR, None),
    ];
    let ps = detect_temporal_patterns(&ms);
    assert_eq!(ps.len(), 1);
    assert_eq!(ps[0].memory_ids, vec![1, 2, 3]);
}

#[test]
fn temporal_open_tail_is_not_emitted() {
    let ms: Vec<Memory> = (0..6).map(|i| mem(i, T - i as i64 * HOUR, None)).collect();
    assert!(detect_temporal_patterns(&ms).is_empty());
}

#[test]
fn temporal_small_groups_are_dropped() {
    let ms = vec![
        mem(1, T, None),
        mem(2, T - HOUR, None),
        mem(3, T - 30 * HOUR, None),
        mem(4, T - 31 * HOUR, None),
        mem(5, T - 32 * HOUR, None),
        mem(6, T - 33 * HOUR, None),
        mem(7, T - 90 * HOUR, None),
    ];
    let ps = detect_temporal_patterns(&ms);
    assert_eq!(ps.len(), 1);
    assert_eq!(ps[0].memory_ids, vec![3, 4, 5, 6]);
}

#[test]
fn emotional_gating_scenario() {
    let mut ms = Vec::new();
    for i in 0..4 {
        ms.push(mem(i, T - i as i64 * 100 * HOUR, Some(units(0.5))));
    }
    for i in 4..10 {
        ms.push(mem(i, T - i as i64 * 100 * HOUR, Some(units(-0.5))));
    }
    let ps = detect_emotional_patterns(&ms);
    assert_eq!(ps.len(), 1);
    assert_eq!(ps[0].kind, PatternKind::EmotionalNegative);
    assert_eq!(ps[0].memory_ids, vec![4, 5, 6, 7, 8, 9]);
    assert_eq!(ps[0].confidence, 850);
}

#[test]
fn emotional_thresholds_are_strict() {
    let mut ms = Vec::new();
    for i in 0..5 {
        ms.push(mem(i, T, Some(1_288_490_240)));
    }
    for i in 5..10 {
        ms.push(mem(i, T, Some(1_288_490_241)));
    }
    ms.push(mem(10, T, None));
    for i in 11..16 {
        ms.push(mem(i, T, Some(-1_288_490_240)));
    }
    let ps = detect_emotional_patterns(&ms);
    assert_eq!(ps.len(), 1);
    assert_eq!(ps[0].kind, PatternKind::EmotionalPositive);
    assert_eq!(ps[0].memory_ids, vec![5, 6, 7, 8, 9]);
}

#[test]
fn cluster_count_is_clamped() {
    assert_eq!(cluster_count(0, 3), 2);
    assert_eq!(cluster_count(8, 3), 2);
    assert_eq!(cluster_count(12, 3), 4);
    assert_eq!(cluster_count(30, 3), 10);
    assert_eq!(cluster_count(300, 3), 10);
}

#[test]
fn semantic_clusters_follow_labels() {
    let ms: Vec<Memory> = (0..9).map(|i| mem(i, T - i as i64 * 100 * HOUR, None)).collect();
    let labels = vec![
        Some(0),
        Some(1),
        Some(0),
        None,
        Some(1),
        Some(0),
        Some(2),
        Some(2),
        Some(1),
    ];
    let ps = detect_semantic_patterns(&ms, &labels);
    assert_eq!(
        kinds(&ps),
        vec![
            PatternKind::SemanticCluster { label: 0 },
            PatternKind::SemanticCluster { label: 1 }
        ]
    );
    assert_eq!(ps[0].memory_ids, vec![0, 2, 5]);
    assert_eq!(ps[1].memory_ids, vec![1, 4, 8]);
    assert_eq!(ps[0].confidence, 750);
}

#[test]
fn semantic_without_embeddings_is_empty() {
    let ms: Vec<Memory> = (0..4).map(|i| mem(i, T, None)).collect();
    assert!(detect_semantic_patterns(&ms, &vec![None; 4]).is_empty());
}

fn rich_memories() -> (Vec<Memory>, Vec<Option<usize>>) {
    let mut ms = Vec::new();
    let mut labels = Vec::new();
    for i in 0..12u128 {
        ms.push(mem(i, T - i as i64 * HOUR, Some(if i < 6 { units(0.6) } else { 0 })));
        labels.push(Some((i % 4) as usize));
    }
    ms.push(mem(99, T - 100 * HOUR, None));
    labels.push(None);
    (ms, labels)
}

#[test]
fn plan_orders_families_and_gates() {
    let (ms, labels) = rich_memories();
    let plan = plan_synthesis(&ms, &labels, 700);
    assert_eq!(
        kinds(&plan),
        vec![
            PatternKind::TemporalCluster,
            PatternKind::SemanticCluster { label: 0 },
            PatternKind::SemanticCluster { label: 1 },
            PatternKind::SemanticCluster { label: 2 },
            PatternKind::SemanticCluster { label: 3 },
            PatternKind::EmotionalPositive,
        ]
    );
    let strict = plan_synthesis(&ms, &labels, 800);
    assert_eq!(
        kinds(&strict),
        vec![PatternKind::TemporalCluster, PatternKind::EmotionalPositive]
    );
    let none = plan_synthesis(&ms, &labels, 900);
    assert!(none.is_empty());
}

#[test]
fn raising_the_threshold_never_adds_patterns() {
    let (ms, labels) = rich_memories();
    let mut last = usize::MAX;
    for min in [0u32, 700, 750, 751, 800, 850, 851, 1000] {
        let n = plan_synthesis(&ms, &labels, min).len();
        assert!(n <= last);
        last = n;
    }
}

#[test]
fn select_keeps_order() {
    let ps = vec![
        Pattern { kind: PatternKind::EmotionalNegative, memory_ids: vec![1], confidence: 900 },
        Pattern { kind: PatternKind::TemporalCluster, memory_ids: vec![2], confidence: 100 },
        Pattern { kind: PatternKind::EmotionalPositive, memory_ids: vec![3], confidence: 500 },
    ];
    let kept = select_patterns(ps, 500);
    assert_eq!(
        kinds(&kept),
        vec![PatternKind::EmotionalNegative, PatternKind::EmotionalPositive]
    );
}

#[test]
fn descriptions_hold_counts_and_labels() {
    let p = Pattern {
        kind: PatternKind::SemanticCluster { label: 7 },
        memory_ids: (0..12).collect(),
        confidence: 750,
    };
    assert_eq!(description(&p), "Semantic cluster 7 with 12 memories");
    let p = Pattern { kind: PatternKind::TemporalCluster, memory_ids: (0..105).collect(), confidence: 800 };
    assert_eq!(description(&p), "Cluster of 105 memories within 24-hour period");
    let p = Pattern { kind: PatternKind::EmotionalNegative, memory_ids: vec![1, 2, 3, 4, 5], confidence: 850 };
    assert_eq!(description(&p), "Cluster of negative emotional memories");
    let p = Pattern { kind: PatternKind::EmotionalPositive, memory_ids: vec![], confidence: 850 };
    assert_eq!(description(&p), "Cluster of positive emotional memories");
    let p = Pattern { kind: PatternKind::SemanticCluster { label: 0 }, memory_ids: vec![], confidence: 750 };
    assert_eq!(description(&p), "Semantic cluster 0 with 0 memories");
}

#[test]
fn valence_of_single_precision_point_three_is_neutral() {
    let v = (0.3f32 as f64 * 4_294_967_296.0) as i64;
    assert_eq!(v, 1_288_490_240);
    let ms: Vec<Memory> = (0..6).map(|i| mem(i, T, Some(v))).collect();
    assert!(detect_emotional_patterns(&ms).is_empty());
    let ms: Vec<Memory> = (0..6).map(|i| mem(i, T, Some(-v))).collect();
    assert!(detect_emotional_patterns(&ms).is_empty());
}
