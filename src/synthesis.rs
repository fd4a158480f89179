use vstd::prelude::*;

verus! {

/// One hour in microseconds.
pub const HOUR_MICROS: i128 = 3_600_000_000;

/// Consecutive memories more than this many hours apart start a new temporal group.
pub const TEMPORAL_GAP_HOURS: i128 = 24;

/// A temporal group is reported from this many memories on.
pub const MIN_TEMPORAL_GROUP: usize = 3;

/// The smallest semantic cluster that is reported.
pub const MIN_CLUSTER_SIZE: usize = 3;

/// Bounds on the number of k-means clusters.
pub const MIN_CLUSTERS: usize = 2;

pub const MAX_CLUSTERS: usize = 10;

/// An emotional bin is reported from this many memories on.
pub const MIN_EMOTIONAL_GROUP: usize = 5;

/// The valence threshold of the emotional bins, in units of 2^-32: the single-precision
/// float nearest 0.3 (0.300000011920929...), which is exactly 1_288_490_240 units. A stored
/// valence lies above it, or below its negation, as the float comparison says.
pub const VALENCE_THRESHOLD: i64 = 1_288_490_240;

/// Confidence of each pattern family, in thousandths.
pub const TEMPORAL_CONFIDENCE: u32 = 800;

pub const SEMANTIC_CONFIDENCE: u32 = 750;

pub const EMOTIONAL_CONFIDENCE: u32 = 850;

/// The kind of a stored memory.
#[derive(Debug, Clone, Copy, PartialEq, Eq, Structural)]
pub enum MemoryType {
    Episodic,
    Semantic,
    Procedural,
}

/// A memory as the synthesizer reads it. Its embedding, a vector of floats, stays with the
/// caller, which hands in the cluster label that k-means gave it instead.
#[derive(Debug, Clone)]
pub struct Memory {
    /// A UUID as a 128-bit integer.
    pub id: u128,
    pub user_id: u128,
    pub memory_type: MemoryType,
    pub content: String,
    /// Emotional valence in units of 2^-32, within [-2^32, 2^32] (that is, [-1, 1]).
    pub emotional_valence: Option<i64>,
    /// Creation time in microseconds since the Unix epoch.
    pub created_at: i64,
    pub last_accessed: Option<i64>,
}

/// The family a pattern belongs to.
#[derive(Debug, Clone, Copy, PartialEq, Eq, Structural)]
pub enum PatternKind {
    TemporalCluster,
    /// The cluster of the k-means centroid with this index.
    SemanticCluster { label: usize },
    EmotionalPositive,
    EmotionalNegative,
}

/// The stored name of a memory kind.
pub open spec fn memory_type_name(t: MemoryType) -> Seq<char> {
    match t {
        MemoryType::Episodic => "episodic"@,
        MemoryType::Semantic => "semantic"@,
        MemoryType::Procedural => "procedural"@,
    }
}

impl MemoryType {
    /// The memory kind stored under `name`, if any.
    pub fn from_name(name: &str) -> (r: Option<MemoryType>)
        ensures
            r matches Some(t) ==> memory_type_name(t) == name@,
            r is None ==> forall|t: MemoryType| memory_type_name(t) != name@,
    {
        let key = String::from_str(name);
        if key == String::from_str("episodic") {
            Some(MemoryType::Episodic)
        } else if key == String::from_str("semantic") {
            Some(MemoryType::Semantic)
        } else if key == String::from_str("procedural") {
            Some(MemoryType::Procedural)
        } else {
            proof {
                assert forall|t: MemoryType| memory_type_name(t) != name@ by {
                    match t {
                        MemoryType::Episodic => {},
                        MemoryType::Semantic => {},
                        MemoryType::Procedural => {},
                    }
                }
            }
            None
        }
    }

    pub fn name(&self) -> (r: String)
        ensures
            r@ == memory_type_name(*self),
    {
        match self {
            MemoryType::Episodic => String::from_str("episodic"),
            MemoryType::Semantic => String::from_str("semantic"),
            MemoryType::Procedural => String::from_str("procedural"),
        }
    }
}

/// The stored pattern type: the family followed by the kind.
pub open spec fn pattern_type_name(k: PatternKind) -> Seq<char> {
    match k {
        PatternKind::TemporalCluster => "temporal_temporal_cluster"@,
        PatternKind::SemanticCluster { .. } => "semantic_semantic_cluster"@,
        PatternKind::EmotionalPositive => "emotional_emotional_positive"@,
        PatternKind::EmotionalNegative => "emotional_emotional_negative"@,
    }
}

impl PatternKind {
    pub fn stored_name(&self) -> (r: String)
        ensures
            r@ == pattern_type_name(*self),
    {
        match self {
            PatternKind::TemporalCluster => String::from_str("temporal_temporal_cluster"),
            PatternKind::SemanticCluster { .. } => String::from_str("semantic_semantic_cluster"),
            PatternKind::EmotionalPositive => String::from_str("emotional_emotional_positive"),
            PatternKind::EmotionalNegative => String::from_str("emotional_emotional_negative"),
        }
    }
}

/// A candidate pattern: a group of memories with a confidence in thousandths.
#[derive(Debug)]
pub struct Pattern {
    pub kind: PatternKind,
    pub memory_ids: Vec<u128>,
    pub confidence: u32,
}

/// A pattern as contracts speak of it.
pub struct PatternView {
    pub kind: PatternKind,
    pub memory_ids: Seq<u128>,
    pub confidence: u32,
}

impl View for Pattern {
    type V = PatternView;

    open spec fn view(&self) -> PatternView {
        PatternView { kind: self.kind, memory_ids: self.memory_ids@, confidence: self.confidence }
    }
}

/// The view of each pattern, in order.
pub open spec fn views(ps: Seq<Pattern>) -> Seq<PatternView> {
    ps.map_values(|p: Pattern| p@)
}

pub open spec fn abs(x: int) -> int {
    if x < 0 {
        -x
    } else {
        x
    }
}

/// Two creation times lie more than 24 hours apart.
pub open spec fn gap_exceeds(previous: i64, current: i64) -> bool {
    abs(current - previous) > TEMPORAL_GAP_HOURS * HOUR_MICROS
}

/// The walk over the first `n` memories: the groups closed so far and the open group.
pub open spec fn temporal_walk(ms: Seq<Memory>, n: nat) -> (Seq<Seq<u128>>, Seq<u128>)
    decreases n,
{
    if n == 0 {
        (Seq::empty(), Seq::empty())
    } else {
        let prev = temporal_walk(ms, (n - 1) as nat);
        let m = ms[n - 1];
        if n >= 2 && gap_exceeds(ms[n - 2].created_at, m.created_at) {
            (
                if prev.1.len() >= MIN_TEMPORAL_GROUP {
                    prev.0.push(prev.1)
                } else {
                    prev.0
                },
                seq![m.id],
            )
        } else {
            (prev.0, prev.1.push(m.id))
        }
    }
}

/// The temporal groups that the walk over all memories closes; the last, open group is not
/// among them.
pub open spec fn temporal_groups(ms: Seq<Memory>) -> Seq<Seq<u128>> {
    temporal_walk(ms, ms.len()).0
}

pub open spec fn temporal_pattern(g: Seq<u128>) -> PatternView {
    PatternView { kind: PatternKind::TemporalCluster, memory_ids: g, confidence: TEMPORAL_CONFIDENCE }
}

pub open spec fn temporal_patterns(ms: Seq<Memory>) -> Seq<PatternView> {
    temporal_groups(ms).map_values(|g: Seq<u128>| temporal_pattern(g))
}

pub open spec fn is_positive(m: Memory) -> bool {
    m.emotional_valence matches Some(v) && v > VALENCE_THRESHOLD
}

pub open spec fn is_negative(m: Memory) -> bool {
    m.emotional_valence matches Some(v) && v < -VALENCE_THRESHOLD
}

/// Ids of the memories of positive valence, in input order.
pub open spec fn positive_ids(ms: Seq<Memory>) -> Seq<u128>
    decreases ms.len(),
{
    if ms.len() == 0 {
        Seq::empty()
    } else if is_positive(ms.last()) {
        positive_ids(ms.drop_last()).push(ms.last().id)
    } else {
        positive_ids(ms.drop_last())
    }
}

/// Ids of the memories of negative valence, in input order.
pub open spec fn negative_ids(ms: Seq<Memory>) -> Seq<u128>
    decreases ms.len(),
{
    if ms.len() == 0 {
        Seq::empty()
    } else if is_negative(ms.last()) {
        negative_ids(ms.drop_last()).push(ms.last().id)
    } else {
        negative_ids(ms.drop_last())
    }
}

pub open spec fn emotional_patterns(ms: Seq<Memory>) -> Seq<PatternView> {
    let pos = positive_ids(ms);
    let neg = negative_ids(ms);
    let first: Seq<PatternView> = if pos.len() >= MIN_EMOTIONAL_GROUP {
        seq![
            PatternView {
                kind: PatternKind::EmotionalPositive,
                memory_ids: pos,
                confidence: EMOTIONAL_CONFIDENCE,
            },
        ]
    } else {
        Seq::empty()
    };
    if neg.len() >= MIN_EMOTIONAL_GROUP {
        first.push(
            PatternView {
                kind: PatternKind::EmotionalNegative,
                memory_ids: neg,
                confidence: EMOTIONAL_CONFIDENCE,
            },
        )
    } else {
        first
    }
}

/// Ids of the memories that k-means put in cluster `c`, in input order.
pub open spec fn cluster_members(ms: Seq<Memory>, labels: Seq<Option<usize>>, c: usize) -> Seq<
    u128,
>
    decreases ms.len(),
{
    if ms.len() == 0 {
        Seq::empty()
    } else if labels[ms.len() - 1] == Some(c) {
        cluster_members(ms.drop_last(), labels, c).push(ms.last().id)
    } else {
        cluster_members(ms.drop_last(), labels, c)
    }
}

/// How many memories carry a cluster label.
pub open spec fn labelled_count(labels: Seq<Option<usize>>) -> nat
    decreases labels.len(),
{
    if labels.len() == 0 {
        0
    } else {
        labelled_count(labels.drop_last()) + if labels.last() is Some {
            1nat
        } else {
            0nat
        }
    }
}

/// The number of k-means clusters for `n` usable memories: n / s, kept within [2, 10].
pub open spec fn cluster_count_spec(n: nat, s: nat) -> nat {
    let q = n / s;
    if q < MIN_CLUSTERS {
        MIN_CLUSTERS as nat
    } else if q > MAX_CLUSTERS {
        MAX_CLUSTERS as nat
    } else {
        q
    }
}

/// The semantic patterns of clusters `0..k`, in label order, the small ones left out.
pub open spec fn semantic_upto(ms: Seq<Memory>, labels: Seq<Option<usize>>, k: nat) -> Seq<
    PatternView,
>
    decreases k,
{
    if k == 0 {
        Seq::empty()
    } else {
        let rest = semantic_upto(ms, labels, (k - 1) as nat);
        let members = cluster_members(ms, labels, (k - 1) as usize);
        if members.len() >= MIN_CLUSTER_SIZE {
            rest.push(
                PatternView {
                    kind: PatternKind::SemanticCluster { label: (k - 1) as usize },
                    memory_ids: members,
                    confidence: SEMANTIC_CONFIDENCE,
                },
            )
        } else {
            rest
        }
    }
}

pub open spec fn semantic_patterns(ms: Seq<Memory>, labels: Seq<Option<usize>>) -> Seq<
    PatternView,
> {
    semantic_upto(ms, labels, cluster_count_spec(labelled_count(labels), MIN_CLUSTER_SIZE as nat))
}

/// The patterns whose confidence reaches `min_confidence`, in order.
pub open spec fn gated(ps: Seq<PatternView>, min_confidence: u32) -> Seq<PatternView>
    decreases ps.len(),
{
    if ps.len() == 0 {
        Seq::empty()
    } else if ps.last().confidence >= min_confidence {
        gated(ps.drop_last(), min_confidence).push(ps.last())
    } else {
        gated(ps.drop_last(), min_confidence)
    }
}

/// What one synthesis run persists, in the order temporal, semantic, emotional.
pub open spec fn synthesis_plan(
    ms: Seq<Memory>,
    labels: Seq<Option<usize>>,
    min_confidence: u32,
) -> Seq<PatternView> {
    gated(temporal_patterns(ms) + semantic_patterns(ms, labels) + emotional_patterns(ms), min_confidence)
}

fn exceeds_gap(previous: i64, current: i64) -> (r: bool)
    ensures
        r == gap_exceeds(previous, current),
{
    let d: i128 = current as i128 - previous as i128;
    let a: i128 = if d < 0 {
        -d
    } else {
        d
    };
    a > TEMPORAL_GAP_HOURS * HOUR_MICROS
}

/// Groups memories, walked in the order given, into runs whose consecutive creation times
/// lie at most 24 hours apart. A run is closed by the first larger gap and reported
/// when it holds at least three memories; the run still open at the end is not reported.
pub fn detect_temporal_patterns(memories: &Vec<Memory>) -> (r: Vec<Pattern>)
    ensures
        views(r@) == temporal_patterns(memories@),
{
    let ghost ms = memories@;
    let mut patterns: Vec<Pattern> = Vec::new();
    let mut current: Vec<u128> = Vec::new();
    let mut i: usize = 0;
    while i < memories.len()
        invariant
            i <= ms.len(),
            ms == memories@,
            views(patterns@) == temporal_walk(ms, i as nat).0.map_values(
                |g: Seq<u128>| temporal_pattern(g),
            ),
            current@ == temporal_walk(ms, i as nat).1,
        decreases ms.len() - i,
    {
        let ghost before = patterns@;
        if i > 0 && exceeds_gap(memories[i - 1].created_at, memories[i].created_at) {
            if current.len() >= MIN_TEMPORAL_GROUP {
                let mut group: Vec<u128> = Vec::new();
                std::mem::swap(&mut group, &mut current);
                let p = Pattern {
                    kind: PatternKind::TemporalCluster,
                    memory_ids: group,
                    confidence: TEMPORAL_CONFIDENCE,
                };
                patterns.push(p);
                proof {
                    assert(views(patterns@) =~= views(before).push(temporal_pattern(group@)));
                }
            }
            current = Vec::new();
            current.push(memories[i].id);
        } else {
            current.push(memories[i].id);
        }
        proof {
            let prev = temporal_walk(ms, i as nat);
            let next = temporal_walk(ms, (i + 1) as nat);
            assert(next.0.map_values(|g: Seq<u128>| temporal_pattern(g)) =~= views(patterns@));
            assert(current@ =~= next.1);
        }
        i = i + 1;
    }
    patterns
}

/// Bins memories by valence: above +0.3 positive, below -0.3 negative, neutral otherwise.
/// A positive or negative bin of at least five memories becomes a pattern, positive first;
/// the neutral bin never does.
pub fn detect_emotional_patterns(memories: &Vec<Memory>) -> (r: Vec<Pattern>)
    ensures
        views(r@) == emotional_patterns(memories@),
{
    let ghost ms = memories@;
    let mut positive: Vec<u128> = Vec::new();
    let mut negative: Vec<u128> = Vec::new();
    let mut i: usize = 0;
    while i < memories.len()
        invariant
            i <= ms.len(),
            ms == memories@,
            positive@ == positive_ids(ms.take(i as int)),
            negative@ == negative_ids(ms.take(i as int)),
        decreases ms.len() - i,
    {
        proof {
            assert(ms.take(i + 1).drop_last() =~= ms.take(i as int));
        }
        match memories[i].emotional_valence {
            Some(v) => {
                if v > VALENCE_THRESHOLD {
                    positive.push(memories[i].id);
                } else if v < -VALENCE_THRESHOLD {
                    negative.push(memories[i].id);
                }
            },
            None => {},
        }
        i = i + 1;
    }
    proof {
        assert(ms.take(ms.len() as int) =~= ms);
    }
    let ghost pos = positive@;
    let ghost neg = negative@;
    let mut patterns: Vec<Pattern> = Vec::new();
    if positive.len() >= MIN_EMOTIONAL_GROUP {
        patterns.push(
            Pattern {
                kind: PatternKind::EmotionalPositive,
                memory_ids: positive,
                confidence: EMOTIONAL_CONFIDENCE,
            },
        );
    }
    let ghost first = patterns@;
    if negative.len() >= MIN_EMOTIONAL_GROUP {
        patterns.push(
            Pattern {
                kind: PatternKind::EmotionalNegative,
                memory_ids: negative,
                confidence: EMOTIONAL_CONFIDENCE,
            },
        );
    }
    proof {
        assert(views(first) =~= if pos.len() >= MIN_EMOTIONAL_GROUP {
            seq![
                PatternView {
                    kind: PatternKind::EmotionalPositive,
                    memory_ids: pos,
                    confidence: EMOTIONAL_CONFIDENCE,
                },
            ]
        } else {
            Seq::<PatternView>::empty()
        });
        assert(views(patterns@) =~= emotional_patterns(ms));
    }
    patterns
}

/// The number of k-means clusters for `usable` memories with embeddings:
/// `usable / min_cluster_size`, kept within [2, 10].
pub fn cluster_count(usable: usize, min_cluster_size: usize) -> (r: usize)
    requires
        min_cluster_size > 0,
    ensures
        r as nat == cluster_count_spec(usable as nat, min_cluster_size as nat),
{
    let q = usable / min_cluster_size;
    if q < MIN_CLUSTERS {
        MIN_CLUSTERS
    } else if q > MAX_CLUSTERS {
        MAX_CLUSTERS
    } else {
        q
    }
}

/// Turns the k-means labels of the memories into semantic patterns. `labels[i]` is the
/// centroid that memory `i` is closest to, or `None` for a memory without an embedding.
/// Clusters `0..k` for k = `cluster_count` of the labelled memories are visited in order;
/// each of at least three members becomes a pattern, its members in input order.
pub fn detect_semantic_patterns(memories: &Vec<Memory>, labels: &Vec<Option<usize>>) -> (r: Vec<
    Pattern,
>)
    requires
        labels@.len() == memories@.len(),
    ensures
        views(r@) == semantic_patterns(memories@, labels@),
{
    let ghost ms = memories@;
    let ghost ls = labels@;
    let mut usable: usize = 0;
    let mut i: usize = 0;
    while i < labels.len()
        invariant
            i <= ls.len(),
            ls == labels@,
            usable as nat == labelled_count(ls.take(i as int)),
            usable <= i,
        decreases ls.len() - i,
    {
        proof {
            assert(ls.take(i + 1).drop_last() =~= ls.take(i as int));
        }
        if labels[i].is_some() {
            usable = usable + 1;
        }
        i = i + 1;
    }
    proof {
        assert(ls.take(ls.len() as int) =~= ls);
    }
    let k = cluster_count(usable, MIN_CLUSTER_SIZE);
    let mut patterns: Vec<Pattern> = Vec::new();
    let mut c: usize = 0;
    while c < k
        invariant
            c <= k,
            ms == memories@,
            ls == labels@,
            ls.len() == ms.len(),
            k as nat == cluster_count_spec(labelled_count(ls), MIN_CLUSTER_SIZE as nat),
            views(patterns@) == semantic_upto(ms, ls, c as nat),
        decreases k - c,
    {
        let mut members: Vec<u128> = Vec::new();
        let mut j: usize = 0;
        while j < memories.len()
            invariant
                j <= ms.len(),
                ms == memories@,
                ls == labels@,
                ls.len() == ms.len(),
                members@ == cluster_members(ms.take(j as int), ls, c),
            decreases ms.len() - j,
        {
            proof {
                assert(ms.take(j + 1).drop_last() =~= ms.take(j as int));
            }
            if labels[j] == Some(c) {
                members.push(memories[j].id);
            }
            j = j + 1;
        }
        proof {
            assert(ms.take(ms.len() as int) =~= ms);
        }
        let ghost before = patterns@;
        if members.len() >= MIN_CLUSTER_SIZE {
            patterns.push(
                Pattern {
                    kind: PatternKind::SemanticCluster { label: c },
                    memory_ids: members,
                    confidence: SEMANTIC_CONFIDENCE,
                },
            );
            proof {
                assert(views(patterns@) =~= views(before).push(patterns@.last()@));
            }
        }
        c = c + 1;
    }
    patterns
}

/// Keeps, in order, the patterns whose confidence reaches `min_confidence`.
pub fn select_patterns(patterns: Vec<Pattern>, min_confidence: u32) -> (r: Vec<Pattern>)
    ensures
        views(r@) == gated(views(patterns@), min_confidence),
{
    let ghost all = views(patterns@);
    let n = patterns.len();
    let mut rest = patterns;
    let mut kept: Vec<Pattern> = Vec::new();
    let mut taken: usize = 0;
    while rest.len() > 0
        invariant
            taken <= all.len(),
            all.len() == n,
            views(rest@) == all.skip(taken as int),
            views(kept@) == gated(all.take(taken as int), min_confidence),
        decreases rest@.len(),
    {
        let ghost before = kept@;
        let ghost rest_before = rest@;
        proof {
            assert(views(rest_before).len() == rest_before.len());
            assert(taken < all.len());
        }
        let p = rest.remove(0);
        proof {
            assert(views(rest_before)[0] == p@);
            assert(all.skip(taken as int)[0] == p@);
            assert forall|k: int| 0 <= k < rest@.len() implies #[trigger] views(rest@)[k]
                == all.skip(taken + 1)[k] by {
                assert(rest@[k] == rest_before[k + 1]);
                assert(views(rest_before)[k + 1] == all.skip(taken as int)[k + 1]);
            }
            assert(views(rest@) =~= all.skip(taken + 1));
            assert(all.take(taken + 1).drop_last() =~= all.take(taken as int));
        }
        if p.confidence >= min_confidence {
            kept.push(p);
            proof {
                assert(views(kept@) =~= views(before).push(all.take(taken + 1).last()));
            }
        }
        taken = taken + 1;
    }
    proof {
        assert(all.take(all.len() as int) =~= all);
    }
    kept
}

/// The patterns one synthesis run persists: the temporal, semantic and emotional families
/// in that order, each pattern kept where its confidence reaches `min_confidence`
/// (in thousandths).
pub fn plan_synthesis(
    memories: &Vec<Memory>,
    labels: &Vec<Option<usize>>,
    min_confidence: u32,
) -> (r: Vec<Pattern>)
    requires
        labels@.len() == memories@.len(),
    ensures
        views(r@) == synthesis_plan(memories@, labels@, min_confidence),
{
    let mut all = detect_temporal_patterns(memories);
    let mut semantic = detect_semantic_patterns(memories, labels);
    let mut emotional = detect_emotional_patterns(memories);
    let ghost (t, se, e) = (all@, semantic@, emotional@);
    all.append(&mut semantic);
    all.append(&mut emotional);
    proof {
        assert(views(all@) =~= views(t) + views(se) + views(e));
    }
    select_patterns(all, min_confidence)
}

/// `g` is the ids of memories `a .. a + g.len()` of `ms`, and no two neighbours among
/// those memories lie more than 24 hours apart.
pub open spec fn run_at(ms: Seq<Memory>, g: Seq<u128>, a: int) -> bool {
    &&& 0 <= a
    &&& a + g.len() <= ms.len()
    &&& forall|k: int| 0 <= k < g.len() ==> #[trigger] g[k] == ms[a + k].id
    &&& forall|k: int|
        0 <= k < g.len() - 1 ==> !gap_exceeds(#[trigger] ms[a + k].created_at, ms[a + k + 1].created_at)
}

pub open spec fn is_run(ms: Seq<Memory>, g: Seq<u128>) -> bool {
    exists|a: int| run_at(ms, g, a)
}

proof fn lemma_walk_runs(ms: Seq<Memory>, n: nat)
    requires
        n <= ms.len(),
    ensures
        forall|i: int|
            0 <= i < temporal_walk(ms, n).0.len() ==> is_run(ms, #[trigger] temporal_walk(ms, n).0[i])
                && temporal_walk(ms, n).0[i].len() >= MIN_TEMPORAL_GROUP,
        n > 0 ==> temporal_walk(ms, n).1.len() >= 1 && run_at(
            ms,
            temporal_walk(ms, n).1,
            n - temporal_walk(ms, n).1.len(),
        ),
        n == 0 ==> temporal_walk(ms, n).1.len() == 0,
    decreases n,
{
    if n > 0 {
        let m = (n - 1) as nat;
        lemma_walk_runs(ms, m);
        let prev = temporal_walk(ms, m);
        let next = temporal_walk(ms, n);
        if n >= 2 && gap_exceeds(ms[n - 2].created_at, ms[n - 1].created_at) {
            assert(run_at(ms, next.1, n - 1));
            if prev.1.len() >= MIN_TEMPORAL_GROUP {
                assert(run_at(ms, prev.1, m - prev.1.len()));
                assert forall|i: int| 0 <= i < next.0.len() implies is_run(ms, #[trigger] next.0[i])
                    && next.0[i].len() >= MIN_TEMPORAL_GROUP by {
                    if i == prev.0.len() {
                        assert(next.0[i] == prev.1);
                    } else {
                        assert(next.0[i] == prev.0[i]);
                    }
                }
            }
        } else {
            let a = m - prev.1.len();
            let g = next.1;
            assert(g == prev.1.push(ms[n - 1].id));
            if m == 0 {
                assert(run_at(ms, g, 0));
            } else {
                assert forall|k: int| 0 <= k < g.len() implies #[trigger] g[k] == ms[a + k].id by {
                    if k < prev.1.len() {
                        assert(g[k] == prev.1[k]);
                    }
                }
                assert forall|k: int| 0 <= k < g.len() - 1 implies !gap_exceeds(
                    #[trigger] ms[a + k].created_at,
                    ms[a + k + 1].created_at,
                ) by {
                    if k < prev.1.len() - 1 {
                    } else {
                        assert(a + k == n - 2);
                    }
                }
                assert(run_at(ms, g, a));
            }
        }
    }
}

/// Temporal closure: every reported temporal group is a run of consecutive input memories,
/// at least three long, no two neighbours of which lie more than 24 hours apart.
pub proof fn lemma_temporal_closure(ms: Seq<Memory>)
    ensures
        forall|i: int|
            0 <= i < temporal_groups(ms).len() ==> is_run(ms, #[trigger] temporal_groups(ms)[i])
                && temporal_groups(ms)[i].len() >= MIN_TEMPORAL_GROUP,
{
    lemma_walk_runs(ms, ms.len());
}

/// Raising the confidence threshold never lets more patterns through.
pub proof fn lemma_gating_monotone(ps: Seq<PatternView>, low: u32, high: u32)
    requires
        low <= high,
    ensures
        gated(ps, high).len() <= gated(ps, low).len(),
    decreases ps.len(),
{
    if ps.len() > 0 {
        lemma_gating_monotone(ps.drop_last(), low, high);
    }
}

/// A synthesis run with a higher threshold persists no more patterns.
pub proof fn lemma_plan_monotone(
    ms: Seq<Memory>,
    labels: Seq<Option<usize>>,
    low: u32,
    high: u32,
)
    requires
        low <= high,
    ensures
        synthesis_plan(ms, labels, high).len() <= synthesis_plan(ms, labels, low).len(),
{
    lemma_gating_monotone(
        temporal_patterns(ms) + semantic_patterns(ms, labels) + emotional_patterns(ms),
        low,
        high,
    );
}

/// A user without memories gets no pattern.
pub proof fn lemma_empty_synthesis(ms: Seq<Memory>, labels: Seq<Option<usize>>, min_confidence: u32)
    requires
        ms.len() == 0,
        labels.len() == 0,
    ensures
        synthesis_plan(ms, labels, min_confidence).len() == 0,
{
    assert(temporal_groups(ms).len() == 0);
    assert(labelled_count(labels) == 0);
    assert(cluster_count_spec(0, MIN_CLUSTER_SIZE as nat) == 2);
    assert(cluster_members(ms, labels, 0).len() == 0);
    assert(cluster_members(ms, labels, 1).len() == 0);
    assert(semantic_upto(ms, labels, 0).len() == 0);
    assert(semantic_upto(ms, labels, 1).len() == 0);
    assert(semantic_upto(ms, labels, 2).len() == 0);
    assert(positive_ids(ms).len() == 0);
    assert(negative_ids(ms).len() == 0);
    let all = temporal_patterns(ms) + semantic_patterns(ms, labels) + emotional_patterns(ms);
    assert(all.len() == 0);
}

/// The character of decimal digit `d`.
pub open spec fn digit_char(d: nat) -> char {
    if d == 0 {
        '0'
    } else if d == 1 {
        '1'
    } else if d == 2 {
        '2'
    } else if d == 3 {
        '3'
    } else if d == 4 {
        '4'
    } else if d == 5 {
        '5'
    } else if d == 6 {
        '6'
    } else if d == 7 {
        '7'
    } else if d == 8 {
        '8'
    } else {
        '9'
    }
}

/// The decimal numeral of `n`, without leading zeros.
pub open spec fn decimal(n: nat) -> Seq<char>
    decreases n,
{
    if n < 10 {
        seq![digit_char(n)]
    } else {
        decimal(n / 10).push(digit_char(n % 10))
    }
}

/// The descriptive text stored with a pattern.
pub open spec fn description_of(p: PatternView) -> Seq<char> {
    match p.kind {
        PatternKind::TemporalCluster => "Cluster of "@ + decimal(p.memory_ids.len()) + " memories within 24-hour period"@,
        PatternKind::SemanticCluster { label } => "Semantic cluster "@ + decimal(label as nat) + " with "@
            + decimal(p.memory_ids.len()) + " memories"@,
        PatternKind::EmotionalPositive => "Cluster of positive emotional memories"@,
        PatternKind::EmotionalNegative => "Cluster of negative emotional memories"@,
    }
}

fn digit_text(d: usize) -> (r: &'static str)
    requires
        d < 10,
    ensures
        r@ == seq![digit_char(d as nat)],
{
    proof {
        reveal_strlit("0");
        reveal_strlit("1");
        reveal_strlit("2");
        reveal_strlit("3");
        reveal_strlit("4");
        reveal_strlit("5");
        reveal_strlit("6");
        reveal_strlit("7");
        reveal_strlit("8");
        reveal_strlit("9");
    }
    if d == 0 {
        "0"
    } else if d == 1 {
        "1"
    } else if d == 2 {
        "2"
    } else if d == 3 {
        "3"
    } else if d == 4 {
        "4"
    } else if d == 5 {
        "5"
    } else if d == 6 {
        "6"
    } else if d == 7 {
        "7"
    } else if d == 8 {
        "8"
    } else {
        "9"
    }
}

/// Appends the decimal numeral of `n` to `out`.
fn push_decimal(out: &mut String, n: usize)
    ensures
        final(out)@ == old(out)@ + decimal(n as nat),
    decreases n,
{
    if n >= 10 {
        push_decimal(out, n / 10);
    }
    out.append(digit_text(n % 10));
    proof {
        if n >= 10 {
            assert(decimal(n as nat) == decimal((n / 10) as nat).push(digit_char((n % 10) as nat)));
        }
    }
    assert(final(out)@ =~= old(out)@ + decimal(n as nat));
}

/// The descriptive text of a pattern: the size of a temporal group, the centroid and size of
/// a semantic cluster, or the sign of an emotional bin.
pub fn description(p: &Pattern) -> (r: String)
    ensures
        r@ == description_of(p@),
{
    let n = p.memory_ids.len();
    match p.kind {
        PatternKind::TemporalCluster => {
            let mut out = String::from_str("Cluster of ");
            push_decimal(&mut out, n);
            out.append(" memories within 24-hour period");
            out
        },
        PatternKind::SemanticCluster { label } => {
            let mut out = String::from_str("Semantic cluster ");
            push_decimal(&mut out, label);
            out.append(" with ");
            push_decimal(&mut out, n);
            out.append(" memories");
            out
        },
        PatternKind::EmotionalPositive => String::from_str("Cluster of positive emotional memories"),
        PatternKind::EmotionalNegative => String::from_str("Cluster of negative emotional memories"),
    }
}

/// The text of every temporal pattern holds the numeral of its group's size.
pub proof fn lemma_temporal_description_counts(p: PatternView)
    requires
        p.kind == PatternKind::TemporalCluster,
    ensures
        description_of(p).subrange(11, 11 + decimal(p.memory_ids.len()).len() as int) == decimal(
            p.memory_ids.len(),
        ),
{
    reveal_strlit("Cluster of ");
    let d = decimal(p.memory_ids.len());
    let t = description_of(p);
    assert(t.subrange(11, 11 + d.len() as int) =~= d);
}

} // verus!
