//! Coverage signals of a comparison input: counts and distinct kinds, without any reference.
use vstd::prelude::*;
use vstd::string::*;
use crate::evidence_replay::{EvidenceReplayInput, QM_084_EVIDENCE_REPLAY_SCHEMA_VERSION};
use crate::model::EntityId;
use crate::record::Record;
use crate::table::Table;
use crate::text;

verus! {

/// The version of the projection.
pub const QM_084_EVALUATION_PROJECTION_SCHEMA_VERSION: u16 = 1;

/// The shape of a comparison input.
#[derive(Debug)]
pub struct EvaluationReplayProjection {
    pub schema_version: u16,
    pub source_schema_version: u16,
    pub organization_id: EntityId,
    pub work_item_id: EntityId,
    pub attempt_id: EntityId,
    pub evidence_count: usize,
    pub activity_count: usize,
    pub unique_correlation_count: usize,
    pub evidence_kinds: Vec<String>,
}

/// Why there is no projection.
#[derive(Debug)]
pub enum EvaluationProjectionError {
    UnsupportedSourceSchema { actual: u16 },
    MissingEvidence,
    MissingActivity,
    Serialization { reason: String },
}

impl EvaluationProjectionError {
    /// The error in words.
    pub fn to_text(&self) -> (r: String)
        ensures
            r@ == match *self {
                EvaluationProjectionError::UnsupportedSourceSchema { actual } => {
                    "evaluation projection requires evidence replay schema "@ + text::decimal(
                        QM_084_EVIDENCE_REPLAY_SCHEMA_VERSION as nat,
                    ) + ", got "@ + text::decimal(actual as nat)
                },
                EvaluationProjectionError::MissingEvidence => {
                    "evaluation projection requires replay evidence"@
                },
                EvaluationProjectionError::MissingActivity => {
                    "evaluation projection requires replay activity"@
                },
                EvaluationProjectionError::Serialization { reason } => {
                    "evaluation projection serialization failed: "@ + reason@
                },
            },
    {
        match self {
            EvaluationProjectionError::UnsupportedSourceSchema { actual } => {
                let wanted: String = text::numeral(QM_084_EVIDENCE_REPLAY_SCHEMA_VERSION as u64);
                let found: String = text::numeral(*actual as u64);
                let mut out: String = text::joined(
                    "evaluation projection requires evidence replay schema ",
                    &wanted,
                );
                out.append(", got ");
                out.append(&found);
                out
            },
            EvaluationProjectionError::MissingEvidence => {
                "evaluation projection requires replay evidence".to_owned()
            },
            EvaluationProjectionError::MissingActivity => {
                "evaluation projection requires replay activity".to_owned()
            },
            EvaluationProjectionError::Serialization { reason } => text::joined(
                "evaluation projection serialization failed: ",
                reason,
            ),
        }
    }
}

/// The distinct texts of a list, in order.
pub open spec fn is_distinct_list(list: Seq<Seq<char>>, texts: Seq<Seq<char>>) -> bool {
    &&& forall|i: int, j: int|
        0 <= i < j < list.len() ==> text::lt(#[trigger] list[i], #[trigger] list[j])
    &&& forall|x: Seq<char>| list.contains(x) <==> #[trigger] texts.contains(x)
    &&& list.len() == texts.to_set().len()
}

/// The distinct texts of a list, in order.
pub fn distinct(texts: &Vec<String>) -> (r: Vec<String>)
    ensures
        is_distinct_list(text::views(r@), text::views(texts@)),
{
    let ghost all = text::views(texts@);
    let mut table: Table<bool> = Table::new();
    let mut i: usize = 0;
    while i < texts.len()
        invariant
            i <= texts@.len(),
            all == text::views(texts@),
            table.wf(),
            forall|x: Seq<char>|
                table@.contains_key(x) <==> exists|k: int| 0 <= k < i && #[trigger] all[k] == x,
        decreases texts@.len() - i,
    {
        table.put(texts[i].clone(), true);
        assert(all[i as int] == texts@[i as int]@);
        i = i + 1;
    }
    let mut out: Vec<String> = Vec::new();
    let count: usize = table.len();
    let ghost entries = table.entries();
    let mut j: usize = 0;
    while j < count
        invariant
            table.wf(),
            entries == table.entries(),
            count == entries.len(),
            j <= count,
            out@.len() == j,
            forall|k: int| 0 <= k < j ==> (#[trigger] out@[k])@ == entries[k].0,
        decreases count - j,
    {
        out.push(table.key(j).clone());
        j = j + 1;
    }
    proof {
        table.lemma_wf_ascending();
        let list = text::views(out@);
        assert forall|a: int, b: int| 0 <= a < b < list.len() implies text::lt(
            #[trigger] list[a],
            #[trigger] list[b],
        ) by {
            assert(list[a] == entries[a].0 && list[b] == entries[b].0);
        }
        assert forall|x: Seq<char>| list.contains(x) <==> #[trigger] all.contains(x) by {
            if list.contains(x) {
                let a = choose|a: int| 0 <= a < list.len() && list[a] == x;
                assert(entries[a].0 == x);
                assert(table@.contains_key(x));
            }
            if all.contains(x) {
                assert(table@.contains_key(x));
                assert(crate::table::has_key(entries, x));
                let a = choose|a: int| 0 <= a < entries.len() && (#[trigger] entries[a]).0 == x;
                assert(list[a] == x);
            }
        }
        assert(list.no_duplicates()) by {
            assert forall|a: int, b: int|
                0 <= a < list.len() && 0 <= b < list.len() && a != b implies list[a] != list[b] by {
                text::law_order_irreflexive(list[a]);
            }
        }
        list.unique_seq_to_set();
        assert(list.to_set() =~= all.to_set());
    }
    out
}

/// The kinds of the evidence.
pub open spec fn kinds_of(input: EvidenceReplayInput) -> Seq<Seq<char>> {
    Seq::new(input.evidence@.len(), |i: int| input.evidence@[i].kind@)
}

/// The correlations of the activity.
pub open spec fn correlations_of(input: EvidenceReplayInput) -> Seq<Seq<char>> {
    Seq::new(input.activity@.len(), |i: int| input.activity@[i].correlation_id@)
}

/// What comes of projecting a comparison input.
pub open spec fn projection_result(
    input: EvidenceReplayInput,
    r: Result<EvaluationReplayProjection, EvaluationProjectionError>,
) -> bool {
    match r {
        Ok(projection) => {
            &&& input.schema_version == QM_084_EVIDENCE_REPLAY_SCHEMA_VERSION
            &&& input.evidence@.len() > 0
            &&& input.activity@.len() > 0
            &&& projection.schema_version == QM_084_EVALUATION_PROJECTION_SCHEMA_VERSION
            &&& projection.source_schema_version == input.schema_version
            &&& projection.organization_id == input.organization_id
            &&& projection.work_item_id == input.work_item_id
            &&& projection.attempt_id == input.attempt_id
            &&& projection.evidence_count == input.evidence@.len()
            &&& projection.activity_count == input.activity@.len()
            &&& projection.unique_correlation_count == correlations_of(input).to_set().len()
            &&& is_distinct_list(text::views(projection.evidence_kinds@), kinds_of(input))
        },
        Err(EvaluationProjectionError::UnsupportedSourceSchema { actual }) => {
            actual == input.schema_version && actual != QM_084_EVIDENCE_REPLAY_SCHEMA_VERSION
        },
        Err(EvaluationProjectionError::MissingEvidence) => {
            &&& input.schema_version == QM_084_EVIDENCE_REPLAY_SCHEMA_VERSION
            &&& input.evidence@.len() == 0
        },
        Err(EvaluationProjectionError::MissingActivity) => {
            &&& input.schema_version == QM_084_EVIDENCE_REPLAY_SCHEMA_VERSION
            &&& input.evidence@.len() > 0
            &&& input.activity@.len() == 0
        },
        Err(EvaluationProjectionError::Serialization { .. }) => false,
    }
}

impl EvaluationReplayProjection {
    /// Projects a comparison input.
    pub fn from_replay(input: &EvidenceReplayInput) -> (r: Result<
        EvaluationReplayProjection,
        EvaluationProjectionError,
    >)
        ensures
            projection_result(*input, r),
    {
        if input.schema_version != QM_084_EVIDENCE_REPLAY_SCHEMA_VERSION {
            return Err(
                EvaluationProjectionError::UnsupportedSourceSchema { actual: input.schema_version },
            );
        }
        if input.evidence.len() == 0 {
            return Err(EvaluationProjectionError::MissingEvidence);
        }
        if input.activity.len() == 0 {
            return Err(EvaluationProjectionError::MissingActivity);
        }
        let mut kinds: Vec<String> = Vec::new();
        let mut i: usize = 0;
        while i < input.evidence.len()
            invariant
                i <= input.evidence@.len(),
                kinds@.len() == i,
                forall|k: int| 0 <= k < i ==> (#[trigger] kinds@[k])@ == input.evidence@[k].kind@,
            decreases input.evidence@.len() - i,
        {
            kinds.push(input.evidence[i].kind.clone());
            i = i + 1;
        }
        assert(text::views(kinds@) =~= kinds_of(*input));
        let mut correlations: Vec<String> = Vec::new();
        let mut j: usize = 0;
        while j < input.activity.len()
            invariant
                j <= input.activity@.len(),
                correlations@.len() == j,
                forall|k: int|
                    0 <= k < j ==> (#[trigger] correlations@[k])@
                        == input.activity@[k].correlation_id@,
            decreases input.activity@.len() - j,
        {
            correlations.push(input.activity[j].correlation_id.clone());
            j = j + 1;
        }
        assert(text::views(correlations@) =~= correlations_of(*input));
        let evidence_kinds: Vec<String> = distinct(&kinds);
        let unique: Vec<String> = distinct(&correlations);
        Ok(
            EvaluationReplayProjection {
                schema_version: QM_084_EVALUATION_PROJECTION_SCHEMA_VERSION,
                source_schema_version: input.schema_version,
                organization_id: input.organization_id.copy(),
                work_item_id: input.work_item_id.copy(),
                attempt_id: input.attempt_id.copy(),
                evidence_count: input.evidence.len(),
                activity_count: input.activity.len(),
                unique_correlation_count: unique.len(),
                evidence_kinds,
            },
        )
    }
}

/// The texts of one list are those of the other up to a one-to-one renaming: they are equal at the
/// same places.
pub open spec fn is_renaming(a: Seq<Seq<char>>, b: Seq<Seq<char>>) -> bool {
    &&& a.len() == b.len()
    &&& forall|i: int, j: int|
        0 <= i < a.len() && 0 <= j < a.len() ==> (#[trigger] a[i] == #[trigger] a[j]) == (b[i]
            == b[j])
}

/// A one-to-one renaming keeps the number of distinct texts.
proof fn lemma_renaming_keeps_count(a: Seq<Seq<char>>, b: Seq<Seq<char>>)
    requires
        is_renaming(a, b),
    ensures
        a.to_set().len() == b.to_set().len(),
    decreases a.len(),
{
    if a.len() == 0 {
        assert(a =~= b);
    } else {
        let s = a.drop_last();
        let t = b.drop_last();
        let last = a.len() - 1;
        assert(is_renaming(s, t)) by {
            assert forall|i: int, j: int| 0 <= i < s.len() && 0 <= j < s.len() implies (
            #[trigger] s[i] == #[trigger] s[j]) == (t[i] == t[j]) by {
                assert(s[i] == a[i] && s[j] == a[j]);
            }
        }
        lemma_renaming_keeps_count(s, t);
        vstd::seq_lib::seq_to_set_is_finite(s);
        vstd::seq_lib::seq_to_set_is_finite(t);
        assert(a =~= s.push(a[last]));
        assert(b =~= t.push(b[last]));
        assert(a.to_set() =~= s.to_set().insert(a[last])) by {
            assert forall|x: Seq<char>| a.to_set().contains(x) == s.to_set().insert(
                a[last],
            ).contains(x) by {
                if a.contains(x) {
                    let i = choose|i: int| 0 <= i < a.len() && a[i] == x;
                    if i < last {
                        assert(s[i] == x);
                    }
                }
                if s.contains(x) {
                    let i = choose|i: int| 0 <= i < s.len() && s[i] == x;
                    assert(a[i] == x);
                }
                assert(a[last] == a.last());
            }
        }
        assert(b.to_set() =~= t.to_set().insert(b[last])) by {
            assert forall|x: Seq<char>| b.to_set().contains(x) == t.to_set().insert(
                b[last],
            ).contains(x) by {
                if b.contains(x) {
                    let i = choose|i: int| 0 <= i < b.len() && b[i] == x;
                    if i < last {
                        assert(t[i] == x);
                    }
                }
                if t.contains(x) {
                    let i = choose|i: int| 0 <= i < t.len() && t[i] == x;
                    assert(b[i] == x);
                }
                assert(b[last] == b.last());
            }
        }
        if s.contains(a[last]) {
            let i = choose|i: int| 0 <= i < s.len() && s[i] == a[last];
            assert(a[i] == a[last]);
            assert(t[i] == b[last]);
            assert(t.contains(b[last]));
        }
        if t.contains(b[last]) {
            let i = choose|i: int| 0 <= i < t.len() && t[i] == b[last];
            assert(a[i] == s[i]);
            assert((a[i] == a[last]) == (b[i] == b[last]));
            assert(s.contains(a[last]));
        }
    }
}

/// A text occurs in one list where it occurs in the other.
pub open spec fn has_same_texts(a: Seq<Seq<char>>, b: Seq<Seq<char>>) -> bool {
    forall|x: Seq<char>| a.contains(x) <==> #[trigger] b.contains(x)
}

/// Ascending lists of the same texts are the same.
proof fn lemma_ascending_texts_unique(s: Seq<Seq<char>>, t: Seq<Seq<char>>)
    requires
        forall|i: int, j: int|
            0 <= i < j < s.len() ==> text::lt(#[trigger] s[i], #[trigger] s[j]),
        forall|i: int, j: int|
            0 <= i < j < t.len() ==> text::lt(#[trigger] t[i], #[trigger] t[j]),
        has_same_texts(s, t),
    ensures
        s == t,
    decreases s.len(),
{
    if s.len() == 0 {
        if t.len() > 0 {
            assert(t.contains(t[0]));
            assert(s.contains(t[0]));
        }
        assert(s =~= t);
    } else {
        assert(s.contains(s.last()));
        assert(t.contains(s.last()));
        assert(t.contains(t.last()));
        assert(s.contains(t.last()));
        let k = choose|k: int| 0 <= k < t.len() && t[k] == s.last();
        let m = choose|m: int| 0 <= m < s.len() && s[m] == t.last();
        if k < t.len() - 1 {
            assert(text::lt(t[k], t[t.len() - 1]));
            if m < s.len() - 1 {
                assert(text::lt(s[m], s[s.len() - 1]));
                text::law_order_transitive(s.last(), t.last(), s.last());
            }
            text::law_order_irreflexive(s.last());
            assert(false);
        }
        let a = s.drop_last();
        let b = t.drop_last();
        assert forall|x: Seq<char>| a.contains(x) <==> #[trigger] b.contains(x) by {
            text::law_order_irreflexive(x);
            if a.contains(x) {
                let i = choose|i: int| 0 <= i < a.len() && a[i] == x;
                assert(s[i] == x && s.contains(x));
                assert(t.contains(x));
                assert(text::lt(s[i], s[s.len() - 1]));
                let j = choose|j: int| 0 <= j < t.len() && t[j] == x;
                assert(j < t.len() - 1);
                assert(b[j] == x);
            }
            if b.contains(x) {
                let i = choose|i: int| 0 <= i < b.len() && b[i] == x;
                assert(t[i] == x && t.contains(x));
                assert(s.contains(x));
                assert(text::lt(t[i], t[t.len() - 1]));
                let j = choose|j: int| 0 <= j < s.len() && s[j] == x;
                assert(j < s.len() - 1);
                assert(a[j] == x);
            }
        }
        lemma_ascending_texts_unique(a, b);
        assert(s =~= a.push(s.last()));
        assert(t =~= b.push(t.last()));
    }
}

/// Two outcomes are the same: projections that agree in every field, or refusals for one reason.
pub open spec fn is_same_outcome(
    x: Result<EvaluationReplayProjection, EvaluationProjectionError>,
    y: Result<EvaluationReplayProjection, EvaluationProjectionError>,
) -> bool {
    match (x, y) {
        (Ok(one), Ok(other)) => {
            &&& other.schema_version == one.schema_version
            &&& other.source_schema_version == one.source_schema_version
            &&& other.organization_id == one.organization_id
            &&& other.work_item_id == one.work_item_id
            &&& other.attempt_id == one.attempt_id
            &&& other.evidence_count == one.evidence_count
            &&& other.activity_count == one.activity_count
            &&& other.unique_correlation_count == one.unique_correlation_count
            &&& text::views(other.evidence_kinds@) == text::views(one.evidence_kinds@)
        },
        (
            Err(EvaluationProjectionError::UnsupportedSourceSchema { actual: one }),
            Err(EvaluationProjectionError::UnsupportedSourceSchema { actual: other }),
        ) => one == other,
        (
            Err(EvaluationProjectionError::MissingEvidence),
            Err(EvaluationProjectionError::MissingEvidence),
        ) => true,
        (
            Err(EvaluationProjectionError::MissingActivity),
            Err(EvaluationProjectionError::MissingActivity),
        ) => true,
        _ => false,
    }
}

/// References, identifiers of evidence and events, and correlation values never reach a projection:
/// inputs of one version and scope, with as many records of the same kinds and as many activities
/// whose correlations are equal at the same places, have the same projection whatever those are.
pub proof fn law_projection_keeps_no_references(
    a: EvidenceReplayInput,
    b: EvidenceReplayInput,
    x: Result<EvaluationReplayProjection, EvaluationProjectionError>,
    y: Result<EvaluationReplayProjection, EvaluationProjectionError>,
)
    requires
        a.schema_version == b.schema_version,
        a.organization_id == b.organization_id,
        a.work_item_id == b.work_item_id,
        a.attempt_id == b.attempt_id,
        a.evidence@.len() == b.evidence@.len(),
        has_same_texts(kinds_of(a), kinds_of(b)),
        is_renaming(correlations_of(a), correlations_of(b)),
        projection_result(a, x),
        projection_result(b, y),
    ensures
        is_same_outcome(x, y),
{
    lemma_renaming_keeps_count(correlations_of(a), correlations_of(b));
    assert(a.activity@.len() == correlations_of(a).len());
    assert(b.activity@.len() == correlations_of(b).len());
    if x is Ok && y is Ok {
        let one = text::views(x->Ok_0.evidence_kinds@);
        let other = text::views(y->Ok_0.evidence_kinds@);
        assert forall|t: Seq<char>| one.contains(t) <==> #[trigger] other.contains(t) by {
            assert(one.contains(t) <==> kinds_of(a).contains(t));
            assert(other.contains(t) <==> kinds_of(b).contains(t));
        }
        lemma_ascending_texts_unique(one, other);
    }
}

} // verus!
