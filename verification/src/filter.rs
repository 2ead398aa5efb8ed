//! The per-frame filter: an order-preserving selection over one batch of
//! detections.

use vstd::prelude::*;
use crate::detection::Detection;

verus! {

/// Class identifier the filter retains under the default policy
/// (conventionally "person").
pub const DEFAULT_TARGET_CLASS_ID: i32 = 0;

/// Confidence bound of the default policy, in thousandths of a unit:
/// one half.
pub const DEFAULT_CONFIDENCE_THRESHOLD: i64 = 500;

/// How a detection's confidence is compared against the threshold.
#[derive(Clone, Copy, PartialEq, Eq, Structural, Debug)]
pub enum Comparison {
    /// Keep a detection only when its confidence exceeds the threshold.
    StrictGreater,
    /// Keep a detection whose confidence equals or exceeds the threshold.
    GreaterOrEqual,
}

/// The selection policy: which class to keep and how confident a detection
/// must be.
#[derive(Clone, Copy, PartialEq, Eq, Structural, Debug)]
pub struct FilterConfig {
    /// The single class identifier the filter retains.
    pub target_class_id: i32,
    /// Confidence bound in thousandths of a unit (see
    /// [`crate::detection::CONF_UNIT`]).
    pub confidence_threshold: i64,
    /// Whether the bound is exclusive or inclusive.
    pub comparison: Comparison,
}

impl FilterConfig {
    /// The default policy: target class 0, confidence strictly above one
    /// half.
    pub open spec fn default_spec() -> FilterConfig {
        FilterConfig {
            target_class_id: DEFAULT_TARGET_CLASS_ID,
            confidence_threshold: DEFAULT_CONFIDENCE_THRESHOLD,
            comparison: Comparison::StrictGreater,
        }
    }

    /// Whether this policy keeps a detection.
    pub open spec fn keeps(self, d: Detection) -> bool {
        &&& d.class_id == self.target_class_id
        &&& match self.comparison {
            Comparison::StrictGreater => d.conf > self.confidence_threshold,
            Comparison::GreaterOrEqual => d.conf >= self.confidence_threshold,
        }
    }

    /// The policy's predicate as a single spec-level value, shared by the
    /// filter's contract and its proofs.
    pub open spec fn keeps_pred(self) -> spec_fn(Detection) -> bool {
        |d: Detection| self.keeps(d)
    }

    /// Executable test of the policy's predicate.
    pub fn accepts(&self, d: &Detection) -> (r: bool)
        ensures
            r == self.keeps(*d),
    {
        d.class_id == self.target_class_id && match self.comparison {
            Comparison::StrictGreater => d.conf > self.confidence_threshold,
            Comparison::GreaterOrEqual => d.conf >= self.confidence_threshold,
        }
    }
}

impl Default for FilterConfig {
    /// Builds the default policy.
    fn default() -> (c: FilterConfig)
        ensures
            c == FilterConfig::default_spec(),
    {
        FilterConfig {
            target_class_id: DEFAULT_TARGET_CLASS_ID,
            confidence_threshold: DEFAULT_CONFIDENCE_THRESHOLD,
            comparison: Comparison::StrictGreater,
        }
    }
}

/// The detections a policy keeps out of a batch, in their original relative
/// order: the mathematical meaning of [`select_with`].
pub open spec fn selected(cfg: FilterConfig, dets: Seq<Detection>) -> Seq<Detection> {
    dets.filter(cfg.keeps_pred())
}

/// Selects, from one frame's detections, those the policy keeps, preserving
/// their relative order. Pure and total: never fails, never reorders, never
/// alters a surviving detection.
pub fn select_with(cfg: &FilterConfig, detections: Vec<Detection>) -> (r: Vec<Detection>)
    ensures
        r@ == selected(*cfg, detections@),
{
    let ghost pred = cfg.keeps_pred();
    let mut out: Vec<Detection> = Vec::new();
    let mut i: usize = 0;
    while i < detections.len()
        invariant
            i <= detections.len(),
            out@ == detections@.take(i as int).filter(pred),
            pred == cfg.keeps_pred(),
        decreases detections.len() - i,
    {
        let d = detections[i];
        if cfg.accepts(&d) {
            out.push(d);
        }
        proof {
            reveal(Seq::filter);
            let taken = detections@.take(i as int + 1);
            assert(taken.drop_last() =~= detections@.take(i as int));
            assert(taken.last() == d);
            assert(out@ == taken.filter(pred));
        }
        i = i + 1;
    }
    proof {
        assert(detections@.take(detections.len() as int) =~= detections@);
    }
    out
}

/// Selects under the default policy: keep a detection exactly when its
/// class is the default target class and its confidence strictly exceeds
/// one half.
pub fn select(detections: Vec<Detection>) -> (r: Vec<Detection>)
    ensures
        r@ == selected(FilterConfig::default_spec(), detections@),
{
    let cfg = FilterConfig::default();
    select_with(&cfg, detections)
}

/// `idx` names, position by position and in strictly increasing order, the
/// places in `input` that the elements of `output` come from.
pub open spec fn picks_in_order(idx: Seq<int>, input: Seq<Detection>, output: Seq<
    Detection,
>) -> bool {
    &&& idx.len() == output.len()
    &&& forall|k: int|
        0 <= k < idx.len() ==> 0 <= #[trigger] idx[k] < input.len() && input[idx[k]] == output[k]
    &&& forall|k: int| 0 < k < idx.len() ==> idx[k - 1] < #[trigger] idx[k]
}

proof fn lemma_filter_picks_in_order(s: Seq<Detection>, pred: spec_fn(Detection) -> bool)
    ensures
        exists|idx: Seq<int>| picks_in_order(idx, s, s.filter(pred)),
    decreases s.len(),
{
    reveal(Seq::filter);
    if s.len() == 0 {
        assert(picks_in_order(Seq::<int>::empty(), s, s.filter(pred)));
    } else {
        let dl = s.drop_last();
        lemma_filter_picks_in_order(dl, pred);
        let idx0 = choose|idx: Seq<int>| picks_in_order(idx, dl, dl.filter(pred));
        if pred(s.last()) {
            let idx1 = idx0.push(s.len() - 1);
            assert(picks_in_order(idx1, s, s.filter(pred)));
        } else {
            assert(picks_in_order(idx0, s, s.filter(pred)));
        }
    }
}

/// Order preservation: the detections [`select_with`] keeps come from
/// strictly increasing positions of the input, each unchanged.
pub proof fn lemma_select_preserves_order(cfg: FilterConfig, dets: Seq<Detection>)
    ensures
        exists|idx: Seq<int>| picks_in_order(idx, dets, selected(cfg, dets)),
{
    lemma_filter_picks_in_order(dets, cfg.keeps_pred());
    let idx0 = choose|idx: Seq<int>|
        picks_in_order(idx, dets, dets.filter(cfg.keeps_pred()));
    assert(picks_in_order(idx0, dets, selected(cfg, dets)));
}

proof fn lemma_filter_submultiset(s: Seq<Detection>, pred: spec_fn(Detection) -> bool)
    ensures
        s.filter(pred).to_multiset().subset_of(s.to_multiset()),
    decreases s.len(),
{
    broadcast use vstd::seq_lib::group_to_multiset_ensures;

    reveal(Seq::filter);
    if s.len() == 0 {
        assert(s.filter(pred) == s);
    } else {
        let dl = s.drop_last();
        lemma_filter_submultiset(dl, pred);
        assert(dl.push(s.last()) =~= s);
        assert(s.to_multiset() == dl.to_multiset().insert(s.last()));
        if pred(s.last()) {
            assert(s.filter(pred).to_multiset() == dl.filter(pred).to_multiset().insert(
                s.last(),
            ));
        }
        assert forall|d: Detection|
            s.filter(pred).to_multiset().count(d) <= s.to_multiset().count(d) by {
            assert(dl.filter(pred).to_multiset().count(d) <= dl.to_multiset().count(d));
        }
    }
}

/// Subset property: the output of [`select_with`] is a sub-multiset of its
/// input — no detection is fabricated or duplicated.
pub proof fn lemma_select_submultiset(cfg: FilterConfig, dets: Seq<Detection>)
    ensures
        selected(cfg, dets).to_multiset().subset_of(dets.to_multiset()),
{
    lemma_filter_submultiset(dets, cfg.keeps_pred());
}

proof fn lemma_filter_all_kept(t: Seq<Detection>, pred: spec_fn(Detection) -> bool)
    requires
        forall|i: int| 0 <= i < t.len() ==> pred(#[trigger] t[i]),
    ensures
        t.filter(pred) == t,
    decreases t.len(),
{
    reveal(Seq::filter);
    if t.len() > 0 {
        lemma_filter_all_kept(t.drop_last(), pred);
        assert(t.drop_last().push(t.last()) =~= t);
    }
}

/// Idempotence: selecting from the output of [`select_with`] under the same
/// policy yields that output unchanged, since every surviving detection
/// already satisfies the policy.
pub proof fn lemma_select_idempotent(cfg: FilterConfig, dets: Seq<Detection>)
    ensures
        selected(cfg, selected(cfg, dets)) == selected(cfg, dets),
{
    let once = selected(cfg, dets);
    assert forall|i: int| 0 <= i < once.len() implies cfg.keeps_pred()(#[trigger] once[i]) by {
        dets.lemma_filter_pred(cfg.keeps_pred(), i);
    }
    lemma_filter_all_kept(once, cfg.keeps_pred());
}

} // verus!
