//! Run-scoped aggregation: two counters and the final ratio.
//!
//! The counters record how many cues classified as Chinese and as Japanese
//! over a whole run. Cues labelled `Other` are visited but never counted, so
//! the ratio measures the relative mix of the two target languages only.
//! The ratio itself is `chinese / (chinese + japanese)`; with no cue of
//! either target language it is undefined, and [`Counters::ratio_parts`]
//! signals that by returning `None` instead of dividing by zero.

use vstd::prelude::*;
use crate::classify::LanguageLabel;

verus! {

/// One recording step on mathematical counts `(chinese, japanese)`.
pub open spec fn spec_record(c: (int, int), label: LanguageLabel) -> (int, int) {
    match label {
        LanguageLabel::Chinese => (c.0 + 1, c.1),
        LanguageLabel::Japanese => (c.0, c.1 + 1),
        LanguageLabel::Other => c,
    }
}

/// Recording a whole sequence of labels, in order.
pub open spec fn spec_record_all(c: (int, int), labels: Seq<LanguageLabel>) -> (int, int)
    decreases labels.len(),
{
    if labels.len() == 0 {
        c
    } else {
        spec_record_all(spec_record(c, labels[0]), labels.skip(1))
    }
}

/// Recording a sequence and then one more label is one recording step after
/// the sequence.
pub proof fn lemma_record_all_push(c: (int, int), labels: Seq<LanguageLabel>, label: LanguageLabel)
    ensures
        spec_record_all(c, labels.push(label)) == spec_record(spec_record_all(c, labels), label),
    decreases labels.len(),
{
    if labels.len() == 0 {
        assert(labels.push(label)[0] == label);
        assert(labels.push(label).skip(1) =~= Seq::<LanguageLabel>::empty());
        assert(spec_record_all(c, labels.push(label)) == spec_record_all(
            spec_record(c, label),
            Seq::<LanguageLabel>::empty(),
        ));
        assert(spec_record_all(spec_record(c, label), Seq::<LanguageLabel>::empty())
            == spec_record(c, label));
    } else {
        assert(labels.push(label)[0] == labels[0]);
        assert(labels.push(label).skip(1) =~= labels.skip(1).push(label));
        assert(spec_record_all(c, labels.push(label)) == spec_record_all(
            spec_record(c, labels[0]),
            labels.skip(1).push(label),
        ));
        lemma_record_all_push(spec_record(c, labels[0]), labels.skip(1), label);
        assert(spec_record_all(c, labels) == spec_record_all(
            spec_record(c, labels[0]),
            labels.skip(1),
        ));
    }
}

/// Recording a sequence of labels adds exactly the number of its Chinese
/// labels to the first count and the number of its Japanese labels to the
/// second — stated over the sequence's multiset, which forgets order.
pub proof fn lemma_record_all_counts(c: (int, int), labels: Seq<LanguageLabel>)
    ensures
        spec_record_all(c, labels) == (
            (c.0 + labels.to_multiset().count(LanguageLabel::Chinese)) as int,
            (c.1 + labels.to_multiset().count(LanguageLabel::Japanese)) as int,
        ),
    decreases labels.len(),
{
    broadcast use vstd::seq_lib::group_to_multiset_ensures;

    if labels.len() == 0 {
        assert(!labels.contains(LanguageLabel::Chinese));
        assert(!labels.contains(LanguageLabel::Japanese));
    } else {
        let front = labels.drop_last();
        let last = labels.last();
        lemma_record_all_counts(c, front);
        assert(labels =~= front.push(last));
        lemma_record_all_push(c, front, last);
        assert(labels.to_multiset() =~= front.to_multiset().insert(last));
    }
}

/// Order independence of aggregation: two label sequences with the same
/// multiset — one a permutation of the other — drive the counters from any
/// starting state to the same final state.
pub proof fn lemma_record_order_irrelevant(
    c: (int, int),
    labels1: Seq<LanguageLabel>,
    labels2: Seq<LanguageLabel>,
)
    requires
        labels1.to_multiset() == labels2.to_multiset(),
    ensures
        spec_record_all(c, labels1) == spec_record_all(c, labels2),
{
    lemma_record_all_counts(c, labels1);
    lemma_record_all_counts(c, labels2);
}

/// `n1 / d1 < n2 / d2` for positive denominators, written without division:
/// the ratio comparison used by the monotonicity laws.
pub open spec fn ratio_lt(n1: int, d1: int, n2: int, d2: int) -> bool {
    n1 * d2 < n2 * d1
}

/// Recording one more Chinese cue strictly increases the ratio
/// `chinese / (chinese + japanese)`, provided at least one Japanese cue has
/// been counted (with none, the ratio is already 1 and cannot grow).
pub proof fn lemma_ratio_increases_on_chinese(c: int, j: int)
    requires
        0 <= c,
        1 <= j,
    ensures
        spec_record((c, j), LanguageLabel::Chinese) == ((c + 1) as int, j),
        ratio_lt(c, c + j, c + 1, c + 1 + j),
{
    assert(c * (c + 1 + j) < (c + 1) * (c + j)) by (nonlinear_arith)
        requires
            0 <= c,
            1 <= j,
    ;
}

/// Recording one more Japanese cue strictly decreases the ratio
/// `chinese / (chinese + japanese)`, provided at least one Chinese cue has
/// been counted (with none, the ratio is already 0 and cannot shrink).
pub proof fn lemma_ratio_decreases_on_japanese(c: int, j: int)
    requires
        1 <= c,
        0 <= j,
    ensures
        spec_record((c, j), LanguageLabel::Japanese) == (c, (j + 1) as int),
        ratio_lt(c, c + j + 1, c, c + j),
{
    assert(c * (c + j) < c * (c + j + 1)) by (nonlinear_arith)
        requires
            1 <= c,
    ;
}

/// Recording an `Other` cue changes neither count, hence not the ratio.
pub proof fn lemma_record_other_keeps_counts(c: (int, int))
    ensures
        spec_record(c, LanguageLabel::Other) == c,
{
}

/// The two run-scoped counters. They start at zero and are only ever moved
/// by [`Counters::record`].
#[derive(Clone, Copy, Debug, PartialEq, Eq, Structural)]
pub struct Counters {
    pub chinese_count: u64,
    pub japanese_count: u64,
}

impl Counters {
    /// The mathematical counts `(chinese, japanese)`.
    pub open spec fn counts(self) -> (int, int) {
        (self.chinese_count as int, self.japanese_count as int)
    }

    /// Fresh counters, both zero.
    pub fn new() -> (r: Counters)
        ensures
            r.counts() == (0int, 0int),
    {
        Counters { chinese_count: 0, japanese_count: 0 }
    }

    /// Counts one classified cue: Chinese and Japanese each advance their
    /// counter, `Other` is a no-op.
    pub fn record(&mut self, label: LanguageLabel)
        requires
            label == LanguageLabel::Chinese ==> old(self).chinese_count < u64::MAX,
            label == LanguageLabel::Japanese ==> old(self).japanese_count < u64::MAX,
        ensures
            final(self).counts() == spec_record(old(self).counts(), label),
    {
        match label {
            LanguageLabel::Chinese => {
                self.chinese_count = self.chinese_count + 1;
            },
            LanguageLabel::Japanese => {
                self.japanese_count = self.japanese_count + 1;
            },
            LanguageLabel::Other => {},
        }
    }

    /// The terms of the final ratio `chinese / (chinese + japanese)`, as the
    /// pair `(chinese, japanese)` — or `None` when both counts are zero and
    /// the ratio is undefined, so that the caller must decide what to emit
    /// for a run without a single target-language cue.
    pub fn ratio_parts(&self) -> (r: Option<(u64, u64)>)
        ensures
            r is Some <==> self.chinese_count + self.japanese_count > 0,
            r matches Some(p) ==> p.0 == self.chinese_count && p.1 == self.japanese_count,
    {
        if self.chinese_count == 0 && self.japanese_count == 0 {
            None
        } else {
            Some((self.chinese_count, self.japanese_count))
        }
    }
}

} // verus!
