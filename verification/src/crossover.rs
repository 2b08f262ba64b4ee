//! Recombination of two parents: the positions are cut into segments, and the
//! child takes each segment from one parent or the other.

use crate::dna::DNA;
use crate::nucleotide::Nucleotide;
use crate::random::{flip, pick_between};
use rand::rngs::ThreadRng;
use vstd::prelude::*;

verus! {

/// The shortest segment that a crossover cuts while that many positions are
/// left.
pub const MIN_SEGMENT: usize = 2;

/// The longest segment that a crossover cuts.
pub const MAX_SEGMENT: usize = 5;

/// The number of positions that the first `count` segments cover.
pub open spec fn covered(segments: Seq<usize>, count: int) -> int
    decreases count,
{
    if count <= 0 {
        0
    } else {
        covered(segments, count - 1) + segments[count - 1]
    }
}

/// Whether a segment of length `segment` may be cut when `remaining`
/// positions are left. Its length lies between the two bounds, each of them
/// brought down to `remaining` where it is larger. Where the lower bound then
/// still lies above the upper one, the segment is all that is left.
pub open spec fn may_cut(segment: int, remaining: int, min_segment: int, max_segment: int) -> bool {
    let low = if min_segment < remaining {
        min_segment
    } else {
        remaining
    };
    let high = if max_segment < remaining {
        max_segment
    } else {
        remaining
    };
    if low <= high {
        low <= segment <= high
    } else {
        segment == remaining
    }
}

/// Whether `segments` cuts `len` positions into consecutive segments: none of
/// them is empty, each may be cut from the positions that the segments before
/// it leave, and together they cover `len` exactly.
pub open spec fn is_segmentation(
    segments: Seq<usize>,
    len: int,
    min_segment: int,
    max_segment: int,
) -> bool {
    &&& covered(segments, segments.len() as int) == len
    &&& forall|k: int|
        0 <= k < segments.len() ==> 0 < #[trigger] segments[k] && may_cut(
            segments[k] as int,
            len - covered(segments, k),
            min_segment,
            max_segment,
        )
}

/// The child of two parents under a segmentation with one pick for each
/// segment: the positions of a segment come from `first` where its pick is
/// true and from `second` where it is false, each symbol at its own position.
pub open spec fn spliced(
    first: Seq<Nucleotide>,
    second: Seq<Nucleotide>,
    segments: Seq<usize>,
    picks: Seq<bool>,
) -> Seq<Nucleotide>
    recommends
        picks.len() == segments.len(),
        covered(segments, segments.len() as int) <= first.len(),
        covered(segments, segments.len() as int) <= second.len(),
    decreases segments.len(),
{
    if segments.len() == 0 {
        Seq::empty()
    } else {
        let last = segments.len() - 1;
        let start = covered(segments, last);
        let parent = if picks[last] {
            first
        } else {
            second
        };
        spliced(first, second, segments.take(last), picks.take(last)) + parent.subrange(
            start,
            start + segments[last],
        )
    }
}

/// Whether `child` can come out of a crossover of `first` and `second`: under
/// some segmentation of their length within the bounds of a crossover, and
/// some pick for each segment.
pub open spec fn is_crossover(
    first: Seq<Nucleotide>,
    second: Seq<Nucleotide>,
    child: Seq<Nucleotide>,
) -> bool {
    exists|segments: Seq<usize>, picks: Seq<bool>|
        {
            &&& is_segmentation(
                segments,
                first.len() as int,
                MIN_SEGMENT as int,
                MAX_SEGMENT as int,
            )
            &&& picks.len() == segments.len()
            &&& child == #[trigger] spliced(first, second, segments, picks)
        }
}

/// The positions covered grow with the number of segments counted.
pub proof fn lemma_covered_grows(segments: Seq<usize>, fewer: int, more: int)
    requires
        0 <= fewer <= more,
    ensures
        covered(segments, fewer) <= covered(segments, more),
    decreases more,
{
    if fewer < more {
        lemma_covered_grows(segments, fewer, more - 1);
    }
}

/// What the first segments cover does not depend on the segments behind them.
pub proof fn lemma_covered_take(segments: Seq<usize>, kept: int, count: int)
    requires
        0 <= count <= kept <= segments.len(),
    ensures
        covered(segments.take(kept), count) == covered(segments, count),
    decreases count,
{
    if 0 < count {
        lemma_covered_take(segments, kept, count - 1);
    }
}

/// A child has the length of what its segments cover, and at each position
/// the symbol that one of its parents has there.
pub proof fn lemma_spliced_from_parents(
    first: Seq<Nucleotide>,
    second: Seq<Nucleotide>,
    segments: Seq<usize>,
    picks: Seq<bool>,
)
    requires
        picks.len() == segments.len(),
        covered(segments, segments.len() as int) <= first.len(),
        covered(segments, segments.len() as int) <= second.len(),
    ensures
        spliced(first, second, segments, picks).len() == covered(segments, segments.len() as int),
        forall|i: int|
            0 <= i < spliced(first, second, segments, picks).len() ==> {
                let symbol = #[trigger] spliced(first, second, segments, picks)[i];
                symbol == first[i] || symbol == second[i]
            },
    decreases segments.len(),
{
    if segments.len() > 0 {
        let last = segments.len() - 1;
        lemma_covered_take(segments, last, last);
        lemma_spliced_from_parents(first, second, segments.take(last), picks.take(last));
    }
}

/// Whatever comes out of a crossover of two parents of equal length has
/// their length, and at each position the symbol that one of them has there.
pub proof fn lemma_crossover_from_parents(
    first: Seq<Nucleotide>,
    second: Seq<Nucleotide>,
    child: Seq<Nucleotide>,
)
    requires
        first.len() == second.len(),
        is_crossover(first, second, child),
    ensures
        child.len() == first.len(),
        forall|i: int|
            0 <= i < child.len() ==> #[trigger] child[i] == first[i] || child[i] == second[i],
{
    let (segments, picks) = choose|segments: Seq<usize>, picks: Seq<bool>|
        {
            &&& is_segmentation(
                segments,
                first.len() as int,
                MIN_SEGMENT as int,
                MAX_SEGMENT as int,
            )
            &&& picks.len() == segments.len()
            &&& child == #[trigger] spliced(first, second, segments, picks)
        };
    lemma_spliced_from_parents(first, second, segments, picks);
}

/// A parent bred with itself gives itself: where the two parents are the same
/// sequence, so is the child, however the positions are cut and picked.
pub proof fn lemma_spliced_from_one(
    parent: Seq<Nucleotide>,
    segments: Seq<usize>,
    picks: Seq<bool>,
)
    requires
        picks.len() == segments.len(),
        covered(segments, segments.len() as int) == parent.len(),
    ensures
        spliced(parent, parent, segments, picks) == parent,
{
    lemma_spliced_from_parents(parent, parent, segments, picks);
}

/// Cuts `len` positions into consecutive segments of random lengths. Each
/// length is drawn from `min_segment` to `max_segment`, both included and
/// both brought down to the number of positions left where they are larger.
/// Should the lower bound then lie above the upper one, the segment is all
/// that is left. A segment has at least one position, so `min_segment` may
/// not be zero.
pub fn segment_rand(
    len: usize,
    max_segment: usize,
    min_segment: usize,
    rng: &mut ThreadRng,
) -> (segments: Vec<usize>)
    requires
        0 < min_segment,
    ensures
        is_segmentation(segments@, len as int, min_segment as int, max_segment as int),
{
    let mut output: Vec<usize> = Vec::new();
    let mut left: usize = len;
    while left > 0
        invariant
            0 < min_segment,
            left <= len,
            covered(output@, output@.len() as int) == len - left,
            forall|k: int|
                0 <= k < output@.len() ==> 0 < #[trigger] output@[k] && may_cut(
                    output@[k] as int,
                    len - covered(output@, k),
                    min_segment as int,
                    max_segment as int,
                ),
        decreases left,
    {
        let max = if max_segment < left {
            max_segment
        } else {
            left
        };
        let min = if left < min_segment {
            left
        } else {
            min_segment
        };
        let segment = if min > max {
            left
        } else {
            pick_between(rng, min, max)
        };
        proof {
            let longer = output@.push(segment);
            assert(longer.take(output@.len() as int) == output@);
            assert forall|k: int| 0 <= k <= output@.len() implies #[trigger] covered(longer, k)
                == covered(output@, k) by {
                lemma_covered_take(longer, output@.len() as int, k);
            }
            assert(covered(longer, longer.len() as int) == covered(longer, output@.len() as int)
                + segment);
        }
        output.push(segment);
        left -= segment;
    }
    output
}

impl DNA {
    /// The child of two parents of equal length under a given segmentation of
    /// their positions: a segment is copied from `self` where its pick is
    /// true, and from `other` where it is false.
    pub fn recombine(&self, other: &Self, segments: &[usize], picks: &[bool]) -> (child: Self)
        requires
            self@.len() == other@.len(),
            segments@.len() == picks@.len(),
            covered(segments@, segments@.len() as int) == self@.len(),
        ensures
            child@ == spliced(self@, other@, segments@, picks@),
    {
        let size = self.0.len();
        let mut new: Vec<Nucleotide> = Vec::with_capacity(size);
        let mut index: usize = 0;
        for k in 0usize..segments.len()
            invariant
                size == self@.len() == other@.len(),
                segments@.len() == picks@.len(),
                covered(segments@, segments@.len() as int) == size,
                index == covered(segments@, k as int),
                new@ == spliced(self@, other@, segments@.take(k as int), picks@.take(k as int)),
        {
            let me = picks[k];
            let segment = segments[k];
            proof {
                lemma_covered_grows(segments@, k + 1, segments@.len() as int);
                lemma_covered_take(segments@, k + 1, k as int);
                assert(segments@.take(k + 1).take(k as int) == segments@.take(k as int));
                assert(picks@.take(k + 1).take(k as int) == picks@.take(k as int));
            }
            for i in 0usize..segment
                invariant
                    size == self@.len() == other@.len(),
                    index + segment <= size,
                    new@ == spliced(self@, other@, segments@.take(k as int), picks@.take(k as int))
                        + (if me {
                        self@
                    } else {
                        other@
                    }).subrange(index as int, index + i),
            {
                new.push(
                    if me {
                        self.0[index + i]
                    } else {
                        other.0[index + i]
                    },
                );
            }
            index += segment;
        }
        assert(segments@.take(segments@.len() as int) == segments@);
        assert(picks@.take(picks@.len() as int) == picks@);
        DNA(new)
    }

    /// Breeds a child from two parents of equal length. The positions are cut
    /// into random segments of `MIN_SEGMENT` to `MAX_SEGMENT` positions, and
    /// for each segment a fair coin decides which parent it is copied from.
    pub fn crossover(&self, other: &Self) -> (child: Self)
        requires
            self@.len() == other@.len(),
        ensures
            is_crossover(self@, other@, child@),
            child@.len() == self@.len(),
            forall|i: int|
                0 <= i < child@.len() ==> #[trigger] child@[i] == self@[i] || child@[i]
                    == other@[i],
    {
        let mut rng = rand::thread_rng();
        let size = self.0.len();
        let segments = segment_rand(size, MAX_SEGMENT, MIN_SEGMENT, &mut rng);
        let mut picks: Vec<bool> = Vec::with_capacity(segments.len());
        for k in 0usize..segments.len()
            invariant
                picks@.len() == k,
        {
            picks.push(flip(&mut rng, 1, 2));
        }
        let child = self.recombine(other, segments.as_slice(), picks.as_slice());
        proof {
            lemma_crossover_from_parents(self@, other@, child@);
        }
        child
    }
}

} // verus!
