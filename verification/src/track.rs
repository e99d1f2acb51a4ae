//! A track: recorded points in the order of recording.

use crate::point::{Position, TrackPoint};
use vstd::prelude::*;

verus! {

/// The points of one recorded path, first to last. Points are never
/// reordered and never merged; a track without points is a track.
#[derive(Debug, Clone)]
pub struct Track {
    pub points: Vec<TrackPoint>,
}

impl View for Track {
    type V = Seq<Position>;

    open spec fn view(&self) -> Seq<Position> {
        self.points@.map_values(|p: TrackPoint| p@)
    }
}

/// How many stretches between neighbours a path of `n` points has.
pub open spec fn segment_count(n: nat) -> nat {
    if n == 0 {
        0
    } else {
        (n - 1) as nat
    }
}

impl Track {
    /// The track without points.
    pub fn new() -> (t: Track)
        ensures
            t.points@.len() == 0,
            t@ == Seq::<Position>::empty(),
    {
        let t = Track { points: Vec::new() };
        assert(t@ =~= Seq::<Position>::empty());
        t
    }

    /// Appends `p` as the last point.
    pub fn add(&mut self, p: TrackPoint)
        ensures
            final(self).points@ == old(self).points@.push(p),
            final(self)@ == old(self)@.push(p@),
    {
        self.points.push(p);
        assert(self@ =~= old(self)@.push(p@));
    }

    /// The stretches of the path: each point but the last, paired with the
    /// point that follows it, in the order of the track. A track of fewer
    /// than two points has none. The length of the path is the sum of the
    /// distances over these pairs, first to last.
    pub fn segments(&self) -> (pairs: Vec<(&TrackPoint, &TrackPoint)>)
        ensures
            pairs@.len() == segment_count(self.points@.len()),
            forall|i: int|
                0 <= i < pairs@.len() ==> *(#[trigger] pairs@[i]).0 == self.points@[i] && *pairs@[i].1
                    == self.points@[i + 1],
    {
        let mut pairs: Vec<(&TrackPoint, &TrackPoint)> = Vec::new();
        let n: usize = self.points.len();
        if n == 0 {
            return pairs;
        }
        let mut i: usize = 1;
        while i < n
            invariant
                n == self.points@.len(),
                1 <= i <= n,
                pairs@.len() == i - 1,
                forall|j: int|
                    0 <= j < pairs@.len() ==> *(#[trigger] pairs@[j]).0 == self.points@[j]
                        && *pairs@[j].1 == self.points@[j + 1],
            decreases n - i,
        {
            pairs.push((&self.points[i - 1], &self.points[i]));
            i = i + 1;
        }
        pairs
    }
}

} // verus!
