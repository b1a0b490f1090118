//! Binary space partitioning of the floor plan's wall segments.
//!
//! A node owns one partition segment (normalized to a canonical
//! endpoint order) and up to two children. Construction classifies
//! every remaining segment against the partition line, splitting the
//! ones that straddle it; the ordering traversal then emits all stored
//! segments back to front as seen from a viewer position, the order a
//! painter's algorithm needs.

use vstd::prelude::*;

verus! {

use crate::lines::{
    LineSegment, Order, side_of, point_side_of_line, split_line, seg_in_range, sl_denom, sl_within,
    sl_point,
};
use crate::vecs::{Vec2, vec2_in_range};

/// One node of the BSP tree. The tree is built once from the full
/// segment list and never changes afterwards.
pub struct BSPNode {
    pub partition: LineSegment,
    pub front: Option<Box<BSPNode>>,
    pub back: Option<Box<BSPNode>>,
}

/// Canonical endpoint order for a partition: smaller x first, ties
/// broken by smaller y, so that repeated builds are deterministic.
pub open spec fn normalize_spec(p: LineSegment) -> LineSegment {
    if p.start.x > p.end.x || (p.start.x == p.end.x && p.start.y > p.end.y) {
        LineSegment { start: p.end, end: p.start }
    } else {
        p
    }
}

pub fn normalize_partition(partition: LineSegment) -> (r: LineSegment)
    ensures
        r == normalize_spec(partition),
{
    if partition.start.x > partition.end.x || (partition.start.x == partition.end.x
        && partition.start.y > partition.end.y) {
        LineSegment { start: partition.end, end: partition.start }
    } else {
        partition
    }
}

/// A segment whose endpoints coincide exactly.
pub open spec fn degenerate_spec(s: LineSegment) -> bool {
    s.start == s.end
}

fn is_degenerate(seg: &LineSegment) -> (r: bool)
    ensures
        r == degenerate_spec(*seg),
{
    seg.start == seg.end
}

/// Endpoint sides after the "On" adjustment: an endpoint exactly on the
/// partition is counted with the other endpoint's side, which avoids
/// splitting off zero-length pieces.
pub open spec fn adjusted_sides(partition: LineSegment, segment: LineSegment) -> (Order, Order) {
    let ss = side_of(partition, segment.start);
    let es = side_of(partition, segment.end);
    if ss is On && !(es is On) {
        (es, es)
    } else if es is On && !(ss is On) {
        (ss, ss)
    } else {
        (ss, es)
    }
}

/// What classification sends to the front (left) and back (right)
/// lists: colinear and fully-left segments go in front whole,
/// fully-right ones go in back whole, and straddling segments are split
/// at the partition line, the left piece in front and the right piece
/// in back, dropping degenerate pieces. When the required split is
/// impossible (parallel within the grid, or the computed point misses
/// the segment's box) the segment conservatively stays whole in front.
pub open spec fn classify_spec(partition: LineSegment, segment: LineSegment) -> (
    Option<LineSegment>,
    Option<LineSegment>,
) {
    let (ss, es) = adjusted_sides(partition, segment);
    if ss is On && es is On {
        (Some(segment), None)
    } else if ss is Left && es is Left {
        (Some(segment), None)
    } else if ss is Right && es is Right {
        (None, Some(segment))
    } else {
        if sl_denom(partition, segment) != 0 && sl_within(partition, segment) {
            let first = LineSegment { start: segment.start, end: sl_point(partition, segment) };
            let second = LineSegment { start: sl_point(partition, segment), end: segment.end };
            let left_piece = if ss is Left {
                first
            } else {
                second
            };
            let right_piece = if ss is Left {
                second
            } else {
                first
            };
            (
                if degenerate_spec(left_piece) {
                    None
                } else {
                    Some(left_piece)
                },
                if degenerate_spec(right_piece) {
                    None
                } else {
                    Some(right_piece)
                },
            )
        } else {
            (Some(segment), None)
        }
    }
}

/// Classifies one segment against the partition line.
pub fn classify_segment(partition: &LineSegment, segment: &LineSegment) -> (r: (
    Option<LineSegment>,
    Option<LineSegment>,
))
    requires
        seg_in_range(*partition),
        seg_in_range(*segment),
    ensures
        r == classify_spec(*partition, *segment),
        r.0 matches Some(f) ==> seg_in_range(f),
        r.1 matches Some(b) ==> seg_in_range(b),
{
    let mut start_side = point_side_of_line(partition, &segment.start);
    let mut end_side = point_side_of_line(partition, &segment.end);

    if start_side == Order::On && end_side != Order::On {
        start_side = end_side;
    } else if end_side == Order::On && start_side != Order::On {
        end_side = start_side;
    }

    match (start_side, end_side) {
        (Order::On, Order::On) => (Some(*segment), None),
        (Order::Left, Order::Left) => (Some(*segment), None),
        (Order::Right, Order::Right) => (None, Some(*segment)),
        _ => {
            if let Some((first, second)) = split_line(partition, segment) {
                let (left_piece, right_piece) = if start_side == Order::Left {
                    (first, second)
                } else {
                    (second, first)
                };
                let left_opt = if is_degenerate(&left_piece) {
                    None
                } else {
                    Some(left_piece)
                };
                let right_opt = if is_degenerate(&right_piece) {
                    None
                } else {
                    Some(right_piece)
                };
                (left_opt, right_opt)
            } else {
                (Some(*segment), None)
            }
        },
    }
}

/// The front-list pieces classification produces from `rest`, in input
/// order (each input segment is normalized first).
pub open spec fn front_pieces(partition: LineSegment, rest: Seq<LineSegment>) -> Seq<LineSegment>
    decreases rest.len(),
{
    if rest.len() == 0 {
        Seq::empty()
    } else {
        front_pieces(partition, rest.drop_last()) + (
        match classify_spec(partition, normalize_spec(rest.last())).0 {
            Some(s) => seq![s],
            None => Seq::empty(),
        })
    }
}

/// The back-list pieces, as [`front_pieces`].
pub open spec fn back_pieces(partition: LineSegment, rest: Seq<LineSegment>) -> Seq<LineSegment>
    decreases rest.len(),
{
    if rest.len() == 0 {
        Seq::empty()
    } else {
        back_pieces(partition, rest.drop_last()) + (
        match classify_spec(partition, normalize_spec(rest.last())).1 {
            Some(s) => seq![s],
            None => Seq::empty(),
        })
    }
}

impl BSPNode {
    /// Every segment stored in the tree lies in the coordinate range.
    pub open spec fn wf(self) -> bool
        decreases self,
    {
        &&& seg_in_range(self.partition)
        &&& (match self.front {
            Some(f) => f.wf(),
            None => true,
        })
        &&& (match self.back {
            Some(b) => b.wf(),
            None => true,
        })
    }

    /// All segments stored in the tree, in one canonical order.
    pub open spec fn segs(self) -> Seq<LineSegment>
        decreases self,
    {
        (match self.back {
            Some(b) => b.segs(),
            None => Seq::empty(),
        }) + seq![self.partition] + (match self.front {
            Some(f) => f.segs(),
            None => Seq::empty(),
        })
    }

    /// The tree is exactly what building from `segs` yields: the first
    /// segment (normalized) is the partition, and each child is in turn
    /// built from the corresponding classification list.
    pub open spec fn is_build_of(self, segs: Seq<LineSegment>) -> bool
        decreases self,
    {
        &&& segs.len() >= 1
        &&& self.partition == normalize_spec(segs[0])
        &&& {
            let fr = front_pieces(self.partition, segs.skip(1));
            let bk = back_pieces(self.partition, segs.skip(1));
            &&& (match self.front {
                None => fr.len() == 0,
                Some(f) => fr.len() > 0 && f.is_build_of(fr),
            })
            &&& (match self.back {
                None => bk.len() == 0,
                Some(b) => bk.len() > 0 && b.is_build_of(bk),
            })
        }
    }

    /// Builds the tree from a non-empty segment list: the first segment
    /// becomes this node's partition, every other segment goes — whole
    /// or split — to the front or back list, and each non-empty list
    /// becomes a child built the same way.
    pub fn new(partitions: Vec<LineSegment>) -> (t: BSPNode)
        requires
            partitions@.len() >= 1,
            forall|k: int| 0 <= k < partitions@.len() ==> seg_in_range(#[trigger] partitions@[k]),
        ensures
            t.wf(),
            t.is_build_of(partitions@),
        decreases partitions@.len(),
    {
        let ghost all = partitions@;
        let partition = normalize_partition(partitions[0]);
        let mut front_partitions: Vec<LineSegment> = Vec::new();
        let mut back_partitions: Vec<LineSegment> = Vec::new();

        let mut i: usize = 1;
        while i < partitions.len()
            invariant
                1 <= i <= all.len(),
                partitions@ == all,
                all.len() >= 1,
                forall|k: int| 0 <= k < all.len() ==> seg_in_range(#[trigger] all[k]),
                partition == normalize_spec(all[0]),
                seg_in_range(partition),
                front_partitions@ == front_pieces(partition, all.subrange(1, i as int)),
                back_partitions@ == back_pieces(partition, all.subrange(1, i as int)),
                front_partitions@.len() < i,
                back_partitions@.len() < i,
                forall|k: int|
                    0 <= k < front_partitions@.len() ==> seg_in_range(
                        #[trigger] front_partitions@[k],
                    ),
                forall|k: int|
                    0 <= k < back_partitions@.len() ==> seg_in_range(
                        #[trigger] back_partitions@[k],
                    ),
            decreases all.len() - i,
        {
            let normalized_part = normalize_partition(partitions[i]);
            let (front, back) = classify_segment(&partition, &normalized_part);
            if let Some(f) = front {
                front_partitions.push(f);
            }
            if let Some(b) = back {
                back_partitions.push(b);
            }
            proof {
                assert(all.subrange(1, (i + 1) as int).drop_last() =~= all.subrange(1, i as int));
                assert(all.subrange(1, (i + 1) as int).last() == all[i as int]);
            }
            i = i + 1;
        }
        proof {
            assert(all.subrange(1, all.len() as int) =~= all.skip(1));
        }
        let front = if front_partitions.len() == 0 {
            None
        } else {
            Some(Box::new(BSPNode::new(front_partitions)))
        };
        let back = if back_partitions.len() == 0 {
            None
        } else {
            Some(Box::new(BSPNode::new(back_partitions)))
        };
        BSPNode { partition, front, back }
    }

    /// The back-to-front emission order for a viewer at `pos`: on the
    /// left of (or exactly on) the partition line, the back child is
    /// emitted first, then the partition, then the front child; on the
    /// right, the other way round. Near geometry thus comes out last.
    pub open spec fn order_spec(self, pos: Vec2) -> Seq<LineSegment>
        decreases self,
    {
        let back_part = match self.back {
            Some(b) => b.order_spec(pos),
            None => Seq::empty(),
        };
        let front_part = match self.front {
            Some(f) => f.order_spec(pos),
            None => Seq::empty(),
        };
        if side_of(self.partition, pos) is Right {
            front_part + seq![self.partition] + back_part
        } else {
            back_part + seq![self.partition] + front_part
        }
    }

    /// Emits all stored segments back to front as seen from `position`.
    pub fn order(&self, position: Vec2) -> (r: Vec<LineSegment>)
        requires
            self.wf(),
            vec2_in_range(position),
        ensures
            r@ == self.order_spec(position),
            forall|k: int| 0 <= k < r@.len() ==> seg_in_range(#[trigger] r@[k]),
        decreases *self,
    {
        let side = point_side_of_line(&self.partition, &position);
        let mut ordered_segments: Vec<LineSegment> = Vec::new();
        match side {
            Order::Left | Order::On => {
                if let Some(back_node) = &self.back {
                    let mut sub = back_node.order(position);
                    ordered_segments.append(&mut sub);
                }
                ordered_segments.push(self.partition);
                if let Some(front_node) = &self.front {
                    let mut sub = front_node.order(position);
                    ordered_segments.append(&mut sub);
                }
            },
            Order::Right => {
                if let Some(front_node) = &self.front {
                    let mut sub = front_node.order(position);
                    ordered_segments.append(&mut sub);
                }
                ordered_segments.push(self.partition);
                if let Some(back_node) = &self.back {
                    let mut sub = back_node.order(position);
                    ordered_segments.append(&mut sub);
                }
            },
        }
        proof {
            assert(ordered_segments@ =~= self.order_spec(position));
        }
        ordered_segments
    }

    /// The ordering traversal emits exactly the tree's segments: for
    /// every viewer position, `order` is a permutation of the stored
    /// partition segments — nothing is dropped or duplicated, whatever
    /// the viewpoint.
    pub proof fn lemma_order_permutation(self, pos: Vec2)
        ensures
            self.order_spec(pos).to_multiset() == self.segs().to_multiset(),
        decreases self,
    {
        broadcast use vstd::seq_lib::lemma_multiset_commutative;
        broadcast use vstd::multiset::group_multiset_axioms;

        let back_part = match self.back {
            Some(b) => b.order_spec(pos),
            None => Seq::<LineSegment>::empty(),
        };
        let front_part = match self.front {
            Some(f) => f.order_spec(pos),
            None => Seq::<LineSegment>::empty(),
        };
        let back_segs = match self.back {
            Some(b) => b.segs(),
            None => Seq::<LineSegment>::empty(),
        };
        let front_segs = match self.front {
            Some(f) => f.segs(),
            None => Seq::<LineSegment>::empty(),
        };
        if let Some(b) = self.back {
            b.lemma_order_permutation(pos);
        }
        if let Some(f) = self.front {
            f.lemma_order_permutation(pos);
        }
        let mid = seq![self.partition];
        assert((back_segs + mid + front_segs).to_multiset() == (back_segs
            + mid).to_multiset().add(front_segs.to_multiset()));
        assert((back_segs + mid).to_multiset() == back_segs.to_multiset().add(mid.to_multiset()));
        if side_of(self.partition, pos) is Right {
            assert((front_part + mid + back_part).to_multiset() == (front_part
                + mid).to_multiset().add(back_part.to_multiset()));
            assert((front_part + mid).to_multiset() == front_part.to_multiset().add(
                mid.to_multiset(),
            ));
        } else {
            assert((back_part + mid + front_part).to_multiset() == (back_part
                + mid).to_multiset().add(front_part.to_multiset()));
            assert((back_part + mid).to_multiset() == back_part.to_multiset().add(
                mid.to_multiset(),
            ));
        }
        assert(self.order_spec(pos).to_multiset() =~= self.segs().to_multiset());
    }

    /// The ordering traversal is deterministic: two emissions for the
    /// same viewer position are identical, sequence for sequence. Both
    /// runs of `order` return exactly `order_spec`, so two result
    /// vectors always agree.
    pub proof fn lemma_order_deterministic(
        self,
        pos: Vec2,
        r1: Seq<LineSegment>,
        r2: Seq<LineSegment>,
    )
        requires
            r1 == self.order_spec(pos),
            r2 == self.order_spec(pos),
        ensures
            r1 == r2,
    {
    }
}

} // verus!
