//! Edge capture decisions of the X11 backend: which screen edge the
//! pointer touches, whether a capture barrier is active there, and when a
//! capture begins.
use vstd::prelude::*;
use crate::proto::Position;

verus! {

/// How close to a screen edge, in pixels, the pointer counts as touching it.
pub const EDGE_PX: i32 = 2;

/// A set of positions.
#[derive(Clone, Copy, Debug, PartialEq, Eq, Structural)]
pub struct PositionSet {
    left: bool,
    right: bool,
    top: bool,
    bottom: bool,
}

impl View for PositionSet {
    type V = Set<Position>;

    closed spec fn view(&self) -> Set<Position> {
        Set::new(
            |p: Position|
                match p {
                    Position::Left => self.left,
                    Position::Right => self.right,
                    Position::Top => self.top,
                    Position::Bottom => self.bottom,
                },
        )
    }
}

impl PositionSet {
    /// The empty set.
    pub fn new() -> (r: PositionSet)
        ensures
            r@ == Set::<Position>::empty(),
    {
        let r = PositionSet { left: false, right: false, top: false, bottom: false };
        assert(r@ =~= Set::<Position>::empty());
        r
    }

    /// The set of the given positions.
    pub fn from_slice(positions: &[Position]) -> (r: PositionSet)
        ensures
            forall|p: Position| r@.contains(p) <==> positions@.contains(p),
    {
        let mut r = PositionSet::new();
        let mut i: usize = 0;
        while i < positions.len()
            invariant
                i <= positions@.len(),
                forall|p: Position| r@.contains(p) <==> positions@.take(i as int).contains(p),
            decreases positions@.len() - i,
        {
            let ghost before = r@;
            r.insert(positions[i]);
            proof {
                assert(positions@.take(i + 1) =~= positions@.take(i as int).push(positions@[i as int]));
                assert forall|p: Position| r@.contains(p) <==> positions@.take(i + 1).contains(p) by {
                    if p == positions@[i as int] {
                        assert(positions@.take(i + 1)[i as int] == p);
                    } else if positions@.take(i + 1).contains(p) {
                        let j = choose|j: int| 0 <= j < i + 1 && #[trigger] positions@.take(i + 1)[j] == p;
                        assert(positions@.take(i as int)[j] == p);
                    } else if positions@.take(i as int).contains(p) {
                        let j = choose|j: int| 0 <= j < i && #[trigger] positions@.take(i as int)[j] == p;
                        assert(positions@.take(i + 1)[j] == p);
                    }
                }
            }
            i = i + 1;
        }
        assert(positions@.take(positions@.len() as int) =~= positions@);
        r
    }

    /// Whether `p` is in the set.
    pub fn contains(&self, p: Position) -> (r: bool)
        ensures
            r == self@.contains(p),
    {
        match p {
            Position::Left => self.left,
            Position::Right => self.right,
            Position::Top => self.top,
            Position::Bottom => self.bottom,
        }
    }

    /// Adds `p`; returns whether it was new.
    pub fn insert(&mut self, p: Position) -> (r: bool)
        ensures
            final(self)@ == old(self)@.insert(p),
            r == !old(self)@.contains(p),
    {
        let was = self.contains(p);
        match p {
            Position::Left => self.left = true,
            Position::Right => self.right = true,
            Position::Top => self.top = true,
            Position::Bottom => self.bottom = true,
        }
        assert(final(self)@ =~= old(self)@.insert(p));
        !was
    }

    /// Removes `p`; returns whether it was there.
    pub fn remove(&mut self, p: Position) -> (r: bool)
        ensures
            final(self)@ == old(self)@.remove(p),
            r == old(self)@.contains(p),
    {
        let was = self.contains(p);
        match p {
            Position::Left => self.left = false,
            Position::Right => self.right = false,
            Position::Top => self.top = false,
            Position::Bottom => self.bottom = false,
        }
        assert(final(self)@ =~= old(self)@.remove(p));
        was
    }
}

/// The edge to capture at when the pointer touches `detected_edge`: that
/// edge itself, when a capture barrier is active there, and none otherwise.
pub fn choose_capture_edge(active_positions: &PositionSet, detected_edge: Position) -> (r: Option<
    Position,
>)
    ensures
        r == if active_positions@.contains(detected_edge) {
            Some(detected_edge)
        } else {
            None::<Position>
        },
{
    if active_positions.contains(detected_edge) {
        Some(detected_edge)
    } else {
        None
    }
}

/// `a - b` saturated to the `i32` range, as `i32::saturating_sub` gives.
pub open spec fn saturating_sub_i32(a: i32, b: i32) -> i32 {
    if a - b < i32::MIN {
        i32::MIN
    } else if a - b > i32::MAX {
        i32::MAX
    } else {
        (a - b) as i32
    }
}

fn sat_sub_i32(a: i32, b: i32) -> (r: i32)
    requires
        b >= 0,
    ensures
        r == saturating_sub_i32(a, b),
{
    if a < i32::MIN + b {
        i32::MIN
    } else {
        a - b
    }
}

/// The screen edge the pointer at `(x, y)` touches on a `width` by
/// `height` screen, checked in the order left, right, top, bottom.
pub open spec fn spec_detect_edge(x: i32, y: i32, width: i32, height: i32) -> Option<Position> {
    if x <= EDGE_PX {
        Some(Position::Left)
    } else if x >= saturating_sub_i32(width, (EDGE_PX + 1) as i32) {
        Some(Position::Right)
    } else if y <= EDGE_PX {
        Some(Position::Top)
    } else if y >= saturating_sub_i32(height, (EDGE_PX + 1) as i32) {
        Some(Position::Bottom)
    } else {
        None
    }
}

/// The screen edge the pointer touches, as [`spec_detect_edge`] says.
pub fn detect_edge(x: i32, y: i32, width: i32, height: i32) -> (r: Option<Position>)
    ensures
        r == spec_detect_edge(x, y, width, height),
{
    if x <= EDGE_PX {
        Some(Position::Left)
    } else if x >= sat_sub_i32(width, EDGE_PX + 1) {
        Some(Position::Right)
    } else if y <= EDGE_PX {
        Some(Position::Top)
    } else if y >= sat_sub_i32(height, EDGE_PX + 1) {
        Some(Position::Bottom)
    } else {
        None
    }
}

/// Which edge each point of the screen belongs to, in plain arithmetic:
/// a point within `EDGE_PX` of the left border is on the left edge; else
/// a point within `EDGE_PX + 1` of the right border (`x >= width - 3`) is
/// on the right edge; else a point within `EDGE_PX` of the top is on the
/// top edge; else a point within `EDGE_PX + 1` of the bottom
/// (`y >= height - 3`) is on the bottom edge; every other point is on none.
pub proof fn lemma_edge_bands(x: i32, y: i32, width: i32, height: i32)
    ensures
        x <= EDGE_PX ==> spec_detect_edge(x, y, width, height) == Some(Position::Left),
        EDGE_PX < x && width - (EDGE_PX + 1) <= x ==> spec_detect_edge(x, y, width, height) == Some(
            Position::Right,
        ),
        EDGE_PX < x < width - (EDGE_PX + 1) && y <= EDGE_PX ==> spec_detect_edge(x, y, width, height)
            == Some(Position::Top),
        EDGE_PX < x < width - (EDGE_PX + 1) && EDGE_PX < y && height - (EDGE_PX + 1) <= y
            ==> spec_detect_edge(x, y, width, height) == Some(Position::Bottom),
        EDGE_PX < x < width - (EDGE_PX + 1) && EDGE_PX < y < height - (EDGE_PX + 1)
            ==> spec_detect_edge(x, y, width, height) == None::<Position>,
{
}

/// Pushing the pointer further towards the bottom or the right keeps it on
/// that edge: a point detected on the bottom edge stays there one pixel
/// lower, and one on the right edge stays there one pixel further right.
pub proof fn lemma_edges_extend_outwards(x: i32, y: i32, width: i32, height: i32)
    ensures
        y < i32::MAX && spec_detect_edge(x, y, width, height) == Some(Position::Bottom)
            ==> spec_detect_edge(x, (y + 1) as i32, width, height) == Some(Position::Bottom),
        x < i32::MAX && spec_detect_edge(x, y, width, height) == Some(Position::Right)
            ==> spec_detect_edge((x + 1) as i32, y, width, height) == Some(Position::Right),
{
}

/// Capture state of the X11 backend: the positions with an active capture
/// barrier, and the edge the pointer was last seen at.
pub struct EdgeCapture {
    pub active_positions: PositionSet,
    pub active_edge: Option<Position>,
}

impl EdgeCapture {
    /// No barriers, no edge seen.
    pub fn new() -> (r: EdgeCapture)
        ensures
            r.active_positions@ == Set::<Position>::empty(),
            r.active_edge == None::<Position>,
    {
        EdgeCapture { active_positions: PositionSet::new(), active_edge: None }
    }

    /// Activates the barrier at `pos`.
    pub fn create(&mut self, pos: Position)
        ensures
            final(self).active_positions@ == old(self).active_positions@.insert(pos),
            final(self).active_edge == old(self).active_edge,
    {
        self.active_positions.insert(pos);
    }

    /// Removes the barrier at `pos`, and forgets the edge seen when it is `pos`.
    pub fn destroy(&mut self, pos: Position)
        ensures
            final(self).active_positions@ == old(self).active_positions@.remove(pos),
            final(self).active_edge == if old(self).active_edge == Some(pos) {
                None
            } else {
                old(self).active_edge
            },
    {
        self.active_positions.remove(pos);
        if self.active_edge == Some(pos) {
            self.active_edge = None;
        }
    }

    /// Releasing a capture keeps the edge latched until the pointer leaves
    /// it, so that the next poll does not begin a capture again.
    pub fn release(&mut self)
        ensures
            *final(self) == *old(self),
    {
    }

    /// The edge the pointer at `(x, y)` touches, paired with the edge to
    /// capture at, when there is a barrier there.
    pub fn pointer_edge(&self, x: i32, y: i32, width: i32, height: i32) -> (r: Option<
        (Position, Position),
    >)
        ensures
            r == match spec_detect_edge(x, y, width, height) {
                Some(d) => if self.active_positions@.contains(d) {
                    Some((d, d))
                } else {
                    None::<(Position, Position)>
                },
                None => None::<(Position, Position)>,
            },
    {
        match detect_edge(x, y, width, height) {
            Some(detected) => match choose_capture_edge(&self.active_positions, detected) {
                Some(capture) => Some((detected, capture)),
                None => None,
            },
            None => None,
        }
    }

    /// One poll, as [`poll_step`] says: given what
    /// [`EdgeCapture::pointer_edge`] found, returns the edge at which a
    /// capture begins, if one does.
    pub fn poll(&mut self, edge: Option<(Position, Position)>) -> (begin: Option<Position>)
        ensures
            final(self).active_positions == old(self).active_positions,
            (final(self).active_edge, begin) == poll_step(old(self).active_edge, edge),
    {
        match edge {
            None => {
                self.active_edge = None;
                None
            },
            Some((detected, capture)) => {
                if self.active_edge != Some(detected) {
                    self.active_edge = Some(detected);
                    Some(capture)
                } else {
                    None
                }
            },
        }
    }
}

/// The poll decision: the edge now remembered and the edge a capture
/// begins at. A capture begins only when the pointer reaches an edge other
/// than the one last seen; losing the edge forgets it.
pub open spec fn poll_step(active_edge: Option<Position>, edge: Option<(Position, Position)>) -> (
    Option<Position>,
    Option<Position>,
) {
    match edge {
        None => (None, None),
        Some((detected, capture)) => if active_edge == Some(detected) {
            (active_edge, None)
        } else {
            (Some(detected), Some(capture))
        },
    }
}

/// A pointer resting at an edge begins at most one capture: once a poll
/// has seen the edge, every further poll that sees it again begins none,
/// until a poll finds no edge.
pub proof fn lemma_one_capture_per_edge_visit(
    active_edge: Option<Position>,
    detected: Position,
    capture: Position,
    again: Position,
)
    ensures
        poll_step(poll_step(active_edge, Some((detected, capture))).0, Some((detected, again))).1
            == None::<Position>,
        poll_step(poll_step(active_edge, Some((detected, capture))).0, Some((detected, again))).0
            == Some(detected),
{
}

/// Losing the edge re-arms it: after a poll that finds no edge, reaching
/// any edge with a barrier begins a capture.
pub proof fn lemma_leaving_edge_rearms(active_edge: Option<Position>, detected: Position, capture: Position)
    ensures
        poll_step(poll_step(active_edge, None).0, Some((detected, capture))).1 == Some(capture),
{
}

} // verus!
