//! The utilization aggregator: per-connection byte totals for the current
//! reporting window, with atomic window rotation.
//!
//! The live window is a list of `(Connection, ConnectionInfo)` entries with
//! pairwise distinct keys; its mathematical model is the map from connection
//! to accumulated counts.

use vstd::prelude::*;

use crate::connection::{Connection, Direction, Segment};
use crate::timestamp::Timestamp;

verus! {

/// Accumulated traffic of one connection within one window: the capturing
/// interface (seeded by the first segment) and directional byte totals.
#[derive(Clone, PartialEq, Eq, Debug)]
pub struct ConnectionInfo {
    pub interface_name: String,
    pub total_bytes_downloaded: u128,
    pub total_bytes_uploaded: u128,
}

/// The mathematical value of a `ConnectionInfo`: unbounded counts and the
/// interface name as a character sequence.
pub struct ConnectionCounts {
    pub interface_name: Seq<char>,
    pub downloaded: int,
    pub uploaded: int,
}

impl View for ConnectionInfo {
    type V = ConnectionCounts;

    open spec fn view(&self) -> ConnectionCounts {
        ConnectionCounts {
            interface_name: self.interface_name@,
            downloaded: self.total_bytes_downloaded as int,
            uploaded: self.total_bytes_uploaded as int,
        }
    }
}

/// The mathematical value of a `Segment`.
pub struct SegmentModel {
    pub connection: Connection,
    pub interface_name: Seq<char>,
    pub direction: Direction,
    pub data_length: int,
}

impl View for Segment {
    type V = SegmentModel;

    open spec fn view(&self) -> SegmentModel {
        SegmentModel {
            connection: self.connection,
            interface_name: self.interface_name@,
            direction: self.direction,
            data_length: self.data_length as int,
        }
    }
}

/// Folds one observed segment into a window's map: a missing key is seeded
/// with zero counts and the segment's interface name, then the byte count of
/// the segment's direction grows by its data length.
pub open spec fn apply_segment(
    m: Map<Connection, ConnectionCounts>,
    seg: SegmentModel,
) -> Map<Connection, ConnectionCounts> {
    let cur = if m.dom().contains(seg.connection) {
        m[seg.connection]
    } else {
        ConnectionCounts { interface_name: seg.interface_name, downloaded: 0, uploaded: 0 }
    };
    let next = match seg.direction {
        Direction::Download => ConnectionCounts { downloaded: cur.downloaded + seg.data_length, ..cur },
        Direction::Upload => ConnectionCounts { uploaded: cur.uploaded + seg.data_length, ..cur },
    };
    m.insert(seg.connection, next)
}

/// Folds a sequence of segments into a window's map, in order.
pub open spec fn apply_segments(
    m: Map<Connection, ConnectionCounts>,
    segs: Seq<SegmentModel>,
) -> Map<Connection, ConnectionCounts>
    decreases segs.len(),
{
    if segs.len() == 0 {
        m
    } else {
        apply_segments(apply_segment(m, segs[0]), segs.skip(1))
    }
}

/// The sum of the data lengths of the segments for connection `c` in
/// direction `d`.
pub open spec fn direction_total(segs: Seq<SegmentModel>, c: Connection, d: Direction) -> int
    decreases segs.len(),
{
    if segs.len() == 0 {
        0
    } else {
        (if segs[0].connection == c && segs[0].direction == d {
            segs[0].data_length
        } else {
            0
        }) + direction_total(segs.skip(1), c, d)
    }
}

/// The map described by a list of key/info entries, later entries winning.
pub open spec fn entries_map(s: Seq<(Connection, ConnectionInfo)>) -> Map<
    Connection,
    ConnectionCounts,
>
    decreases s.len(),
{
    if s.len() == 0 {
        Map::empty()
    } else {
        entries_map(s.drop_last()).insert(s.last().0, s.last().1@)
    }
}

/// Entry keys are pairwise distinct.
pub open spec fn unique_keys(s: Seq<(Connection, ConnectionInfo)>) -> bool {
    forall|i: int, j: int|
        0 <= i < j < s.len() ==> (#[trigger] s[i]).0 != (#[trigger] s[j]).0
}

/// One reporting window: the live per-connection totals and the window's
/// bounds. `stop` never precedes `start`.
#[derive(Clone, PartialEq, Eq, Debug)]
pub struct Utilization {
    pub entries: Vec<(Connection, ConnectionInfo)>,
    pub start: Timestamp,
    pub stop: Timestamp,
}

/// The mathematical value of a window.
pub struct UtilizationModel {
    pub connections: Map<Connection, ConnectionCounts>,
    pub start: Timestamp,
    pub stop: Timestamp,
}

impl View for Utilization {
    type V = UtilizationModel;

    open spec fn view(&self) -> UtilizationModel {
        UtilizationModel { connections: entries_map(self.entries@), start: self.start, stop: self.stop }
    }
}

pub(crate) proof fn lemma_entries_map_dom(s: Seq<(Connection, ConnectionInfo)>, c: Connection)
    ensures
        entries_map(s).dom().contains(c) <==> exists|i: int| 0 <= i < s.len() && (#[trigger] s[i]).0 == c,
    decreases s.len(),
{
    if s.len() > 0 {
        lemma_entries_map_dom(s.drop_last(), c);
        if s.last().0 == c {
            assert(s[s.len() - 1].0 == c);
        } else if entries_map(s).dom().contains(c) {
            let i = choose|i: int| 0 <= i < s.drop_last().len() && (#[trigger] s.drop_last()[i]).0 == c;
            assert(s[i].0 == c);
        } else {
            assert forall|i: int| 0 <= i < s.len() implies (#[trigger] s[i]).0 != c by {
                if i < s.len() - 1 {
                    assert(s.drop_last()[i] == s[i]);
                }
            }
        }
    }
}

pub(crate) proof fn lemma_entries_map_at(s: Seq<(Connection, ConnectionInfo)>, i: int)
    requires
        unique_keys(s),
        0 <= i < s.len(),
    ensures
        entries_map(s).dom().contains(s[i].0),
        entries_map(s)[s[i].0] == s[i].1@,
    decreases s.len(),
{
    if i == s.len() - 1 {
        assert(s.last() == s[i]);
    } else {
        assert(unique_keys(s.drop_last())) by {
            assert forall|p: int, q: int|
                0 <= p < q < s.drop_last().len() implies (#[trigger] s.drop_last()[p]).0 != (
            #[trigger] s.drop_last()[q]).0 by {
                assert(s.drop_last()[p] == s[p]);
                assert(s.drop_last()[q] == s[q]);
            }
        }
        lemma_entries_map_at(s.drop_last(), i);
        assert(s.drop_last()[i] == s[i]);
        assert(s[i].0 != s.last().0);
    }
}

proof fn lemma_entries_map_update(s: Seq<(Connection, ConnectionInfo)>, i: int, v: ConnectionInfo)
    requires
        unique_keys(s),
        0 <= i < s.len(),
    ensures
        entries_map(s.update(i, (s[i].0, v))) == entries_map(s).insert(s[i].0, v@),
        unique_keys(s.update(i, (s[i].0, v))),
    decreases s.len(),
{
    let t = s.update(i, (s[i].0, v));
    assert forall|p: int, q: int| 0 <= p < q < t.len() implies (#[trigger] t[p]).0 != (#[trigger] t[q]).0 by {
        assert(t[p].0 == s[p].0 && t[q].0 == s[q].0);
    }
    if i == s.len() - 1 {
        assert(t.drop_last() =~= s.drop_last());
        assert(t.last() == (s[i].0, v));
        assert(entries_map(t) == entries_map(s.drop_last()).insert(s[i].0, v@));
        assert(entries_map(s).insert(s[i].0, v@) =~= entries_map(s.drop_last()).insert(s[i].0, v@));
    } else {
        assert(unique_keys(s.drop_last())) by {
            assert forall|p: int, q: int|
                0 <= p < q < s.drop_last().len() implies (#[trigger] s.drop_last()[p]).0 != (
            #[trigger] s.drop_last()[q]).0 by {
                assert(s.drop_last()[p] == s[p]);
                assert(s.drop_last()[q] == s[q]);
            }
        }
        lemma_entries_map_update(s.drop_last(), i, v);
        assert(t.drop_last() =~= s.drop_last().update(i, (s[i].0, v)));
        assert(s.drop_last()[i] == s[i]);
        assert(t.last() == s.last());
        // the updated key differs from the last key, so the two inserts commute
        assert(s[i].0 != s.last().0);
        assert(entries_map(t) == entries_map(s.drop_last()).insert(s[i].0, v@).insert(
            s.last().0,
            s.last().1@,
        ));
        assert(entries_map(s.drop_last()).insert(s[i].0, v@).insert(s.last().0, s.last().1@) =~= entries_map(
            s,
        ).insert(s[i].0, v@));
    }
}

proof fn lemma_entries_map_push(s: Seq<(Connection, ConnectionInfo)>, c: Connection, v: ConnectionInfo)
    requires
        unique_keys(s),
        forall|i: int| 0 <= i < s.len() ==> (#[trigger] s[i]).0 != c,
    ensures
        entries_map(s.push((c, v))) == entries_map(s).insert(c, v@),
        unique_keys(s.push((c, v))),
{
    let t = s.push((c, v));
    assert(t.drop_last() =~= s);
    assert forall|p: int, q: int| 0 <= p < q < t.len() implies (#[trigger] t[p]).0 != (#[trigger] t[q]).0 by {
        if q < t.len() - 1 {
            assert(t[p] == s[p] && t[q] == s[q]);
        } else {
            assert(t[p] == s[p]);
        }
    }
}

impl Utilization {
    /// The structural invariant: distinct keys and an ordered window.
    pub open spec fn well_formed(self) -> bool {
        &&& unique_keys(self.entries@)
        &&& self.start.well_formed()
        &&& self.stop.well_formed()
        &&& self.start.spec_le(self.stop)
    }

    /// A fresh, empty window whose bounds are both `now`.
    pub fn new(now: Timestamp) -> (r: Utilization)
        requires
            now.well_formed(),
        ensures
            r.well_formed(),
            r@.connections == Map::<Connection, ConnectionCounts>::empty(),
            r@.start == now,
            r@.stop == now,
    {
        Utilization { entries: Vec::new(), start: now, stop: now }
    }

    /// The position of `c` among the entries, if present.
    fn position_of(&self, c: &Connection) -> (r: Option<usize>)
        ensures
            match r {
                Some(i) => i < self.entries@.len() && self.entries@[i as int].0 == *c,
                None => forall|i: int|
                    0 <= i < self.entries@.len() ==> (#[trigger] self.entries@[i]).0 != *c,
            },
    {
        let n = self.entries.len();
        let mut i: usize = 0;
        while i < n
            invariant
                i <= n,
                n == self.entries@.len(),
                forall|j: int| 0 <= j < i ==> (#[trigger] self.entries@[j]).0 != *c,
            decreases n - i,
        {
            if self.entries[i].0 == *c {
                return Some(i);
            }
            i = i + 1;
        }
        None
    }

    /// Whether folding `seg` into the window would keep both byte totals
    /// within range.
    pub open spec fn can_apply(self, seg: SegmentModel) -> bool {
        self@.connections.dom().contains(seg.connection) ==> match seg.direction {
            Direction::Download => self@.connections[seg.connection].downloaded + seg.data_length
                <= u128::MAX,
            Direction::Upload => self@.connections[seg.connection].uploaded + seg.data_length
                <= u128::MAX,
        }
    }

    /// Folds one segment into the live window: the first segment of a
    /// connection seeds its entry with the segment's interface name; the
    /// segment's data length is added to the total of its direction.
    pub fn update(&mut self, seg: Segment)
        requires
            old(self).well_formed(),
            old(self).can_apply(seg@),
        ensures
            final(self).well_formed(),
            final(self)@.connections == apply_segment(old(self)@.connections, seg@),
            final(self)@.start == old(self)@.start,
            final(self)@.stop == old(self)@.stop,
    {
        let ghost s0 = self.entries@;
        match self.position_of(&seg.connection) {
            Some(i) => {
                proof {
                    lemma_entries_map_at(s0, i as int);
                }
                let down = self.entries[i].1.total_bytes_downloaded;
                let up = self.entries[i].1.total_bytes_uploaded;
                let name = self.entries[i].1.interface_name.clone();
                let info = match seg.direction {
                    Direction::Download => ConnectionInfo {
                        interface_name: name,
                        total_bytes_downloaded: down + seg.data_length,
                        total_bytes_uploaded: up,
                    },
                    Direction::Upload => ConnectionInfo {
                        interface_name: name,
                        total_bytes_downloaded: down,
                        total_bytes_uploaded: up + seg.data_length,
                    },
                };
                let key = self.entries[i].0;
                proof {
                    lemma_entries_map_update(s0, i as int, info);
                }
                self.entries[i] = (key, info);
                proof {
                    assert(self.entries@ =~= s0.update(i as int, (s0[i as int].0, info)));
                    assert(entries_map(self.entries@) =~= apply_segment(entries_map(s0), seg@));
                }
            },
            None => {
                proof {
                    lemma_entries_map_dom(s0, seg.connection);
                }
                let info = match seg.direction {
                    Direction::Download => ConnectionInfo {
                        interface_name: seg.interface_name,
                        total_bytes_downloaded: seg.data_length,
                        total_bytes_uploaded: 0,
                    },
                    Direction::Upload => ConnectionInfo {
                        interface_name: seg.interface_name,
                        total_bytes_downloaded: 0,
                        total_bytes_uploaded: seg.data_length,
                    },
                };
                proof {
                    lemma_entries_map_push(s0, seg.connection, info);
                }
                self.entries.push((seg.connection, info));
                proof {
                    assert(entries_map(self.entries@) =~= apply_segment(entries_map(s0), seg@));
                }
            },
        }
    }

    /// Folds one segment into the live window unless a byte total would
    /// leave the representable range, in which case the window is unchanged
    /// and `false` comes back.
    pub fn try_update(&mut self, seg: Segment) -> (r: bool)
        requires
            old(self).well_formed(),
        ensures
            r == old(self).can_apply(seg@),
            final(self).well_formed(),
            r ==> final(self)@.connections == apply_segment(old(self)@.connections, seg@),
            !r ==> *final(self) == *old(self),
            final(self)@.start == old(self)@.start,
            final(self)@.stop == old(self)@.stop,
    {
        let fits = match self.position_of(&seg.connection) {
            Some(i) => {
                proof {
                    lemma_entries_map_at(self.entries@, i as int);
                }
                match seg.direction {
                    Direction::Download => seg.data_length
                        <= u128::MAX - self.entries[i].1.total_bytes_downloaded,
                    Direction::Upload => seg.data_length
                        <= u128::MAX - self.entries[i].1.total_bytes_uploaded,
                }
            },
            None => {
                proof {
                    lemma_entries_map_dom(self.entries@, seg.connection);
                }
                true
            },
        };
        if fits {
            self.update(seg);
        }
        fits
    }

    /// Atomic window rotation: returns the finished window, whose totals are
    /// exactly the live totals and whose span is `[start, now]`, and leaves
    /// the live window empty with both bounds at `now`.
    pub fn clone_and_reset(&mut self, now: Timestamp) -> (r: Utilization)
        requires
            old(self).well_formed(),
            now.well_formed(),
            old(self).start.spec_le(now),
        ensures
            r.well_formed(),
            final(self).well_formed(),
            r@.connections == old(self)@.connections,
            r@.start == old(self)@.start,
            r@.stop == now,
            final(self)@.connections == Map::<Connection, ConnectionCounts>::empty(),
            final(self)@.start == now,
            final(self)@.stop == now,
    {
        let mut taken: Vec<(Connection, ConnectionInfo)> = Vec::new();
        core::mem::swap(&mut taken, &mut self.entries);
        let snapshot = Utilization { entries: taken, start: self.start, stop: now };
        self.start = now;
        self.stop = now;
        snapshot
    }
}

/// Aggregation conservation: folding any sequence of segments into any
/// starting window adds, for every connection and direction, exactly the sum
/// of the matching segments' data lengths — no segment is counted twice or
/// dropped.
pub proof fn lemma_aggregation_conservation(
    m: Map<Connection, ConnectionCounts>,
    segs: Seq<SegmentModel>,
    c: Connection,
)
    ensures
        apply_segments(m, segs).dom().contains(c) <==> (m.dom().contains(c) || exists|i: int|
            0 <= i < segs.len() && (#[trigger] segs[i]).connection == c),
        apply_segments(m, segs).dom().contains(c) ==> apply_segments(m, segs)[c].downloaded == (
        if m.dom().contains(c) {
            m[c].downloaded
        } else {
            0
        }) + direction_total(segs, c, Direction::Download),
        apply_segments(m, segs).dom().contains(c) ==> apply_segments(m, segs)[c].uploaded == (
        if m.dom().contains(c) {
            m[c].uploaded
        } else {
            0
        }) + direction_total(segs, c, Direction::Upload),
    decreases segs.len(),
{
    if segs.len() > 0 {
        lemma_aggregation_conservation(apply_segment(m, segs[0]), segs.skip(1), c);
        if exists|i: int| 0 <= i < segs.len() && (#[trigger] segs[i]).connection == c {
            let i = choose|i: int| 0 <= i < segs.len() && (#[trigger] segs[i]).connection == c;
            if i > 0 {
                assert(segs.skip(1)[i - 1] == segs[i]);
            }
        }
        if exists|i: int| 0 <= i < segs.skip(1).len() && (#[trigger] segs.skip(1)[i]).connection == c {
            let i = choose|i: int|
                0 <= i < segs.skip(1).len() && (#[trigger] segs.skip(1)[i]).connection == c;
            assert(segs[i + 1] == segs.skip(1)[i]);
        }
    }
}

/// A window rotation is a strict cut: segments folded in before the cut are
/// all in the finished window's totals, and the next window starts from
/// nothing, so segments folded in afterwards appear only there.
pub proof fn lemma_reset_atomicity(
    before: Seq<SegmentModel>,
    after: Seq<SegmentModel>,
    c: Connection,
)
    ensures
        apply_segments(Map::empty(), before).dom().contains(c) ==> apply_segments(
            Map::empty(),
            before,
        )[c].downloaded == direction_total(before, c, Direction::Download) && apply_segments(
            Map::empty(),
            before,
        )[c].uploaded == direction_total(before, c, Direction::Upload),
        apply_segments(Map::empty(), after).dom().contains(c) ==> apply_segments(
            Map::empty(),
            after,
        )[c].downloaded == direction_total(after, c, Direction::Download) && apply_segments(
            Map::empty(),
            after,
        )[c].uploaded == direction_total(after, c, Direction::Upload),
{
    lemma_aggregation_conservation(Map::empty(), before, c);
    lemma_aggregation_conservation(Map::empty(), after, c);
}

} // verus!
