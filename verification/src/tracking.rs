//! What holds of the damage over a whole run of writes.

use vstd::prelude::*;
use vstd::seq_lib::seq_to_set_is_finite;
use vstd::set_lib::lemma_len_subset;
use crate::damage::{Bounds, Damage};
use crate::geometry::Position;

verus! {

impl Bounds {
    /// The rectangle is the bounding box of `cells`: it covers each of
    /// them, and on each of its four sides lies one of them.
    pub open spec fn tight_around(self, cells: Set<Position>) -> bool {
        &&& forall|p: Position| cells.contains(p) ==> self.covers(p)
        &&& exists|p: Position| cells.contains(p) && p.x == self.x
        &&& exists|p: Position| cells.contains(p) && p.x == self.x + self.width - 1
        &&& exists|p: Position| cells.contains(p) && p.y == self.y
        &&& exists|p: Position| cells.contains(p) && p.y == self.y + self.height - 1
    }

    /// A set of cells has one bounding box only.
    pub proof fn lemma_tight_unique(self, other: Bounds, cells: Set<Position>)
        requires
            self.tight_around(cells),
            other.tight_around(cells),
        ensures
            self == other,
    {
        let a = choose|p: Position| cells.contains(p) && p.x == self.x;
        let b = choose|p: Position| cells.contains(p) && p.x == self.x + self.width - 1;
        let c = choose|p: Position| cells.contains(p) && p.y == self.y;
        let d = choose|p: Position| cells.contains(p) && p.y == self.y + self.height - 1;
        assert(other.covers(a) && other.covers(b) && other.covers(c) && other.covers(d));
        let a2 = choose|p: Position| cells.contains(p) && p.x == other.x;
        let b2 = choose|p: Position| cells.contains(p) && p.x == other.x + other.width - 1;
        let c2 = choose|p: Position| cells.contains(p) && p.y == other.y;
        let d2 = choose|p: Position| cells.contains(p) && p.y == other.y + other.height - 1;
        assert(self.covers(a2) && self.covers(b2) && self.covers(c2) && self.covers(d2));
    }

    /// Stretching the bounding box of some cells to one more cell gives
    /// the bounding box of them all.
    pub proof fn lemma_extend_tight(self, cells: Set<Position>, p: Position)
        requires
            self.tight_around(cells),
        ensures
            self.extend_to(p).tight_around(cells.insert(p)),
    {
        let grown = self.extend_to(p);
        let many = cells.insert(p);
        let a = choose|q: Position| cells.contains(q) && q.x == self.x;
        let b = choose|q: Position| cells.contains(q) && q.x == self.x + self.width - 1;
        let c = choose|q: Position| cells.contains(q) && q.y == self.y;
        let d = choose|q: Position| cells.contains(q) && q.y == self.y + self.height - 1;
        assert(self.covers(a));
        assert(self.width > 0 && self.height > 0);
        assert forall|q: Position| many.contains(q) implies grown.covers(q) by {
            if q != p {
                assert(cells.contains(q));
                assert(self.covers(q));
            }
        }
        let left = if p.x < self.x { p } else { a };
        let right = if p.x + 1 > self.x + self.width { p } else { b };
        let top = if p.y < self.y { p } else { c };
        let bottom = if p.y + 1 > self.y + self.height { p } else { d };
        assert(many.contains(left) && left.x == grown.x);
        assert(many.contains(right) && right.x == grown.x + grown.width - 1);
        assert(many.contains(top) && top.y == grown.y);
        assert(many.contains(bottom) && bottom.y == grown.y + grown.height - 1);
    }

    /// The bounding box that is computed cell by cell is the bounding box
    /// of the cells.
    pub proof fn lemma_of_is_tight(cells: Seq<Position>)
        requires
            cells.len() > 0,
        ensures
            Bounds::of(cells).tight_around(cells.to_set()),
        decreases cells.len(),
    {
        let rest = cells.drop_last();
        let p = cells.last();
        assert(rest.push(p) == cells);
        rest.lemma_push_to_set_commute(p);
        if rest.len() == 0 {
            assert(rest.to_set() =~= Set::<Position>::empty());
            let b = Bounds::of(cells);
            assert(Bounds::of(rest) == Bounds::empty());
            assert(b == (Bounds { x: p.x as int, y: p.y as int, width: 1, height: 1 }));
            assert(cells.to_set().contains(p));
            assert forall|q: Position| cells.to_set().contains(q) implies b.covers(q) by {
                assert(q == p);
            }
        } else {
            Bounds::lemma_of_is_tight(rest);
            Bounds::of(rest).lemma_extend_tight(rest.to_set(), p);
        }
    }
}

impl Damage {
    /// Draining twice in a row gives nothing the second time.
    pub proof fn lemma_drain_twice(
        self,
        first: Damage,
        between: Damage,
        second: Damage,
        after: Damage,
    )
        requires
            self.drains(first, between),
            between.drains(second, after),
        ensures
            second is Empty,
            after is Empty,
    {
    }

    /// A write keeps the damage valid.
    pub proof fn lemma_record_valid(self, capacity: nat, p: Position)
        requires
            self.valid(capacity),
            p.addressable(),
        ensures
            self.record(capacity, p).valid(capacity),
    {
        match self {
            Damage::Region { bounds, area } => {},
            _ => {
                let cells = self.listed();
                let more = cells.push(p);
                assert forall|i: int| 0 <= i < more.len() implies (
                #[trigger] more[i]).addressable() by {
                    if i < cells.len() {
                        assert(more[i] == cells[i]);
                    }
                }
                if !cells.contains(p) {
                    if cells.len() < capacity {
                        assert forall|i: int, j: int|
                            0 <= i < more.len() && 0 <= j < more.len() && i
                                != j implies more[i] != more[j] by {
                            if i < cells.len() {
                                assert(more[i] == cells[i]);
                            }
                            if j < cells.len() {
                                assert(more[j] == cells[j]);
                            }
                        }
                    } else {
                        crate::damage::lemma_bounds_representable(more);
                    }
                }
            },
        }
    }

    /// No write is lost: after a write to `p` the damage accounts for `p`
    /// and for every cell it accounted for before.
    pub proof fn lemma_record_keeps(self, capacity: nat, p: Position, q: Position)
        requires
            self.valid(capacity),
        ensures
            self.record(capacity, p).marks(p),
            self.marks(q) ==> self.record(capacity, p).marks(q),
    {
        match self {
            Damage::Region { bounds, area } => {},
            _ => {
                let cells = self.listed();
                let more = cells.push(p);
                assert(more[cells.len() as int] == p);
                if !cells.contains(p) {
                    if cells.len() < capacity {
                        if self.marks(q) {
                            let i = choose|i: int| 0 <= i < cells.len() && cells[i] == q;
                            assert(more[i] == q);
                        }
                    } else {
                        Bounds::lemma_of_is_tight(more);
                        assert(more.to_set().contains(p));
                        if self.marks(q) {
                            let i = choose|i: int| 0 <= i < cells.len() && cells[i] == q;
                            assert(more[i] == q);
                            assert(more.to_set().contains(q));
                        }
                    }
                }
            },
        }
    }

    /// No run of writes loses a cell: the damage accounts for every cell
    /// written in the run and for every cell it accounted for before.
    pub proof fn lemma_replay_keeps(self, capacity: nat, writes: Seq<Position>, q: Position)
        requires
            self.valid(capacity),
            forall|i: int| 0 <= i < writes.len() ==> (#[trigger] writes[i]).addressable(),
        ensures
            self.replay(capacity, writes).valid(capacity),
            self.marks(q) || writes.contains(q) ==> self.replay(capacity, writes).marks(q),
        decreases writes.len(),
    {
        if writes.len() > 0 {
            let rest = writes.drop_last();
            let p = writes.last();
            self.lemma_replay_keeps(capacity, rest, q);
            let mid = self.replay(capacity, rest);
            mid.lemma_record_valid(capacity, p);
            mid.lemma_record_keeps(capacity, p, q);
            if writes.contains(q) && q != p {
                let i = choose|i: int| 0 <= i < writes.len() && writes[i] == q;
                assert(rest[i] == q);
            }
        }
    }

    /// What holds of the damage after the writes `writes` to an empty
    /// tracker, whichever way the run goes.
    proof fn lemma_replay_shape(capacity: nat, writes: Seq<Position>)
        ensures
            ({
                let damage = Damage::Empty.replay(capacity, writes);
                let written = writes.to_set();
                if written.len() <= capacity {
                    &&& !(damage is Region)
                    &&& damage is Empty <==> writes.len() == 0
                    &&& damage.listed().no_duplicates()
                    &&& damage.listed().to_set() == written
                } else {
                    &&& damage matches Damage::Region { bounds, area }
                    &&& bounds.tight_around(written)
                    &&& capacity < area <= writes.len()
                }
            }),
        decreases writes.len(),
    {
        let damage = Damage::Empty.replay(capacity, writes);
        let written = writes.to_set();
        seq_to_set_is_finite(writes);
        if writes.len() == 0 {
            assert(written =~= Set::<Position>::empty());
            assert(damage.listed().to_set() =~= written);
        } else {
            let rest = writes.drop_last();
            let p = writes.last();
            let mid = Damage::Empty.replay(capacity, rest);
            let seen = rest.to_set();
            Damage::lemma_replay_shape(capacity, rest);
            seq_to_set_is_finite(rest);
            assert(rest.push(p) == writes);
            rest.lemma_push_to_set_commute(p);
            assert(written == seen.insert(p));
            assert(seen.subset_of(written));
            lemma_len_subset(seen, written);
            if seen.len() <= capacity {
                let cells = mid.listed();
                cells.unique_seq_to_set();
                assert(cells.len() == seen.len());
                assert(cells.contains(p) <==> seen.contains(p));
                if cells.contains(p) {
                    assert(written =~= seen);
                    assert(cells.len() > 0);
                } else {
                    let more = cells.push(p);
                    cells.lemma_push_to_set_commute(p);
                    assert(written.len() == seen.len() + 1);
                    if cells.len() < capacity {
                        assert forall|i: int, j: int|
                            0 <= i < more.len() && 0 <= j < more.len() && i
                                != j implies more[i] != more[j] by {
                            if i < cells.len() {
                                assert(more[i] == cells[i]);
                            }
                            if j < cells.len() {
                                assert(more[j] == cells[j]);
                            }
                        }
                        assert(damage == Damage::Sparse(more));
                    } else {
                        Bounds::lemma_of_is_tight(more);
                        assert(cells.len() <= rest.len()) by {
                            rest.lemma_cardinality_of_set();
                        }
                    }
                }
            } else {
                let bounds = mid->bounds;
                bounds.lemma_extend_tight(seen, p);
            }
        }
    }

    /// While no more than `capacity` different cells are written, the
    /// damage lists exactly the written cells, each once, however often
    /// and in whatever order they were written.
    pub proof fn lemma_few_cells_are_listed(capacity: nat, writes: Seq<Position>)
        requires
            writes.to_set().len() <= capacity,
        ensures
            !(Damage::Empty.replay(capacity, writes) is Region),
            Damage::Empty.replay(capacity, writes) is Empty <==> writes.len() == 0,
            Damage::Empty.replay(capacity, writes).listed().no_duplicates(),
            Damage::Empty.replay(capacity, writes).listed().to_set() == writes.to_set(),
    {
        Damage::lemma_replay_shape(capacity, writes);
    }

    /// Once more than `capacity` different cells are written, the damage
    /// is a region whose rectangle is the bounding box of all written
    /// cells, and whose area counts more than `capacity` writes and no
    /// more writes than were made.
    pub proof fn lemma_many_cells_are_boxed(capacity: nat, writes: Seq<Position>)
        requires
            writes.to_set().len() > capacity,
        ensures
            Damage::Empty.replay(capacity, writes) matches Damage::Region { bounds, area }
                && bounds.tight_around(writes.to_set()) && capacity < area <= writes.len(),
    {
        Damage::lemma_replay_shape(capacity, writes);
    }
}

} // verus!
