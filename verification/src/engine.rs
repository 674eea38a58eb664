//! The capability interface the viewport controller consumes from an
//! automaton engine: cell mutation, a compaction hook, live-cell
//! enumeration, and a bounding-box query — and a minimal list-backed
//! engine implementing it, so the controller can be composed and
//! exercised without any particular automaton.
//!
//! An engine's mathematical state is the set of live cells together with
//! the history of mutating calls made on it; the history is what lets the
//! click-dispatch contract say that a paint click performs exactly one
//! `set` and exactly one `clean_up`.

use vstd::prelude::*;

verus! {

/// One mutating call on an engine, as recorded in its history.
pub ghost enum EngineOp {
    SetCell { x: int, y: int, alive: bool },
    CleanUp,
}

/// An inclusive bounding box of world coordinates.
#[derive(Clone, Copy, PartialEq, Eq, Structural, Debug)]
pub struct GridBounds {
    pub x_min: i64,
    pub x_max: i64,
    pub y_min: i64,
    pub y_max: i64,
}

/// Whether the sequence holds the cell `(x, y)`.
pub open spec fn seq_has(s: Seq<(i64, i64)>, x: int, y: int) -> bool {
    exists|j: int| #![trigger s[j]] 0 <= j < s.len() && s[j].0 == x && s[j].1 == y
}

/// The set of cells a sequence holds.
pub open spec fn seq_live(s: Seq<(i64, i64)>) -> Set<(int, int)> {
    Set::new(|p: (int, int)| seq_has(s, p.0, p.1))
}

/// The capability set an automaton engine provides to the controller.
/// `live` is the set of currently-alive cells, `ops` the history of
/// mutating calls, `bounds` the box that `get_bounds` reports.
pub trait LifeEngine: Sized {
    spec fn live(&self) -> Set<(int, int)>;

    spec fn ops(&self) -> Seq<EngineOp>;

    spec fn bounds(&self) -> GridBounds;

    /// Mutate a single cell; safe to call repeatedly on the same coordinate.
    fn set(&mut self, coord: (i64, i64), alive: bool)
        ensures
            final(self).live() == (if alive {
                old(self).live().insert((coord.0 as int, coord.1 as int))
            } else {
                old(self).live().remove((coord.0 as int, coord.1 as int))
            }),
            final(self).ops() == old(self).ops().push(
                EngineOp::SetCell { x: coord.0 as int, y: coord.1 as int, alive },
            ),
    ;

    /// Idempotent maintenance hook: may compact the representation but
    /// leaves the set of live cells unchanged.
    fn clean_up(&mut self)
        ensures
            final(self).live() == old(self).live(),
            final(self).ops() == old(self).ops().push(EngineOp::CleanUp),
    ;

    /// The currently-alive coordinates; safe to re-enumerate per frame.
    fn live_cells(&self) -> (v: Vec<(i64, i64)>)
        ensures
            forall|c: (i64, i64)| #[trigger] v@.contains(c) ==> self.live().contains(
                (c.0 as int, c.1 as int),
            ),
            forall|x: int, y: int| #[trigger] self.live().contains((x, y)) ==> i64::MIN <= x
                <= i64::MAX && i64::MIN <= y <= i64::MAX && v@.contains((x as i64, y as i64)),
    ;

    /// An inclusive box around every live cell (used by the text renderer).
    fn get_bounds(&self) -> (b: GridBounds)
        ensures
            b == self.bounds(),
            b.x_min <= b.x_max,
            b.y_min <= b.y_max,
            forall|x: int, y: int| #[trigger] self.live().contains((x, y)) ==> b.x_min <= x
                <= b.x_max && b.y_min <= y <= b.y_max,
    ;
}

/// The bounding box of the cells a sequence holds; a unit box at the
/// origin when it holds none.
pub open spec fn bounds_of(s: Seq<(i64, i64)>) -> GridBounds
    decreases s.len(),
{
    if s.len() == 0 {
        GridBounds { x_min: 0, x_max: 0, y_min: 0, y_max: 0 }
    } else if s.len() == 1 {
        GridBounds { x_min: s[0].0, x_max: s[0].0, y_min: s[0].1, y_max: s[0].1 }
    } else {
        let b = bounds_of(s.drop_last());
        let c = s.last();
        GridBounds {
            x_min: if c.0 < b.x_min { c.0 } else { b.x_min },
            x_max: if c.0 > b.x_max { c.0 } else { b.x_max },
            y_min: if c.1 < b.y_min { c.1 } else { b.y_min },
            y_max: if c.1 > b.y_max { c.1 } else { b.y_max },
        }
    }
}

/// `bounds_of` is a well-formed box that holds every cell of the sequence.
proof fn lemma_bounds_of_ok(s: Seq<(i64, i64)>)
    ensures
        bounds_of(s).x_min <= bounds_of(s).x_max,
        bounds_of(s).y_min <= bounds_of(s).y_max,
        forall|j: int| #![trigger s[j]] 0 <= j < s.len() ==> bounds_of(s).x_min <= s[j].0
            <= bounds_of(s).x_max && bounds_of(s).y_min <= s[j].1 <= bounds_of(s).y_max,
    decreases s.len(),
{
    if s.len() > 1 {
        lemma_bounds_of_ok(s.drop_last());
        assert(forall|j: int| 0 <= j < s.len() - 1 ==> s.drop_last()[j] == #[trigger] s[j]);
    }
}

/// Holding the cell `(x, y)` after a push means: held before, or pushed now.
proof fn lemma_seq_has_push(s: Seq<(i64, i64)>, c: (i64, i64), x: int, y: int)
    ensures
        seq_has(s.push(c), x, y) <==> (seq_has(s, x, y) || (c.0 == x && c.1 == y)),
{
    if seq_has(s, x, y) {
        let j = choose|j: int| #![trigger s[j]] 0 <= j < s.len() && s[j].0 == x && s[j].1 == y;
        assert(s.push(c)[j] == s[j]);
    }
    if c.0 == x && c.1 == y {
        assert(s.push(c)[s.len() as int] == c);
    }
    if seq_has(s.push(c), x, y) && !(c.0 == x && c.1 == y) {
        let j = choose|j: int|
            #![trigger s.push(c)[j]]
            0 <= j < s.push(c).len() && s.push(c)[j].0 == x && s.push(c)[j].1 == y;
        assert(j < s.len());
        assert(s[j] == s.push(c)[j]);
    }
}

/// A minimal engine: the live cells as a plain list, with no automaton
/// rule of its own.  It exists so the controller has a concrete engine to
/// compose with and so the capability contracts are known to be satisfiable.
pub struct SimpleEngine {
    cells: Vec<(i64, i64)>,
    history: Ghost<Seq<EngineOp>>,
}

impl SimpleEngine {
    /// An engine with no live cells and an empty history.
    pub fn new() -> (e: SimpleEngine)
        ensures
            e.live() == Set::<(int, int)>::empty(),
            e.ops() == Seq::<EngineOp>::empty(),
    {
        let e = SimpleEngine { cells: Vec::new(), history: Ghost(Seq::empty()) };
        proof {
            assert(e.live() =~= Set::<(int, int)>::empty());
        }
        e
    }
}

/// Whether the list holds the cell `(x, y)`.
pub fn contains_cell(v: &Vec<(i64, i64)>, x: i64, y: i64) -> (r: bool)
    ensures
        r == seq_has(v@, x as int, y as int),
        r == v@.contains((x, y)),
{
    let mut i: usize = 0;
    while i < v.len()
        invariant
            i <= v@.len(),
            forall|j: int| #![trigger v@[j]] 0 <= j < i ==> !(v@[j].0 == x && v@[j].1 == y),
        decreases v@.len() - i,
    {
        let c = v[i];
        if c.0 == x && c.1 == y {
            proof {
                assert(v@[i as int] == (x, y));
            }
            return true;
        }
        i += 1;
    }
    proof {
        assert(!v@.contains((x, y))) by {
            if v@.contains((x, y)) {
                let j = choose|j: int| 0 <= j < v@.len() && v@[j] == (x, y);
                assert(v@[j].0 == x && v@[j].1 == y);
            }
        }
    }
    false
}

impl LifeEngine for SimpleEngine {
    closed spec fn live(&self) -> Set<(int, int)> {
        seq_live(self.cells@)
    }

    closed spec fn ops(&self) -> Seq<EngineOp> {
        self.history@
    }

    closed spec fn bounds(&self) -> GridBounds {
        bounds_of(self.cells@)
    }

    fn set(&mut self, coord: (i64, i64), alive: bool) {
        let ghost p = (coord.0 as int, coord.1 as int);
        if alive {
            if !contains_cell(&self.cells, coord.0, coord.1) {
                let ghost before = self.cells@;
                self.cells.push(coord);
                proof {
                    assert forall|x: int, y: int|
                        seq_has(before.push(coord), x, y) <==> (seq_has(before, x, y) || (
                        coord.0 == x && coord.1 == y)) by {
                        lemma_seq_has_push(before, coord, x, y);
                    }
                    assert(seq_live(self.cells@) =~= seq_live(before).insert(p));
                }
            } else {
                proof {
                    assert(seq_live(self.cells@) =~= seq_live(self.cells@).insert(p));
                }
            }
        } else {
            let mut kept: Vec<(i64, i64)> = Vec::new();
            let mut i: usize = 0;
            while i < self.cells.len()
                invariant
                    i <= self.cells@.len(),
                    forall|x: int, y: int|
                        #![trigger seq_has(kept@, x, y)]
                        seq_has(kept@, x, y) <==> (seq_has(self.cells@.take(i as int), x, y) && !(
                        x == coord.0 as int && y == coord.1 as int)),
                decreases self.cells@.len() - i,
            {
                let ghost kept_before = kept@;
                let ghost prefix = self.cells@.take(i as int);
                let c = self.cells[i];
                if !(c.0 == coord.0 && c.1 == coord.1) {
                    kept.push(c);
                }
                proof {
                    assert(self.cells@.take(i + 1) =~= prefix.push(c));
                    let kept_now = kept@;
                    assert forall|x: int, y: int|
                        seq_has(kept_now, x, y) <==> (seq_has(self.cells@.take(i + 1), x, y) && !(
                        x == coord.0 as int && y == coord.1 as int)) by {
                        lemma_seq_has_push(prefix, c, x, y);
                        if !(c.0 == coord.0 && c.1 == coord.1) {
                            lemma_seq_has_push(kept_before, c, x, y);
                        }
                    }
                }
                i += 1;
            }
            proof {
                assert(self.cells@.take(self.cells@.len() as int) =~= self.cells@);
            }
            self.cells = kept;
            proof {
                assert(seq_live(self.cells@) =~= seq_live(old(self).cells@).remove(p));
            }
        }
        self.history = Ghost(self.history@.push(EngineOp::SetCell { x: p.0, y: p.1, alive }));
    }

    fn clean_up(&mut self) {
        self.history = Ghost(self.history@.push(EngineOp::CleanUp));
    }

    fn live_cells(&self) -> (v: Vec<(i64, i64)>) {
        let mut v: Vec<(i64, i64)> = Vec::new();
        let mut i: usize = 0;
        while i < self.cells.len()
            invariant
                i <= self.cells@.len(),
                v@ == self.cells@.take(i as int),
            decreases self.cells@.len() - i,
        {
            v.push(self.cells[i]);
            proof {
                assert(self.cells@.take(i + 1) =~= self.cells@.take(i as int).push(
                    self.cells@[i as int],
                ));
            }
            i += 1;
        }
        proof {
            assert(self.cells@.take(self.cells@.len() as int) =~= self.cells@);
            assert forall|c: (i64, i64)| #[trigger] v@.contains(c) implies self.live().contains(
                (c.0 as int, c.1 as int),
            ) by {
                let j = choose|j: int| 0 <= j < v@.len() && v@[j] == c;
                assert(seq_has(self.cells@, c.0 as int, c.1 as int));
            }
            assert forall|x: int, y: int| #[trigger] self.live().contains((x, y)) implies i64::MIN
                <= x <= i64::MAX && i64::MIN <= y <= i64::MAX && v@.contains(
                (x as i64, y as i64),
            ) by {
                assert(seq_has(self.cells@, x, y));
                let j = choose|j: int|
                    #![trigger self.cells@[j]]
                    0 <= j < self.cells@.len() && self.cells@[j].0 == x && self.cells@[j].1 == y;
                assert(v@[j] == self.cells@[j]);
                assert(v@[j] == (x as i64, y as i64));
            }
        }
        v
    }

    fn get_bounds(&self) -> (b: GridBounds) {
        proof {
            lemma_bounds_of_ok(self.cells@);
            assert forall|x: int, y: int| #[trigger] self.live().contains((x, y)) implies bounds_of(
                self.cells@,
            ).x_min <= x <= bounds_of(self.cells@).x_max && bounds_of(self.cells@).y_min <= y
                <= bounds_of(self.cells@).y_max by {
                assert(seq_has(self.cells@, x, y));
            }
        }
        if self.cells.len() == 0 {
            return GridBounds { x_min: 0, x_max: 0, y_min: 0, y_max: 0 };
        }
        let first = self.cells[0];
        let mut b = GridBounds { x_min: first.0, x_max: first.0, y_min: first.1, y_max: first.1 };
        let mut i: usize = 1;
        while i < self.cells.len()
            invariant
                1 <= i <= self.cells@.len(),
                b == bounds_of(self.cells@.take(i as int)),
            decreases self.cells@.len() - i,
        {
            let c = self.cells[i];
            if c.0 < b.x_min {
                b.x_min = c.0;
            }
            if c.0 > b.x_max {
                b.x_max = c.0;
            }
            if c.1 < b.y_min {
                b.y_min = c.1;
            }
            if c.1 > b.y_max {
                b.y_max = c.1;
            }
            proof {
                assert(self.cells@.take(i + 1).drop_last() =~= self.cells@.take(i as int));
                assert(self.cells@.take(i + 1).last() == self.cells@[i as int]);
            }
            i += 1;
        }
        proof {
            assert(self.cells@.take(self.cells@.len() as int) =~= self.cells@);
        }
        b
    }
}

} // verus!
