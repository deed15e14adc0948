use crate::types::{has_unknown, BusType, Quantity};
use vstd::prelude::*;

verus! {

/// The indices `b < n`, in increasing order, of the buses that carry an
/// unknown of kind `q`.
pub open spec fn buses_with(kinds: Seq<BusType>, n: int, q: Quantity) -> Seq<usize>
    decreases n,
{
    if n <= 0 {
        seq![]
    } else {
        let prev = buses_with(kinds, n - 1, q);
        if has_unknown(kinds[n - 1], q) {
            prev.push((n - 1) as usize)
        } else {
            prev
        }
    }
}

/// Every unknown belongs to an existing bus other than the slack bus, and
/// every magnitude unknown to a PQ bus: an update of the unknowns never
/// changes the slack bus's magnitude or angle, nor a PV bus's magnitude.
pub proof fn lemma_slack_never_updated(kinds: Seq<BusType>, j: int)
    requires
        0 <= j < unknown_count(kinds),
        kinds.len() <= usize::MAX,
    ensures
        unknown_at(kinds, j).bus < kinds.len(),
        kinds[unknown_at(kinds, j).bus as int] != BusType::Slack,
        unknown_at(kinds, j).quantity == Quantity::Magnitude ==> kinds[unknown_at(
            kinds,
            j,
        ).bus as int] == BusType::PQ,
{
    lemma_buses_with_bounds(kinds, kinds.len() as int, Quantity::Angle);
    lemma_buses_with_bounds(kinds, kinds.len() as int, Quantity::Magnitude);
}

/// The selected buses are at most `n`, each lies below `n` and carries the
/// unknown.
pub proof fn lemma_buses_with_bounds(kinds: Seq<BusType>, n: int, q: Quantity)
    requires
        0 <= n <= kinds.len() <= usize::MAX,
    ensures
        buses_with(kinds, n, q).len() <= n,
        forall|j: int|
            0 <= j < buses_with(kinds, n, q).len() ==> buses_with(kinds, n, q)[j] < n
                && has_unknown(kinds[buses_with(kinds, n, q)[j] as int], q),
    decreases n,
{
    if n > 0 {
        lemma_buses_with_bounds(kinds, n - 1, q);
        let prev = buses_with(kinds, n - 1, q);
        assert forall|j: int| 0 <= j < buses_with(kinds, n, q).len() implies buses_with(
            kinds,
            n,
            q,
        )[j] < n && has_unknown(kinds[buses_with(kinds, n, q)[j] as int], q) by {
            if j < prev.len() {
                assert(buses_with(kinds, n, q)[j] == prev[j]);
            }
        }
    }
}

/// Non-slack buses in index order: one angle unknown each.
pub open spec fn angle_buses(kinds: Seq<BusType>) -> Seq<usize> {
    buses_with(kinds, kinds.len() as int, Quantity::Angle)
}

/// PQ buses in index order: one magnitude unknown each.
pub open spec fn magnitude_buses(kinds: Seq<BusType>) -> Seq<usize> {
    buses_with(kinds, kinds.len() as int, Quantity::Magnitude)
}

pub open spec fn unknown_count(kinds: Seq<BusType>) -> nat {
    angle_buses(kinds).len() + magnitude_buses(kinds).len()
}

/// One entry of the unknown vector (and of the mismatch vector, which shares
/// its ordering: an angle row holds a real-power mismatch, a magnitude row a
/// reactive-power one).
#[derive(Clone, Copy, Debug, PartialEq, Eq, Structural)]
pub struct Unknown {
    pub bus: usize,
    pub quantity: Quantity,
}

/// Position `j` of the unknown vector: all angles first, then all magnitudes.
pub open spec fn unknown_at(kinds: Seq<BusType>, j: int) -> Unknown {
    let na = angle_buses(kinds).len() as int;
    if j < na {
        Unknown { bus: angle_buses(kinds)[j], quantity: Quantity::Angle }
    } else {
        Unknown { bus: magnitude_buses(kinds)[j - na], quantity: Quantity::Magnitude }
    }
}

/// The four blocks of the Jacobian `[[H, N], [M, L]]`.
#[derive(Clone, Copy, Debug, PartialEq, Eq, Structural)]
pub enum Block {
    /// Real power by angle.
    H,
    /// Real power by magnitude.
    N,
    /// Reactive power by angle.
    M,
    /// Reactive power by magnitude.
    L,
}

pub open spec fn block_of(row: Quantity, col: Quantity) -> Block {
    match (row, col) {
        (Quantity::Angle, Quantity::Angle) => Block::H,
        (Quantity::Angle, Quantity::Magnitude) => Block::N,
        (Quantity::Magnitude, Quantity::Angle) => Block::M,
        (Quantity::Magnitude, Quantity::Magnitude) => Block::L,
    }
}

/// What a Jacobian entry is the derivative of: its block, the bus `i` of
/// its equation, the bus `k` of its variable, and whether `i == k` (the
/// diagonal formula applies) or not (the off-diagonal one).
#[derive(Clone, Copy, Debug, PartialEq, Eq, Structural)]
pub struct JacobianEntry {
    pub block: Block,
    pub row_bus: usize,
    pub col_bus: usize,
    pub diagonal: bool,
}

pub open spec fn jacobian_entry_at(kinds: Seq<BusType>, row: int, col: int) -> JacobianEntry {
    let r = unknown_at(kinds, row);
    let c = unknown_at(kinds, col);
    JacobianEntry {
        block: block_of(r.quantity, c.quantity),
        row_bus: r.bus,
        col_bus: c.bus,
        diagonal: r.bus == c.bus,
    }
}

/// The ordering of the unknowns for a fixed set of bus kinds, with each
/// bus's position in it.
pub struct UnknownLayout {
    kinds: Vec<BusType>,
    non_slack: Vec<usize>,
    pq: Vec<usize>,
    angle_slot: Vec<Option<usize>>,
    pq_slot: Vec<Option<usize>>,
}

impl View for UnknownLayout {
    type V = Seq<BusType>;

    closed spec fn view(&self) -> Seq<BusType> {
        self.kinds@
    }
}

impl UnknownLayout {
    pub closed spec fn wf(&self) -> bool {
        let n = self.kinds@.len();
        &&& n <= usize::MAX / 2
        &&& self.non_slack@ == angle_buses(self.kinds@)
        &&& self.pq@ == magnitude_buses(self.kinds@)
        &&& self.angle_slot@.len() == n
        &&& self.pq_slot@.len() == n
        &&& forall|b: int|
            0 <= b < n ==> Self::slot_ok(self.angle_slot@[b], self.non_slack@, b, (
            self.kinds@[b] != BusType::Slack))
        &&& forall|b: int|
            0 <= b < n ==> Self::slot_ok(self.pq_slot@[b], self.pq@, b, (self.kinds@[b]
                == BusType::PQ))
    }

    closed spec fn slot_ok(slot: Option<usize>, order: Seq<usize>, b: int, present: bool) -> bool {
        &&& (slot is Some <==> present)
        &&& (slot matches Some(j) ==> j < order.len() && order[j as int] == b)
    }

    /// Lays out the unknowns of the buses whose kinds are `kinds`, bus `b`
    /// being `kinds[b]`.
    pub fn new(kinds: &Vec<BusType>) -> (r: Self)
        requires
            kinds@.len() <= usize::MAX / 2,
        ensures
            r.wf(),
            r@ == kinds@,
    {
        let mut non_slack: Vec<usize> = Vec::new();
        let mut pq: Vec<usize> = Vec::new();
        let mut angle_slot: Vec<Option<usize>> = Vec::new();
        let mut pq_slot: Vec<Option<usize>> = Vec::new();
        let mut i: usize = 0;
        while i < kinds.len()
            invariant
                i <= kinds@.len(),
                non_slack@ == buses_with(kinds@, i as int, Quantity::Angle),
                pq@ == buses_with(kinds@, i as int, Quantity::Magnitude),
                angle_slot@.len() == i,
                pq_slot@.len() == i,
                forall|b: int|
                    0 <= b < i ==> Self::slot_ok(angle_slot@[b], non_slack@, b, (kinds@[b]
                        != BusType::Slack)),
                forall|b: int|
                    0 <= b < i ==> Self::slot_ok(pq_slot@[b], pq@, b, (kinds@[b]
                        == BusType::PQ)),
            decreases kinds@.len() - i,
        {
            let k = kinds[i];
            match k {
                BusType::Slack => {
                    angle_slot.push(None);
                },
                _ => {
                    angle_slot.push(Some(non_slack.len()));
                    non_slack.push(i);
                },
            }
            match k {
                BusType::PQ => {
                    pq_slot.push(Some(pq.len()));
                    pq.push(i);
                },
                _ => {
                    pq_slot.push(None);
                },
            }
            i = i + 1;
        }
        UnknownLayout { kinds: kinds.clone(), non_slack, pq, angle_slot, pq_slot }
    }
    /// Number of unknowns: one angle per non-slack bus, one magnitude per
    /// PQ bus.
    pub fn size(&self) -> (r: usize)
        requires
            self.wf(),
        ensures
            r == unknown_count(self@),
    {
        proof {
            self.lemma_bounds();
        }
        self.non_slack.len() + self.pq.len()
    }

    /// Number of angle unknowns, which come first.
    pub fn angle_count(&self) -> (r: usize)
        requires
            self.wf(),
        ensures
            r == angle_buses(self@).len(),
    {
        self.non_slack.len()
    }

    /// The non-slack buses, in index order.
    pub fn non_slack(&self) -> (r: &Vec<usize>)
        requires
            self.wf(),
        ensures
            r@ == angle_buses(self@),
    {
        &self.non_slack
    }

    /// The PQ buses, in index order.
    pub fn pq(&self) -> (r: &Vec<usize>)
        requires
            self.wf(),
        ensures
            r@ == magnitude_buses(self@),
    {
        &self.pq
    }

    proof fn lemma_bounds(&self)
        requires
            self.wf(),
        ensures
            self.non_slack@.len() <= self@.len(),
            self.pq@.len() <= self@.len(),
            forall|j: int| 0 <= j < self.non_slack@.len() ==> self.non_slack@[j] < self@.len(),
            forall|j: int| 0 <= j < self.pq@.len() ==> self.pq@[j] < self@.len(),
    {
        lemma_buses_with_bounds(self.kinds@, self.kinds@.len() as int, Quantity::Angle);
        lemma_buses_with_bounds(self.kinds@, self.kinds@.len() as int, Quantity::Magnitude);
    }

    /// The unknown at position `j`.
    pub fn unknown(&self, j: usize) -> (r: Unknown)
        requires
            self.wf(),
            j < unknown_count(self@),
        ensures
            r == unknown_at(self@, j as int),
            r.bus < self@.len(),
    {
        proof {
            self.lemma_bounds();
        }
        let na = self.non_slack.len();
        if j < na {
            Unknown { bus: self.non_slack[j], quantity: Quantity::Angle }
        } else {
            Unknown { bus: self.pq[j - na], quantity: Quantity::Magnitude }
        }
    }

    /// Position of the angle unknown of bus `b`; none for the slack bus.
    pub fn angle_slot(&self, b: usize) -> (r: Option<usize>)
        requires
            self.wf(),
            b < self@.len(),
        ensures
            r is None <==> self@[b as int] == BusType::Slack,
            r matches Some(j) ==> j < unknown_count(self@) && unknown_at(self@, j as int)
                == (Unknown { bus: b, quantity: Quantity::Angle }),
    {
        self.angle_slot[b]
    }

    /// Position of the magnitude unknown of bus `b`; none unless it is a PQ
    /// bus.
    pub fn magnitude_slot(&self, b: usize) -> (r: Option<usize>)
        requires
            self.wf(),
            b < self@.len(),
        ensures
            r is None <==> self@[b as int] != BusType::PQ,
            r matches Some(j) ==> j < unknown_count(self@) && unknown_at(self@, j as int)
                == (Unknown { bus: b, quantity: Quantity::Magnitude }),
    {
        proof {
            self.lemma_bounds();
        }
        match self.pq_slot[b] {
            Some(p) => Some(self.non_slack.len() + p),
            None => None,
        }
    }

    /// Which derivative the Jacobian entry at (`row`, `col`) holds.
    pub fn jacobian_entry(&self, row: usize, col: usize) -> (r: JacobianEntry)
        requires
            self.wf(),
            row < unknown_count(self@),
            col < unknown_count(self@),
        ensures
            r == jacobian_entry_at(self@, row as int, col as int),
    {
        let u = self.unknown(row);
        let v = self.unknown(col);
        let block = match (u.quantity, v.quantity) {
            (Quantity::Angle, Quantity::Angle) => Block::H,
            (Quantity::Angle, Quantity::Magnitude) => Block::N,
            (Quantity::Magnitude, Quantity::Angle) => Block::M,
            (Quantity::Magnitude, Quantity::Magnitude) => Block::L,
        };
        JacobianEntry { block, row_bus: u.bus, col_bus: v.bus, diagonal: u.bus == v.bus }
    }
}

} // verus!
