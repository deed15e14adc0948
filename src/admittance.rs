use vstd::prelude::*;

verus! {

/// The endpoints of a transmission line, as bus indices.
#[derive(Clone, Copy, Debug, PartialEq, Eq, Structural)]
pub struct Branch {
    pub from: usize,
    pub to: usize,
}

/// What a line adds to one admittance entry.
#[derive(Clone, Copy, Debug, PartialEq, Eq, Structural)]
pub enum StampTerm {
    /// `y + j·b/2`: series admittance plus half the line charging, added to
    /// a diagonal entry.
    SeriesPlusHalfShunt,
    /// `-y`: the series admittance, subtracted from an off-diagonal entry.
    NegatedSeries,
}

/// One accumulation step of the admittance matrix: entry (`row`, `col`)
/// receives `term` of line number `line`.
#[derive(Clone, Copy, Debug, PartialEq, Eq, Structural)]
pub struct Stamp {
    pub row: usize,
    pub col: usize,
    pub line: usize,
    pub term: StampTerm,
}

/// The four stamps of line number `l`, in the order they are applied.
pub open spec fn line_stamps(br: Branch, l: usize) -> Seq<Stamp> {
    seq![
        Stamp { row: br.from, col: br.from, line: l, term: StampTerm::SeriesPlusHalfShunt },
        Stamp { row: br.to, col: br.to, line: l, term: StampTerm::SeriesPlusHalfShunt },
        Stamp { row: br.from, col: br.to, line: l, term: StampTerm::NegatedSeries },
        Stamp { row: br.to, col: br.from, line: l, term: StampTerm::NegatedSeries },
    ]
}

/// The stamps of all lines, line by line.
pub open spec fn stamps_of(branches: Seq<Branch>) -> Seq<Stamp>
    decreases branches.len(),
{
    if branches.len() == 0 {
        seq![]
    } else {
        stamps_of(branches.drop_last()) + line_stamps(
            branches.last(),
            (branches.len() - 1) as usize,
        )
    }
}

/// The contributions, in order of application, that entry (`i`, `k`)
/// receives from `stamps`: the entry is their sum, starting from zero.
pub open spec fn entry_terms(stamps: Seq<Stamp>, i: usize, k: usize) -> Seq<(usize, StampTerm)>
    decreases stamps.len(),
{
    if stamps.len() == 0 {
        seq![]
    } else {
        let prev = entry_terms(stamps.drop_last(), i, k);
        let s = stamps.last();
        if s.row == i && s.col == k {
            prev.push((s.line, s.term))
        } else {
            prev
        }
    }
}

/// The accumulation plan of the nodal admittance matrix: for each line, in
/// order, its series-plus-half-shunt term on both diagonal entries of its
/// endpoints, then its negated series admittance on both off-diagonal ones.
pub fn admittance_stamps(branches: &Vec<Branch>) -> (r: Vec<Stamp>)
    ensures
        r@ == stamps_of(branches@),
{
    let mut stamps: Vec<Stamp> = Vec::new();
    let mut l: usize = 0;
    while l < branches.len()
        invariant
            l <= branches@.len(),
            stamps@ == stamps_of(branches@.subrange(0, l as int)),
        decreases branches@.len() - l,
    {
        let br = branches[l];
        proof {
            let next = branches@.subrange(0, l + 1);
            assert(next.drop_last() =~= branches@.subrange(0, l as int));
            assert(next.last() == br);
        }
        stamps.push(Stamp { row: br.from, col: br.from, line: l, term: StampTerm::SeriesPlusHalfShunt });
        stamps.push(Stamp { row: br.to, col: br.to, line: l, term: StampTerm::SeriesPlusHalfShunt });
        stamps.push(Stamp { row: br.from, col: br.to, line: l, term: StampTerm::NegatedSeries });
        stamps.push(Stamp { row: br.to, col: br.from, line: l, term: StampTerm::NegatedSeries });
        proof {
            assert(stamps@ =~= stamps_of(branches@.subrange(0, l + 1)));
        }
        l = l + 1;
    }
    proof {
        assert(branches@.subrange(0, l as int) =~= branches@);
    }
    stamps
}

proof fn lemma_entry_terms_append(a: Seq<Stamp>, b: Seq<Stamp>, i: usize, k: usize)
    ensures
        entry_terms(a + b, i, k) == entry_terms(a, i, k) + entry_terms(b, i, k),
    decreases b.len(),
{
    if b.len() == 0 {
        assert(a + b =~= a);
        assert(entry_terms(a, i, k) + entry_terms(b, i, k) =~= entry_terms(a, i, k));
    } else {
        assert((a + b).drop_last() =~= a + b.drop_last());
        assert((a + b).last() == b.last());
        lemma_entry_terms_append(a, b.drop_last(), i, k);
        let s = b.last();
        if s.row == i && s.col == k {
            assert(entry_terms(a, i, k) + entry_terms(b.drop_last(), i, k).push((s.line, s.term))
                =~= (entry_terms(a, i, k) + entry_terms(b.drop_last(), i, k)).push(
                (s.line, s.term),
            ));
        }
    }
}

proof fn lemma_line_stamps_symmetric(br: Branch, l: usize, i: usize, k: usize)
    ensures
        entry_terms(line_stamps(br, l), i, k) == entry_terms(line_stamps(br, l), k, i),
{
    let s = line_stamps(br, l);
    assert(s.drop_last().drop_last().drop_last().drop_last() =~= Seq::<Stamp>::empty());
    reveal_with_fuel(entry_terms, 5);
    if i != k {
        assert(entry_terms(s, i, k) =~= entry_terms(s, k, i));
    }
}

/// The admittance matrix is symmetric: entries (`i`, `k`) and (`k`, `i`)
/// receive the same contributions in the same order, so they hold the same
/// sum.
pub proof fn lemma_admittance_symmetric(branches: Seq<Branch>, i: usize, k: usize)
    ensures
        entry_terms(stamps_of(branches), i, k) == entry_terms(stamps_of(branches), k, i),
    decreases branches.len(),
{
    if branches.len() > 0 {
        let prev = branches.drop_last();
        let ls = line_stamps(branches.last(), (branches.len() - 1) as usize);
        lemma_admittance_symmetric(prev, i, k);
        lemma_entry_terms_append(stamps_of(prev), ls, i, k);
        lemma_entry_terms_append(stamps_of(prev), ls, k, i);
        lemma_line_stamps_symmetric(branches.last(), (branches.len() - 1) as usize, i, k);
    }
}

/// When every line joins two of `n` buses, every stamp lands inside the
/// `n`-by-`n` matrix.
pub proof fn lemma_stamps_in_range(branches: Seq<Branch>, n: nat)
    requires
        forall|l: int| 0 <= l < branches.len() ==> #[trigger] branches[l].from < n && branches[l].to < n,
    ensures
        forall|s: int|
            0 <= s < stamps_of(branches).len() ==> #[trigger] stamps_of(branches)[s].row < n
                && stamps_of(branches)[s].col < n,
    decreases branches.len(),
{
    if branches.len() > 0 {
        let prev = branches.drop_last();
        assert forall|l: int| 0 <= l < prev.len() implies #[trigger] prev[l].from < n && prev[l].to < n by {
            assert(prev[l] == branches[l]);
        }
        lemma_stamps_in_range(prev, n);
        let last = branches[branches.len() - 1];
        assert(last.from < n && last.to < n);
    }
}

/// A network without lines has an admittance matrix of zeros: no entry
/// receives any contribution.
pub proof fn lemma_no_lines_zero_admittance(i: usize, k: usize)
    ensures
        entry_terms(stamps_of(Seq::<Branch>::empty()), i, k) == Seq::<(usize, StampTerm)>::empty(),
{
    assert(stamps_of(Seq::<Branch>::empty()) =~= Seq::<Stamp>::empty());
}

} // verus!
