use crate::admittance::Branch;
use crate::types::BusType;
use vstd::prelude::*;

verus! {

/// Why a network cannot be solved as given.
#[derive(Clone, Copy, Debug, PartialEq, Eq, Structural)]
pub enum TopologyError {
    /// The bus at `position` carries another index than its position.
    IndexMismatch { position: usize },
    /// No bus is a slack bus.
    NoSlackBus,
    /// More than one bus is a slack bus.
    MultipleSlackBuses,
    /// Line number `line` has an endpoint that is not a bus index.
    EndpointOutOfRange { line: usize },
}

/// Every bus carries its own position as its index.
pub open spec fn indices_consistent(indices: Seq<usize>) -> bool {
    forall|p: int| 0 <= p < indices.len() ==> indices[p] == p
}

/// Number of slack buses among the first `n`.
pub open spec fn slack_count(kinds: Seq<BusType>, n: int) -> nat
    decreases n,
{
    if n <= 0 {
        0
    } else {
        slack_count(kinds, n - 1) + if kinds[n - 1] == BusType::Slack {
            1nat
        } else {
            0nat
        }
    }
}

pub open spec fn branch_in_range(br: Branch, n: nat) -> bool {
    br.from < n && br.to < n
}

/// Both endpoints of every line are bus indices.
pub open spec fn endpoints_in_range(branches: Seq<Branch>, n: nat) -> bool {
    forall|l: int| 0 <= l < branches.len() ==> branch_in_range(branches[l], n)
}

/// Checks that bus `p` has index `indices[p]` equal to `p`, that exactly
/// one bus is a slack bus, and that every line joins two existing buses;
/// the first failing check, in that order, gives the error, and within a
/// check the first offending bus or line.
pub fn validate_topology(indices: &Vec<usize>, kinds: &Vec<BusType>, branches: &Vec<Branch>) -> (r:
    Result<(), TopologyError>)
    requires
        indices@.len() == kinds@.len(),
    ensures
        r is Ok <==> indices_consistent(indices@) && slack_count(kinds@, kinds@.len() as int) == 1
            && endpoints_in_range(branches@, kinds@.len()),
        (r matches Err(TopologyError::IndexMismatch { .. })) <==> !indices_consistent(indices@),
        r matches Err(TopologyError::IndexMismatch { position }) ==> position < indices@.len()
            && indices@[position as int] != position && indices_consistent(
            indices@.subrange(0, position as int),
        ),
        r == Err::<(), TopologyError>(TopologyError::NoSlackBus) <==> indices_consistent(indices@)
            && slack_count(kinds@, kinds@.len() as int) == 0,
        r == Err::<(), TopologyError>(TopologyError::MultipleSlackBuses) <==> indices_consistent(
            indices@,
        ) && slack_count(kinds@, kinds@.len() as int) > 1,
        (r matches Err(TopologyError::EndpointOutOfRange { .. })) <==> indices_consistent(indices@)
            && slack_count(kinds@, kinds@.len() as int) == 1 && !endpoints_in_range(
            branches@,
            kinds@.len(),
        ),
        r matches Err(TopologyError::EndpointOutOfRange { line }) ==> line < branches@.len()
            && !branch_in_range(branches@[line as int], kinds@.len()) && endpoints_in_range(
            branches@.subrange(0, line as int),
            kinds@.len(),
        ),
{
    let n = indices.len();
    let mut p: usize = 0;
    while p < n
        invariant
            n == indices@.len(),
            p <= n,
            indices_consistent(indices@.subrange(0, p as int)),
        decreases n - p,
    {
        if indices[p] != p {
            return Err(TopologyError::IndexMismatch { position: p });
        }
        proof {
            assert forall|q: int| 0 <= q < p + 1 implies #[trigger] indices@.subrange(0, p + 1)[q] == q by {
                if q < p {
                    assert(indices@.subrange(0, p as int)[q] == q);
                }
            }
        }
        p = p + 1;
    }
    proof {
        assert(indices@.subrange(0, n as int) =~= indices@);
    }
    let mut slack: usize = 0;
    let mut b: usize = 0;
    while b < n
        invariant
            n == kinds@.len(),
            indices_consistent(indices@),
            b <= n,
            slack == slack_count(kinds@, b as int),
            slack <= b,
        decreases n - b,
    {
        if kinds[b] == BusType::Slack {
            slack = slack + 1;
        }
        b = b + 1;
    }
    if slack == 0 {
        return Err(TopologyError::NoSlackBus);
    }
    if slack > 1 {
        return Err(TopologyError::MultipleSlackBuses);
    }
    let mut l: usize = 0;
    while l < branches.len()
        invariant
            n == kinds@.len(),
            indices_consistent(indices@),
            slack_count(kinds@, n as int) == 1,
            l <= branches@.len(),
            endpoints_in_range(branches@.subrange(0, l as int), n as nat),
        decreases branches@.len() - l,
    {
        let br = branches[l];
        if br.from >= n || br.to >= n {
            return Err(TopologyError::EndpointOutOfRange { line: l });
        }
        proof {
            assert forall|m: int| 0 <= m < l + 1 implies branch_in_range(
                #[trigger] branches@.subrange(0, l + 1)[m],
                n as nat,
            ) by {
                if m < l {
                    assert(branches@.subrange(0, l as int)[m] == branches@[m]);
                }
            }
        }
        l = l + 1;
    }
    proof {
        assert(branches@.subrange(0, l as int) =~= branches@);
    }
    Ok(())
}

} // verus!
