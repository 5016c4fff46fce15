//! Every function is visited once.
//!
//! Taken out of the log of a whole scan, the accesses to one function are
//! what the scan makes to that function in its one visit, and nothing
//! more: no function is come back to.

use vstd::prelude::*;
use crate::address::{lemma_ordinal_round_trip, ConfigAddress, ADDRESS_COUNT, IDENTITY_OFFSET};
use crate::classify::spec_is_present;
use crate::dispatch::{ClassRule, IdentityRule};
use crate::session::{
    accesses, accesses_before, function_accesses, lemma_absent_function_gets_one_read,
    lemma_accesses_name_their_function,
};
use crate::sim::{peek, Access, SimulatedFunction};

verus! {

/// The accesses in a log that go to one function, in the order of the log.
pub open spec fn accesses_to(log: Seq<Access>, address: ConfigAddress) -> Seq<Access> {
    log.filter(|access: Access| access.spec_address() == address)
}

/// Of a log whose accesses all go to one function, all are kept for that
/// function and none for any other.
pub proof fn lemma_accesses_of_one_function(
    log: Seq<Access>,
    owner: ConfigAddress,
    address: ConfigAddress,
)
    requires
        forall|i: int| 0 <= i < log.len() ==> (#[trigger] log[i]).spec_address() == owner,
    ensures
        accesses_to(log, address) == (if address == owner {
            log
        } else {
            Seq::empty()
        }),
    decreases log.len(),
{
    reveal(Seq::filter);
    if log.len() > 0 {
        lemma_accesses_of_one_function(log.drop_last(), owner, address);
        assert(log.drop_last().push(log.last()) =~= log);
    } else {
        assert(log =~= Seq::<Access>::empty());
    }
}

/// Among the accesses that a scan makes to the first `count` functions,
/// those to one function are the accesses of its one visit if it is among
/// them, and none if it is not.
pub proof fn lemma_visited_once_before(
    slots: Seq<Option<SimulatedFunction>>,
    class_rules: Seq<ClassRule>,
    identity_rules: Seq<IdentityRule>,
    address: ConfigAddress,
    count: int,
)
    requires
        0 <= count <= ADDRESS_COUNT,
    ensures
        accesses_to(accesses_before(slots, class_rules, identity_rules, count), address) == (
        if address.spec_ordinal() < count {
            function_accesses(slots, class_rules, identity_rules, address)
        } else {
            Seq::empty()
        }),
    decreases count,
{
    let wanted = |access: Access| access.spec_address() == address;
    if count > 0 {
        let earlier = accesses_before(slots, class_rules, identity_rules, count - 1);
        let owner = ConfigAddress::at(count - 1);
        let visit = function_accesses(slots, class_rules, identity_rules, owner);
        lemma_visited_once_before(slots, class_rules, identity_rules, address, count - 1);
        lemma_accesses_name_their_function(slots, class_rules, identity_rules, owner);
        lemma_accesses_of_one_function(visit, owner, address);
        lemma_ordinal_round_trip(address, count - 1);
        Seq::filter_distributes_over_add(earlier, visit, wanted);
        assert(earlier.filter(wanted) + visit.filter(wanted) =~= if address.spec_ordinal()
            < count {
            function_accesses(slots, class_rules, identity_rules, address)
        } else {
            Seq::empty()
        });
    } else {
        lemma_accesses_of_one_function(Seq::empty(), address, address);
    }
}

/// Every function is visited once in a whole scan: the accesses to it in
/// the log of the scan are those of its one visit.
pub proof fn lemma_visited_once(
    slots: Seq<Option<SimulatedFunction>>,
    class_rules: Seq<ClassRule>,
    identity_rules: Seq<IdentityRule>,
    address: ConfigAddress,
)
    ensures
        accesses_to(accesses(slots, class_rules, identity_rules), address) == function_accesses(
            slots,
            class_rules,
            identity_rules,
            address,
        ),
{
    lemma_visited_once_before(slots, class_rules, identity_rules, address, ADDRESS_COUNT as int);
    lemma_ordinal_round_trip(address, 0);
}

/// In the log of a whole scan, a function whose identity register reads
/// with a vendor code of all ones has one access: the read of that
/// register.  Its class register is not read and none of its base address
/// registers is read or written.
pub proof fn lemma_absent_function_is_read_once(
    slots: Seq<Option<SimulatedFunction>>,
    class_rules: Seq<ClassRule>,
    identity_rules: Seq<IdentityRule>,
    address: ConfigAddress,
)
    requires
        !spec_is_present(peek(slots, address, IDENTITY_OFFSET)),
    ensures
        accesses_to(accesses(slots, class_rules, identity_rules), address) == seq![
            Access::Read {
                address,
                offset: IDENTITY_OFFSET,
                value: peek(slots, address, IDENTITY_OFFSET),
            },
        ],
{
    lemma_visited_once(slots, class_rules, identity_rules, address);
    lemma_absent_function_gets_one_read(slots, class_rules, identity_rules, address);
}

} // verus!
