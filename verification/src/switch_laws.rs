//! Which slot a switch of the rootfs leaves to start, in terms of the entries on the card.

use crate::flash::Partition;
use crate::flash_laws::law_entry_flags;
use crate::gpt::{GptEntry, GptEntryView};
use crate::switch_rootfs::{
    partition_in, switch_of, switched, with_bits, Action, Active, Switch, SwitchError,
};
use vstd::prelude::*;

verus! {

/// Whether an entry is marked to start: the third lowest of its attribute bits is set.
pub open spec fn is_marked(e: GptEntry) -> bool {
    e.attribute_bits / 4 % 2 == 1
}

/// Whether the first two entries are in use under the names of the two slots.
pub open spec fn are_the_slots(first: GptEntry, second: GptEntry) -> bool {
    &&& first.partition_type_guid@ != Seq::new(16, |i: int| 0u8)
    &&& second.partition_type_guid@ != Seq::new(16, |i: int| 0u8)
    &&& first.partition_name@ == "rootfs_a"@
    &&& second.partition_name@ == "rootfs_b"@
}

/// A switch needs the two slots on the card, and nothing else.
pub proof fn law_switch_needs_the_slots(
    first: GptEntry,
    second: GptEntry,
    requested: Option<Partition>,
)
    ensures
        are_the_slots(first, second) <==> switch_of(first@, second@, requested) is Ok,
        !are_the_slots(first, second) ==> switch_of(first@, second@, requested) == Err::<
            Switch,
            SwitchError,
        >(SwitchError::NoLayout),
{
    law_entry_flags(first);
    law_entry_flags(second);
}

/// A request is met: the slot asked for is the target. Without one the target is the slot that
/// was not marked where exactly one was, and rootfs_a otherwise, which counts as a default. What
/// was marked before is told as it was.
pub proof fn law_switch_target(first: GptEntry, second: GptEntry, requested: Option<Partition>)
    requires
        are_the_slots(first, second),
    ensures
        switch_of(first@, second@, requested) matches Ok(s) && {
            &&& requested == Some(Partition::RootfsA) ==> s.target == Partition::RootfsA
            &&& requested == Some(Partition::RootfsB) ==> s.target == Partition::RootfsB
            &&& requested == Some(Partition::Both) ==> s.target == Partition::Both
            &&& requested is None && is_marked(first) && !is_marked(second) ==> s.target
                == Partition::RootfsB
            &&& requested is None && is_marked(second) && !is_marked(first) ==> s.target
                == Partition::RootfsA
            &&& requested is None && is_marked(first) == is_marked(second) ==> s.target
                == Partition::RootfsA
            &&& s.defaulted <==> requested is None && is_marked(first) == is_marked(second)
            &&& s.active == Active::RootfsA <==> is_marked(first) && !is_marked(second)
            &&& s.active == Active::RootfsB <==> !is_marked(first) && is_marked(second)
            &&& s.active == Active::Both <==> is_marked(first) && is_marked(second)
            &&& s.active == Active::Neither <==> !is_marked(first) && !is_marked(second)
        },
{
    law_entry_flags(first);
    law_entry_flags(second);
}

/// After a switch the bits of the target are 4 and those of the other slot are 0, and nothing is
/// written exactly if they were so before. Both slots at once are refused.
pub proof fn law_switch_bits(first: GptEntry, second: GptEntry, requested: Option<Partition>)
    requires
        are_the_slots(first, second),
    ensures
        switch_of(first@, second@, requested) matches Ok(s) && {
            &&& requested == Some(Partition::Both) <==> s.action == Err::<Action, SwitchError>(
                SwitchError::BothRequested,
            )
            &&& requested != Some(Partition::Both) <==> s.action is Ok
            &&& requested != Some(Partition::Both) ==> {
                let a = if s.target == Partition::RootfsA {
                    4u64
                } else {
                    0
                };
                let b = if s.target == Partition::RootfsB {
                    4u64
                } else {
                    0
                };
                let after = switched(first@, second@, s.action->Ok_0);
                let same = first.attribute_bits == a && second.attribute_bits == b;
                &&& same ==> s.action->Ok_0 == Action::Nothing
                &&& !same ==> s.action->Ok_0 == (Action::Write { a_bits: a, b_bits: b })
                &&& after.0.attribute_bits == a && after.1.attribute_bits == b
                &&& after.0.partition_name == first.partition_name@
                &&& after.0.partition_type_guid == first.partition_type_guid@
                &&& after.0.starting_lba == first.starting_lba
                &&& after.0.ending_lba == first.ending_lba
                &&& after.1.partition_name == second.partition_name@
                &&& after.1.partition_type_guid == second.partition_type_guid@
                &&& after.1.starting_lba == second.starting_lba
                &&& after.1.ending_lba == second.ending_lba
            }
        },
{
    law_entry_flags(first);
    law_entry_flags(second);
}

/// The names of a slot: its own, and its letter, small or capital. Any other text is repeated in
/// the error.
pub proof fn law_slot_names(s: Seq<char>)
    ensures
        partition_in(s) == Ok::<Partition, Seq<char>>(Partition::RootfsA) <==> s == "rootfs_a"@
            || s == seq!['a'] || s == seq!['A'],
        partition_in(s) == Ok::<Partition, Seq<char>>(Partition::RootfsB) <==> s == "rootfs_b"@
            || s == seq!['b'] || s == seq!['B'],
        partition_in(s) != Ok::<Partition, Seq<char>>(Partition::Both),
        partition_in(s) matches Err(e) ==> e
            == "expected rootfs_a or rootfs_b for switch-rootfs, got "@ + s,
{
    reveal_strlit("a");
    reveal_strlit("A");
    reveal_strlit("b");
    reveal_strlit("B");
    reveal_strlit("rootfs_a");
    reveal_strlit("rootfs_b");
    assert("a"@ =~= seq!['a']);
    assert("A"@ =~= seq!['A']);
    assert("b"@ =~= seq!['b']);
    assert("B"@ =~= seq!['B']);
    assert("rootfs_a"@.len() == 8 && "rootfs_b"@.len() == 8);
    assert("rootfs_a"@[7] == 'a' && "rootfs_b"@[7] == 'b');
    assert(seq!['a'][0] == 'a' && seq!['A'][0] == 'A');
    assert(seq!['b'][0] == 'b' && seq!['B'][0] == 'B');
}

/// What is said of a switch names the slot that it goes to, and the marks that it found.
pub proof fn law_switch_texts(s: Switch)
    ensures
        s.target == Partition::RootfsA ==> {
            &&& s.spec_done_text() == "Done. Next boot will use "@ + "rootfs_a"@ + "."@
            &&& s.spec_nothing_text() == "Nothing to do; "@ + "rootfs_a"@
                + " is already the only active slot."@
        },
        s.target == Partition::RootfsB ==> {
            &&& s.spec_done_text() == "Done. Next boot will use "@ + "rootfs_b"@ + "."@
            &&& s.spec_nothing_text() == "Nothing to do; "@ + "rootfs_b"@
                + " is already the only active slot."@
        },
        ({
            let to = if s.target == Partition::RootfsA {
                "rootfs_a"@
            } else if s.target == Partition::RootfsB {
                "rootfs_b"@
            } else {
                "both"@
            };
            let from = match s.active {
                Active::RootfsA => "rootfs_a"@,
                Active::RootfsB => "rootfs_b"@,
                Active::Both => "both"@,
                Active::Neither => "neither"@,
            };
            s.spec_announcement() == "Active slot: "@ + from + " -> switching to "@ + to
        }),
        s.spec_warning() is Some <==> s.defaulted,
        s.defaulted && s.active == Active::Both ==> s.spec_warning() == Some(
            "warning: both rootfs_a and rootfs_b are marked active; defaulting to rootfs_a"@,
        ),
        s.defaulted && s.active != Active::Both ==> s.spec_warning() == Some(
            "warning: neither rootfs_a nor rootfs_b is marked active; defaulting to rootfs_a"@,
        ),
        SwitchError::NoLayout.spec_message()
            == "SD card does not have a leaflash A/B layout (rootfs_a + rootfs_b in slots 1 and 2); flash one with `leaflash flash` first"@,
        SwitchError::BothRequested.spec_message()
            == "switch-rootfs only supports rootfs_a or rootfs_b"@,
{
}

/// Other bits change nothing else about an entry.
pub proof fn law_other_bits(e: GptEntryView, bits: u64)
    ensures
        with_bits(e, bits).attribute_bits == bits,
        with_bits(e, bits).partition_name == e.partition_name,
        with_bits(e, bits).partition_type_guid == e.partition_type_guid,
        with_bits(e, bits).starting_lba == e.starting_lba,
        with_bits(e, bits).ending_lba == e.ending_lba,
{
}

} // verus!
