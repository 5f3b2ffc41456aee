//! Choosing the rootfs slot that the device starts from.

use crate::device::DeviceAddr;
use crate::flash::{
    active_slot, has_rootfs_slots, rootfs_a_name, rootfs_b_name, rootfs_slots_present, Partition,
};
use crate::gpt::{GptEntry, GptEntryView, ATTR_LEGACY_BIOS_BOOTABLE};
use crate::text::same_text;
use vstd::prelude::*;

verus! {

/// The options of the `switch-rootfs` command.
#[derive(Debug, Clone, Copy)]
pub struct SwitchRootfsArgs {
    /// Target a specific RockUSB device as <bus>:<address>. If omitted
    /// and exactly one device is attached, that one is used.
    pub device: Option<DeviceAddr>,
    /// Slot to make active. If omitted, switch to the inactive slot;
    /// if neither slot is currently active, default to rootfs_a with a
    /// warning.
    pub partition: Option<Partition>,
}

/// The slot that a text names, or the text of the error.
pub open spec fn partition_in(s: Seq<char>) -> Result<Partition, Seq<char>> {
    if s == rootfs_a_name() || s == "a"@ || s == "A"@ {
        Ok(Partition::RootfsA)
    } else if s == rootfs_b_name() || s == "b"@ || s == "B"@ {
        Ok(Partition::RootfsB)
    } else {
        Err("expected rootfs_a or rootfs_b for switch-rootfs, got "@ + s)
    }
}

/// Parse the name of a slot.
pub fn parse_partition(s: &str) -> (r: Result<Partition, String>)
    ensures
        match r {
            Ok(p) => partition_in(s@) == Ok::<Partition, Seq<char>>(p),
            Err(e) => partition_in(s@) == Err::<Partition, Seq<char>>(e@),
        },
{
    if same_text(s, "rootfs_a") || same_text(s, "a") || same_text(s, "A") {
        Ok(Partition::RootfsA)
    } else if same_text(s, "rootfs_b") || same_text(s, "b") || same_text(s, "B") {
        Ok(Partition::RootfsB)
    } else {
        let mut e: String = "expected rootfs_a or rootfs_b for switch-rootfs, got ".to_owned();
        e.append(s);
        Err(e)
    }
}

/// Which of the two slots are marked to start.
#[derive(Debug, Clone, Copy, PartialEq, Eq, Structural)]
pub enum Active {
    RootfsA,
    RootfsB,
    Both,
    Neither,
}

impl Active {
    /// The text for the marked slots.
    pub open spec fn spec_label(self) -> Seq<char> {
        match self {
            Active::RootfsA => "rootfs_a"@,
            Active::RootfsB => "rootfs_b"@,
            Active::Both => "both"@,
            Active::Neither => "neither"@,
        }
    }

    /// The text for the marked slots.
    pub fn label(&self) -> (r: &'static str)
        ensures
            r@ == self.spec_label(),
    {
        match self {
            Active::RootfsA => "rootfs_a",
            Active::RootfsB => "rootfs_b",
            Active::Both => "both",
            Active::Neither => "neither",
        }
    }
}

/// Why no slot is switched.
#[derive(Debug, Clone, Copy, PartialEq, Eq, Structural)]
pub enum SwitchError {
    NoLayout,
    BothRequested,
}

impl SwitchError {
    /// The text of an error.
    pub open spec fn spec_message(self) -> Seq<char> {
        match self {
            SwitchError::NoLayout =>
                "SD card does not have a leaflash A/B layout (rootfs_a + rootfs_b in slots 1 and 2); flash one with `leaflash flash` first"@,
            SwitchError::BothRequested => "switch-rootfs only supports rootfs_a or rootfs_b"@,
        }
    }

    /// The text of this error.
    pub fn message(&self) -> (r: &'static str)
        ensures
            r@ == self.spec_message(),
    {
        match self {
            SwitchError::NoLayout =>
                "SD card does not have a leaflash A/B layout (rootfs_a + rootfs_b in slots 1 and 2); flash one with `leaflash flash` first",
            SwitchError::BothRequested => "switch-rootfs only supports rootfs_a or rootfs_b",
        }
    }
}

/// What is left to do once the slot is chosen.
#[derive(Debug, Clone, Copy, PartialEq, Eq, Structural)]
pub enum Action {
    /// The chosen slot is already the only one that is marked.
    Nothing,
    /// Give the two slots these attribute bits and write the table.
    Write { a_bits: u64, b_bits: u64 },
}

/// What a switch does on a card with the two slots.
#[derive(Debug, Clone, Copy)]
pub struct Switch {
    /// Whether the slot to start was chosen for want of a single marked one.
    pub defaulted: bool,
    pub active: Active,
    pub target: Partition,
    pub action: Result<Action, SwitchError>,
}

/// Which of the two slots are marked to start.
pub open spec fn active_in(first: GptEntryView, second: GptEntryView) -> Active {
    match (first.is_bootable(), second.is_bootable()) {
        (true, false) => Active::RootfsA,
        (false, true) => Active::RootfsB,
        (true, true) => Active::Both,
        (false, false) => Active::Neither,
    }
}

/// The slot to start next: the one asked for, else the one that is not marked, else rootfs_a.
pub open spec fn target_for(active: Active, requested: Option<Partition>) -> Partition {
    match requested {
        Some(p) => p,
        None => if active == Active::RootfsA {
            Partition::RootfsB
        } else {
            Partition::RootfsA
        },
    }
}

/// The attribute bits that mark a slot as the only one to start.
pub open spec fn bits_for(target: Partition) -> (u64, u64) {
    if target == Partition::RootfsA {
        (ATTR_LEGACY_BIOS_BOOTABLE, 0)
    } else {
        (0, ATTR_LEGACY_BIOS_BOOTABLE)
    }
}

/// What is to be done to make a slot the only one to start.
pub open spec fn action_for(first: GptEntryView, second: GptEntryView, target: Partition) -> Result<
    Action,
    SwitchError,
> {
    let bits = bits_for(target);
    if target == Partition::Both {
        Err(SwitchError::BothRequested)
    } else if (first.attribute_bits, second.attribute_bits) == bits {
        Ok(Action::Nothing)
    } else {
        Ok(Action::Write { a_bits: bits.0, b_bits: bits.1 })
    }
}

/// What a switch does, given the first two entries of the table.
pub open spec fn switch_of(
    first: GptEntryView,
    second: GptEntryView,
    requested: Option<Partition>,
) -> Result<Switch, SwitchError> {
    let active = active_in(first, second);
    let target = target_for(active, requested);
    if !has_rootfs_slots(first, second) {
        Err(SwitchError::NoLayout)
    } else {
        Ok(
            Switch {
                defaulted: requested is None && (active == Active::Both || active
                    == Active::Neither),
                active,
                target,
                action: action_for(first, second, target),
            },
        )
    }
}

/// Decide what a switch does, given the first two entries of the table.
pub fn switch(first: &GptEntry, second: &GptEntry, requested: Option<Partition>) -> (r: Result<
    Switch,
    SwitchError,
>)
    ensures
        r == switch_of(first@, second@, requested),
{
    if !rootfs_slots_present(first, second) {
        return Err(SwitchError::NoLayout);
    }
    let active: Active = match (first.is_bootable(), second.is_bootable()) {
        (true, false) => Active::RootfsA,
        (false, true) => Active::RootfsB,
        (true, true) => Active::Both,
        (false, false) => Active::Neither,
    };
    let mut defaulted: bool = false;
    let target: Partition = match requested {
        Some(p) => p,
        None => match active {
            Active::RootfsA => Partition::RootfsB,
            Active::RootfsB => Partition::RootfsA,
            Active::Both | Active::Neither => {
                defaulted = true;
                Partition::RootfsA
            },
        },
    };
    let action: Result<Action, SwitchError> = match target {
        Partition::Both => Err(SwitchError::BothRequested),
        Partition::RootfsA => if first.attribute_bits == ATTR_LEGACY_BIOS_BOOTABLE
            && second.attribute_bits == 0 {
            Ok(Action::Nothing)
        } else {
            Ok(Action::Write { a_bits: ATTR_LEGACY_BIOS_BOOTABLE, b_bits: 0 })
        },
        Partition::RootfsB => if first.attribute_bits == 0 && second.attribute_bits
            == ATTR_LEGACY_BIOS_BOOTABLE {
            Ok(Action::Nothing)
        } else {
            Ok(Action::Write { a_bits: 0, b_bits: ATTR_LEGACY_BIOS_BOOTABLE })
        },
    };
    Ok(Switch { defaulted, active, target, action })
}

impl Switch {
    /// The warning about a slot that was chosen for want of a single marked one.
    pub open spec fn spec_warning(self) -> Option<Seq<char>> {
        if !self.defaulted {
            None
        } else if self.active == Active::Both {
            Some(
                "warning: both rootfs_a and rootfs_b are marked active; defaulting to rootfs_a"@,
            )
        } else {
            Some(
                "warning: neither rootfs_a nor rootfs_b is marked active; defaulting to rootfs_a"@,
            )
        }
    }

    /// The warning about a slot that was chosen for want of a single marked one.
    pub fn warning(&self) -> (r: Option<&'static str>)
        ensures
            match r {
                Some(s) => self.spec_warning() == Some(s@),
                None => self.spec_warning() is None,
            },
    {
        if !self.defaulted {
            None
        } else if self.active == Active::Both {
            Some("warning: both rootfs_a and rootfs_b are marked active; defaulting to rootfs_a")
        } else {
            Some("warning: neither rootfs_a nor rootfs_b is marked active; defaulting to rootfs_a")
        }
    }

    /// The line that announces the switch.
    pub open spec fn spec_announcement(self) -> Seq<char> {
        "Active slot: "@ + self.active.spec_label() + " -> switching to "@ + self.target.spec_name()
    }

    /// The line that announces the switch.
    pub fn announcement(&self) -> (r: String)
        ensures
            r@ == self.spec_announcement(),
    {
        let mut r: String = "Active slot: ".to_owned();
        r.append(self.active.label());
        r.append(" -> switching to ");
        r.append(self.target.name());
        r
    }

    /// The line that closes a switch which needed no writing.
    pub open spec fn spec_nothing_text(self) -> Seq<char> {
        "Nothing to do; "@ + self.target.spec_name() + " is already the only active slot."@
    }

    /// The line that closes a switch which needed no writing.
    pub fn nothing_text(&self) -> (r: String)
        ensures
            r@ == self.spec_nothing_text(),
    {
        let mut r: String = "Nothing to do; ".to_owned();
        r.append(self.target.name());
        r.append(" is already the only active slot.");
        r
    }

    /// The line that closes a switch.
    pub open spec fn spec_done_text(self) -> Seq<char> {
        "Done. Next boot will use "@ + self.target.spec_name() + "."@
    }

    /// The line that closes a switch.
    pub fn done_text(&self) -> (r: String)
        ensures
            r@ == self.spec_done_text(),
    {
        let mut r: String = "Done. Next boot will use ".to_owned();
        r.append(self.target.name());
        r.append(".");
        r
    }
}

/// The text for a device that stayed on another storage.
pub fn storage_refusal(current: &str) -> (r: String)
    ensures
        r@ == "failed to switch storage to SD; current: "@ + current@,
{
    let mut r: String = "failed to switch storage to SD; current: ".to_owned();
    r.append(current);
    r
}

/// The text for a card without a table.
pub fn no_table_text(reason: &str) -> (r: String)
    ensures
        r@ == "no readable GPT on the SD card: "@ + reason@,
{
    let mut r: String = "no readable GPT on the SD card: ".to_owned();
    r.append(reason);
    r
}

/// An entry with other attribute bits.
pub open spec fn with_bits(entry: GptEntryView, attribute_bits: u64) -> GptEntryView {
    GptEntryView { attribute_bits, ..entry }
}

/// The two entries once a switch is done.
pub open spec fn switched(
    first: GptEntryView,
    second: GptEntryView,
    action: Action,
) -> (GptEntryView, GptEntryView) {
    match action {
        Action::Nothing => (first, second),
        Action::Write { a_bits, b_bits } => (with_bits(first, a_bits), with_bits(second, b_bits)),
    }
}

/// What the bits that a switch writes mark.
proof fn lemma_bits(entry: GptEntryView)
    ensures
        with_bits(entry, ATTR_LEGACY_BIOS_BOOTABLE).is_bootable(),
        !with_bits(entry, 0).is_bootable(),
        entry.attribute_bits == ATTR_LEGACY_BIOS_BOOTABLE ==> entry.is_bootable(),
        entry.attribute_bits == 0 ==> !entry.is_bootable(),
{
    assert(4u64 & 4u64 != 0) by (bit_vector);
    assert(0u64 & 4u64 == 0) by (bit_vector);
}

/// After a switch the chosen slot is the only one that is marked to start.
pub proof fn law_switch_marks_only_the_target(
    first: GptEntryView,
    second: GptEntryView,
    requested: Option<Partition>,
)
    requires
        has_rootfs_slots(first, second),
        requested != Some(Partition::Both),
    ensures
        ({
            let switch = switch_of(first, second, requested)->Ok_0;
            let after = switched(first, second, switch.action->Ok_0);
            &&& switch.action is Ok
            &&& has_rootfs_slots(after.0, after.1)
            &&& active_slot(after.0.is_bootable(), after.1.is_bootable()) == Some(switch.target)
        }),
{
    lemma_bits(first);
    lemma_bits(second);
}

/// A slot that was switched to stays: switching to it again changes nothing.
pub proof fn law_switch_is_idempotent(
    first: GptEntryView,
    second: GptEntryView,
    requested: Option<Partition>,
)
    requires
        has_rootfs_slots(first, second),
        requested != Some(Partition::Both),
    ensures
        ({
            let switch = switch_of(first, second, requested)->Ok_0;
            let after = switched(first, second, switch.action->Ok_0);
            let again = switch_of(after.0, after.1, Some(switch.target));
            again is Ok && again->Ok_0.action == Ok::<Action, SwitchError>(Action::Nothing)
        }),
{
    lemma_bits(first);
    lemma_bits(second);
}

/// Without a choice of slot, a second switch goes back to the slot that was active before.
pub proof fn law_switch_twice_goes_back(first: GptEntryView, second: GptEntryView)
    requires
        has_rootfs_slots(first, second),
        active_in(first, second) == Active::RootfsA || active_in(first, second) == Active::RootfsB,
    ensures
        ({
            let switch = switch_of(first, second, None)->Ok_0;
            let after = switched(first, second, switch.action->Ok_0);
            let back = switch_of(after.0, after.1, None)->Ok_0;
            let end = switched(after.0, after.1, back.action->Ok_0);
            &&& switch.action is Ok
            &&& active_in(after.0, after.1) != active_in(first, second)
            &&& back.action is Ok
            &&& active_in(end.0, end.1) == active_in(first, second)
        }),
{
    let switch = switch_of(first, second, None)->Ok_0;
    let after = switched(first, second, switch.action->Ok_0);
    lemma_bits(first);
    lemma_bits(second);
    lemma_bits(after.0);
    lemma_bits(after.1);
}

} // verus!
