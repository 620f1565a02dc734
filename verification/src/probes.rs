//! The list of probes, as the drive keeps it and as the host mirrors it.
//!
//! Both sides change the list by the same three commands and in the same
//! way, so that a host that replays the commands the drive has confirmed
//! holds the very list the drive holds.

use vstd::prelude::*;
use crate::address::ContainerGetter;
use crate::common::{HostToDevice, Report, SCOPE_PROBES};

verus! {

/// The list without the probe at place `i`: the last probe takes its
/// place.
pub open spec fn swap_removed(probes: Seq<ContainerGetter>, i: int) -> Seq<ContainerGetter>
    recommends
        0 <= i < probes.len(),
{
    probes.update(i, probes.last()).drop_last()
}

/// The list of probes after a command. A probe is added at the end while
/// there is room; the probe at a place is removed if there is one; any
/// other command leaves the list as it is.
pub open spec fn probes_after(
    probes: Seq<ContainerGetter>,
    command: HostToDevice,
) -> Seq<ContainerGetter> {
    match command {
        HostToDevice::AddProbe(g) => if probes.len() < SCOPE_PROBES {
            probes.push(g)
        } else {
            probes
        },
        HostToDevice::RemoveProbe(i) => if (i as int) < probes.len() {
            swap_removed(probes, i as int)
        } else {
            probes
        },
        HostToDevice::ClearProbes => Seq::empty(),
        _ => probes,
    }
}

/// The list of probes after a run of commands.
pub open spec fn probes_after_all(
    probes: Seq<ContainerGetter>,
    commands: Seq<HostToDevice>,
) -> Seq<ContainerGetter>
    decreases commands.len(),
{
    if commands.len() == 0 {
        probes
    } else {
        probes_after(probes_after_all(probes, commands.drop_last()), commands.last())
    }
}

/// The first place at which `g` stands in the list; the length of the
/// list if it stands nowhere.
pub open spec fn first_place(probes: Seq<ContainerGetter>, g: ContainerGetter) -> nat
    decreases probes.len(),
{
    if probes.len() == 0 {
        0
    } else if probes[0] == g {
        0
    } else {
        1 + first_place(probes.subrange(1, probes.len() as int), g)
    }
}

/// The first place of a probe lies in the list exactly if the probe does,
/// and the probe stands there and nowhere before.
pub proof fn lemma_first_place(probes: Seq<ContainerGetter>, g: ContainerGetter)
    ensures
        first_place(probes, g) <= probes.len(),
        first_place(probes, g) < probes.len() <==> probes.contains(g),
        first_place(probes, g) < probes.len() ==> probes[first_place(probes, g) as int] == g,
        forall|i: int| 0 <= i < first_place(probes, g) ==> probes[i] != g,
    decreases probes.len(),
{
    if probes.len() > 0 {
        let rest = probes.subrange(1, probes.len() as int);
        lemma_first_place(rest, g);
        if probes[0] == g {
            assert(probes.contains(g));
        } else {
            if rest.contains(g) {
                let i = choose|i: int| 0 <= i < rest.len() && rest[i] == g;
                assert(probes[i + 1] == g);
            }
            if probes.contains(g) {
                let i = choose|i: int| 0 <= i < probes.len() && probes[i] == g;
                assert(rest[i - 1] == g);
            }
            assert forall|i: int| 0 <= i < first_place(probes, g) implies probes[i] != g by {
                if i > 0 {
                    assert(probes[i] == rest[i - 1]);
                }
            }
        }
    }
}

/// Whether a command changes the list of probes, and so is confirmed.
pub open spec fn spec_is_probe_command(command: HostToDevice) -> bool {
    command is AddProbe || command is RemoveProbe || command is ClearProbes
}

/// The confirmation that the drive sends for a command that changes the
/// list of probes.
pub open spec fn confirmation_of(command: HostToDevice) -> Option<Report> {
    match command {
        HostToDevice::AddProbe(_) => Some(Report::ProbeAdded),
        HostToDevice::RemoveProbe(_) => Some(Report::ProbeRemoved),
        HostToDevice::ClearProbes => Some(Report::ProbeCleared),
        _ => None,
    }
}

#[verifier::when_used_as_spec(spec_is_probe_command)]
pub fn is_probe_command(command: HostToDevice) -> (r: bool)
    ensures
        r == spec_is_probe_command(command),
{
    match command {
        HostToDevice::AddProbe(_) | HostToDevice::RemoveProbe(_) | HostToDevice::ClearProbes => true,
        _ => false,
    }
}

/// A copy of a list of probes.
pub fn copy_of(probes: &Vec<ContainerGetter>) -> (r: Vec<ContainerGetter>)
    ensures
        r@ == probes@,
{
    let mut out: Vec<ContainerGetter> = Vec::new();
    let mut i: usize = 0;
    while i < probes.len()
        invariant
            i <= probes@.len(),
            out@ == probes@.subrange(0, i as int),
        decreases probes@.len() - i,
    {
        out.push(probes[i]);
        assert(out@ =~= probes@.subrange(0, i + 1));
        i += 1;
    }
    assert(probes@.subrange(0, probes@.len() as int) =~= probes@);
    out
}

/// Changes the list of probes as a command says.
pub fn apply_to_probes(probes: &mut Vec<ContainerGetter>, command: HostToDevice)
    requires
        old(probes)@.len() <= SCOPE_PROBES,
    ensures
        final(probes)@ == probes_after(old(probes)@, command),
        final(probes)@.len() <= SCOPE_PROBES,
{
    match command {
        HostToDevice::AddProbe(g) => {
            if probes.len() < SCOPE_PROBES {
                probes.push(g);
            }
        },
        HostToDevice::RemoveProbe(i) => {
            if (i as usize) < probes.len() {
                probes.swap_remove(i as usize);
            }
        },
        HostToDevice::ClearProbes => {
            probes.clear();
        },
        _ => {},
    }
}

/// The list never holds more probes than a sample has bits for.
pub proof fn lemma_probes_stay_bounded(probes: Seq<ContainerGetter>, command: HostToDevice)
    requires
        probes.len() <= SCOPE_PROBES,
    ensures
        probes_after(probes, command).len() <= SCOPE_PROBES,
{
}

/// Running two runs of commands one after the other is running them as
/// one.
pub proof fn lemma_probes_after_all_concat(
    probes: Seq<ContainerGetter>,
    first: Seq<HostToDevice>,
    second: Seq<HostToDevice>,
)
    ensures
        probes_after_all(probes, first + second) == probes_after_all(
            probes_after_all(probes, first),
            second,
        ),
    decreases second.len(),
{
    if second.len() == 0 {
        assert(first + second =~= first);
    } else {
        let all = first + second;
        assert(all.last() == second.last());
        assert(all.drop_last() =~= first + second.drop_last());
        lemma_probes_after_all_concat(probes, first, second.drop_last());
    }
}

/// Carrying out the first command of a run and then the others is
/// carrying out the run.
pub proof fn lemma_probes_after_first(probes: Seq<ContainerGetter>, commands: Seq<HostToDevice>)
    requires
        commands.len() > 0,
    ensures
        probes_after_all(probes, commands) == probes_after_all(
            probes_after(probes, commands[0]),
            commands.subrange(1, commands.len() as int),
        ),
{
    let head = seq![commands[0]];
    let others = commands.subrange(1, commands.len() as int);
    assert(commands =~= head + others);
    lemma_probes_after_all_concat(probes, head, others);
    assert(head.drop_last() =~= Seq::<HostToDevice>::empty());
    assert(head.last() == commands[0]);
    assert(probes_after_all(probes, head.drop_last()) == probes);
    assert(probes_after_all(probes, head) == probes_after(probes, commands[0]));
}

/// A run of commands never leaves more probes than a sample has bits
/// for.
pub proof fn lemma_probes_after_all_bounded(
    probes: Seq<ContainerGetter>,
    commands: Seq<HostToDevice>,
)
    requires
        probes.len() <= SCOPE_PROBES,
    ensures
        probes_after_all(probes, commands).len() <= SCOPE_PROBES,
    decreases commands.len(),
{
    if commands.len() > 0 {
        lemma_probes_after_all_bounded(probes, commands.drop_last());
    }
}

/// Whether `g` stands in the list.
pub fn holds(probes: &[ContainerGetter], g: ContainerGetter) -> (r: bool)
    ensures
        r == probes@.contains(g),
{
    let i = place(probes, g);
    proof {
        lemma_first_place(probes@, g);
    }
    i < probes.len()
}

/// The first place at which `g` stands in the list; the length of the
/// list if it stands nowhere.
pub fn place(probes: &[ContainerGetter], g: ContainerGetter) -> (r: usize)
    ensures
        r == first_place(probes@, g),
{
    let mut i: usize = 0;
    while i < probes.len()
        invariant
            i <= probes@.len(),
            forall|j: int| 0 <= j < i ==> probes@[j] != g,
        decreases probes@.len() - i,
    {
        if probes[i] == g {
            proof {
                lemma_first_place(probes@, g);
                assert(probes@.contains(g));
                if first_place(probes@, g) > i {
                    assert(probes@[i as int] != g);
                }
            }
            return i;
        }
        i += 1;
    }
    proof {
        lemma_first_place(probes@, g);
        if probes@.contains(g) {
            let k = choose|k: int| 0 <= k < probes@.len() && probes@[k] == g;
            assert(probes@[k] != g);
        }
    }
    i
}

} // verus!
