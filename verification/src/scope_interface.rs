//! The host's view of the probes.
//!
//! The host wants a set of probes; the drive holds a list of them and
//! changes it only when told, one command at a time, confirming each. The
//! host keeps the commands it has sent and not yet seen confirmed, and a
//! mirror of the drive's list that it changes only on confirmation. Samples
//! are read against the mirror, never against what the host wants.

use std::collections::VecDeque;
use vstd::prelude::*;
use crate::address::{ContainerGetter, Value};
use crate::common::{unpacked, DeviceToHost, HostToDevice, Report, SCOPE_PROBES};
use crate::probes::{
    apply_to_probes,
    confirmation_of,
    copy_of,
    first_place,
    holds,
    lemma_first_place,
    lemma_probes_after_all_concat,
    lemma_probes_after_first,
    place,
    probes_after,
    probes_after_all,
};

verus! {

/// The probes of `new`, up to place `upto`, that the host does not want
/// yet: each once, in the order in which they first stand in `new`.
pub open spec fn additions(
    current: Seq<ContainerGetter>,
    new: Seq<ContainerGetter>,
    upto: nat,
) -> Seq<ContainerGetter>
    decreases upto,
{
    if upto == 0 {
        Seq::empty()
    } else {
        let before = additions(current, new, (upto - 1) as nat);
        let g = new[upto - 1];
        if current.contains(g) || before.contains(g) {
            before
        } else {
            before.push(g)
        }
    }
}

/// The commands that add the probes `added`, in order.
pub open spec fn add_commands(added: Seq<ContainerGetter>) -> Seq<HostToDevice> {
    Seq::new(added.len(), |i: int| HostToDevice::AddProbe(added[i]))
}

/// What becomes of the wanted probes when those that are wanted no longer
/// are removed.
pub struct Plan {
    /// The probes that stay wanted.
    pub kept: Seq<ContainerGetter>,
    /// The commands that remove the others.
    pub commands: Seq<HostToDevice>,
    /// The list that the drive will hold once it has carried out all that
    /// has been sent.
    pub projected: Seq<ContainerGetter>,
}

/// Whether the probe `g` is to be removed now: it is wanted no longer, its
/// addition has been confirmed, and the drive will still hold it when the
/// command arrives.
pub open spec fn removable(
    g: ContainerGetter,
    new: Seq<ContainerGetter>,
    synced: Seq<ContainerGetter>,
    projected: Seq<ContainerGetter>,
) -> bool {
    !new.contains(g) && synced.contains(g) && projected.contains(g)
}

/// The plan for the first `upto` of the wanted probes `requests`. A probe
/// that is removable is removed by its place in the list that the drive
/// will hold when the command arrives; any other stays wanted.
pub open spec fn removals(
    requests: Seq<ContainerGetter>,
    new: Seq<ContainerGetter>,
    synced: Seq<ContainerGetter>,
    projected: Seq<ContainerGetter>,
    upto: nat,
) -> Plan
    decreases upto,
{
    if upto == 0 {
        Plan { kept: Seq::empty(), commands: Seq::empty(), projected }
    } else {
        let p = removals(requests, new, synced, projected, (upto - 1) as nat);
        let g = requests[upto - 1];
        if removable(g, new, synced, p.projected) {
            let command = HostToDevice::RemoveProbe(first_place(p.projected, g) as u8);
            Plan {
                kept: p.kept,
                commands: p.commands.push(command),
                projected: probes_after(p.projected, command),
            }
        } else {
            Plan { kept: p.kept.push(g), commands: p.commands, projected: p.projected }
        }
    }
}

/// The probes of `probes` that have a value in `values`, each with its
/// value, in order.
pub open spec fn paired(
    values: Seq<Option<Value>>,
    probes: Seq<ContainerGetter>,
    upto: nat,
) -> Seq<(ContainerGetter, Value)>
    decreases upto,
{
    if upto == 0 {
        Seq::empty()
    } else {
        let before = paired(values, probes, (upto - 1) as nat);
        match values[upto - 1] {
            Some(v) => before.push((probes[upto - 1], v)),
            None => before,
        }
    }
}

/// The values of one tick, each with the probe that it belongs to.
pub struct Sample {
    pub id: u32,
    pub values: Vec<(ContainerGetter, Value)>,
}

/// Why a message could not be taken in.
#[derive(Clone, Copy, Debug, PartialEq, Eq, Structural)]
pub enum SyncError {
    /// A confirmation came that is not the one awaited next.
    Unconfirmed,
    /// A reply to a read or a write came, which is not for this side.
    Misrouted,
}

/// The host's view of the probes.
pub struct ScopeInterface {
    current_requests: Vec<ContainerGetter>,
    synced_probes: Vec<ContainerGetter>,
    pending: VecDeque<HostToDevice>,
}

/// A copy of a queue of commands.
fn copy_of_queue(queue: &VecDeque<HostToDevice>) -> (r: VecDeque<HostToDevice>)
    ensures
        r@ == queue@,
{
    let mut out: VecDeque<HostToDevice> = VecDeque::new();
    let mut i: usize = 0;
    while i < queue.len()
        invariant
            i <= queue@.len(),
            out@ == queue@.subrange(0, i as int),
        decreases queue@.len() - i,
    {
        out.push_back(queue[i]);
        assert(out@ =~= queue@.subrange(0, i + 1));
        i += 1;
    }
    assert(queue@.subrange(0, queue@.len() as int) =~= queue@);
    out
}

/// The list that the drive holds once it has carried out `queue`, having
/// held `probes`.
fn replay(probes: &Vec<ContainerGetter>, queue: &VecDeque<HostToDevice>) -> (r: Vec<
    ContainerGetter,
>)
    requires
        probes@.len() <= SCOPE_PROBES,
    ensures
        r@ == probes_after_all(probes@, queue@),
        r@.len() <= SCOPE_PROBES,
{
    let mut out = copy_of(probes);
    let mut i: usize = 0;
    while i < queue.len()
        invariant
            i <= queue@.len(),
            out@.len() <= SCOPE_PROBES,
            out@ == probes_after_all(probes@, queue@.subrange(0, i as int)),
        decreases queue@.len() - i,
    {
        proof {
            let upto = queue@.subrange(0, i + 1);
            assert(upto.drop_last() =~= queue@.subrange(0, i as int));
            assert(upto.last() == queue@[i as int]);
        }
        apply_to_probes(&mut out, queue[i]);
        i += 1;
    }
    assert(queue@.subrange(0, queue@.len() as int) =~= queue@);
    out
}

impl ScopeInterface {
    #[verifier::type_invariant]
    spec fn inv(self) -> bool {
        self.synced_probes@.len() <= SCOPE_PROBES
    }

    /// The probes that the host wants.
    pub closed spec fn requests(&self) -> Seq<ContainerGetter> {
        self.current_requests@
    }

    /// The mirror of the drive's list: the list as the last confirmation
    /// left it.
    pub closed spec fn synced(&self) -> Seq<ContainerGetter> {
        self.synced_probes@
    }

    /// The commands sent and not yet confirmed, oldest first.
    pub closed spec fn pending(&self) -> Seq<HostToDevice> {
        self.pending@
    }

    /// The list that the drive will hold once it has carried out all that
    /// has been sent.
    pub open spec fn projected(&self) -> Seq<ContainerGetter> {
        probes_after_all(self.synced(), self.pending())
    }

    /// A view that wants nothing and mirrors an empty list. It starts by
    /// having the drive clear its probes: the command is given for sending
    /// and awaits its confirmation.
    pub fn new() -> (r: (ScopeInterface, HostToDevice))
        ensures
            r.0.requests() == Seq::<ContainerGetter>::empty(),
            r.0.synced() == Seq::<ContainerGetter>::empty(),
            r.0.pending() == seq![HostToDevice::ClearProbes],
            r.1 == HostToDevice::ClearProbes,
    {
        let mut pending: VecDeque<HostToDevice> = VecDeque::new();
        pending.push_back(HostToDevice::ClearProbes);
        assert(pending@ =~= seq![HostToDevice::ClearProbes]);
        (
            ScopeInterface { current_requests: Vec::new(), synced_probes: Vec::new(), pending },
            HostToDevice::ClearProbes,
        )
    }

    /// The probes against which samples are read.
    pub fn synced_probes(&self) -> (r: Vec<ContainerGetter>)
        ensures
            r@ == self.synced(),
            r@.len() <= SCOPE_PROBES,
    {
        proof {
            use_type_invariant(self);
        }
        copy_of(&self.synced_probes)
    }

    /// The probes that the host wants.
    pub fn current_requests(&self) -> (r: Vec<ContainerGetter>)
        ensures
            r@ == self.requests(),
    {
        copy_of(&self.current_requests)
    }

    /// The number of commands sent and not yet confirmed.
    pub fn pending_len(&self) -> (r: usize)
        ensures
            r == self.pending().len(),
    {
        self.pending.len()
    }

    /// Says which probes the host wants from now on, and gives the
    /// commands to send, in order.
    ///
    /// A probe that is newly wanted is added at once. A probe that is
    /// wanted no longer is removed, by its place in the list that the drive
    /// will hold when the command arrives, once its addition has been
    /// confirmed; until then it stays wanted and a later call removes it.
    /// The mirror does not change.
    pub fn req_set(&mut self, new_requests: &[ContainerGetter]) -> (r: Vec<HostToDevice>)
        ensures
            final(self).synced() == old(self).synced(),
            final(self).pending() == old(self).pending() + r@,
            ({
                let added = additions(old(self).requests(), new_requests@, new_requests@.len());
                let wanted = old(self).requests() + added;
                let plan = removals(
                    wanted,
                    new_requests@,
                    old(self).synced(),
                    probes_after_all(
                        old(self).synced(),
                        old(self).pending() + add_commands(added),
                    ),
                    wanted.len(),
                );
                &&& r@ == add_commands(added) + plan.commands
                &&& final(self).requests() == plan.kept
                &&& final(self).projected() == plan.projected
            }),
    {
        proof {
            use_type_invariant(&*self);
        }
        let synced = copy_of(&self.synced_probes);
        let mut requests = copy_of(&self.current_requests);
        let mut pending = copy_of_queue(&self.pending);
        let mut projected = replay(&synced, &pending);
        let mut emitted: Vec<HostToDevice> = Vec::new();
        let ghost current = requests@;
        let ghost sent = pending@;
        let ghost mut added: Seq<ContainerGetter> = Seq::empty();
        assert(sent + add_commands(added) =~= sent);
        assert(emitted@ =~= add_commands(added));
        assert(requests@ =~= current + added);
        let mut k: usize = 0;
        while k < new_requests.len()
            invariant
                k <= new_requests@.len(),
                added == additions(current, new_requests@, k as nat),
                requests@ == current + added,
                emitted@ == add_commands(added),
                pending@ == sent + emitted@,
                projected@ == probes_after_all(synced@, pending@),
                projected@.len() <= SCOPE_PROBES,
                synced@.len() <= SCOPE_PROBES,
            decreases new_requests@.len() - k,
        {
            let g = new_requests[k];
            proof {
                assert((current + added).contains(g) <==> current.contains(g) || added.contains(g))
                    by {
                    if (current + added).contains(g) {
                        let i = choose|i: int|
                            0 <= i < (current + added).len() && (current + added)[i] == g;
                        if i < current.len() {
                            assert(current[i] == g);
                        } else {
                            assert(added[i - current.len()] == g);
                        }
                    }
                    if current.contains(g) {
                        let i = choose|i: int| 0 <= i < current.len() && current[i] == g;
                        assert((current + added)[i] == g);
                    }
                    if added.contains(g) {
                        let i = choose|i: int| 0 <= i < added.len() && added[i] == g;
                        assert((current + added)[current.len() + i] == g);
                    }
                }
            }
            if !holds(requests.as_slice(), g) {
                let command = HostToDevice::AddProbe(g);
                emitted.push(command);
                pending.push_back(command);
                apply_to_probes(&mut projected, command);
                requests.push(g);
                proof {
                    let next = added.push(g);
                    assert(add_commands(next) =~= add_commands(added).push(command));
                    assert(pending@ =~= sent + emitted@);
                    assert(pending@.drop_last() =~= sent + add_commands(added));
                    assert(requests@ =~= current + next);
                    added = next;
                }
            }
            k += 1;
        }
        let wanted = copy_of(&requests);
        let ghost start = projected@;
        let ghost adds = emitted@;
        let mut kept: Vec<ContainerGetter> = Vec::new();
        assert(emitted@ =~= adds + Seq::<HostToDevice>::empty());
        let mut k: usize = 0;
        while k < wanted.len()
            invariant
                k <= wanted@.len(),
                kept@ == removals(wanted@, new_requests@, synced@, start, k as nat).kept,
                emitted@ == adds + removals(
                    wanted@,
                    new_requests@,
                    synced@,
                    start,
                    k as nat,
                ).commands,
                projected@ == removals(wanted@, new_requests@, synced@, start, k as nat).projected,
                pending@ == sent + emitted@,
                projected@ == probes_after_all(synced@, pending@),
                projected@.len() <= SCOPE_PROBES,
                synced@.len() <= SCOPE_PROBES,
            decreases wanted@.len() - k,
        {
            let g = wanted[k];
            let ghost plan = removals(wanted@, new_requests@, synced@, start, k as nat);
            let i = place(projected.as_slice(), g);
            proof {
                lemma_first_place(projected@, g);
            }
            if !holds(new_requests, g) && holds(synced.as_slice(), g) && i < projected.len() {
                let command = HostToDevice::RemoveProbe(i as u8);
                emitted.push(command);
                pending.push_back(command);
                apply_to_probes(&mut projected, command);
                proof {
                    assert(emitted@ =~= adds + plan.commands.push(command));
                    assert(pending@ =~= sent + emitted@);
                    assert(pending@.drop_last() =~= sent + (adds + plan.commands));
                }
            } else {
                kept.push(g);
            }
            k += 1;
        }
        *self = ScopeInterface { current_requests: kept, synced_probes: synced, pending };
        emitted
    }

    /// Takes in a message from the drive.
    ///
    /// A sample is read against the mirror and given back, each value with
    /// its probe. A confirmation that answers the oldest command not yet
    /// confirmed takes that command off the list and carries it out on the
    /// mirror. Any other confirmation, and a reply to a read or a write, is
    /// an error and changes nothing.
    pub fn try_recv(&mut self, message: &DeviceToHost) -> (r: Result<Option<Sample>, SyncError>)
        ensures
            final(self).requests() == old(self).requests(),
            match message@ {
                Report::Sample { id, probe_valid, bytes } => {
                    &&& final(self).synced() == old(self).synced()
                    &&& final(self).pending() == old(self).pending()
                    &&& r matches Ok(Some(sample))
                    &&& sample.id == id
                    &&& sample.values@ == paired(
                        unpacked(
                            probe_valid,
                            bytes,
                            old(self).synced(),
                            old(self).synced().len(),
                        ).0,
                        old(self).synced(),
                        old(self).synced().len(),
                    )
                },
                Report::ProbeAdded | Report::ProbeRemoved | Report::ProbeCleared => if old(
                    self,
                ).pending().len() > 0 && confirmation_of(old(self).pending()[0]) == Some(
                    message@,
                ) {
                    &&& r == Ok::<Option<Sample>, SyncError>(None)
                    &&& final(self).pending() == old(self).pending().subrange(
                        1,
                        old(self).pending().len() as int,
                    )
                    &&& final(self).synced() == probes_after(
                        old(self).synced(),
                        old(self).pending()[0],
                    )
                } else {
                    &&& r == Err::<Option<Sample>, SyncError>(SyncError::Unconfirmed)
                    &&& final(self).synced() == old(self).synced()
                    &&& final(self).pending() == old(self).pending()
                },
                _ => {
                    &&& r == Err::<Option<Sample>, SyncError>(SyncError::Misrouted)
                    &&& final(self).synced() == old(self).synced()
                    &&& final(self).pending() == old(self).pending()
                },
            },
    {
        proof {
            use_type_invariant(&*self);
        }
        match message {
            DeviceToHost::Sample(packet) => {
                let results = packet.rehydrate(self.synced_probes.as_slice());
                let mut values: Vec<(ContainerGetter, Value)> = Vec::new();
                let mut k: usize = 0;
                while k < results.len()
                    invariant
                        k <= results@.len(),
                        results@.len() == self.synced_probes@.len(),
                        values@ == paired(results@, self.synced_probes@, k as nat),
                    decreases results@.len() - k,
                {
                    match results[k] {
                        Some(v) => values.push((self.synced_probes[k], v)),
                        None => {},
                    }
                    k += 1;
                }
                Ok(Some(Sample { id: packet.id, values }))
            },
            DeviceToHost::ProbeAdded => self.confirm(0),
            DeviceToHost::ProbeRemoved => self.confirm(1),
            DeviceToHost::ProbeCleared => self.confirm(2),
            _ => Err(SyncError::Misrouted),
        }
    }

    /// Takes in a confirmation: zero for an addition, one for a removal,
    /// two for a clearing.
    fn confirm(&mut self, which: u8) -> (r: Result<Option<Sample>, SyncError>)
        requires
            which <= 2,
        ensures
            final(self).requests() == old(self).requests(),
            ({
                let report = if which == 0 {
                    Report::ProbeAdded
                } else if which == 1 {
                    Report::ProbeRemoved
                } else {
                    Report::ProbeCleared
                };
                if old(self).pending().len() > 0 && confirmation_of(old(self).pending()[0])
                    == Some(report) {
                    &&& r == Ok::<Option<Sample>, SyncError>(None)
                    &&& final(self).pending() == old(self).pending().subrange(
                        1,
                        old(self).pending().len() as int,
                    )
                    &&& final(self).synced() == probes_after(
                        old(self).synced(),
                        old(self).pending()[0],
                    )
                } else {
                    &&& r == Err::<Option<Sample>, SyncError>(SyncError::Unconfirmed)
                    &&& final(self).synced() == old(self).synced()
                    &&& final(self).pending() == old(self).pending()
                }
            }),
    {
        proof {
            use_type_invariant(&*self);
        }
        if self.pending.len() == 0 {
            return Err(SyncError::Unconfirmed);
        }
        let head = self.pending[0];
        let answers = match head {
            HostToDevice::AddProbe(_) => which == 0,
            HostToDevice::RemoveProbe(_) => which == 1,
            HostToDevice::ClearProbes => which == 2,
            _ => false,
        };
        if !answers {
            return Err(SyncError::Unconfirmed);
        }
        let mut pending = copy_of_queue(&self.pending);
        pending.pop_front();
        let mut synced = copy_of(&self.synced_probes);
        apply_to_probes(&mut synced, head);
        *self = ScopeInterface {
            current_requests: copy_of(&self.current_requests),
            synced_probes: synced,
            pending,
        };
        Ok(None)
    }
}

/// The list that a plan projects is the list that its commands leave.
pub proof fn lemma_plan_projects(
    requests: Seq<ContainerGetter>,
    new: Seq<ContainerGetter>,
    synced: Seq<ContainerGetter>,
    projected: Seq<ContainerGetter>,
    upto: nat,
)
    requires
        upto <= requests.len(),
        projected.len() <= SCOPE_PROBES,
    ensures
        removals(requests, new, synced, projected, upto).projected == probes_after_all(
            projected,
            removals(requests, new, synced, projected, upto).commands,
        ),
        removals(requests, new, synced, projected, upto).projected.len() <= SCOPE_PROBES,
    decreases upto,
{
    if upto > 0 {
        lemma_plan_projects(requests, new, synced, projected, (upto - 1) as nat);
        let p = removals(requests, new, synced, projected, (upto - 1) as nat);
        let g = requests[upto - 1];
        if removable(g, new, synced, p.projected) {
            let command = HostToDevice::RemoveProbe(first_place(p.projected, g) as u8);
            assert(p.commands.push(command).drop_last() =~= p.commands);
        }
    }
}

/// Every command of a plan removes a probe whose addition has been
/// confirmed, that was wanted and is wanted no longer, at the place where
/// the drive will hold it when the command arrives. So no probe is ever
/// removed before its addition has been confirmed.
pub proof fn lemma_removals_are_confirmed(
    requests: Seq<ContainerGetter>,
    new: Seq<ContainerGetter>,
    synced: Seq<ContainerGetter>,
    projected: Seq<ContainerGetter>,
    upto: nat,
    k: int,
)
    requires
        upto <= requests.len(),
        projected.len() <= SCOPE_PROBES,
        0 <= k < removals(requests, new, synced, projected, upto).commands.len(),
    ensures
        ({
            let plan = removals(requests, new, synced, projected, upto);
            let before = probes_after_all(projected, plan.commands.subrange(0, k));
            &&& plan.commands[k] matches HostToDevice::RemoveProbe(i)
            &&& (i as int) < before.len()
            &&& synced.contains(before[i as int])
            &&& requests.contains(before[i as int])
            &&& !new.contains(before[i as int])
        }),
    decreases upto,
{
    let plan = removals(requests, new, synced, projected, upto);
    if upto > 0 {
        let p = removals(requests, new, synced, projected, (upto - 1) as nat);
        let g = requests[upto - 1];
        if removable(g, new, synced, p.projected) && k == p.commands.len() {
            lemma_plan_projects(requests, new, synced, projected, (upto - 1) as nat);
            lemma_first_place(p.projected, g);
            assert(plan.commands.subrange(0, k) =~= p.commands);
            assert(requests.contains(g));
        } else {
            lemma_removals_are_confirmed(requests, new, synced, projected, (upto - 1) as nat, k);
            assert(plan.commands.subrange(0, k) =~= p.commands.subrange(0, k));
        }
    }
}

/// A probe that is still wanted, and a probe whose addition has not been
/// confirmed yet, stays wanted: the removal of the latter is put off.
pub proof fn lemma_unconfirmed_stay_wanted(
    requests: Seq<ContainerGetter>,
    new: Seq<ContainerGetter>,
    synced: Seq<ContainerGetter>,
    projected: Seq<ContainerGetter>,
    upto: nat,
    j: int,
)
    requires
        upto <= requests.len(),
        0 <= j < upto,
        new.contains(requests[j]) || !synced.contains(requests[j]),
    ensures
        removals(requests, new, synced, projected, upto).kept.contains(requests[j]),
    decreases upto,
{
    let p = removals(requests, new, synced, projected, (upto - 1) as nat);
    let plan = removals(requests, new, synced, projected, upto);
    let g = requests[upto - 1];
    if j == upto - 1 {
        assert(plan.kept == p.kept.push(g));
        assert(plan.kept[p.kept.len() as int] == g);
    } else {
        lemma_unconfirmed_stay_wanted(requests, new, synced, projected, (upto - 1) as nat, j);
        let i = choose|i: int| 0 <= i < p.kept.len() && p.kept[i] == requests[j];
        if !removable(g, new, synced, p.projected) {
            assert(plan.kept[i] == requests[j]);
        }
    }
}

/// Every probe that stays wanted was wanted.
pub proof fn lemma_kept_were_wanted(
    requests: Seq<ContainerGetter>,
    new: Seq<ContainerGetter>,
    synced: Seq<ContainerGetter>,
    projected: Seq<ContainerGetter>,
    upto: nat,
    i: int,
)
    requires
        upto <= requests.len(),
        0 <= i < removals(requests, new, synced, projected, upto).kept.len(),
    ensures
        requests.contains(removals(requests, new, synced, projected, upto).kept[i]),
    decreases upto,
{
    if upto > 0 {
        let p = removals(requests, new, synced, projected, (upto - 1) as nat);
        if i < p.kept.len() {
            lemma_kept_were_wanted(requests, new, synced, projected, (upto - 1) as nat, i);
        } else {
            assert(requests[upto - 1] == removals(requests, new, synced, projected, upto).kept[i]);
        }
    }
}

/// Every probe that is added is newly wanted: it stands in the new set and
/// was not wanted before; and no probe is added twice.
pub proof fn lemma_additions_are_new(
    current: Seq<ContainerGetter>,
    new: Seq<ContainerGetter>,
    upto: nat,
)
    requires
        upto <= new.len(),
    ensures
        forall|i: int|
            0 <= i < additions(current, new, upto).len() ==> new.contains(
                #[trigger] additions(current, new, upto)[i],
            ) && !current.contains(additions(current, new, upto)[i]),
        forall|i: int, j: int|
            0 <= i < j < additions(current, new, upto).len() ==> additions(current, new, upto)[i]
                != additions(current, new, upto)[j],
        forall|j: int|
            0 <= j < upto && !current.contains(new[j]) ==> additions(current, new, upto).contains(
                #[trigger] new[j],
            ),
    decreases upto,
{
    if upto > 0 {
        lemma_additions_are_new(current, new, (upto - 1) as nat);
        let before = additions(current, new, (upto - 1) as nat);
        let after = additions(current, new, upto);
        let g = new[upto - 1];
        assert forall|j: int| 0 <= j < upto && !current.contains(new[j]) implies after.contains(
            #[trigger] new[j],
        ) by {
            if j < upto - 1 {
                let i = choose|i: int| 0 <= i < before.len() && before[i] == new[j];
                assert(after[i] == new[j]);
            } else if before.contains(g) {
            } else {
                assert(after[before.len() as int] == g);
            }
        }
    }
}

/// The two ends of the link as far as the probes go: the list that the
/// drive holds, the mirror that the host holds, and the commands on their
/// way.
pub struct Link {
    /// The list that the drive holds.
    pub device: Seq<ContainerGetter>,
    /// The mirror that the host holds.
    pub synced: Seq<ContainerGetter>,
    /// The commands that the host has sent and not seen confirmed.
    pub pending: Seq<HostToDevice>,
    /// The commands that the drive has carried out and whose confirmation
    /// the host has not taken in.
    pub confirmed: Seq<HostToDevice>,
    /// The commands that the drive has not carried out.
    pub to_device: Seq<HostToDevice>,
}

impl Link {
    /// Whether the two ends are in step: what the host awaits is what the
    /// drive has confirmed and what it has yet to carry out, in that order,
    /// and the drive holds what the mirror becomes by what is confirmed.
    pub open spec fn in_step(self) -> bool {
        &&& self.pending == self.confirmed + self.to_device
        &&& self.device == probes_after_all(self.synced, self.confirmed)
    }

    /// The link after the host has sent `command`.
    pub open spec fn issued(self, command: HostToDevice) -> Link {
        Link {
            pending: self.pending.push(command),
            to_device: self.to_device.push(command),
            ..self
        }
    }

    /// The link after the drive has carried out the next command.
    pub open spec fn carried_out(self) -> Link
        recommends
            self.to_device.len() > 0,
    {
        Link {
            device: probes_after(self.device, self.to_device[0]),
            confirmed: self.confirmed.push(self.to_device[0]),
            to_device: self.to_device.subrange(1, self.to_device.len() as int),
            ..self
        }
    }

    /// The link after the host has taken in the next confirmation.
    pub open spec fn taken_in(self) -> Link
        recommends
            self.confirmed.len() > 0,
    {
        Link {
            synced: probes_after(self.synced, self.pending[0]),
            pending: self.pending.subrange(1, self.pending.len() as int),
            confirmed: self.confirmed.subrange(1, self.confirmed.len() as int),
            ..self
        }
    }

    /// The list that the drive will hold once it has carried out all that
    /// has been sent.
    pub open spec fn projected(self) -> Seq<ContainerGetter> {
        probes_after_all(self.synced, self.pending)
    }
}

/// Sending a command keeps the two ends in step.
pub proof fn lemma_issuing_keeps_step(link: Link, command: HostToDevice)
    requires
        link.in_step(),
    ensures
        link.issued(command).in_step(),
        link.issued(command).projected() == probes_after(link.projected(), command),
{
    assert(link.pending.push(command) =~= link.confirmed + link.to_device.push(command));
    assert(link.pending.push(command).drop_last() =~= link.pending);
}

/// The drive carrying out a command keeps the two ends in step, and does
/// not change the list that the drive will come to hold.
pub proof fn lemma_carrying_out_keeps_step(link: Link)
    requires
        link.in_step(),
        link.to_device.len() > 0,
    ensures
        link.carried_out().in_step(),
        link.carried_out().projected() == link.projected(),
{
    let c = link.to_device[0];
    let after = link.carried_out();
    assert(after.confirmed + after.to_device =~= link.pending);
    assert(after.confirmed.drop_last() =~= link.confirmed);
}

/// The host taking in a confirmation keeps the two ends in step, and does
/// not change the list that the drive will come to hold.
pub proof fn lemma_taking_in_keeps_step(link: Link)
    requires
        link.in_step(),
        link.confirmed.len() > 0,
    ensures
        link.taken_in().in_step(),
        link.taken_in().projected() == link.projected(),
{
    let after = link.taken_in();
    assert(link.pending[0] == link.confirmed[0]);
    assert(after.pending =~= after.confirmed + after.to_device);
    lemma_probes_after_first(link.synced, link.confirmed);
    lemma_probes_after_first(link.synced, link.pending);
}

/// Once nothing is on its way the mirror is the list that the drive
/// holds, probe for probe and place for place.
pub proof fn lemma_settled_link_agrees(link: Link)
    requires
        link.in_step(),
        link.pending.len() == 0,
    ensures
        link.synced == link.device,
        link.projected() == link.device,
{
    assert(link.confirmed =~= Seq::<HostToDevice>::empty());
}

/// Whatever is on its way, the list that the host projects is the list
/// that the drive comes to hold: what it holds now, changed by what it has
/// yet to carry out. So a place that the host takes from its projection is
/// the place in the drive's list when the command arrives.
pub proof fn lemma_projection_is_the_drives(link: Link)
    requires
        link.in_step(),
    ensures
        link.projected() == probes_after_all(link.device, link.to_device),
{
    lemma_probes_after_all_concat(link.synced, link.confirmed, link.to_device);
}

} // verus!
