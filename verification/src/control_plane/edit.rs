//! Changing a VM while it is there: its egress policy and its ingress forwards.
//!
//! Like the lifecycle, each change is a machine that asks for one action at a
//! time. Each first *declares* the change in the store and then *applies* it to
//! the live network; it touches only the policy columns or one forward, never
//! the placement, so it cannot clobber a lifecycle transition.

use crate::common::identify::{PolicyClaims, SignedPolicy};
use crate::common::ids::{SlotId, VmId};
use crate::common::network::{EgressMode, PortForward, Protocol};
use crate::control_plane::error::Error;
use crate::control_plane::policy::{check_signed, describes, joined_mismatches, Described};
use crate::control_plane::port::{law_allocation_hands_out_a_free_port, PortAllocator};
use crate::control_plane::types::VmRecord;
use crate::text::{same_list, same_option, text_of, texts_of};
use vstd::prelude::*;

verus! {

/// A change to a VM's egress policy. Absent fields are left as they are.
#[derive(Debug)]
pub struct PolicyChange {
    pub principal: Option<String>,
    pub allow: Option<Vec<String>>,
    pub rules: Option<Vec<String>>,
    pub egress: Option<EgressMode>,
    /// The fleet's signature over the policy that results.
    pub signed: Option<SignedPolicy>,
}

/// What a change comes to: the whole policy that results, how it relates to the
/// one before, and the generation of that one.
#[derive(Debug)]
pub struct Outcome {
    pub id: VmId,
    pub policy_gen: u64,
    pub principal: Option<String>,
    pub allow: Vec<String>,
    pub rules: Vec<String>,
    pub egress: EgressMode,
    pub signed: Option<SignedPolicy>,
    pub egress_changed: bool,
    pub unchanged: bool,
}

/// The given value, or the present one.
pub open spec fn or_kept<T>(given: Option<T>, kept: T) -> T {
    match given {
        Some(v) => v,
        None => kept,
    }
}

/// Whether `o` is what `change` makes of the policy of `rec`.
pub open spec fn merged(rec: VmRecord, change: PolicyChange, o: Outcome) -> bool {
    &&& o.id == rec.id
    &&& o.policy_gen == rec.policy_gen
    &&& o.principal == (match change.principal {
        Some(p) => Some(p),
        None => rec.principal,
    })
    &&& o.allow == or_kept(change.allow, rec.allow)
    &&& o.rules == or_kept(change.rules, rec.rules)
    &&& o.egress == or_kept(change.egress, rec.egress)
    &&& o.signed == change.signed
    &&& o.egress_changed == (o.egress != rec.egress)
    &&& o.unchanged == (text_of(o.principal) == text_of(rec.principal) && texts_of(o.allow@)
        == texts_of(rec.allow@) && texts_of(o.rules@) == texts_of(rec.rules@) && !o.egress_changed)
}

/// Merges the fields of a change over a VM's current policy.
pub fn merge(rec: VmRecord, change: PolicyChange) -> (o: Outcome)
    ensures
        merged(rec, change, o),
{
    let same_principal = match &change.principal {
        Some(_) => same_option(&change.principal, &rec.principal),
        None => true,
    };
    let same_allow = match &change.allow {
        Some(v) => same_list(v, &rec.allow),
        None => true,
    };
    let same_rules = match &change.rules {
        Some(v) => same_list(v, &rec.rules),
        None => true,
    };
    let egress = change.egress.unwrap_or(rec.egress);
    let egress_changed = egress != rec.egress;
    Outcome {
        id: rec.id,
        policy_gen: rec.policy_gen,
        principal: match change.principal {
            Some(p) => Some(p),
            None => rec.principal,
        },
        allow: match change.allow {
            Some(v) => v,
            None => rec.allow,
        },
        rules: match change.rules {
            Some(v) => v,
            None => rec.rules,
        },
        egress,
        signed: change.signed,
        egress_changed,
        unchanged: same_principal && same_allow && same_rules && !egress_changed,
    }
}

/// What a finished change answers with.
#[derive(Debug)]
pub enum Edited {
    /// The policy generation that is now in force.
    Generation(u64),
    Forward(PortForward),
    Removed,
}

/// What the live network is being brought up to date after.
#[derive(Clone, Copy, Debug, PartialEq, Eq, Structural)]
pub enum After {
    Policy { policy_gen: u64 },
    Add { fwd: PortForward },
    Remove { host_port: u16 },
}

/// One change to one VM, in progress.
#[derive(Debug)]
pub enum Edit {
    PolicyLookup { id: VmId, change: PolicyChange },
    PolicyRules { o: Outcome },
    PolicyClaims { o: Outcome, effective: Vec<String> },
    PolicyRefresh { o: Outcome },
    PolicyWrite { o: Outcome },
    AddLookup { id: VmId, vm_port: u16, proto: Protocol },
    Declare { id: VmId, fwd: PortForward },
    Retract { id: VmId, fwd: PortForward, error: Error },
    Undeclare { id: VmId, host_port: u16, proto: Protocol },
    ApplyLookup { id: VmId, after: After },
    Reapply { id: VmId, slot: SlotId, egress: EgressMode, ingress: Vec<PortForward>, after: After },
    Done { result: Result<Edited, Error> },
}

/// What an [`Edit`] asks its caller to do.
#[derive(Debug)]
pub enum EditAction<'a> {
    GetVm(VmId),
    CompileRules { allow: &'a Vec<String>, rules: &'a Vec<String> },
    ReadClaims(&'a SignedPolicy),
    /// Replace the stored signature, and nothing else.
    RefreshSigned(VmId, &'a SignedPolicy),
    /// Store the policy columns, under the next generation.
    UpdatePolicy(&'a Outcome),
    AddForward(VmId, PortForward),
    RemoveForward(VmId, u16, Protocol),
    /// Re-steer the live network of a slot, without disturbing the running VM.
    ReapplyNetwork { slot: SlotId, egress: EgressMode, ingress: &'a Vec<PortForward> },
    Nothing,
}

/// What came of an action.
#[derive(Debug)]
pub enum EditEvent {
    Done,
    Failed(Error),
    Vm(Option<VmRecord>),
    Rules(Result<Vec<String>, String>),
    Claims(Result<PolicyClaims, String>),
    /// The generation under which the policy is now stored: the next one.
    Stored(u64),
    /// Whether there was such a forward.
    Removed(bool),
}

/// The policy that the outcome is, at a generation.
pub open spec fn policy_at(o: Outcome, effective: Vec<String>, policy_gen: u64) -> Described {
    Described { vm: o.id, policy_gen, egress: o.egress, principal: o.principal, effective }
}

/// Whether `r` is the end of a change whose signature describes another policy.
pub open spec fn mismatched(r: Edit, c: PolicyClaims, d: Described) -> bool {
    &&& r matches Edit::Done { result }
    &&& result matches Err(e)
    &&& e matches Error::SignedMismatch(m)
    &&& m@ == joined_mismatches(c, d)
}

/// What a finished application of the network comes to.
pub open spec fn applied(after: After, p0: PortAllocator, r: Edit, p1: PortAllocator) -> bool {
    match after {
        After::Policy { policy_gen } => p1 == p0 && r == (Edit::Done {
            result: Ok(Edited::Generation(policy_gen)),
        }),
        After::Add { fwd } => p1 == p0 && r == (Edit::Done { result: Ok(Edited::Forward(fwd)) }),
        After::Remove { host_port } => {
            &&& r == (Edit::Done { result: Ok(Edited::Removed) })
            &&& freed(host_port, p0, p1)
        },
    }
}

/// What a failed application of the network comes to: a forward that was just
/// declared is retracted, and anything else stays declared.
pub open spec fn apply_failed(id: VmId, after: After, e: Error, r: Edit) -> bool {
    match after {
        After::Add { fwd } => r == (Edit::Retract { id, fwd, error: e }),
        _ => r == (Edit::Done { result: Err(e) }),
    }
}

/// Whether one port was given back and nothing else changed.
pub open spec fn freed(port: u16, p0: PortAllocator, p1: PortAllocator) -> bool {
    &&& p1.wf()
    &&& p1.same_range(p0)
    &&& p1.next() == p0.next()
    &&& p1.taken() == p0.taken().remove(port)
}

impl Edit {
    /// Whether an event answers what this machine asks for.
    pub open spec fn awaits(self, ev: EditEvent) -> bool {
        match self {
            Edit::PolicyLookup { id, .. } => match ev {
                EditEvent::Vm(Some(rec)) => rec.id == id && rec.policy_gen < u64::MAX,
                EditEvent::Vm(None) => true,
                EditEvent::Failed(_) => true,
                _ => false,
            },
            Edit::PolicyRules { .. } => ev is Rules,
            Edit::PolicyClaims { .. } => ev is Claims,
            Edit::PolicyRefresh { .. } => ev is Done || ev is Failed,
            Edit::PolicyWrite { o } => match ev {
                EditEvent::Stored(g) => g == o.policy_gen + 1,
                EditEvent::Failed(_) => true,
                _ => false,
            },
            Edit::AddLookup { .. } => ev is Vm || ev is Failed,
            Edit::Declare { .. } => ev is Done || ev is Failed,
            Edit::Retract { .. } => ev is Removed || ev is Failed,
            Edit::Undeclare { .. } => ev is Removed || ev is Failed,
            Edit::ApplyLookup { .. } => ev is Vm || ev is Failed,
            Edit::Reapply { .. } => ev is Done || ev is Failed,
            Edit::Done { .. } => false,
        }
    }

    /// The machine's own data are in order.
    pub open spec fn wf(self) -> bool {
        match self {
            Edit::PolicyRules { o } => o.policy_gen < u64::MAX,
            Edit::PolicyClaims { o, .. } => o.policy_gen < u64::MAX && o.signed is Some,
            Edit::PolicyRefresh { o } => o.signed is Some,
            Edit::PolicyWrite { o } => o.policy_gen < u64::MAX,
            _ => true,
        }
    }

    /// The whole machine: what `ev` turns this one into, and what that does to
    /// the ports.
    pub open spec fn follows(
        self,
        ev: EditEvent,
        p0: PortAllocator,
        r: Edit,
        p1: PortAllocator,
    ) -> bool {
        match (self, ev) {
            (Edit::PolicyLookup { id, change }, EditEvent::Vm(Some(rec))) => {
                &&& p1 == p0
                &&& r matches Edit::PolicyRules { o }
                &&& merged(rec, change, o)
            },
            (Edit::PolicyLookup { id, change }, EditEvent::Vm(None)) => p1 == p0 && r == (
            Edit::Done { result: Err(Error::UnknownVm(id)) }),
            (Edit::PolicyRules { o }, EditEvent::Rules(Err(m))) => p1 == p0 && r == (Edit::Done {
                result: Err(Error::InvalidRule(m)),
            }),
            (Edit::PolicyRules { o }, EditEvent::Rules(Ok(effective))) => p1 == p0 && if o.signed is Some {
                r == (Edit::PolicyClaims { o, effective })
            } else {
                r == (Edit::PolicyWrite { o })
            },
            (Edit::PolicyClaims { o, effective }, EditEvent::Claims(Err(m))) => p1 == p0 && r == (
            Edit::Done { result: Err(Error::SignedMismatch(m)) }),
            // Nothing changes and the claims are at the current generation: a
            // re-signing. Otherwise the claims must be at the next one.
            (Edit::PolicyClaims { o, effective }, EditEvent::Claims(Ok(c))) => p1 == p0
                && if o.unchanged && c.policy_gen == o.policy_gen {
                let d = policy_at(o, effective, o.policy_gen);
                if describes(c, d) {
                    r == (Edit::PolicyRefresh { o })
                } else {
                    mismatched(r, c, d)
                }
            } else {
                let d = policy_at(o, effective, (o.policy_gen + 1) as u64);
                if describes(c, d) {
                    r == (Edit::PolicyWrite { o })
                } else {
                    mismatched(r, c, d)
                }
            },
            (Edit::PolicyRefresh { o }, EditEvent::Done) => p1 == p0 && r == (Edit::Done {
                result: Ok(Edited::Generation(o.policy_gen)),
            }),
            // Every write is the next generation. The policy is read live; only a
            // change of mode needs the network.
            (Edit::PolicyWrite { o }, EditEvent::Stored(_)) => p1 == p0 && {
                let policy_gen = (o.policy_gen + 1) as u64;
                if o.egress_changed {
                    r == (Edit::ApplyLookup { id: o.id, after: After::Policy { policy_gen } })
                } else {
                    r == (Edit::Done { result: Ok(Edited::Generation(policy_gen)) })
                }
            },
            (Edit::AddLookup { id, .. }, EditEvent::Vm(None)) => p1 == p0 && r == (Edit::Done {
                result: Err(Error::UnknownVm(id)),
            }),
            (Edit::AddLookup { id, vm_port, proto }, EditEvent::Vm(Some(_))) => {
                &&& p1.wf()
                &&& p1.same_range(p0)
                &&& match p0.free_offset() {
                    None => p1.taken() == p0.taken() && p1.next() == p0.next() && r == (
                    Edit::Done { result: Err(Error::PortsExhausted) }),
                    Some(o) => {
                        let host_port = (p0.first() + o) as u16;
                        &&& !p0.taken().contains(host_port)
                        &&& p1.taken() == p0.taken().insert(host_port)
                        &&& p1.next() == (o + 1) % p0.span()
                        &&& r == (Edit::Declare {
                            id,
                            fwd: PortForward { host_port, vm_port, proto },
                        })
                    },
                }
            },
            (Edit::Declare { id, fwd }, EditEvent::Done) => p1 == p0 && r == (Edit::ApplyLookup {
                id,
                after: After::Add { fwd },
            }),
            (Edit::Declare { id, fwd }, EditEvent::Failed(e)) => {
                &&& freed(fwd.host_port, p0, p1)
                &&& r == (Edit::Done { result: Err(e) })
            },
            (Edit::Retract { id, fwd, error }, _) => {
                &&& freed(fwd.host_port, p0, p1)
                &&& r == (Edit::Done { result: Err(error) })
            },
            (Edit::Undeclare { id, host_port, proto }, EditEvent::Removed(there)) => p1 == p0
                && if there {
                r == (Edit::ApplyLookup { id, after: After::Remove { host_port } })
            } else {
                r == (Edit::Done { result: Err(Error::UnknownForward { host_port, proto }) })
            },
            // A stopped VM has no network to re-steer: the change takes effect
            // when it is next brought up. Nor has one that is gone.
            (Edit::ApplyLookup { id, after }, EditEvent::Vm(Some(rec))) => match rec.slot {
                Some(slot) => p1 == p0 && r == (Edit::Reapply {
                    id,
                    slot,
                    egress: rec.egress,
                    ingress: rec.ingress,
                    after,
                }),
                None => applied(after, p0, r, p1),
            },
            (Edit::ApplyLookup { id, after }, EditEvent::Vm(None)) => applied(after, p0, r, p1),
            (Edit::ApplyLookup { id, after }, EditEvent::Failed(e)) => p1 == p0 && apply_failed(
                id,
                after,
                e,
                r,
            ),
            (Edit::Reapply { id, after, .. }, EditEvent::Done) => applied(after, p0, r, p1),
            (Edit::Reapply { id, after, .. }, EditEvent::Failed(e)) => p1 == p0 && apply_failed(
                id,
                after,
                e,
                r,
            ),
            // In every other phase a failure ends the change.
            (_, EditEvent::Failed(e)) => p1 == p0 && r == (Edit::Done { result: Err(e) }),
            _ => true,
        }
    }

    /// Begins a change of a VM's egress policy.
    pub fn set_policy(id: VmId, change: PolicyChange) -> (r: Edit)
        ensures
            r == (Edit::PolicyLookup { id, change }),
            r.wf(),
    {
        Edit::PolicyLookup { id, change }
    }

    /// Begins adding an ingress forward to a VM port.
    pub fn add_forward(id: VmId, vm_port: u16, proto: Protocol) -> (r: Edit)
        ensures
            r == (Edit::AddLookup { id, vm_port, proto }),
            r.wf(),
    {
        Edit::AddLookup { id, vm_port, proto }
    }

    /// Begins removing the ingress forward at a host port.
    pub fn remove_forward(id: VmId, host_port: u16, proto: Protocol) -> (r: Edit)
        ensures
            r == (Edit::Undeclare { id, host_port, proto }),
            r.wf(),
    {
        Edit::Undeclare { id, host_port, proto }
    }

    /// What this machine asks for next.
    pub open spec fn asks(&self) -> EditAction<'_> {
        match self {
            Edit::PolicyLookup { id, .. } => EditAction::GetVm(*id),
            Edit::PolicyRules { o } => EditAction::CompileRules { allow: &o.allow, rules: &o.rules },
            Edit::PolicyClaims { o, .. } => match &o.signed {
                Some(s) => EditAction::ReadClaims(s),
                None => EditAction::Nothing,
            },
            Edit::PolicyRefresh { o } => match &o.signed {
                Some(s) => EditAction::RefreshSigned(o.id, s),
                None => EditAction::Nothing,
            },
            Edit::PolicyWrite { o } => EditAction::UpdatePolicy(o),
            Edit::AddLookup { id, .. } => EditAction::GetVm(*id),
            Edit::Declare { id, fwd } => EditAction::AddForward(*id, *fwd),
            Edit::Retract { id, fwd, .. } => EditAction::RemoveForward(
                *id,
                fwd.host_port,
                fwd.proto,
            ),
            Edit::Undeclare { id, host_port, proto } => EditAction::RemoveForward(
                *id,
                *host_port,
                *proto,
            ),
            Edit::ApplyLookup { id, .. } => EditAction::GetVm(*id),
            Edit::Reapply { slot, egress, ingress, .. } => EditAction::ReapplyNetwork {
                slot: *slot,
                egress: *egress,
                ingress,
            },
            Edit::Done { .. } => EditAction::Nothing,
        }
    }

    /// What has to be done next.
    pub fn action(&self) -> (a: EditAction<'_>)
        ensures
            a == self.asks(),
    {
        match self {
            Edit::PolicyLookup { id, .. } => EditAction::GetVm(*id),
            Edit::PolicyRules { o } => EditAction::CompileRules { allow: &o.allow, rules: &o.rules },
            Edit::PolicyClaims { o, .. } => match &o.signed {
                Some(s) => EditAction::ReadClaims(s),
                None => EditAction::Nothing,
            },
            Edit::PolicyRefresh { o } => match &o.signed {
                Some(s) => EditAction::RefreshSigned(o.id, s),
                None => EditAction::Nothing,
            },
            Edit::PolicyWrite { o } => EditAction::UpdatePolicy(o),
            Edit::AddLookup { id, .. } => EditAction::GetVm(*id),
            Edit::Declare { id, fwd } => EditAction::AddForward(*id, *fwd),
            Edit::Retract { id, fwd, .. } => EditAction::RemoveForward(
                *id,
                fwd.host_port,
                fwd.proto,
            ),
            Edit::Undeclare { id, host_port, proto } => EditAction::RemoveForward(
                *id,
                *host_port,
                *proto,
            ),
            Edit::ApplyLookup { id, .. } => EditAction::GetVm(*id),
            Edit::Reapply { slot, egress, ingress, .. } => EditAction::ReapplyNetwork {
                slot: *slot,
                egress: *egress,
                ingress,
            },
            Edit::Done { .. } => EditAction::Nothing,
        }
    }

    /// Takes what came of the action that was asked for, and goes on.
    pub fn step(self, ev: EditEvent, ports: &mut PortAllocator) -> (r: Edit)
        requires
            self.wf(),
            self.awaits(ev),
            old(ports).wf(),
        ensures
            self.follows(ev, *old(ports), r, *final(ports)),
            r.wf(),
            final(ports).wf(),
    {
        match self {
            Edit::PolicyLookup { id, change } => match ev {
                EditEvent::Vm(Some(rec)) => Edit::PolicyRules { o: merge(rec, change) },
                EditEvent::Vm(None) => fail(Error::UnknownVm(id)),
                EditEvent::Failed(e) => fail(e),
                _ => vstd::pervasive::unreached(),
            },
            Edit::PolicyRules { o } => match ev {
                EditEvent::Rules(Ok(effective)) => if o.signed.is_some() {
                    Edit::PolicyClaims { o, effective }
                } else {
                    Edit::PolicyWrite { o }
                },
                EditEvent::Rules(Err(m)) => fail(Error::InvalidRule(m)),
                _ => vstd::pervasive::unreached(),
            },
            Edit::PolicyClaims { o, effective } => match ev {
                EditEvent::Claims(Ok(c)) => {
                    let again = o.unchanged && c.policy_gen == o.policy_gen;
                    let d = Described {
                        vm: o.id,
                        policy_gen: if again {
                            o.policy_gen
                        } else {
                            o.policy_gen + 1
                        },
                        egress: o.egress,
                        principal: o.principal.clone(),
                        effective,
                    };
                    match check_signed(&c, &d) {
                        Ok(_) => if again {
                            Edit::PolicyRefresh { o }
                        } else {
                            Edit::PolicyWrite { o }
                        },
                        Err(e) => fail(e),
                    }
                },
                EditEvent::Claims(Err(m)) => fail(Error::SignedMismatch(m)),
                _ => vstd::pervasive::unreached(),
            },
            Edit::PolicyRefresh { o } => match ev {
                EditEvent::Failed(e) => fail(e),
                _ => Edit::Done { result: Ok(Edited::Generation(o.policy_gen)) },
            },
            Edit::PolicyWrite { o } => match ev {
                EditEvent::Stored(g) => if o.egress_changed {
                    Edit::ApplyLookup { id: o.id, after: After::Policy { policy_gen: g } }
                } else {
                    Edit::Done { result: Ok(Edited::Generation(g)) }
                },
                EditEvent::Failed(e) => fail(e),
                _ => vstd::pervasive::unreached(),
            },
            Edit::AddLookup { id, vm_port, proto } => match ev {
                EditEvent::Vm(Some(_)) => match ports.allocate() {
                    Some(host_port) => Edit::Declare {
                        id,
                        fwd: PortForward { host_port, vm_port, proto },
                    },
                    None => fail(Error::PortsExhausted),
                },
                EditEvent::Vm(None) => fail(Error::UnknownVm(id)),
                EditEvent::Failed(e) => fail(e),
                _ => vstd::pervasive::unreached(),
            },
            Edit::Declare { id, fwd } => match ev {
                EditEvent::Failed(e) => {
                    ports.free(fwd.host_port);
                    fail(e)
                },
                _ => Edit::ApplyLookup { id, after: After::Add { fwd } },
            },
            Edit::Retract { id, fwd, error } => {
                ports.free(fwd.host_port);
                fail(error)
            },
            Edit::Undeclare { id, host_port, proto } => match ev {
                EditEvent::Removed(true) => Edit::ApplyLookup {
                    id,
                    after: After::Remove { host_port },
                },
                EditEvent::Removed(false) => fail(Error::UnknownForward { host_port, proto }),
                EditEvent::Failed(e) => fail(e),
                _ => vstd::pervasive::unreached(),
            },
            Edit::ApplyLookup { id, after } => match ev {
                EditEvent::Vm(Some(rec)) => match rec.slot {
                    Some(slot) => Edit::Reapply {
                        id,
                        slot,
                        egress: rec.egress,
                        ingress: rec.ingress,
                        after,
                    },
                    None => finish(after, ports),
                },
                EditEvent::Vm(None) => finish(after, ports),
                EditEvent::Failed(e) => retract(id, after, e),
                _ => vstd::pervasive::unreached(),
            },
            Edit::Reapply { id, after, .. } => match ev {
                EditEvent::Failed(e) => retract(id, after, e),
                _ => finish(after, ports),
            },
            Edit::Done { result } => Edit::Done { result },
        }
    }
}

fn fail(e: Error) -> (r: Edit)
    ensures
        r == (Edit::Done { result: Err(e) }),
{
    Edit::Done { result: Err(e) }
}

fn finish(after: After, ports: &mut PortAllocator) -> (r: Edit)
    requires
        old(ports).wf(),
    ensures
        applied(after, *old(ports), r, *final(ports)),
        r.wf(),
        final(ports).wf(),
{
    match after {
        After::Policy { policy_gen } => Edit::Done { result: Ok(Edited::Generation(policy_gen)) },
        After::Add { fwd } => Edit::Done { result: Ok(Edited::Forward(fwd)) },
        After::Remove { host_port } => {
            ports.free(host_port);
            Edit::Done { result: Ok(Edited::Removed) }
        },
    }
}

fn retract(id: VmId, after: After, e: Error) -> (r: Edit)
    ensures
        apply_failed(id, after, e, r),
        r.wf(),
{
    match after {
        After::Add { fwd } => Edit::Retract { id, fwd, error: e },
        _ => fail(e),
    }
}

// ---- laws ----

/// **Law.** A re-signing (the same policy, signed at its current generation)
/// stores the signature alone and answers with that generation: nothing bumps.
pub proof fn law_a_resigning_bumps_nothing(
    o: Outcome,
    effective: Vec<String>,
    c: PolicyClaims,
    p: PortAllocator,
    r: Edit,
)
    requires
        o.unchanged,
        o.signed is Some,
        o.policy_gen < u64::MAX,
        describes(c, policy_at(o, effective, o.policy_gen)),
        (Edit::PolicyClaims { o, effective }).follows(EditEvent::Claims(Ok(c)), p, r, p),
    ensures
        r == (Edit::PolicyRefresh { o }),
        r.asks() == EditAction::RefreshSigned(o.id, &o.signed->0),
        forall|r2: Edit|
            #![trigger r.follows(EditEvent::Done, p, r2, p)]
            r.follows(EditEvent::Done, p, r2, p) ==> r2 == (Edit::Done {
                result: Ok(Edited::Generation(o.policy_gen)),
            }),
{
}

/// **Law.** A change that comes without a signature is stored without one: the
/// signature on file, which no longer describes the policy, is dropped.
pub proof fn law_an_unsigned_change_clears_the_signature(
    rec: VmRecord,
    change: PolicyChange,
    o: Outcome,
    effective: Vec<String>,
    p: PortAllocator,
    r: Edit,
)
    requires
        merged(rec, change, o),
        change.signed is None,
        (Edit::PolicyRules { o }).follows(EditEvent::Rules(Ok(effective)), p, r, p),
    ensures
        r == (Edit::PolicyWrite { o }),
        r.asks() == EditAction::UpdatePolicy(&o),
        o.signed is None,
{
}

/// Whether a change that is stored at a generation is finished at it, or under
/// way to the live network; the network may still fail it.
pub open spec fn stored_at(e: Edit, policy_gen: u64) -> bool {
    match e {
        Edit::ApplyLookup { after, .. } => after == (After::Policy { policy_gen }),
        Edit::Reapply { after, .. } => after == (After::Policy { policy_gen }),
        Edit::Done { result: Ok(done) } => done == Edited::Generation(policy_gen),
        Edit::Done { result: Err(_) } => true,
        _ => false,
    }
}

/// **Law.** A change of policy that is stored is the next generation, and that is
/// what it answers with, however long the network takes.
pub proof fn law_a_change_is_the_next_generation(
    o: Outcome,
    e: Edit,
    ev: EditEvent,
    p0: PortAllocator,
    r: Edit,
    p1: PortAllocator,
)
    requires
        e == (Edit::PolicyWrite { o }) || stored_at(e, (o.policy_gen + 1) as u64),
        e.wf(),
        e.awaits(ev),
        e.follows(ev, p0, r, p1),
    ensures
        stored_at(r, (o.policy_gen + 1) as u64),
{
}

/// **Law.** A signature is filed only under the policy it describes: to be
/// stored with a change it must be at the generation that the change produces.
pub proof fn law_a_filed_signature_describes_its_policy(
    o: Outcome,
    effective: Vec<String>,
    c: PolicyClaims,
    p: PortAllocator,
    r: Edit,
)
    requires
        o.policy_gen < u64::MAX,
        (Edit::PolicyClaims { o, effective }).follows(EditEvent::Claims(Ok(c)), p, r, p),
    ensures
        r is PolicyWrite ==> describes(c, policy_at(o, effective, (o.policy_gen + 1) as u64)),
        r is PolicyRefresh ==> describes(c, policy_at(o, effective, o.policy_gen)),
        r is PolicyWrite || r is PolicyRefresh || r is Done,
{
}

/// The host port that an addition holds while it is under way.
pub open spec fn added_port(e: Edit) -> Set<u16> {
    match e {
        Edit::Declare { fwd, .. } => set![fwd.host_port],
        Edit::Retract { fwd, .. } => set![fwd.host_port],
        Edit::ApplyLookup { after, .. } => match after {
            After::Add { fwd } => set![fwd.host_port],
            _ => Set::empty(),
        },
        Edit::Reapply { after, .. } => match after {
            After::Add { fwd } => set![fwd.host_port],
            _ => Set::empty(),
        },
        _ => Set::empty(),
    }
}

/// Whether a machine is adding a forward, or taking a failed addition back.
pub open spec fn adding(e: Edit) -> bool {
    match e {
        Edit::AddLookup { .. } => true,
        Edit::Declare { .. } => true,
        Edit::Retract { .. } => true,
        Edit::ApplyLookup { after, .. } => after is Add,
        Edit::Reapply { after, .. } => after is Add,
        _ => false,
    }
}

/// **Law.** An addition of a forward keeps the books: every step leaves the
/// ports that it does not hold as they are, and when it ends in failure it
/// holds none, so the port it took is free again.
pub proof fn law_an_addition_keeps_the_books(
    e: Edit,
    ev: EditEvent,
    p0: PortAllocator,
    r: Edit,
    p1: PortAllocator,
)
    requires
        adding(e),
        e.awaits(ev),
        p0.wf(),
        e.follows(ev, p0, r, p1),
        !(r matches Edit::Done { result } && result is Ok),
    ensures
        adding(r) || r is Done,
        p1.taken().difference(added_port(r)) == p0.taken().difference(added_port(e)),
        r is Done ==> added_port(r) == Set::<u16>::empty(),
{
    crate::control_plane::port::law_allocation_hands_out_a_free_port(p0);
    assert(p1.taken().difference(added_port(r)) =~= p0.taken().difference(added_port(e)));
}

// ---- what each step of a change does ----

/// **Law.** A change lays what it names over what the VM has, field by field, and
/// leaves what it does not name; it changes the mode exactly where the mode that
/// results is another, and nothing exactly where every field stays as it is.
pub proof fn law_a_change_replaces_what_it_names(rec: VmRecord, change: PolicyChange, o: Outcome)
    requires
        merged(rec, change, o),
    ensures
        o.id == rec.id,
        o.policy_gen == rec.policy_gen,
        change.principal is Some ==> o.principal == change.principal,
        change.principal is None ==> o.principal == rec.principal,
        forall|v: Vec<String>| change.allow == Some(v) ==> o.allow == v,
        change.allow is None ==> o.allow == rec.allow,
        forall|v: Vec<String>| change.rules == Some(v) ==> o.rules == v,
        change.rules is None ==> o.rules == rec.rules,
        forall|m: EgressMode| change.egress == Some(m) ==> o.egress == m,
        change.egress is None ==> o.egress == rec.egress,
        o.egress_changed <==> o.egress != rec.egress,
        o.unchanged ==> o.egress == rec.egress && text_of(o.principal) == text_of(rec.principal)
            && texts_of(o.allow@) == texts_of(rec.allow@) && texts_of(o.rules@) == texts_of(
            rec.rules@,
        ),
        change.principal is None && change.allow is None && change.rules is None && change.egress is None
            ==> o.unchanged,
        o.signed == change.signed,
{
}

/// **Law.** A change of policy is checked before it is stored: its rules have to
/// compile, and what it claims to be signed as has to be readable; and what is
/// stored, refreshed or re-steered is of the VM that was looked up.
pub proof fn law_a_policy_is_checked_before_it_is_stored(
    e: Edit,
    ev: EditEvent,
    p0: PortAllocator,
    r: Edit,
    p1: PortAllocator,
)
    requires
        e is PolicyLookup || e is PolicyRules || e is PolicyClaims || e is PolicyRefresh
            || e is PolicyWrite,
        e.wf(),
        e.awaits(ev),
        e.follows(ev, p0, r, p1),
    ensures
        p1 == p0,
        ev matches EditEvent::Failed(x) ==> r == (Edit::Done { result: Err(x) }),
        e is PolicyLookup ==> e.asks() == EditAction::GetVm(e->PolicyLookup_id),
        e is PolicyLookup && ev == EditEvent::Vm(None) ==> r == (Edit::Done {
            result: Err(Error::UnknownVm(e->PolicyLookup_id)),
        }),
        e is PolicyLookup && ev is Vm && ev->Vm_0 is Some ==> r is PolicyRules && merged(
            ev->Vm_0->0,
            e->PolicyLookup_change,
            r->PolicyRules_o,
        ),
        e is PolicyRules ==> e.asks() == (EditAction::CompileRules {
            allow: &e->PolicyRules_o.allow,
            rules: &e->PolicyRules_o.rules,
        }),
        e is PolicyRules && ev is Rules && ev->Rules_0 is Err ==> r == (Edit::Done {
            result: Err(Error::InvalidRule(ev->Rules_0->Err_0)),
        }),
        e is PolicyRules && ev is Rules && ev->Rules_0 is Ok ==> if e->PolicyRules_o.signed is None {
            r is PolicyWrite && r->PolicyWrite_o == e->PolicyRules_o
        } else {
            r is PolicyClaims && r->PolicyClaims_o == e->PolicyRules_o && r->PolicyClaims_effective
                == ev->Rules_0->Ok_0
        },
        e is PolicyClaims && e->PolicyClaims_o.signed is Some ==> e.asks() == EditAction::ReadClaims(
            &e->PolicyClaims_o.signed->0,
        ),
        e is PolicyClaims && r is PolicyRefresh ==> r->PolicyRefresh_o == e->PolicyClaims_o
            && e->PolicyClaims_o.unchanged && ev->Claims_0->Ok_0.policy_gen
            == e->PolicyClaims_o.policy_gen,
        e is PolicyClaims && r is PolicyWrite ==> r->PolicyWrite_o == e->PolicyClaims_o
            && ev->Claims_0->Ok_0.policy_gen == e->PolicyClaims_o.policy_gen + 1,
        e is PolicyClaims && !(r is PolicyRefresh) && !(r is PolicyWrite) && ev is Claims ==> r is Done
            && r->Done_result is Err && r->Done_result->Err_0 is SignedMismatch,
        e is PolicyRefresh && e->PolicyRefresh_o.signed is Some ==> e.asks()
            == EditAction::RefreshSigned(e->PolicyRefresh_o.id, &e->PolicyRefresh_o.signed->0),
        e is PolicyWrite ==> e.asks() == EditAction::UpdatePolicy(&e->PolicyWrite_o),
{
}

/// **Law.** A forward is added on a port that was free; it is declared, then
/// applied, then answered with. What fails on the way leaves neither the port
/// taken nor the forward declared.
pub proof fn law_a_forward_is_declared_then_applied(
    e: Edit,
    ev: EditEvent,
    p0: PortAllocator,
    r: Edit,
    p1: PortAllocator,
)
    requires
        p0.wf(),
        e is AddLookup || e is Declare || e is Retract || e is ApplyLookup || e is Reapply,
        e is ApplyLookup ==> e->ApplyLookup_after is Add,
        e is Reapply ==> e->Reapply_after is Add,
        e.wf(),
        e.awaits(ev),
        e.follows(ev, p0, r, p1),
    ensures
        e is AddLookup ==> e.asks() == EditAction::GetVm(e->AddLookup_id),
        e is AddLookup && ev == EditEvent::Vm(None) ==> p1 == p0 && r == (Edit::Done {
            result: Err(Error::UnknownVm(e->AddLookup_id)),
        }),
        e is AddLookup && r is Declare ==> {
            let f = r->Declare_fwd;
            &&& r->Declare_id == e->AddLookup_id
            &&& f.vm_port == e->AddLookup_vm_port && f.proto == e->AddLookup_proto
            &&& p0.manages(f.host_port) && !p0.taken().contains(f.host_port)
            &&& p1.taken() == p0.taken().insert(f.host_port)
        },
        e is AddLookup && ev is Vm && ev->Vm_0 is Some && !(r is Declare) ==> r == (Edit::Done {
            result: Err(Error::PortsExhausted),
        }) && p1.taken() == p0.taken() && forall|p: u16|
            p0.manages(p) ==> #[trigger] p0.taken().contains(p),
        e is Declare ==> e.asks() == EditAction::AddForward(e->Declare_id, e->Declare_fwd),
        e is Declare && ev is Done ==> p1 == p0 && r is ApplyLookup && r->ApplyLookup_id
            == e->Declare_id && r->ApplyLookup_after == (After::Add { fwd: e->Declare_fwd }),
        e is Declare && ev is Failed ==> !p1.taken().contains(e->Declare_fwd.host_port) && r == (
        Edit::Done { result: Err(ev->Failed_0) }),
        e is ApplyLookup ==> e.asks() == EditAction::GetVm(e->ApplyLookup_id),
        e is ApplyLookup && ev is Vm && (ev->Vm_0 is None || ev->Vm_0->0.slot is None) ==> p1 == p0
            && r == (Edit::Done {
            result: Ok(Edited::Forward(e->ApplyLookup_after->Add_fwd)),
        }),
        e is ApplyLookup && ev is Failed ==> r is Retract && r->Retract_fwd
            == e->ApplyLookup_after->Add_fwd && r->Retract_id == e->ApplyLookup_id
            && r->Retract_error == ev->Failed_0,
        e is Reapply && ev is Done ==> p1 == p0 && r == (Edit::Done {
            result: Ok(Edited::Forward(e->Reapply_after->Add_fwd)),
        }),
        e is Reapply && ev is Failed ==> r is Retract && r->Retract_fwd == e->Reapply_after->Add_fwd
            && r->Retract_id == e->Reapply_id && r->Retract_error == ev->Failed_0,
        e is Retract ==> e.asks() == EditAction::RemoveForward(
            e->Retract_id,
            e->Retract_fwd.host_port,
            e->Retract_fwd.proto,
        ) && !p1.taken().contains(e->Retract_fwd.host_port) && r == (Edit::Done {
            result: Err(e->Retract_error),
        }),
{
    law_allocation_hands_out_a_free_port(p0);
}

/// **Law.** A forward that is removed is undeclared first and its port given back
/// last, when the network no longer serves it; one that is not there is refused.
pub proof fn law_a_removed_forward_gives_its_port_back_last(
    e: Edit,
    ev: EditEvent,
    p0: PortAllocator,
    r: Edit,
    p1: PortAllocator,
)
    requires
        e is Undeclare || e is ApplyLookup || e is Reapply,
        e is ApplyLookup ==> e->ApplyLookup_after is Remove,
        e is Reapply ==> e->Reapply_after is Remove,
        e.wf(),
        e.awaits(ev),
        e.follows(ev, p0, r, p1),
    ensures
        e is Undeclare ==> p1 == p0 && e.asks() == EditAction::RemoveForward(
            e->Undeclare_id,
            e->Undeclare_host_port,
            e->Undeclare_proto,
        ),
        e is Undeclare && ev == EditEvent::Removed(true) ==> r is ApplyLookup && r->ApplyLookup_id
            == e->Undeclare_id && r->ApplyLookup_after == (After::Remove {
            host_port: e->Undeclare_host_port,
        }),
        e is Undeclare && ev == EditEvent::Removed(false) ==> r == (Edit::Done {
            result: Err(
                Error::UnknownForward {
                    host_port: e->Undeclare_host_port,
                    proto: e->Undeclare_proto,
                },
            ),
        }),
        ev is Failed ==> p1 == p0 && r == (Edit::Done { result: Err(ev->Failed_0) }),
        e is ApplyLookup && ev is Vm && (ev->Vm_0 is None || ev->Vm_0->0.slot is None) ==> r == (
        Edit::Done { result: Ok(Edited::Removed) }) && p1.taken() == p0.taken().remove(
            e->ApplyLookup_after->Remove_host_port,
        ),
        e is Reapply && ev is Done ==> r == (Edit::Done { result: Ok(Edited::Removed) })
            && p1.taken() == p0.taken().remove(e->Reapply_after->Remove_host_port),
        e is ApplyLookup && r is Reapply ==> p1 == p0,
{
}

/// **Law.** The network that is re-steered is that of the VM's slot, with the mode
/// and all the forwards that its record has at that moment.
pub proof fn law_the_network_follows_the_record(
    id: VmId,
    after: After,
    rec: VmRecord,
    p0: PortAllocator,
    r: Edit,
    p1: PortAllocator,
)
    requires
        rec.slot is Some,
        (Edit::ApplyLookup { id, after }).follows(EditEvent::Vm(Some(rec)), p0, r, p1),
    ensures
        p1 == p0,
        r is Reapply && r->Reapply_id == id && r->Reapply_after == after,
        r.asks() == (EditAction::ReapplyNetwork {
            slot: rec.slot->0,
            egress: rec.egress,
            ingress: &r->Reapply_ingress,
        }),
        r->Reapply_ingress == rec.ingress,
{
}

// ---- a change of mode from beginning to end ----

/// Whether a change goes through these states by these events.
pub open spec fn goes_through(
    states: Seq<Edit>,
    events: Seq<EditEvent>,
    ports: Seq<PortAllocator>,
) -> bool {
    &&& states.len() == events.len() + 1
    &&& ports.len() == states.len()
    &&& forall|k: int|
        0 <= k < events.len() ==> {
            &&& (#[trigger] states[k]).wf()
            &&& states[k].awaits(events[k])
            &&& states[k].follows(events[k], ports[k], states[k + 1], ports[k + 1])
        }
}

/// Whether the network of a VM was asked, and brought, to apply a mode with the
/// VM's forwards at step `k`; or the VM was found to hold no slot, or to be gone.
pub open spec fn steered_at(
    states: Seq<Edit>,
    events: Seq<EditEvent>,
    mode: EgressMode,
    k: int,
) -> bool {
    &&& 0 <= k < events.len()
    &&& states[k] is ApplyLookup
    &&& events[k] is Vm
    &&& events[k]->Vm_0 matches Some(now) ==> (now.slot matches Some(slot) ==> {
        &&& k + 1 < events.len()
        &&& states[k + 1].asks() is ReapplyNetwork
        &&& states[k + 1].asks()->ReapplyNetwork_slot == slot
        &&& states[k + 1].asks()->ReapplyNetwork_egress == mode
        &&& *states[k + 1].asks()->ReapplyNetwork_ingress == now.ingress
        &&& events[k + 1] is Done
    })
}

spec fn unsteered(e: Edit, mode: EgressMode) -> bool {
    match e {
        Edit::PolicyRules { o } => o.egress == mode && o.egress_changed && !o.unchanged,
        Edit::PolicyClaims { o, .. } => o.egress == mode && o.egress_changed && !o.unchanged,
        Edit::PolicyWrite { o } => o.egress == mode && o.egress_changed && !o.unchanged,
        Edit::ApplyLookup { .. } => true,
        Edit::Reapply { .. } => true,
        Edit::Done { result } => result is Err,
        _ => false,
    }
}

/// **Law.** A change of mode succeeds only once the live network has it: from the
/// lookup to the answer, a change whose mode is not the VM's present one comes to
/// a good end only after the network of the VM's slot was re-applied with that
/// mode and the VM's forwards; unless the VM held no slot by then.
pub proof fn law_a_change_of_mode_is_steered_before_it_succeeds(
    id: VmId,
    change: PolicyChange,
    rec: VmRecord,
    mode: EgressMode,
    states: Seq<Edit>,
    events: Seq<EditEvent>,
    ports: Seq<PortAllocator>,
)
    requires
        goes_through(states, events, ports),
        states[0] == (Edit::PolicyLookup { id, change }),
        events.len() > 0 && events[0] == EditEvent::Vm(Some(rec)),
        change.egress == Some(mode),
        rec.egress != mode,
        // What is read back is what was stored.
        forall|k: int|
            0 < k < events.len() ==> ((#[trigger] events[k]) matches EditEvent::Vm(Some(now))
                ==> now.egress == mode),
        states.last() is Done && states.last()->Done_result is Ok,
    ensures
        exists|k: int| #[trigger] steered_at(states, events, mode, k),
{
    let n = events.len() as int;
    assert(states.last() == states[n]);
    assert(states[0].follows(events[0], ports[0], states[1], ports[1]));
    if forall|k: int| !(#[trigger] steered_at(states, events, mode, k)) {
        lemma_unsteered(id, change, rec, mode, states, events, ports, n);
    }
}

proof fn lemma_unsteered(
    id: VmId,
    change: PolicyChange,
    rec: VmRecord,
    mode: EgressMode,
    states: Seq<Edit>,
    events: Seq<EditEvent>,
    ports: Seq<PortAllocator>,
    n: int,
)
    requires
        goes_through(states, events, ports),
        states[0] == (Edit::PolicyLookup { id, change }),
        events.len() > 0 && events[0] == EditEvent::Vm(Some(rec)),
        change.egress == Some(mode),
        rec.egress != mode,
        forall|k: int|
            0 < k < events.len() ==> ((#[trigger] events[k]) matches EditEvent::Vm(Some(now))
                ==> now.egress == mode),
        forall|k: int| !(#[trigger] steered_at(states, events, mode, k)),
        1 <= n <= events.len(),
    ensures
        unsteered(states[n], mode),
        states[n] is Reapply ==> n >= 2 && states[n - 1] is ApplyLookup && (
        events[n - 1] matches EditEvent::Vm(Some(now)) && now.slot is Some && states[n].asks()
            is ReapplyNetwork && states[n].asks()->ReapplyNetwork_slot == now.slot->0
            && states[n].asks()->ReapplyNetwork_egress == mode
            && *states[n].asks()->ReapplyNetwork_ingress == now.ingress),
    decreases n,
{
    let e = states[n - 1];
    assert(e.wf() && e.awaits(events[n - 1]) && e.follows(
        events[n - 1],
        ports[n - 1],
        states[n],
        ports[n],
    ));
    if n > 1 {
        lemma_unsteered(id, change, rec, mode, states, events, ports, n - 1);
        assert(!steered_at(states, events, mode, n - 1));
        assert(!steered_at(states, events, mode, n - 2));
    }
}

} // verus!
