//! The probe orchestrator's decisions: which handler programs to attach,
//! in which order, and the per-call tracker registry.
//!
//! Attachment itself goes through the external probe-attachment
//! collaborator and is driven by the caller; the plan built here fixes the
//! contract it must follow: for every requested call the entry handler
//! stands immediately before the matching exit handler, and a user-space
//! request without an attach target is rejected before anything attaches.

use vstd::prelude::*;
use vstd::string::StringExecFns;
use crate::event::EventType;
use crate::tracker::{Tracker, DEFAULT_DEADLINE_NS};

verus! {

/// Whether a handler pair instruments a user-space or a kernel function.
#[derive(Copy, Clone, Debug, PartialEq, Eq, Structural)]
pub enum ProbeKind {
    User,
    Kernel,
}

/// One handler to attach: the generated program name, the instrumented
/// call it belongs to, and whether it observes entry or exit.
pub struct AttachStep {
    pub program: String,
    pub call_name: String,
    pub kind: ProbeKind,
    pub is_exit: bool,
}

/// A user-space call list was requested without an attach target.
#[derive(Copy, Clone, Debug, PartialEq, Eq, Structural)]
pub enum ConfigError {
    MissingAttachTarget,
}

/// The name of the handler program observing one side of a call.
pub open spec fn program_name_spec(kind: ProbeKind, is_exit: bool, call_name: Seq<char>) -> Seq<
    char,
> {
    (match (kind, is_exit) {
        (ProbeKind::User, false) => "ufn_enter_"@,
        (ProbeKind::User, true) => "ufn_exit_"@,
        (ProbeKind::Kernel, false) => "kfn_enter_"@,
        (ProbeKind::Kernel, true) => "kfn_exit_"@,
    }) + call_name
}

/// Whether `plan` holds, from `at` on, one entry/exit step pair per name
/// of `names`, in order, for `kind`.
pub open spec fn plan_covers(
    plan: Seq<AttachStep>,
    at: int,
    names: Seq<Seq<char>>,
    kind: ProbeKind,
) -> bool {
    forall|i: int|
        0 <= i < names.len() ==> {
            let enter = #[trigger] plan[at + 2 * i];
            let exit = plan[at + 2 * i + 1];
            &&& enter.program@ == program_name_spec(kind, false, names[i])
            &&& enter.call_name@ == names[i]
            &&& enter.kind == kind
            &&& !enter.is_exit
            &&& exit.program@ == program_name_spec(kind, true, names[i])
            &&& exit.call_name@ == names[i]
            &&& exit.kind == kind
            &&& exit.is_exit
        }
}

/// Builds the two handler steps for one call, entry first.
fn steps_for(kind: ProbeKind, call_name: &String) -> (r: (AttachStep, AttachStep))
    ensures
        r.0.program@ == program_name_spec(kind, false, call_name@),
        r.0.call_name@ == call_name@,
        r.0.kind == kind,
        !r.0.is_exit,
        r.1.program@ == program_name_spec(kind, true, call_name@),
        r.1.call_name@ == call_name@,
        r.1.kind == kind,
        r.1.is_exit,
{
    let enter_prefix = match kind {
        ProbeKind::User => "ufn_enter_",
        ProbeKind::Kernel => "kfn_enter_",
    };
    let exit_prefix = match kind {
        ProbeKind::User => "ufn_exit_",
        ProbeKind::Kernel => "kfn_exit_",
    };
    let enter = AttachStep {
        program: String::from_str(enter_prefix).concat(call_name.as_str()),
        call_name: call_name.clone(),
        kind,
        is_exit: false,
    };
    let exit = AttachStep {
        program: String::from_str(exit_prefix).concat(call_name.as_str()),
        call_name: call_name.clone(),
        kind,
        is_exit: true,
    };
    (enter, exit)
}

/// Builds the attachment plan for the requested user-space and
/// kernel-space call names.
///
/// Fails exactly when user-space calls are requested without an attach
/// target — a half-configured user probe must never reach attachment.
/// Otherwise the plan lists, for every requested call, its entry handler
/// immediately followed by its exit handler: user-space calls first, then
/// kernel-space calls, in request order.
pub fn build_attach_plan(
    ufns: &Option<Vec<String>>,
    kfns: &Option<Vec<String>>,
    attach_target: &Option<String>,
) -> (r: Result<Vec<AttachStep>, ConfigError>)
    ensures
        ({
            let us = match ufns {
                Some(v) => v.deep_view(),
                None => Seq::<Seq<char>>::empty(),
            };
            let ks = match kfns {
                Some(v) => v.deep_view(),
                None => Seq::<Seq<char>>::empty(),
            };
            match r {
                Err(e) => {
                    &&& e == ConfigError::MissingAttachTarget
                    &&& ufns is Some
                    &&& attach_target is None
                },
                Ok(plan) => {
                    &&& !(ufns is Some && attach_target is None)
                    &&& plan@.len() == 2 * us.len() + 2 * ks.len()
                    &&& plan_covers(plan@, 0, us, ProbeKind::User)
                    &&& plan_covers(plan@, 2 * us.len() as int, ks, ProbeKind::Kernel)
                },
            }
        }),
{
    let ghost us = match ufns {
        Some(v) => v.deep_view(),
        None => Seq::<Seq<char>>::empty(),
    };
    let ghost ks = match kfns {
        Some(v) => v.deep_view(),
        None => Seq::<Seq<char>>::empty(),
    };
    let mut plan: Vec<AttachStep> = Vec::new();
    if let Some(usv) = ufns {
        if attach_target.is_none() {
            return Err(ConfigError::MissingAttachTarget);
        }
        let n = usv.len();
        let mut i: usize = 0;
        while i < n
            invariant
                i <= n,
                n == usv@.len(),
                us == usv.deep_view(),
                plan@.len() == 2 * i,
                plan_covers(plan@, 0, us.take(i as int), ProbeKind::User),
            decreases n - i,
        {
            let (enter, exit) = steps_for(ProbeKind::User, &usv[i]);
            plan.push(enter);
            plan.push(exit);
            i += 1;
        }
        proof {
            assert(us.take(n as int) =~= us);
        }
    }
    if let Some(ksv) = kfns {
        let n = ksv.len();
        let mut i: usize = 0;
        while i < n
            invariant
                i <= n,
                n == ksv@.len(),
                ks == ksv.deep_view(),
                plan@.len() == 2 * us.len() + 2 * i,
                plan_covers(plan@, 0, us, ProbeKind::User),
                plan_covers(plan@, 2 * us.len() as int, ks.take(i as int), ProbeKind::Kernel),
            decreases n - i,
        {
            let (enter, exit) = steps_for(ProbeKind::Kernel, &ksv[i]);
            plan.push(enter);
            plan.push(exit);
            i += 1;
        }
        proof {
            assert(ks.take(n as int) =~= ks);
        }
    }
    Ok(plan)
}

/// The tracker registry: one tracker per instrumented call identity, in
/// wire-encoding order, each with the default deadline and the given
/// table capacity.
pub fn default_trackers(capacity: usize) -> (r: Vec<Tracker>)
    ensures
        r@.len() == 7,
        forall|i: int|
            0 <= i < 7 ==> {
                let t = #[trigger] r@[i];
                &&& t.wf()
                &&& t.pending() == Map::<u32, u64>::empty()
                &&& t.count() == 0
                &&& t.capacity() == capacity
                &&& t.deadline_ns() == DEFAULT_DEADLINE_NS
                &&& t.call_id().encoding_spec() == i
            },
{
    let mut r: Vec<Tracker> = Vec::new();
    r.push(Tracker::with_default_deadline(EventType::clock_gettime, capacity));
    r.push(Tracker::with_default_deadline(EventType::fsync, capacity));
    r.push(Tracker::with_default_deadline(EventType::fdatasync, capacity));
    r.push(Tracker::with_default_deadline(EventType::down_killable, capacity));
    r.push(Tracker::with_default_deadline(EventType::down_read_killable, capacity));
    r.push(Tracker::with_default_deadline(EventType::down_write_killable, capacity));
    r.push(Tracker::with_default_deadline(EventType::posix_fadvise, capacity));
    r
}

} // verus!
