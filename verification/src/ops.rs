//! Running operations: which process carries each one, and how far it has come.

use vstd::hash_map::*;
use vstd::prelude::*;
use vstd::string::*;
use crate::process::{command, CommandLine};
use crate::text::{decimal, decimal_text, digits_value, law_decimal_reads_back};

verus! {

/// How much of an operation is done.
///
/// `Share` stands for `100 * part / whole` percent, but at most 99; its `whole` is not zero.
#[derive(Clone, Copy, Debug, PartialEq)]
pub enum Pct {
    Zero,
    Share { part: u64, whole: u64 },
    Full,
}

/// The state of an operation.
#[derive(Clone, Copy, Debug, PartialEq)]
pub struct OpState {
    pub pid: Option<u32>,
    pub pct: Pct,
    pub downloaded: u64,
    pub total: u64,
}

/// An operation of which nothing is known yet.
pub open spec fn fresh_op() -> OpState {
    OpState { pid: None, pct: Pct::Zero, downloaded: 0, total: 0 }
}

/// The state of `id`, fresh where it is not known.
pub open spec fn state_of(ops: Map<Seq<char>, OpState>, id: Seq<char>) -> OpState {
    if ops.contains_key(id) {
        ops[id]
    } else {
        fresh_op()
    }
}

/// The operations once process `pid` carries `id`.
pub open spec fn carried(ops: Map<Seq<char>, OpState>, id: Seq<char>, pid: u32) -> Map<
    Seq<char>,
    OpState,
> {
    ops.insert(id, OpState { pid: Some(pid), ..state_of(ops, id) })
}

/// The operations once `id` has come as far as given.
pub open spec fn advanced(
    ops: Map<Seq<char>, OpState>,
    id: Seq<char>,
    pct: Pct,
    downloaded: u64,
    total: u64,
) -> Map<Seq<char>, OpState> {
    ops.insert(id, OpState { pid: state_of(ops, id).pid, pct, downloaded, total })
}

/// What is told of an operation: an unknown one counts as ended.
#[derive(Clone, Copy, Debug, PartialEq)]
pub enum Progress {
    Active { pct: Pct, downloaded: u64, total: u64 },
    Ended,
}

/// What is told of `id`.
pub open spec fn report(ops: Map<Seq<char>, OpState>, id: Seq<char>) -> Progress {
    if ops.contains_key(id) {
        Progress::Active { pct: ops[id].pct, downloaded: ops[id].downloaded, total: ops[id].total }
    } else {
        Progress::Ended
    }
}

/// The process that carries `id`.
pub open spec fn carrier(ops: Map<Seq<char>, OpState>, id: Seq<char>) -> Option<u32> {
    if ops.contains_key(id) {
        ops[id].pid
    } else {
        None
    }
}

/// The running operations by their identifiers.
pub struct Ops {
    entries: StringHashMap<OpState>,
}

impl View for Ops {
    type V = Map<Seq<char>, OpState>;

    closed spec fn view(&self) -> Map<Seq<char>, OpState> {
        self.entries@
    }
}

impl Ops {
    /// No operation at all.
    pub fn new() -> (r: Ops)
        ensures
            r@ == Map::<Seq<char>, OpState>::empty(),
    {
        Ops { entries: StringHashMap::new() }
    }

    /// The state of `op_id`, fresh where it is not known.
    fn state(&self, op_id: &str) -> (r: OpState)
        ensures
            r == state_of(self@, op_id@),
    {
        match self.entries.get(op_id) {
            Some(s) => *s,
            None => OpState { pid: None, pct: Pct::Zero, downloaded: 0, total: 0 },
        }
    }

    /// Records that process `pid` carries `op_id`.
    pub fn track(&mut self, op_id: &str, pid: u32)
        ensures
            final(self)@ == carried(old(self)@, op_id@, pid),
    {
        let s = self.state(op_id);
        self.entries.insert(
            op_id.to_owned(),
            OpState { pid: Some(pid), pct: s.pct, downloaded: s.downloaded, total: s.total },
        );
    }

    /// Forgets `op_id`.
    pub fn untrack(&mut self, op_id: &str)
        ensures
            final(self)@ == old(self)@.remove(op_id@),
    {
        self.entries.remove(op_id);
    }

    /// Records how far `op_id` has come.
    pub fn set_progress(&mut self, op_id: &str, pct: Pct, downloaded: u64, total: u64)
        ensures
            final(self)@ == advanced(old(self)@, op_id@, pct, downloaded, total),
    {
        let s = self.state(op_id);
        self.entries.insert(op_id.to_owned(), OpState { pid: s.pid, pct, downloaded, total });
    }

    /// What is told of `op_id`.
    pub fn progress(&self, op_id: &str) -> (r: Progress)
        ensures
            r == report(self@, op_id@),
    {
        match self.entries.get(op_id) {
            Some(s) => Progress::Active {
                pct: s.pct,
                downloaded: s.downloaded,
                total: s.total,
            },
            None => Progress::Ended,
        }
    }

    /// The command that asks the process of `op_id` to end, where a process carries it. The
    /// operation is cancelled where [`crate::process::confirmed`] says so of that command.
    pub fn cancel_op(&self, op_id: &str) -> (r: Option<CommandLine>)
        ensures
            match r {
                Some(c) => carrier(self@, op_id@) matches Some(pid) && c@ == command(
                    "kill"@,
                    seq!["-TERM"@, decimal(pid as nat)],
                ),
                None => carrier(self@, op_id@) is None,
            },
    {
        match self.entries.get(op_id) {
            Some(s) => match s.pid {
                Some(pid) => {
                    let c = CommandLine::new("kill").arg("-TERM").arg(
                        decimal_text(pid as u64).as_str(),
                    );
                    assert(c@ =~= command("kill"@, seq!["-TERM"@, decimal(pid as nat)]));
                    Some(c)
                },
                None => None,
            },
            None => None,
        }
    }
}

/// A tracked operation is active and is cancelled through the process that was tracked last.
pub proof fn law_tracked_can_be_cancelled(ops: Map<Seq<char>, OpState>, id: Seq<char>, pid: u32)
    ensures
        carrier(carried(ops, id, pid), id) == Some(pid),
        report(carried(ops, id, pid), id) is Active,
{
}

/// A forgotten operation has ended and cannot be cancelled.
pub proof fn law_untracked_has_ended(ops: Map<Seq<char>, OpState>, id: Seq<char>)
    ensures
        report(ops.remove(id), id) == Progress::Ended,
        carrier(ops.remove(id), id) is None,
{
}

/// Progress that was recorded is told as recorded, and does not change which process is cancelled;
/// tracking a process does not change the progress that is told of a known operation.
pub proof fn law_progress_and_process_are_apart(
    ops: Map<Seq<char>, OpState>,
    id: Seq<char>,
    pid: u32,
    pct: Pct,
    downloaded: u64,
    total: u64,
)
    ensures
        report(advanced(ops, id, pct, downloaded, total), id) == (Progress::Active {
            pct,
            downloaded,
            total,
        }),
        carrier(advanced(ops, id, pct, downloaded, total), id) == carrier(ops, id),
        ops.contains_key(id) ==> report(carried(ops, id, pid), id) == report(ops, id),
{
}

/// What is done to one operation leaves every other one as it is.
pub proof fn law_operations_are_independent(
    ops: Map<Seq<char>, OpState>,
    id: Seq<char>,
    other: Seq<char>,
    pid: u32,
    pct: Pct,
    downloaded: u64,
    total: u64,
)
    requires
        other != id,
    ensures
        report(carried(ops, id, pid), other) == report(ops, other),
        carrier(carried(ops, id, pid), other) == carrier(ops, other),
        report(advanced(ops, id, pct, downloaded, total), other) == report(ops, other),
        carrier(advanced(ops, id, pct, downloaded, total), other) == carrier(ops, other),
        report(ops.remove(id), other) == report(ops, other),
        carrier(ops.remove(id), other) == carrier(ops, other),
{
}

/// Tracking records the process and keeps what is known of the progress; of an operation that was not
/// known, no progress is known. No other operation changes.
pub proof fn law_tracking_records_the_process(
    ops: &mut Ops,
    op_id: &str,
    pid: u32,
    other: Seq<char>,
    u: (),
)
    requires
        call_ensures(Ops::track, (ops, op_id, pid), u),
    ensures
        final(ops)@.contains_key(op_id@),
        final(ops)@[op_id@].pid == Some(pid),
        old(ops)@.contains_key(op_id@) ==> final(ops)@[op_id@].pct == old(ops)@[op_id@].pct
            && final(ops)@[op_id@].downloaded == old(ops)@[op_id@].downloaded
            && final(ops)@[op_id@].total == old(ops)@[op_id@].total,
        !old(ops)@.contains_key(op_id@) ==> final(ops)@[op_id@].pct == Pct::Zero
            && final(ops)@[op_id@].downloaded == 0 && final(ops)@[op_id@].total == 0,
        other != op_id@ ==> final(ops)@.contains_key(other) == old(ops)@.contains_key(other),
        other != op_id@ && old(ops)@.contains_key(other) ==> final(ops)@[other] == old(ops)@[other],
{
}

/// Progress is recorded as given and keeps the process. No other operation changes.
pub proof fn law_progress_is_recorded(
    ops: &mut Ops,
    op_id: &str,
    pct: Pct,
    downloaded: u64,
    total: u64,
    other: Seq<char>,
    u: (),
)
    requires
        call_ensures(Ops::set_progress, (ops, op_id, pct, downloaded, total), u),
    ensures
        final(ops)@.contains_key(op_id@),
        final(ops)@[op_id@].pct == pct && final(ops)@[op_id@].downloaded == downloaded
            && final(ops)@[op_id@].total == total,
        final(ops)@[op_id@].pid == (if old(ops)@.contains_key(op_id@) {
            old(ops)@[op_id@].pid
        } else {
            None
        }),
        other != op_id@ ==> final(ops)@.contains_key(other) == old(ops)@.contains_key(other),
        other != op_id@ && old(ops)@.contains_key(other) ==> final(ops)@[other] == old(ops)@[other],
{
}

/// Forgetting takes out one operation and no other.
pub proof fn law_forgetting_takes_out_one(ops: &mut Ops, op_id: &str, other: Seq<char>, u: ())
    requires
        call_ensures(Ops::untrack, (ops, op_id), u),
    ensures
        !final(ops)@.contains_key(op_id@),
        other != op_id@ ==> final(ops)@.contains_key(other) == old(ops)@.contains_key(other),
        other != op_id@ && old(ops)@.contains_key(other) ==> final(ops)@[other] == old(ops)@[other],
{
}

/// What is told of an operation is what was recorded of it; an operation that is not known has ended.
pub proof fn law_told_as_recorded(ops: Ops, op_id: &str, r: Progress)
    requires
        call_ensures(Ops::progress, (&ops, op_id), r),
    ensures
        r is Ended <==> !ops@.contains_key(op_id@),
        r matches Progress::Active { pct, downloaded, total } ==> pct == ops@[op_id@].pct
            && downloaded == ops@[op_id@].downloaded && total == ops@[op_id@].total,
{
}

/// Cancelling asks exactly the process that carries the operation to end, and nothing is asked where
/// no process does.
pub proof fn law_cancelling_ends_the_carrier(ops: Ops, op_id: &str, r: Option<CommandLine>)
    requires
        call_ensures(Ops::cancel_op, (&ops, op_id), r),
    ensures
        r is Some <==> ops@.contains_key(op_id@) && ops@[op_id@].pid is Some,
        r matches Some(c) ==> c@.program == "kill"@ && c@.args.len() == 2 && c@.args[0] == "-TERM"@
            && digits_value(c@.args[1]) == ops@[op_id@].pid->0,
{
    if let Some(c) = r {
        law_decimal_reads_back(ops@[op_id@].pid->0 as nat);
    }
}

/// At first no operation is known.
pub proof fn law_no_operation_at_first(r: Ops, op_id: Seq<char>)
    requires
        call_ensures(Ops::new, (), r),
    ensures
        !r@.contains_key(op_id),
{
}

} // verus!
