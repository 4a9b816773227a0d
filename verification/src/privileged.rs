//! Commands that run with the rights of the administrator.

use vstd::prelude::*;
use vstd::string::*;
use crate::ops::{carried, OpState, Ops};
use crate::process::{command, success, succeeded, CommandLine, CommandV, Output};
use crate::text::{
    blank,
    contains,
    law_found_between,
    lossy,
    lossy_text,
    occurs,
    occurs_at,
    opt_text,
    result_text,
    signed_decimal,
    signed_text,
    trim,
    trimmed,
};

verus! {

/// Where a privileged command looks for programs, also where the environment was stripped.
pub const SAFE_PATH: &'static str = "/usr/local/sbin:/usr/local/bin:/usr/sbin:/usr/bin:/sbin:/bin";

/// What is told where the user ended the operation.
pub const CANCELLED: &'static str = "__cancelled__";

/// The operations once `pid` carries the operation, where there is one.
pub open spec fn carried_by(
    ops: Map<Seq<char>, OpState>,
    id: Option<Seq<char>>,
    pid: u32,
) -> Map<Seq<char>, OpState> {
    match id {
        Some(id) => carried(ops, id, pid),
        None => ops,
    }
}

/// The operations without the given one, where there is one.
pub open spec fn without(ops: Map<Seq<char>, OpState>, id: Option<Seq<char>>) -> Map<
    Seq<char>,
    OpState,
> {
    match id {
        Some(id) => ops.remove(id),
        None => ops,
    }
}

/// Records that `pid` carries the operation, where there is one.
pub fn track_opt(ops: &mut Ops, op_id: &Option<String>, pid: u32)
    ensures
        final(ops)@ == carried_by(old(ops)@, opt_text(*op_id), pid),
{
    if let Some(id) = op_id {
        ops.track(id.as_str(), pid);
    }
}

/// Forgets the operation, where there is one.
pub fn untrack_opt(ops: &mut Ops, op_id: &Option<String>)
    ensures
        final(ops)@ == without(old(ops)@, opt_text(*op_id)),
{
    if let Some(id) = op_id {
        ops.untrack(id.as_str());
    }
}

/// The program that raises the rights: with a password `sudo`, without one the system's own dialog,
/// and `sudo` again where that dialog is missing.
pub open spec fn raiser(password: Seq<char>, has_pkexec: bool) -> Seq<char> {
    if password.len() == 0 && has_pkexec {
        "pkexec"@
    } else {
        "sudo"@
    }
}

/// The command that runs `inner` with raised rights. A password goes to its input, never to its
/// arguments.
pub open spec fn raised(inner: CommandV, password: Seq<char>, has_pkexec: bool) -> CommandV {
    let options = if password.len() == 0 {
        Seq::<Seq<char>>::empty()
    } else {
        seq!["-S"@, "-p"@, ""@]
    };
    command(raiser(password, has_pkexec), options.push(inner.program) + inner.args)
}

/// What is written to the input of a program that asks for the password.
pub open spec fn password_input(password: Seq<char>) -> Option<Seq<char>> {
    if password.len() == 0 {
        None
    } else {
        Some(password + "\n"@)
    }
}

/// An exit code, or its lack, as a debug print shows it.
pub open spec fn shown_code(code: Option<i32>) -> Seq<char> {
    match code {
        Some(n) => "Some("@ + signed_decimal(n as int) + ")"@,
        None => "None"@,
    }
}

/// What a failed command says to the system's own dialog: what it wrote as errors, or else what it
/// wrote at all.
pub open spec fn complaint(stdout: Seq<char>, stderr: Seq<char>) -> Seq<char> {
    if trimmed(stderr).len() == 0 {
        trimmed(stdout)
    } else {
        trimmed(stderr)
    }
}

/// All that a failed command says: what it wrote as errors and then what it wrote at all, each without
/// the white space around it, and a blank one left out.
pub open spec fn both_texts(stdout: Seq<char>, stderr: Seq<char>) -> Seq<char> {
    if trimmed(stderr).len() == 0 {
        trimmed(stdout)
    } else if trimmed(stdout).len() == 0 {
        trimmed(stderr)
    } else {
        trimmed(stderr) + "\n"@ + trimmed(stdout)
    }
}

/// `stderr` tells that the password was wrong.
pub open spec fn wrong_password(stderr: Seq<char>) -> bool {
    occurs(stderr, "incorrect password"@) || occurs(stderr, "Sorry, try again"@)
}

/// `stderr` tells that a signal ended the command.
pub open spec fn terminated(stderr: Seq<char>) -> bool {
    occurs(stderr, "Terminated"@) || occurs(stderr, "signal: 15"@)
}

/// The result of a privileged command.
pub open spec fn judged(
    with_password: bool,
    code: Option<i32>,
    stdout: Seq<char>,
    stderr: Seq<char>,
) -> Result<Seq<char>, Seq<char>> {
    if succeeded(code) {
        Ok(stdout)
    } else if with_password {
        if wrong_password(stderr) {
            Err("Contraseña incorrecta"@)
        } else if terminated(stderr) {
            Err(CANCELLED@)
        } else if both_texts(stdout, stderr).len() > 0 {
            Err(both_texts(stdout, stderr))
        } else {
            Err("Falló sin output"@)
        }
    } else if complaint(stdout, stderr).len() > 0 {
        Err(complaint(stdout, stderr))
    } else {
        Err("fallo sin output (exit "@ + shown_code(code) + ")"@)
    }
}

/// An exit code as a debug print shows it.
fn code_text(code: Option<i32>) -> (r: String)
    ensures
        r@ == shown_code(code),
{
    match code {
        Some(n) => "Some(".to_owned().concat(signed_text(n).as_str()).concat(")"),
        None => "None".to_owned(),
    }
}

/// All that a failed command says.
fn all_said(stdout: &str, stderr: &str) -> (r: String)
    ensures
        r@ == both_texts(stdout@, stderr@),
{
    let out = trim(stdout);
    let err = trim(stderr);
    if err.as_str().is_empty() {
        out
    } else if out.as_str().is_empty() {
        err
    } else {
        err.concat("\n").concat(out.as_str())
    }
}

/// The result of a privileged command that has ended.
pub fn judge(with_password: bool, code: Option<i32>, stdout: String, stderr: String) -> (r: Result<
    String,
    String,
>)
    ensures
        result_text(r) == judged(with_password, code, stdout@, stderr@),
{
    if success(code) {
        return Ok(stdout);
    }
    if with_password {
        if contains(stderr.as_str(), "incorrect password") || contains(
            stderr.as_str(),
            "Sorry, try again",
        ) {
            return Err("Contraseña incorrecta".to_owned());
        }
        if contains(stderr.as_str(), "Terminated") || contains(stderr.as_str(), "signal: 15") {
            return Err(CANCELLED.to_owned());
        }
        let said = all_said(stdout.as_str(), stderr.as_str());
        return if said.as_str().is_empty() {
            Err("Falló sin output".to_owned())
        } else {
            Err(said)
        };
    }
    let said = if blank(stderr.as_str()) {
        trim(stdout.as_str())
    } else {
        trim(stderr.as_str())
    };
    if !said.as_str().is_empty() {
        Err(said)
    } else {
        Err(
            "fallo sin output (exit ".to_owned().concat(code_text(code).as_str()).concat(")"),
        )
    }
}

/// The command that asks whether the system's own password dialog exists: it succeeds where it does.
/// Only a run without a password asks.
pub fn pkexec_query(password: &str) -> (r: Option<CommandLine>)
    ensures
        match r {
            Some(c) => password@.len() == 0 && c@ == command("which"@, seq!["pkexec"@]),
            None => password@.len() > 0,
        },
{
    if !password.is_empty() {
        return None;
    }
    let c = CommandLine::new("which").arg("pkexec");
    assert(c@ =~= command("which"@, seq!["pkexec"@]));
    Some(c)
}

/// A privileged command that is to be run: `path` is where it looks for programs, and `input` is what
/// is written to its input.
#[derive(Debug)]
pub struct PrivRun {
    pub command: CommandLine,
    pub path: String,
    pub input: Option<String>,
    pub op_id: Option<String>,
}

/// Prepares the run of `inner` with raised rights. `has_pkexec` tells whether the system's own
/// password dialog exists, as [`pkexec_query`] found out; it counts only where `password` is empty.
pub fn run_priv(
    inner: &CommandLine,
    password: &str,
    op_id: Option<String>,
    has_pkexec: bool,
) -> (r: PrivRun)
    ensures
        r.command@ == raised(inner@, password@, has_pkexec),
        r.path@ == SAFE_PATH@,
        opt_text(r.input) == password_input(password@),
        r.op_id == op_id,
{
    if password.is_empty() {
        let program: &str = if has_pkexec {
            "pkexec"
        } else {
            "sudo"
        };
        let c = CommandLine::new(program).arg(inner.program.as_str()).args(&inner.args);
        assert(c@ =~= raised(inner@, password@, has_pkexec));
        PrivRun { command: c, path: SAFE_PATH.to_owned(), input: None, op_id }
    } else {
        let c = CommandLine::new("sudo").arg("-S").arg("-p").arg("").arg(
            inner.program.as_str(),
        ).args(&inner.args);
        assert(c@ =~= raised(inner@, password@, has_pkexec));
        PrivRun {
            command: c,
            path: SAFE_PATH.to_owned(),
            input: Some(password.to_owned().concat("\n")),
            op_id,
        }
    }
}

impl PrivRun {
    /// The message where the program could not be started.
    pub fn spawn_failure(&self, cause: &str) -> (r: String)
        ensures
            r@ == "Fallo al lanzar "@ + self.command@.program + ": "@ + cause@,
    {
        "Fallo al lanzar ".to_owned().concat(self.command.program.as_str()).concat(": ").concat(cause)
    }

    /// Records the process that runs the command, so that it can be cancelled.
    pub fn started(&self, ops: &mut Ops, pid: u32)
        ensures
            final(ops)@ == carried_by(old(ops)@, opt_text(self.op_id), pid),
    {
        track_opt(ops, &self.op_id, pid);
    }

    /// Forgets the process, and gives the result of the command that has ended.
    pub fn ended(self, ops: &mut Ops, out: &Output) -> (r: Result<String, String>)
        ensures
            final(ops)@ == without(old(ops)@, opt_text(self.op_id)),
            result_text(r) == judged(
                self.input is Some,
                out.code,
                lossy(out.stdout@),
                lossy(out.stderr@),
            ),
    {
        untrack_opt(ops, &self.op_id);
        judge(
            self.input.is_some(),
            out.code,
            lossy_text(out.stdout.as_slice()),
            lossy_text(out.stderr.as_slice()),
        )
    }
}

/// The password appears nowhere in the command: two passwords lead to the same command.
pub proof fn law_password_is_not_an_argument(
    inner: CommandV,
    password: Seq<char>,
    other: Seq<char>,
    has_pkexec: bool,
    has_pkexec_later: bool,
)
    requires
        password.len() > 0,
        other.len() > 0,
    ensures
        raised(inner, password, has_pkexec) == raised(inner, other, has_pkexec_later),
{
}

/// A privileged command fails with a message, never with an empty text; a successful one gives what
/// it wrote unchanged.
pub proof fn law_failure_has_a_message(
    with_password: bool,
    code: Option<i32>,
    stdout: Seq<char>,
    stderr: Seq<char>,
)
    ensures
        judged(with_password, code, stdout, stderr) matches Err(message) ==> message.len() > 0,
        judged(with_password, code, stdout, stderr) is Ok <==> succeeded(code),
        judged(with_password, code, stdout, stderr) matches Ok(text) ==> text == stdout,
{
    reveal_strlit("Contraseña incorrecta");
    reveal_strlit("__cancelled__");
    reveal_strlit("Falló sin output");
    reveal_strlit("fallo sin output (exit ");
}

/// With a password, a failure tells all that the command wrote, as errors and otherwise, unless the
/// password was wrong or a signal ended the command.
pub proof fn law_failure_tells_all(code: Option<i32>, stdout: Seq<char>, stderr: Seq<char>)
    requires
        !succeeded(code),
        !wrong_password(stderr),
        !terminated(stderr),
    ensures
        judged(true, code, stdout, stderr) matches Err(message) && occurs(message, trimmed(stdout))
            && occurs(message, trimmed(stderr)),
{
    let out = trimmed(stdout);
    let err = trimmed(stderr);
    let message = judged(true, code, stdout, stderr)->Err_0;
    assert(occurs_at(message, err, 0)) by {
        assert(message.subrange(0, err.len() as int) =~= err);
    }
    let start = message.len() - out.len();
    assert(occurs_at(message, out, start)) by {
        assert(message.subrange(start, message.len() as int) =~= out);
    }
}

/// A run that has started and ended leaves the operations as they were without it.
pub proof fn law_ended_run_is_forgotten(ops: Map<Seq<char>, OpState>, id: Seq<char>, pid: u32)
    ensures
        without(carried_by(ops, Some(id), pid), Some(id)) == ops.remove(id),
{
    assert(without(carried_by(ops, Some(id), pid), Some(id)) =~= ops.remove(id));
}

/// The command that checks a password and does nothing else.
pub open spec fn check_command() -> CommandV {
    command("sudo"@, seq!["-S"@, "-k"@, "-p"@, ""@, "true"@])
}

/// A check of a password that is to be run: the command and what is written to its input.
#[derive(Debug)]
pub struct PasswordCheck {
    pub command: CommandLine,
    pub input: String,
}

/// The check of `password`; an empty one needs no check, as it is never right. The password is right
/// where [`crate::process::confirmed`] says so of the check.
pub fn verify_password(password: &str) -> (r: Option<PasswordCheck>)
    ensures
        match r {
            Some(c) => password@.len() > 0 && c.command@ == check_command() && c.input@ == password@
                + "\n"@,
            None => password@.len() == 0,
        },
{
    if password.is_empty() {
        return None;
    }
    let c = CommandLine::new("sudo").arg("-S").arg("-k").arg("-p").arg("").arg("true");
    assert(c@ =~= check_command());
    Some(PasswordCheck { command: c, input: password.to_owned().concat("\n") })
}

/// With a password `sudo` reads it from its input and runs the command after its own options; the
/// password and the end of its line are all that is written to that input.
pub proof fn law_run_with_a_password(
    inner: CommandLine,
    password: &str,
    op_id: Option<String>,
    has_pkexec: bool,
    r: PrivRun,
)
    requires
        call_ensures(run_priv, (&inner, password, op_id, has_pkexec), r),
        password@.len() > 0,
    ensures
        r.command@.program == "sudo"@,
        r.command@.args == seq!["-S"@, "-p"@, ""@, inner@.program] + inner@.args,
        r.input matches Some(text) && text@ == password@.push('\n'),
        r.op_id == op_id,
        r.path@ == "/usr/local/sbin:/usr/local/bin:/usr/sbin:/usr/bin:/sbin:/bin"@,
{
    assert(r.command@.args =~= seq!["-S"@, "-p"@, ""@, inner@.program] + inner@.args);
    reveal_strlit("\n");
    assert(password@ + "\n"@ =~= password@.push('\n'));
}

/// Without a password the system's own dialog runs the command as it is, or `sudo` where there is no
/// such dialog, and nothing is written to the input.
pub proof fn law_run_without_a_password(
    inner: CommandLine,
    password: &str,
    op_id: Option<String>,
    has_pkexec: bool,
    r: PrivRun,
)
    requires
        call_ensures(run_priv, (&inner, password, op_id, has_pkexec), r),
        password@.len() == 0,
    ensures
        has_pkexec ==> r.command@.program == "pkexec"@,
        !has_pkexec ==> r.command@.program == "sudo"@,
        r.command@.args == seq![inner@.program] + inner@.args,
        r.input is None,
        r.op_id == op_id,
        r.path@ == "/usr/local/sbin:/usr/local/bin:/usr/sbin:/usr/bin:/sbin:/bin"@,
{
    assert(r.command@.args =~= seq![inner@.program] + inner@.args);
}

/// A run is carried by its process from when it started until it ended, where it has a name; then the
/// operation is forgotten, and no other one changes.
pub proof fn law_run_is_known_while_it_runs(
    run: PrivRun,
    ops: &mut Ops,
    pid: u32,
    other: Seq<char>,
    u: (),
)
    requires
        call_ensures(PrivRun::started, (&run, ops, pid), u),
    ensures
        run.op_id matches Some(id) ==> final(ops)@.contains_key(id@) && final(ops)@[id@].pid
            == Some(pid),
        opt_text(run.op_id) != Some(other) ==> final(ops)@.contains_key(other)
            == old(ops)@.contains_key(other) && (old(ops)@.contains_key(other)
            ==> final(ops)@[other] == old(ops)@[other]),
{
}

/// The end of a run forgets the operation and no other one, and the result is that of judging what
/// the command left behind: its output and its errors, each for what it is.
pub proof fn law_ended_run_is_judged(
    run: PrivRun,
    ops: &mut Ops,
    out: Output,
    stdout: String,
    stderr: String,
    other: Seq<char>,
    r: Result<String, String>,
    j: Result<String, String>,
)
    requires
        call_ensures(PrivRun::ended, (run, ops, &out), r),
        call_ensures(judge, (run.input is Some, out.code, stdout, stderr), j),
        stdout@ == lossy(out.stdout@),
        stderr@ == lossy(out.stderr@),
    ensures
        run.op_id matches Some(id) ==> !final(ops)@.contains_key(id@),
        opt_text(run.op_id) != Some(other) ==> final(ops)@.contains_key(other)
            == old(ops)@.contains_key(other) && (old(ops)@.contains_key(other)
            ==> final(ops)@[other] == old(ops)@[other]),
        result_text(r) == result_text(j),
{
}

/// A command succeeds exactly with exit code zero, and gives its output as it is.
pub proof fn law_success_gives_the_output(
    with_password: bool,
    code: Option<i32>,
    stdout: String,
    stderr: String,
    r: Result<String, String>,
)
    requires
        call_ensures(judge, (with_password, code, stdout, stderr), r),
    ensures
        r is Ok <==> code == Some(0i32),
        r matches Ok(text) ==> text@ == stdout@,
{
}

/// A failure that says that the password was wrong is told as that, and one that says that a signal
/// ended the command is told as cancelled, whatever else it says. Only a run with a password is
/// looked at for either.
pub proof fn law_wrong_password_and_cancelling(
    code: Option<i32>,
    stdout: String,
    stderr: String,
    a: Seq<char>,
    b: Seq<char>,
    r: Result<String, String>,
)
    requires
        call_ensures(judge, (true, code, stdout, stderr), r),
        code != Some(0i32),
    ensures
        stderr@ == a + "incorrect password"@ + b || stderr@ == a + "Sorry, try again"@ + b ==> (
        r matches Err(m) && m@ == "Contraseña incorrecta"@),
        (stderr@ == a + "Terminated"@ + b || stderr@ == a + "signal: 15"@ + b) && !occurs(
            stderr@,
            "incorrect password"@,
        ) && !occurs(stderr@, "Sorry, try again"@) ==> (r matches Err(m) && m@ == "__cancelled__"@),
{
    law_found_between(stderr@, "incorrect password"@);
    law_found_between(stderr@, "Sorry, try again"@);
    law_found_between(stderr@, "Terminated"@);
    law_found_between(stderr@, "signal: 15"@);
}

/// With a password, any other failure tells what the command wrote as errors, then what it wrote at
/// all, on lines of their own, and a blank one is left out.
pub proof fn law_failure_with_a_password(
    code: Option<i32>,
    stdout: String,
    stderr: String,
    r: Result<String, String>,
)
    requires
        call_ensures(judge, (true, code, stdout, stderr), r),
        code != Some(0i32),
        !occurs(stderr@, "incorrect password"@) && !occurs(stderr@, "Sorry, try again"@),
        !occurs(stderr@, "Terminated"@) && !occurs(stderr@, "signal: 15"@),
    ensures
        trimmed(stderr@).len() > 0 && trimmed(stdout@).len() > 0 ==> (r matches Err(m) && m@
            == trimmed(stderr@).push('\n') + trimmed(stdout@)),
        trimmed(stderr@).len() > 0 && trimmed(stdout@).len() == 0 ==> (r matches Err(m) && m@
            == trimmed(stderr@)),
        trimmed(stderr@).len() == 0 && trimmed(stdout@).len() > 0 ==> (r matches Err(m) && m@
            == trimmed(stdout@)),
        trimmed(stderr@).len() == 0 && trimmed(stdout@).len() == 0 ==> (r matches Err(m) && m@
            == "Falló sin output"@),
{
    reveal_strlit("\n");
    assert(trimmed(stderr@) + "\n"@ + trimmed(stdout@) =~= trimmed(stderr@).push('\n') + trimmed(
        stdout@,
    ));
}

/// Without a password a failure tells what the command wrote as errors, or else what it wrote at all,
/// or else its exit code, which can be read from what is told.
pub proof fn law_failure_without_a_password(
    code: Option<i32>,
    stdout: String,
    stderr: String,
    r: Result<String, String>,
)
    requires
        call_ensures(judge, (false, code, stdout, stderr), r),
        code != Some(0i32),
    ensures
        trimmed(stderr@).len() > 0 ==> (r matches Err(m) && m@ == trimmed(stderr@)),
        trimmed(stderr@).len() == 0 && trimmed(stdout@).len() > 0 ==> (r matches Err(m) && m@
            == trimmed(stdout@)),
        trimmed(stderr@).len() == 0 && trimmed(stdout@).len() == 0 ==> (r matches Err(m) && (
        match code {
            None => m@ == "fallo sin output (exit "@ + "None"@ + ")"@,
            Some(n) => m@ == "fallo sin output (exit "@ + "Some("@ + signed_decimal(n as int) + ")"@
                + ")"@,
        })),
{
    if let Some(n) = code {
        assert("fallo sin output (exit "@ + ("Some("@ + signed_decimal(n as int) + ")"@) + ")"@
            =~= "fallo sin output (exit "@ + "Some("@ + signed_decimal(n as int) + ")"@ + ")"@);
    }
}

/// An empty password is never checked; any other one is written, with the end of its line, to the
/// input of a command that does nothing, forgets earlier answers and does not know the password.
pub proof fn law_password_check(password: &str, r: Option<PasswordCheck>)
    requires
        call_ensures(verify_password, (password,), r),
    ensures
        r is Some <==> password@.len() > 0,
        r matches Some(c) ==> c.input@ == password@.push('\n') && c.command@.program == "sudo"@
            && c.command@.args == seq!["-S"@, "-k"@, "-p"@, ""@, "true"@],
{
    reveal_strlit("\n");
    assert(password@ + "\n"@ =~= password@.push('\n'));
}

/// The system's own dialog is looked for exactly where there is no password.
pub proof fn law_dialog_is_looked_for(password: &str, r: Option<CommandLine>)
    requires
        call_ensures(pkexec_query, (password,), r),
    ensures
        r is Some <==> password@.len() == 0,
        r matches Some(c) ==> c@.program == "which"@ && c@.args == seq!["pkexec"@],
{
}

/// A run that could not be started tells which program was missing and why.
pub proof fn law_start_failure_names_the_program(run: PrivRun, cause: &str, r: String)
    requires
        call_ensures(PrivRun::spawn_failure, (&run, cause), r),
    ensures
        r@ == "Fallo al lanzar "@ + (run.command.program@ + (": "@ + cause@)),
{
    assert(r@ =~= "Fallo al lanzar "@ + (run.command.program@ + (": "@ + cause@)));
}

} // verus!
