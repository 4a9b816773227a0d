//! Programs that are run: what they are told, and what they leave behind.

use vstd::prelude::*;
use vstd::string::*;
use crate::text::{lossy, lossy_text, opt_text, texts};

verus! {

/// A program and its arguments.
#[derive(Debug, PartialEq)]
pub struct CommandLine {
    pub program: String,
    pub args: Vec<String>,
}

/// What a [`CommandLine`] stands for.
#[verifier::ext_equal]
pub struct CommandV {
    pub program: Seq<char>,
    pub args: Seq<Seq<char>>,
}

/// The command line of `program` with `args`.
pub open spec fn command(program: Seq<char>, args: Seq<Seq<char>>) -> CommandV {
    CommandV { program, args }
}

impl View for CommandLine {
    type V = CommandV;

    open spec fn view(&self) -> CommandV {
        command(self.program@, texts(self.args@))
    }
}

impl CommandLine {
    /// `program` without arguments.
    pub fn new(program: &str) -> (r: CommandLine)
        ensures
            r@ == command(program@, Seq::empty()),
    {
        let r = CommandLine { program: program.to_owned(), args: Vec::new() };
        assert(texts(r.args@) =~= Seq::empty());
        r
    }

    /// The same command line with one more argument.
    pub fn arg(self, a: &str) -> (r: CommandLine)
        ensures
            r@ == command(self@.program, self@.args.push(a@)),
    {
        let CommandLine { program, args } = self;
        let mut args = args;
        let ghost before = args@;
        args.push(a.to_owned());
        assert(texts(args@) =~= texts(before).push(a@));
        CommandLine { program, args }
    }

    /// The same command line with more arguments.
    pub fn args(self, more: &Vec<String>) -> (r: CommandLine)
        ensures
            r@ == command(self@.program, self@.args + texts(more@)),
    {
        let mut r = self;
        let mut i: usize = 0;
        while i < more.len()
            invariant
                i <= more@.len(),
                r@ == command(self@.program, self@.args + texts(more@.take(i as int))),
            decreases more@.len() - i,
        {
            r = r.arg(more[i].as_str());
            assert(texts(more@.take(i + 1)) =~= texts(more@.take(i as int)).push(
                more@[i as int]@,
            ));
            i = i + 1;
        }
        assert(more@.take(i as int) =~= more@);
        r
    }
}

/// A command line that works on a file whose path need not be a text, and so is not part of it: the
/// path stands after the arguments of `front` and before those of `rest`.
#[derive(Debug, PartialEq)]
pub struct FileCommand {
    pub front: CommandLine,
    pub rest: Vec<String>,
}

/// What a [`FileCommand`] stands for.
#[verifier::ext_equal]
pub struct FileCommandV {
    pub front: CommandV,
    pub rest: Seq<Seq<char>>,
}

impl View for FileCommand {
    type V = FileCommandV;

    open spec fn view(&self) -> FileCommandV {
        FileCommandV { front: self.front@, rest: texts(self.rest@) }
    }
}

/// The command line that works on the file at `path`.
pub open spec fn on_file(c: FileCommandV, path: Seq<char>) -> CommandV {
    command(c.front.program, c.front.args.push(path) + c.rest)
}

/// What a program that ended leaves behind: its exit code, which it lacks where a signal ended it,
/// and what it wrote.
#[derive(Debug)]
pub struct Output {
    pub code: Option<i32>,
    pub stdout: Vec<u8>,
    pub stderr: Vec<u8>,
}

/// A program succeeds when it exits with code zero.
pub open spec fn succeeded(code: Option<i32>) -> bool {
    code == Some(0i32)
}

/// Whether an exit code is that of success.
pub fn success(code: Option<i32>) -> (r: bool)
    ensures
        r == succeeded(code),
{
    match code {
        Some(c) => c == 0,
        None => false,
    }
}

/// The answer of a program that is run for its exit code alone. It is yes only where the program was
/// run and succeeded; `ran` is `None` where there was nothing to run or it could not be started.
pub fn confirmed(ran: Option<Option<i32>>) -> (r: bool)
    ensures
        r == (ran matches Some(code) && succeeded(code)),
{
    match ran {
        Some(code) => success(code),
        None => false,
    }
}

/// What a program wrote to its standard output, where it ran and succeeded.
pub open spec fn success_text(out: Option<Output>) -> Option<Seq<char>> {
    match out {
        Some(o) => if succeeded(o.code) {
            Some(lossy(o.stdout@))
        } else {
            None
        },
        None => None,
    }
}

/// What a program wrote to its standard output, where it ran.
pub open spec fn output_text(out: Option<Output>) -> Option<Seq<char>> {
    match out {
        Some(o) => Some(lossy(o.stdout@)),
        None => None,
    }
}

/// What a program wrote to its standard output, where it ran and succeeded.
pub fn text_of_success(out: &Option<Output>) -> (r: Option<String>)
    ensures
        opt_text(r) == success_text(*out),
{
    match out {
        Some(o) => if success(o.code) {
            Some(lossy_text(o.stdout.as_slice()))
        } else {
            None
        },
        None => None,
    }
}

/// What a program wrote to its standard output, where it ran.
pub fn text_of_output(out: &Option<Output>) -> (r: Option<String>)
    ensures
        opt_text(r) == output_text(*out),
{
    match out {
        Some(o) => Some(lossy_text(o.stdout.as_slice())),
        None => None,
    }
}

/// What a program wrote counts only where it exited with code zero, and it is what it wrote to its
/// standard output: what it wrote as errors never counts.
pub proof fn law_only_success_counts(out: Option<Output>, r: Option<String>)
    requires
        call_ensures(text_of_success, (&out,), r),
    ensures
        r is Some <==> (out matches Some(o) && o.code == Some(0i32)),
        r matches Some(t) ==> (out matches Some(o) && t@ == lossy(o.stdout@)),
{
}

/// What a program wrote to its standard output is given whatever its exit code is.
pub proof fn law_output_whatever_the_code(out: Option<Output>, r: Option<String>)
    requires
        call_ensures(text_of_output, (&out,), r),
    ensures
        r is Some <==> out is Some,
        r matches Some(t) ==> (out matches Some(o) && t@ == lossy(o.stdout@)),
{
}

/// A program that is run for its exit code says yes with zero, and in no other case.
pub proof fn law_zero_says_yes(code: Option<i32>, ran: Option<Option<i32>>, s: bool, c: bool)
    requires
        call_ensures(success, (code,), s),
        call_ensures(confirmed, (ran,), c),
    ensures
        s <==> code == Some(0i32),
        c <==> ran == Some(Some(0i32)),
{
}

/// An argument is put behind those that are there, and the program and they stay as they are.
pub proof fn law_arguments_in_order(
    program: &str,
    line: CommandLine,
    a: &str,
    i: int,
    fresh: CommandLine,
    r: CommandLine,
)
    requires
        call_ensures(CommandLine::new, (program,), fresh),
        call_ensures(CommandLine::arg, (line, a), r),
    ensures
        fresh.program@ == program@ && fresh.args@.len() == 0,
        r.program@ == line.program@,
        r.args@.len() == line.args@.len() + 1,
        r.args@.last()@ == a@,
        0 <= i < line.args@.len() ==> r.args@[i]@ == line.args@[i]@,
{
    assert(texts(fresh.args@).len() == 0);
    assert(texts(r.args@).len() == texts(line.args@).len() + 1);
    assert(texts(r.args@).last() == a@);
    if 0 <= i < line.args@.len() {
        assert(texts(r.args@)[i] == texts(line.args@)[i]);
    }
}

/// More arguments are put behind those that are there, in their order.
pub proof fn law_more_arguments_in_order(
    line: CommandLine,
    more: Vec<String>,
    i: int,
    r: CommandLine,
)
    requires
        call_ensures(CommandLine::args, (line, &more), r),
    ensures
        r.program@ == line.program@,
        r.args@.len() == line.args@.len() + more@.len(),
        0 <= i < line.args@.len() ==> r.args@[i]@ == line.args@[i]@,
        0 <= i < more@.len() ==> r.args@[line.args@.len() + i]@ == more@[i]@,
{
    let all = texts(r.args@);
    assert(all.len() == texts(line.args@).len() + texts(more@).len());
    if 0 <= i < line.args@.len() {
        assert(all[i] == texts(line.args@)[i]);
    }
    if 0 <= i < more@.len() {
        assert(all[line.args@.len() + i] == texts(more@)[i]);
    }
}

} // verus!
