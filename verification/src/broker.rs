//! Running a command with raised privileges: what is started, what goes to
//! its standard input, and what its end means.
//!
//! On Unix the command runs behind `sudo -S`, which reads the credential
//! from standard input. On Windows a second PowerShell is started with the
//! verb `RunAs`; the system asks the user, and no credential is passed.

use crate::error::{EngineError, ErrorKind};
use crate::text::{chars_of, push_text, string_of, texts};
use vstd::prelude::*;

verus! {

/// The two families of systems that the engine knows.
#[derive(Debug, Clone, Copy, PartialEq, Eq, Structural)]
pub enum Platform {
    Unix,
    Windows,
}

/// A program with its arguments, each argument a text of its own.
#[derive(Debug, Clone, PartialEq, Eq)]
pub struct CommandSpec {
    pub program: String,
    pub args: Vec<String>,
}

/// What the caller starts: a program, its arguments, and the text to write
/// to its standard input, if any.
#[derive(Debug, Clone, PartialEq, Eq)]
pub struct Invocation {
    pub program: String,
    pub args: Vec<String>,
    pub stdin: Option<String>,
}

/// How a process ended, as the caller saw it.
#[derive(Debug, Clone, PartialEq, Eq)]
pub enum ProcessReport {
    /// The program could not be started.
    NotStarted { reason: String },
    /// The program ran to its end.
    Finished { success: bool, stdout: String, stderr: String },
}

/// The outcome of a command, the same on every platform.
#[derive(Debug, Clone, PartialEq, Eq)]
pub struct ProcessOutcome {
    pub success: bool,
    pub stderr: String,
}

/// `text` with each single quote written twice.
pub open spec fn quotes_doubled(text: Seq<char>) -> Seq<char>
    decreases text.len(),
{
    if text.len() == 0 {
        Seq::empty()
    } else if text.last() == '\'' {
        quotes_doubled(text.drop_last()) + seq!['\'', '\'']
    } else {
        quotes_doubled(text.drop_last()).push(text.last())
    }
}

/// `text` as a single-quoted PowerShell string: between two single quotes,
/// with each single quote of its own written twice.
pub open spec fn ps_quoted(text: Seq<char>) -> Seq<char> {
    seq!['\''] + quotes_doubled(text) + seq!['\'']
}

/// The texts of `args`, each as a single-quoted PowerShell string, with a
/// comma and a space between them.
pub open spec fn ps_list(args: Seq<Seq<char>>) -> Seq<char>
    decreases args.len(),
{
    if args.len() == 0 {
        Seq::empty()
    } else if args.len() == 1 {
        ps_quoted(args[0])
    } else {
        ps_list(args.drop_last()) + ", "@ + ps_quoted(args.last())
    }
}

/// The PowerShell script that starts `program` with raised privileges,
/// waits for its end, and ends as it ended: with its exit code, or with
/// one where it could not be started.
pub open spec fn start_process_script(program: Seq<char>, args: Seq<Seq<char>>) -> Seq<char> {
    let list = if args.len() > 0 {
        " -ArgumentList "@ + ps_list(args)
    } else {
        Seq::<char>::empty()
    };
    "$process = Start-Process "@ + ps_quoted(program) + " -Verb RunAs"@ + list
        + " -Wait -PassThru; if ($process) { exit $process.ExitCode } else { exit 1 }"@
}

/// The program that runs a command with raised privileges.
pub open spec fn elevated_program(platform: Platform) -> Seq<char> {
    match platform {
        Platform::Unix => "sudo"@,
        Platform::Windows => "powershell"@,
    }
}

/// The arguments with which a command runs with raised privileges. They
/// depend on the command alone, never on the credential.
pub open spec fn elevated_args(platform: Platform, program: Seq<char>, args: Seq<Seq<char>>) -> Seq<
    Seq<char>,
> {
    match platform {
        Platform::Unix => seq!["-S"@, "--"@, program] + args,
        Platform::Windows => seq![
            "-NoProfile"@,
            "-Command"@,
            start_process_script(program, args),
        ],
    }
}

/// What goes to standard input when a command runs with raised
/// privileges: on Unix the credential and a line feed, on Windows nothing.
pub open spec fn elevated_stdin(platform: Platform, credential: Seq<char>) -> Option<Seq<char>> {
    match platform {
        Platform::Unix => Some(credential.push('\n')),
        Platform::Windows => None,
    }
}

impl CommandSpec {
    /// The arguments as texts.
    pub open spec fn arguments(&self) -> Seq<Seq<char>> {
        texts(self.args@)
    }

    /// The command that starts `program` without arguments.
    pub fn new(program: &str) -> (command: CommandSpec)
        ensures
            command.program@ == program@,
            command.arguments() == Seq::<Seq<char>>::empty(),
    {
        let command = CommandSpec { program: String::from_str(program), args: Vec::new() };
        assert(command.arguments() =~= Seq::<Seq<char>>::empty());
        command
    }

    /// The same command with `arg` as one more argument.
    pub fn arg(self, arg: &str) -> (command: CommandSpec)
        ensures
            command.program@ == self.program@,
            command.arguments() == self.arguments().push(arg@),
    {
        let mut args = self.args;
        push_text(&mut args, String::from_str(arg));
        CommandSpec { program: self.program, args }
    }
}

impl Invocation {
    /// The arguments as texts.
    pub open spec fn arguments(&self) -> Seq<Seq<char>> {
        texts(self.args@)
    }

    /// The text for standard input, if any.
    pub open spec fn input(&self) -> Option<Seq<char>> {
        match self.stdin {
            Some(text) => Some(text@),
            None => None,
        }
    }
}

/// Puts the characters of `text` behind those in `out`, each single quote
/// twice.
pub fn push_quotes_doubled(out: &mut Vec<char>, text: &Vec<char>)
    ensures
        final(out)@ == old(out)@ + quotes_doubled(text@),
{
    let mut i: usize = 0;
    assert(text@.take(0) == Seq::<char>::empty());
    assert(out@ == old(out)@ + quotes_doubled(text@.take(0)));
    while i < text.len()
        invariant
            i <= text.len(),
            out@ == old(out)@ + quotes_doubled(text@.take(i as int)),
        decreases text.len() - i,
    {
        let ghost head = text@.take(i as int + 1);
        proof {
            assert(head.drop_last() == text@.take(i as int));
            assert(head.last() == text@[i as int]);
        }
        if text[i] == '\'' {
            out.push('\'');
        }
        out.push(text[i]);
        assert(out@ == old(out)@ + quotes_doubled(head));
        i += 1;
    }
    assert(text@.take(text.len() as int) == text@);
}

/// `text` as a single-quoted PowerShell string.
pub fn ps_quote(text: &str) -> (quoted: String)
    ensures
        quoted@ == ps_quoted(text@),
{
    let mut out: Vec<char> = Vec::new();
    out.push('\'');
    push_quotes_doubled(&mut out, &chars_of(text));
    out.push('\'');
    string_of(&out)
}

/// The texts of `args`, each as a single-quoted PowerShell string, with a
/// comma and a space between them.
pub fn ps_quote_list(args: &Vec<String>) -> (list: String)
    ensures
        list@ == ps_list(texts(args@)),
{
    let mut list = String::new();
    let mut i: usize = 0;
    assert(texts(args@).take(0) == Seq::<Seq<char>>::empty());
    while i < args.len()
        invariant
            i <= args.len(),
            list@ == ps_list(texts(args@).take(i as int)),
        decreases args.len() - i,
    {
        let ghost head = texts(args@).take(i as int + 1);
        proof {
            assert(head.drop_last() == texts(args@).take(i as int));
            assert(head.last() == args@[i as int]@);
        }
        let quoted = ps_quote(args[i].as_str());
        if i > 0 {
            list = list.concat(", ");
        } else {
            assert(list@ + quoted@ == quoted@);
        }
        list = list.concat(quoted.as_str());
        i += 1;
    }
    assert(texts(args@).take(args.len() as int) == texts(args@));
    list
}

/// Starts `command` as it is, with nothing on its standard input.
pub fn direct(command: CommandSpec) -> (invocation: Invocation)
    ensures
        invocation.program@ == command.program@,
        invocation.arguments() == command.arguments(),
        invocation.input() is None,
{
    Invocation { program: command.program, args: command.args, stdin: None }
}

/// Wraps `command` so that it runs with raised privileges. The credential
/// goes to standard input or nowhere; the arguments do not hold it.
pub fn elevate(platform: Platform, command: &CommandSpec, credential: &str) -> (invocation:
    Invocation)
    ensures
        invocation.program@ == elevated_program(platform),
        invocation.arguments() == elevated_args(platform, command.program@, command.arguments()),
        invocation.input() == elevated_stdin(platform, credential@),
{
    let mut args: Vec<String> = Vec::new();
    assert(texts(args@) == Seq::<Seq<char>>::empty());
    match platform {
        Platform::Unix => {
            push_text(&mut args, String::from_str("-S"));
            push_text(&mut args, String::from_str("--"));
            push_text(&mut args, command.program.clone());
            let ghost fixed = texts(args@);
            assert(fixed == seq!["-S"@, "--"@, command.program@]);
            let mut i: usize = 0;
            assert(command.arguments().take(0) == Seq::<Seq<char>>::empty());
            while i < command.args.len()
                invariant
                    i <= command.args.len(),
                    texts(args@) == fixed + command.arguments().take(i as int),
                decreases command.args.len() - i,
            {
                assert(command.arguments().take(i as int + 1) == command.arguments().take(
                    i as int,
                ).push(command.args@[i as int]@));
                push_text(&mut args, command.args[i].clone());
                i += 1;
            }
            assert(command.arguments().take(command.args.len() as int) == command.arguments());
            let mut typed = chars_of(credential);
            typed.push('\n');
            Invocation { program: String::from_str("sudo"), args, stdin: Some(string_of(&typed)) }
        },
        Platform::Windows => {
            let mut script = String::from_str("$process = Start-Process ").concat(
                ps_quote(command.program.as_str()).as_str(),
            ).concat(" -Verb RunAs");
            let ghost opening = script@;
            if command.args.len() > 0 {
                script = script.concat(" -ArgumentList ").concat(
                    ps_quote_list(&command.args).as_str(),
                );
                assert(script@ == opening + (" -ArgumentList "@ + ps_list(command.arguments())));
            } else {
                assert(script@ == opening + Seq::<char>::empty());
            }
            script = script.concat(
                " -Wait -PassThru; if ($process) { exit $process.ExitCode } else { exit 1 }",
            );
            assert(script@ == start_process_script(command.program@, command.arguments()));
            push_text(&mut args, String::from_str("-NoProfile"));
            push_text(&mut args, String::from_str("-Command"));
            push_text(&mut args, script);
            assert(texts(args@) == seq!["-NoProfile"@, "-Command"@, script@]);
            Invocation { program: String::from_str("powershell"), args, stdin: None }
        },
    }
}

/// The outcome of a process, the same for every way it was started: it
/// succeeded where it ran to its end and said so; the diagnostic text is
/// what it wrote to standard error, or why it could not be started.
pub fn outcome_of(report: &ProcessReport) -> (outcome: ProcessOutcome)
    ensures
        match *report {
            ProcessReport::NotStarted { reason } => !outcome.success && outcome.stderr@ == reason@,
            ProcessReport::Finished { success, stdout, stderr } => outcome.success == success
                && outcome.stderr@ == stderr@,
        },
{
    match report {
        ProcessReport::NotStarted { reason } => ProcessOutcome {
            success: false,
            stderr: reason.clone(),
        },
        ProcessReport::Finished { success, stdout, stderr } => ProcessOutcome {
            success: *success,
            stderr: stderr.clone(),
        },
    }
}

/// What the end of a process means. A process that succeeded gives what
/// it wrote to standard output. One that could not be started is a
/// missing tool; one that failed is a failure of the kind `on_failure`.
/// Either failure carries the diagnostic text unchanged.
pub fn translate(report: &ProcessReport, on_failure: ErrorKind) -> (result: Result<
    String,
    EngineError,
>)
    ensures
        match (*report, result) {
            (ProcessReport::NotStarted { reason }, Err(e)) => e.kind == ErrorKind::ToolUnavailable
                && e.detail@ == reason@,
            (ProcessReport::Finished { success, stdout, stderr }, Ok(text)) => success && text@
                == stdout@,
            (ProcessReport::Finished { success, stdout, stderr }, Err(e)) => !success && e.kind
                == on_failure && e.detail@ == stderr@,
            _ => false,
        },
{
    match report {
        ProcessReport::NotStarted { reason } => Err(
            EngineError::new(ErrorKind::ToolUnavailable, reason.clone()),
        ),
        ProcessReport::Finished { success, stdout, stderr } => {
            if *success {
                Ok(stdout.clone())
            } else {
                Err(EngineError::new(on_failure, stderr.clone()))
            }
        },
    }
}

/// Every single quote of the text is one of a pair: none stands alone and
/// could end a single-quoted string.
pub open spec fn quotes_paired(text: Seq<char>) -> bool
    decreases text.len(),
{
    if text.len() == 0 {
        true
    } else if text[0] == '\'' {
        text.len() >= 2 && text[1] == '\'' && quotes_paired(text.skip(2))
    } else {
        quotes_paired(text.skip(1))
    }
}

/// What a single-quoted string stands for: what is between its quotes,
/// with one single quote for each pair.
pub open spec fn quotes_halved(text: Seq<char>) -> Seq<char>
    decreases text.len(),
{
    if text.len() == 0 {
        Seq::empty()
    } else if text[0] == '\'' && text.len() >= 2 {
        seq!['\''] + quotes_halved(text.skip(2))
    } else {
        seq![text[0]] + quotes_halved(text.skip(1))
    }
}

/// Two texts with paired quotes, one behind the other, have paired quotes
/// and stand for the two texts one behind the other.
pub proof fn lemma_quotes_paired_append(a: Seq<char>, b: Seq<char>)
    requires
        quotes_paired(a),
        quotes_paired(b),
    ensures
        quotes_paired(a + b),
        quotes_halved(a + b) == quotes_halved(a) + quotes_halved(b),
    decreases a.len(),
{
    if a.len() == 0 {
        assert(a + b == b);
        assert(quotes_halved(a) + quotes_halved(b) == quotes_halved(b));
    } else {
        let step: int = if a[0] == '\'' {
            2
        } else {
            1
        };
        let rest = a.skip(step);
        lemma_quotes_paired_append(rest, b);
        assert((a + b).skip(step) == rest + b);
        assert(seq![a[0]] + (quotes_halved(rest) + quotes_halved(b)) == seq![a[0]] + quotes_halved(
            rest,
        ) + quotes_halved(b));
    }
}

/// A text with its single quotes doubled holds no single quote that
/// stands alone, and stands for the text itself: whatever the text holds,
/// a single-quoted string of it cannot end early.
pub proof fn lemma_quotes_doubled(text: Seq<char>)
    ensures
        quotes_paired(quotes_doubled(text)),
        quotes_halved(quotes_doubled(text)) == text,
    decreases text.len(),
{
    if text.len() > 0 {
        let c = text.last();
        let one = if c == '\'' {
            seq!['\'', '\'']
        } else {
            seq![c]
        };
        lemma_quotes_doubled(text.drop_last());
        assert(quotes_doubled(text) == quotes_doubled(text.drop_last()) + one);
        assert(quotes_paired(one) && quotes_halved(one) == seq![c]) by {
            let nothing = Seq::<char>::empty();
            assert(quotes_paired(nothing) && quotes_halved(nothing) == nothing);
            if c == '\'' {
                assert(one.skip(2) == nothing);
            } else {
                assert(one.skip(1) == nothing);
                assert(one[0] == c);
            }
            assert(seq![c] + nothing == seq![c]);
        }
        lemma_quotes_paired_append(quotes_doubled(text.drop_last()), one);
        assert(text.drop_last() + seq![c] == text);
    }
}

} // verus!
