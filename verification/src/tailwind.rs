//! What is decided around a run of the Tailwind CSS command line tool:
//! which executable fits a platform and where it is released, whether the
//! one at hand has the version asked for, how the tool is called, and what
//! its output means. Nothing here runs a process or touches a file: the
//! caller does, and hands back what came of it.

use crate::text::{chars_of, push_signed_decimal, signed_decimal};
use vstd::prelude::*;
use vstd::string::StringExecFns;

verus! {

/// The version of Tailwind CSS that was last tested with this crate.
pub const RECOMMENDED_VERSION: &'static str = "4.1.11";

/// Custom error type for Tailwind operations
#[derive(Debug, Clone, PartialEq, Eq)]
pub enum TailwindError {
    /// IO errors (file operations, process execution, etc.), in words
    Io(String),
    /// UTF-8 conversion errors, in words
    Utf8(String),
    /// Process execution failed
    ProcessExecution { stdout: String, stderr: String, exit_code: Option<i32> },
    /// Failed to read tailwind version
    VersionRead,
    /// Unsupported platform
    UnsupportedPlatform,
    /// Failed to download tailwind executable
    DownloadFailed { error: String },
    /// Failed to execute tailwind command
    ExecutionFailed(String),
}

/// What a Tailwind error holds.
pub enum TailwindErrorView {
    Io(Seq<char>),
    Utf8(Seq<char>),
    ProcessExecution { stdout: Seq<char>, stderr: Seq<char>, exit_code: Option<i32> },
    VersionRead,
    UnsupportedPlatform,
    DownloadFailed { error: Seq<char> },
    ExecutionFailed(Seq<char>),
}

impl View for TailwindError {
    type V = TailwindErrorView;

    open spec fn view(&self) -> TailwindErrorView {
        match self {
            TailwindError::Io(e) => TailwindErrorView::Io(e@),
            TailwindError::Utf8(e) => TailwindErrorView::Utf8(e@),
            TailwindError::ProcessExecution { stdout, stderr, exit_code } => {
                TailwindErrorView::ProcessExecution {
                    stdout: stdout@,
                    stderr: stderr@,
                    exit_code: *exit_code,
                }
            },
            TailwindError::VersionRead => TailwindErrorView::VersionRead,
            TailwindError::UnsupportedPlatform => TailwindErrorView::UnsupportedPlatform,
            TailwindError::DownloadFailed { error } => TailwindErrorView::DownloadFailed {
                error: error@,
            },
            TailwindError::ExecutionFailed(m) => TailwindErrorView::ExecutionFailed(m@),
        }
    }
}

/// An exit code as it is shown in an error: `None`, or the number inside
/// `Some(..)`.
pub open spec fn exit_code_text(code: Option<i32>) -> Seq<char> {
    match code {
        Some(n) => "Some("@ + signed_decimal(n as int) + ")"@,
        None => "None"@,
    }
}

/// A Tailwind error in words.
pub open spec fn tailwind_message_of(e: TailwindErrorView) -> Seq<char> {
    match e {
        TailwindErrorView::Io(err) => "IO error: "@ + err,
        TailwindErrorView::Utf8(err) => "UTF-8 conversion error: "@ + err,
        TailwindErrorView::ProcessExecution { stdout, stderr, exit_code } => {
            "Process execution failed (exit code: "@ + exit_code_text(exit_code) + "): stdout: "@
                + stdout + ", stderr: "@ + stderr
        },
        TailwindErrorView::VersionRead => "Failed to read tailwind version"@,
        TailwindErrorView::UnsupportedPlatform => "Unsupported platform"@,
        TailwindErrorView::DownloadFailed { error } => "Download failed: "@ + error,
        TailwindErrorView::ExecutionFailed(msg) => "Execution failed: "@ + msg,
    }
}

impl TailwindError {
    /// The error in words.
    pub fn message(&self) -> (m: String)
        ensures
            m@ == tailwind_message_of(self@),
    {
        match self {
            TailwindError::Io(err) => {
                let mut m = "IO error: ".to_owned();
                m.append(err.as_str());
                m
            },
            TailwindError::Utf8(err) => {
                let mut m = "UTF-8 conversion error: ".to_owned();
                m.append(err.as_str());
                m
            },
            TailwindError::ProcessExecution { stdout, stderr, exit_code } => {
                let mut m = "Process execution failed (exit code: ".to_owned();
                match exit_code {
                    Some(n) => {
                        m.append("Some(");
                        push_signed_decimal(&mut m, *n as i64);
                        m.append(")");
                    },
                    None => {
                        m.append("None");
                    },
                }
                assert(m@ =~= "Process execution failed (exit code: "@ + exit_code_text(
                    *exit_code,
                ));
                m.append("): stdout: ");
                m.append(stdout.as_str());
                m.append(", stderr: ");
                m.append(stderr.as_str());
                m
            },
            TailwindError::VersionRead => "Failed to read tailwind version".to_owned(),
            TailwindError::UnsupportedPlatform => "Unsupported platform".to_owned(),
            TailwindError::DownloadFailed { error } => {
                let mut m = "Download failed: ".to_owned();
                m.append(error.as_str());
                m
            },
            TailwindError::ExecutionFailed(msg) => {
                let mut m = "Execution failed: ".to_owned();
                m.append(msg.as_str());
                m
            },
        }
    }
}

/// The operating system that the tool is to run on.
#[derive(Debug, Clone, Copy, PartialEq, Eq, Structural)]
pub enum Os {
    Windows,
    MacOs,
    Linux,
    Other,
}

/// The processor that the tool is to run on.
#[derive(Debug, Clone, Copy, PartialEq, Eq, Structural)]
pub enum Arch {
    X86_64,
    Aarch64,
    Other,
}

/// The name under which the tool is released for a platform, if it is.
pub open spec fn release_name(os: Os, arch: Arch) -> Option<Seq<char>> {
    match (os, arch) {
        (Os::Windows, Arch::X86_64) => Some("tailwindcss-windows-x64.exe"@),
        (Os::MacOs, Arch::Aarch64) => Some("tailwindcss-macos-arm64"@),
        (Os::MacOs, Arch::X86_64) => Some("tailwindcss-macos-x64"@),
        (Os::Linux, Arch::Aarch64) => Some("tailwindcss-linux-arm64"@),
        (Os::Linux, Arch::X86_64) => Some("tailwindcss-linux-x64"@),
        _ => None,
    }
}

/// Where a version of the tool is released under a name.
pub open spec fn release_url(version: Seq<char>, name: Seq<char>) -> Seq<char> {
    "https://github.com/tailwindlabs/tailwindcss/releases/download/v"@ + version + seq!['/']
        + name
}

/// Whether `pattern` stands in `s` at `at`.
pub open spec fn occurs_at(pattern: Seq<char>, s: Seq<char>, at: int) -> bool {
    0 <= at && at + pattern.len() <= s.len() && s.subrange(at, at + pattern.len()) == pattern
}

/// Whether `pattern` stands somewhere in `s`.
pub open spec fn occurs_in(pattern: Seq<char>, s: Seq<char>) -> bool {
    exists|at: int| occurs_at(pattern, s, at)
}

/// Where the first line of `s` ends: at the first line feed, or at the
/// end of `s`.
pub open spec fn first_line_end(s: Seq<char>, from: int) -> int
    decreases s.len() - from,
{
    if from < 0 || from >= s.len() || s[from] == '\n' {
        from
    } else {
        first_line_end(s, from + 1)
    }
}

/// The first line of `s`, without its line feed and without a carriage
/// return before that; none if `s` is empty.
pub open spec fn first_line(s: Seq<char>) -> Option<Seq<char>> {
    if s.len() == 0 {
        None
    } else {
        let end = first_line_end(s, 0);
        if end < s.len() && end > 0 && s[end - 1] == '\r' {
            Some(s.subrange(0, end - 1))
        } else {
            Some(s.subrange(0, end))
        }
    }
}

/// Whether what the tool printed names a version: its first line holds
/// `v` and the version. Without a first line the version cannot be read.
pub open spec fn names_version(stdout: Seq<char>, version: Seq<char>) -> Result<
    bool,
    TailwindErrorView,
> {
    match first_line(stdout) {
        None => Err(TailwindErrorView::VersionRead),
        Some(line) => Ok(occurs_in(seq!['v'] + version, line)),
    }
}

/// Whether `pattern` stands somewhere in `s[..end]`.
fn contains(s: &Vec<char>, end: usize, pattern: &Vec<char>) -> (found: bool)
    requires
        end <= s.len(),
    ensures
        found == occurs_in(pattern@, s@.subrange(0, end as int)),
{
    let ghost line = s@.subrange(0, end as int);
    let m = pattern.len();
    if m > end {
        assert(forall|at: int| !occurs_at(pattern@, line, at));
        return false;
    }
    let mut i: usize = 0;
    while i <= end - m
        invariant
            m == pattern.len(),
            m <= end <= s.len(),
            i <= end - m + 1,
            line == s@.subrange(0, end as int),
            forall|at: int| 0 <= at < i ==> !occurs_at(pattern@, line, at),
        decreases end - m + 1 - i,
    {
        let mut j: usize = 0;
        while j < m && s[i + j] == pattern[j]
            invariant
                m == pattern.len(),
                m <= end <= s.len(),
                i <= end - m,
                j <= m,
                forall|k: int| 0 <= k < j ==> s@[i + k] == pattern@[k],
            decreases m - j,
        {
            j += 1;
        }
        if j == m {
            assert(line.subrange(i as int, i + m) =~= pattern@);
            assert(occurs_at(pattern@, line, i as int));
            return true;
        }
        assert(!occurs_at(pattern@, line, i as int)) by {
            if occurs_at(pattern@, line, i as int) {
                assert(line.subrange(i as int, i + m)[j as int] == pattern@[j as int]);
            }
        }
        i += 1;
    }
    assert(forall|at: int| !occurs_at(pattern@, line, at));
    false
}

/// The plan of one call of the tool.
#[derive(Debug, Clone, PartialEq, Eq)]
pub struct Invocation {
    /// The program to start.
    pub program: String,
    /// Whether `program` is a path to make absolute first, rather than a
    /// name to look up.
    pub is_path: bool,
    /// The arguments to start it with.
    pub args: Vec<String>,
}

/// What an invocation holds.
pub struct InvocationView {
    pub program: Seq<char>,
    pub is_path: bool,
    pub args: Seq<Seq<char>>,
}

/// What a list of strings holds.
pub open spec fn texts(strings: Seq<String>) -> Seq<Seq<char>> {
    Seq::new(strings.len(), |i: int| strings[i]@)
}

impl View for Invocation {
    type V = InvocationView;

    open spec fn view(&self) -> InvocationView {
        InvocationView { program: self.program@, is_path: self.is_path, args: texts(self.args@) }
    }
}

/// What a finished process left behind.
#[derive(Debug, Clone, PartialEq, Eq)]
pub struct ProcessOutput {
    /// Whether the process ended with success.
    pub success: bool,
    /// The exit code, if the process had one.
    pub exit_code: Option<i32>,
    /// What it printed, as text.
    pub stdout: String,
    /// What it printed as errors, as text.
    pub stderr: String,
}

/// The tool: an executable at a path, or the one that is installed.
#[derive(Debug, Clone, PartialEq, Eq)]
pub enum Tailwind {
    Local(String),
    Global,
}

/// What names the tool.
pub enum TailwindView {
    Local(Seq<char>),
    Global,
}

impl View for Tailwind {
    type V = TailwindView;

    open spec fn view(&self) -> TailwindView {
        match self {
            Tailwind::Local(path) => TailwindView::Local(path@),
            Tailwind::Global => TailwindView::Global,
        }
    }
}

/// The arguments, each behind a space.
pub open spec fn spaced(args: Seq<Seq<char>>) -> Seq<char>
    decreases args.len(),
{
    if args.len() == 0 {
        Seq::empty()
    } else {
        spaced(args.drop_last()) + seq![' '] + args.last()
    }
}

/// The command line that a shell is given for the installed tool:
/// `tailwindcss`, a space, and the arguments with a space between two of
/// them.
pub open spec fn shell_command(args: Seq<Seq<char>>) -> Seq<char> {
    if args.len() == 0 {
        "tailwindcss "@
    } else {
        "tailwindcss"@ + spaced(args)
    }
}

/// How the tool is called with arguments: the local executable directly,
/// the installed one through the shell of the system.
pub open spec fn invocation_of(tool: TailwindView, args: Seq<Seq<char>>, windows: bool)
    -> InvocationView {
    match tool {
        TailwindView::Local(path) => InvocationView { program: path, is_path: true, args },
        TailwindView::Global => InvocationView {
            program: if windows {
                "cmd"@
            } else {
                "sh"@
            },
            is_path: false,
            args: seq![
                if windows {
                    "/C"@
                } else {
                    "-c"@
                },
                shell_command(args),
            ],
        },
    }
}

/// The arguments that make the tool read a file and print the CSS.
pub open spec fn generate_args(input_path: Seq<char>) -> Seq<Seq<char>> {
    seq!["--input"@, input_path, "--output"@, "-"@]
}

/// What a finished run of the tool means: what it printed, or, if it did
/// not end with success, an error that holds all it left behind.
pub open spec fn outcome_of(
    success: bool,
    exit_code: Option<i32>,
    stdout: Seq<char>,
    stderr: Seq<char>,
) -> Result<Seq<char>, TailwindErrorView> {
    if success {
        Ok(stdout)
    } else {
        Err(TailwindErrorView::ProcessExecution { stdout, stderr, exit_code })
    }
}

impl Tailwind {
    /// Use the globally-installed `tailwindcss` executable. Does not check if it exists.
    pub fn global() -> (tool: Tailwind)
        ensures
            tool@ == TailwindView::Global,
    {
        Tailwind::Global
    }

    /// The name of the file under which a downloaded executable is kept.
    pub fn local_name(windows: bool) -> (name: &'static str)
        ensures
            name@ == (if windows {
                "tailwind.exe"@
            } else {
                "tailwind"@
            }),
    {
        if windows {
            "tailwind.exe"
        } else {
            "tailwind"
        }
    }

    /// Where a version of the tool is released for a platform, or that the
    /// platform is not supported.
    pub fn download_url(version: &str, os: Os, arch: Arch) -> (r: Result<String, TailwindError>)
        ensures
            match r {
                Ok(url) => release_name(os, arch) matches Some(name) && url@ == release_url(
                    version@,
                    name,
                ),
                Err(e) => release_name(os, arch) is None && e@
                    == TailwindErrorView::UnsupportedPlatform,
            },
    {
        let name = match (os, arch) {
            (Os::Windows, Arch::X86_64) => "tailwindcss-windows-x64.exe",
            (Os::MacOs, Arch::Aarch64) => "tailwindcss-macos-arm64",
            (Os::MacOs, Arch::X86_64) => "tailwindcss-macos-x64",
            (Os::Linux, Arch::Aarch64) => "tailwindcss-linux-arm64",
            (Os::Linux, Arch::X86_64) => "tailwindcss-linux-x64",
            _ => {
                return Err(TailwindError::UnsupportedPlatform);
            },
        };
        let mut url = "https://github.com/tailwindlabs/tailwindcss/releases/download/v".to_owned();
        url.append(version);
        url.push('/');
        url.append(name);
        assert(url@ =~= release_url(version@, name@));
        Ok(url)
    }

    /// Whether an executable that printed `stdout` when started without
    /// arguments has the version asked for.
    pub fn has_version(stdout: &str, version: &str) -> (r: Result<bool, TailwindError>)
        ensures
            match r {
                Ok(b) => names_version(stdout@, version@) == Ok::<bool, TailwindErrorView>(b),
                Err(e) => names_version(stdout@, version@) == Err::<bool, TailwindErrorView>(e@),
            },
    {
        let chars = chars_of(stdout);
        let n = chars.len();
        if n == 0 {
            return Err(TailwindError::VersionRead);
        }
        let mut end: usize = 0;
        while end < n && chars[end] != '\n'
            invariant
                end <= n,
                n == chars.len(),
                first_line_end(chars@, 0) == first_line_end(chars@, end as int),
            decreases n - end,
        {
            end += 1;
        }
        let stop = if end < n && end > 0 && chars[end - 1] == '\r' {
            end - 1
        } else {
            end
        };
        let mut pattern: Vec<char> = Vec::new();
        pattern.push('v');
        let wanted = chars_of(version);
        let mut i: usize = 0;
        while i < wanted.len()
            invariant
                i <= wanted.len(),
                pattern@ == seq!['v'] + wanted@.take(i as int),
            decreases wanted.len() - i,
        {
            pattern.push(wanted[i]);
            assert(pattern@ =~= seq!['v'] + wanted@.take(i + 1));
            i += 1;
        }
        assert(wanted@.take(i as int) =~= wanted@);
        Ok(contains(&chars, stop, &pattern))
    }

    /// How the tool is called to read a CSS file that imports Tailwind
    /// and to print the generated CSS.
    pub fn generate_from_file(&self, input_path: &str, windows: bool) -> (call: Invocation)
        ensures
            call@ == invocation_of(self@, generate_args(input_path@), windows),
    {
        let mut args: Vec<String> = Vec::new();
        args.push("--input".to_owned());
        args.push(input_path.to_owned());
        args.push("--output".to_owned());
        args.push("-".to_owned());
        assert(texts(args@) =~= generate_args(input_path@));
        self.run_with_args(args, windows)
    }

    /// How the tool is called with the given arguments.
    pub fn run_with_args(&self, args: Vec<String>, windows: bool) -> (call: Invocation)
        ensures
            call@ == invocation_of(self@, texts(args@), windows),
    {
        match self {
            Tailwind::Local(path) => Invocation { program: path.clone(), is_path: true, args },
            Tailwind::Global => {
                let ghost given = texts(args@);
                let mut command = "tailwindcss".to_owned();
                if args.len() == 0 {
                    command.push(' ');
                    proof {
                        reveal_strlit("tailwindcss");
                        reveal_strlit("tailwindcss ");
                        assert(command@ =~= "tailwindcss "@);
                    }
                }
                let mut i: usize = 0;
                assert(given.take(0) =~= Seq::empty());
                while i < args.len()
                    invariant
                        i <= args.len(),
                        given == texts(args@),
                        args.len() > 0 ==> command@ == "tailwindcss"@ + spaced(
                            given.take(i as int),
                        ),
                        args.len() == 0 ==> command@ == "tailwindcss "@,
                    decreases args.len() - i,
                {
                    command.push(' ');
                    command.append(args[i].as_str());
                    proof {
                        assert(given.take(i + 1).drop_last() =~= given.take(i as int));
                        assert(given.take(i + 1).last() == args@[i as int]@);
                        assert(command@ =~= "tailwindcss"@ + spaced(given.take(i + 1)));
                    }
                    i += 1;
                }
                assert(given.take(i as int) =~= given);
                let mut shell_args: Vec<String> = Vec::new();
                let program = if windows {
                    shell_args.push("/C".to_owned());
                    "cmd".to_owned()
                } else {
                    shell_args.push("-c".to_owned());
                    "sh".to_owned()
                };
                shell_args.push(command);
                assert(texts(shell_args@) =~= invocation_of(self@, given, windows).args);
                Invocation { program, is_path: false, args: shell_args }
            },
        }
    }

    /// What a finished run of the tool means.
    pub fn read_output(output: ProcessOutput) -> (r: Result<String, TailwindError>)
        ensures
            match r {
                Ok(css) => outcome_of(
                    output.success,
                    output.exit_code,
                    output.stdout@,
                    output.stderr@,
                ) == Ok::<Seq<char>, TailwindErrorView>(css@),
                Err(e) => outcome_of(
                    output.success,
                    output.exit_code,
                    output.stdout@,
                    output.stderr@,
                ) == Err::<Seq<char>, TailwindErrorView>(e@),
            },
    {
        if output.success {
            Ok(output.stdout)
        } else {
            Err(
                TailwindError::ProcessExecution {
                    stdout: output.stdout,
                    stderr: output.stderr,
                    exit_code: output.exit_code,
                },
            )
        }
    }
}

} // verus!
