//! Running cargo for an AI client: the command line it asks for, and the
//! diagnostics read back from cargo's JSON messages.

use vstd::prelude::*;
use vstd::string::StringExecFns;

verus! {

broadcast use vstd::string::group_string_axioms;

/// The cargo subcommand to run.
#[derive(Debug, Clone, Copy, PartialEq, Eq, Structural)]
pub enum CargoCommand {
    Check,
    Test,
    Clippy,
    Build,
    Doc,
    Fmt,
}

/// The toolchain to run cargo with.
#[derive(Debug, Clone)]
pub struct RustToolchain {
    /// Channel such as "stable" or "nightly", passed as `+channel`.
    pub channel: Option<String>,
}

/// A request to run cargo in a workspace.
#[derive(Debug, Clone)]
pub struct RustCargoRequest {
    pub workspace_root: String,
    pub toolchain: Option<RustToolchain>,
    pub command: CargoCommand,
    pub package: Option<String>,
    pub target: Option<String>,
    /// Extra arguments, passed as they are.
    pub args: Vec<String>,
    /// Extra environment variables.
    pub env: Vec<(String, String)>,
}

/// One diagnostic reported back to the client.
#[derive(Debug, Clone)]
pub struct RustDiagnostic {
    pub level: String,
    pub code: Option<String>,
    pub message: String,
    pub file: Option<String>,
    pub line: Option<u32>,
    pub column: Option<u32>,
}

/// A diagnostic code.
#[derive(Debug, Clone)]
pub struct CompilerMessageCode {
    pub code: String,
}

/// A source span of a diagnostic.
#[derive(Debug, Clone)]
pub struct CompilerMessageSpan {
    pub file_name: String,
    pub line_start: u32,
    pub column_start: u32,
}

/// A compiler diagnostic.
#[derive(Debug, Clone)]
pub struct CompilerMessageInner {
    pub code: Option<CompilerMessageCode>,
    pub level: String,
    pub message: String,
    pub spans: Vec<CompilerMessageSpan>,
}

/// One JSON message of cargo, by its `reason`.
#[derive(Debug, Clone)]
pub enum CargoMessage {
    CompilerMessage { message: CompilerMessageInner },
    Other,
}

/// The name of a cargo subcommand.
pub open spec fn subcommand_name(c: CargoCommand) -> Seq<char> {
    match c {
        CargoCommand::Check => "check"@,
        CargoCommand::Test => "test"@,
        CargoCommand::Clippy => "clippy"@,
        CargoCommand::Build => "build"@,
        CargoCommand::Doc => "doc"@,
        CargoCommand::Fmt => "fmt"@,
    }
}

/// The texts of a vector of strings.
pub open spec fn string_texts(v: Seq<String>) -> Seq<Seq<char>> {
    v.map_values(|s: String| s@)
}

/// The arguments cargo is run with: the toolchain, the subcommand, the
/// package and binary target, the extra arguments, and JSON messages.
pub open spec fn cargo_args_of(req: RustCargoRequest) -> Seq<Seq<char>> {
    let tc: Seq<Seq<char>> = match req.toolchain {
        Some(t) => match t.channel {
            Some(ch) => seq!["+"@ + ch@],
            None => Seq::empty(),
        },
        None => Seq::empty(),
    };
    let pkg: Seq<Seq<char>> = match req.package {
        Some(p) => seq!["--package"@, p@],
        None => Seq::empty(),
    };
    let tgt: Seq<Seq<char>> = match req.target {
        Some(t) => seq!["--bin"@, t@],
        None => Seq::empty(),
    };
    tc + seq![subcommand_name(req.command)] + pkg + tgt + string_texts(req.args@) + seq![
        "--message-format=json"@,
    ]
}

proof fn lemma_texts_push(s: Seq<String>, x: String)
    ensures
        string_texts(s.push(x)) == string_texts(s).push(x@),
{
    assert(string_texts(s.push(x)) =~= string_texts(s).push(x@));
}

fn push_text(v: &mut Vec<String>, x: String)
    ensures
        string_texts(final(v)@) == string_texts(old(v)@).push(x@),
{
    proof {
        lemma_texts_push(v@, x);
    }
    v.push(x);
}

/// The arguments to run cargo with for a request.
pub fn cargo_args(req: &RustCargoRequest) -> (v: Vec<String>)
    ensures
        string_texts(v@) == cargo_args_of(*req),
{
    let mut v: Vec<String> = Vec::new();
    assert(string_texts(v@) =~= Seq::<Seq<char>>::empty());
    match &req.toolchain {
        Some(t) => match &t.channel {
            Some(ch) => {
                let mut a = String::from_str("+");
                a.append(ch.as_str());
                push_text(&mut v, a);
            },
            None => {},
        },
        None => {},
    }
    let sub = match req.command {
        CargoCommand::Check => "check",
        CargoCommand::Test => "test",
        CargoCommand::Clippy => "clippy",
        CargoCommand::Build => "build",
        CargoCommand::Doc => "doc",
        CargoCommand::Fmt => "fmt",
    };
    push_text(&mut v, String::from_str(sub));
    match &req.package {
        Some(p) => {
            push_text(&mut v, String::from_str("--package"));
            push_text(&mut v, p.clone());
        },
        None => {},
    }
    match &req.target {
        Some(t) => {
            push_text(&mut v, String::from_str("--bin"));
            push_text(&mut v, t.clone());
        },
        None => {},
    }
    let ghost head = string_texts(v@);
    let mut i: usize = 0;
    while i < req.args.len()
        invariant
            i <= req.args@.len(),
            string_texts(v@) == head + string_texts(req.args@).take(i as int),
        decreases req.args@.len() - i,
    {
        push_text(&mut v, req.args[i].clone());
        i = i + 1;
        assert(head + string_texts(req.args@).take(i as int) =~= (head + string_texts(req.args@).take(
            (i - 1) as int,
        )).push(req.args@[i - 1]@));
    }
    assert(string_texts(req.args@).take(i as int) =~= string_texts(req.args@));
    push_text(&mut v, String::from_str("--message-format=json"));
    assert(string_texts(v@) =~= cargo_args_of(*req));
    v
}

/// A compiler message that is reported: an error or a warning.
pub open spec fn reported(m: CargoMessage) -> bool {
    m matches CargoMessage::CompilerMessage { message } && (message.level@ == "error"@
        || message.level@ == "warning"@)
}

/// The diagnostic for a reported compiler message: its level, code and
/// text, and its first span, if any.
pub open spec fn diagnostic_of(m: CargoMessage, d: RustDiagnostic) -> bool {
    match m {
        CargoMessage::CompilerMessage { message } => {
            &&& d.level == message.level
            &&& d.code == match message.code {
                Some(c) => Some(c.code),
                None => None,
            }
            &&& d.message == message.message
            &&& if message.spans@.len() > 0 {
                let s = message.spans@[0];
                d.file == Some(s.file_name) && d.line == Some(s.line_start) && d.column == Some(
                    s.column_start,
                )
            } else {
                d.file is None && d.line is None && d.column is None
            }
        },
        CargoMessage::Other => false,
    }
}

/// Keeps reported messages.
pub open spec fn reported_keep() -> spec_fn(CargoMessage) -> bool {
    |m: CargoMessage| reported(m)
}

/// Relates a message to its diagnostic.
pub open spec fn diagnostic_rel() -> spec_fn(CargoMessage, RustDiagnostic) -> bool {
    |m: CargoMessage, d: RustDiagnostic| diagnostic_of(m, d)
}

/// The texts of a list of environment variables.
pub open spec fn env_texts(v: Seq<(String, String)>) -> Seq<(Seq<char>, Seq<char>)> {
    v.map_values(|e: (String, String)| (e.0@, e.1@))
}

/// The environment cargo is run with, set in order: the request's
/// variables, then `RUSTFLAGS=-D warnings`, so that warnings fail the build.
pub open spec fn cargo_env_of(req: RustCargoRequest) -> Seq<(Seq<char>, Seq<char>)> {
    env_texts(req.env@).push(("RUSTFLAGS"@, "-D warnings"@))
}

/// The environment variables to set, in order, when running cargo for a
/// request.
pub fn cargo_env(req: &RustCargoRequest) -> (v: Vec<(String, String)>)
    ensures
        env_texts(v@) == cargo_env_of(*req),
{
    let mut v: Vec<(String, String)> = Vec::new();
    let mut i: usize = 0;
    while i < req.env.len()
        invariant
            i <= req.env@.len(),
            v@.len() == i,
            env_texts(v@) == env_texts(req.env@.take(i as int)),
        decreases req.env@.len() - i,
    {
        let ghost prev = v@;
        let entry = &req.env[i];
        let k = entry.0.clone();
        let val = entry.1.clone();
        assert(k@ == req.env@[i as int].0@ && val@ == req.env@[i as int].1@);
        v.push((k, val));
        assert(req.env@.take(i + 1) =~= req.env@.take(i as int).push(req.env@[i as int]));
        assert(v@ =~= prev.push(v@[i as int]));
        assert(env_texts(v@) =~= env_texts(prev).push((req.env@[i as int].0@, req.env@[i as int].1@)));
        assert(env_texts(v@) =~= env_texts(req.env@.take(i + 1)));
        i = i + 1;
    }
    assert(req.env@.take(i as int) =~= req.env@);
    v.push((String::from_str("RUSTFLAGS"), String::from_str("-D warnings")));
    assert(env_texts(v@) =~= cargo_env_of(*req));
    v
}

/// Where the combined output of the last cargo run is logged, relative to
/// the workspace root.
pub fn cargo_log_path() -> (p: String)
    ensures
        p@ == ".sonia/logs/cargo-last.log"@,
{
    String::from_str(".sonia/logs/cargo-last.log")
}

/// The diagnostics of cargo's messages, in order: one per error or
/// warning compiler message.
pub fn summarize_diagnostics(messages: Vec<CargoMessage>) -> (v: Vec<RustDiagnostic>)
    ensures
        crate::seqrel::mapped_filter(v@, messages@, reported_keep(), diagnostic_rel()),
{
    let ghost ms = messages@;
    let mut v: Vec<RustDiagnostic> = Vec::new();
    let mut i: usize = 0;
    while i < messages.len()
        invariant
            ms == messages@,
            i <= ms.len(),
            crate::seqrel::mapped_filter(v@, ms.take(i as int), reported_keep(), diagnostic_rel()),
        decreases ms.len() - i,
    {
        let ghost prev = v@;
        match &messages[i] {
            CargoMessage::CompilerMessage { message } => {
                if message.level == String::from_str("error") || message.level == String::from_str("warning") {
                    let code = match &message.code {
                        Some(c) => Some(c.code.clone()),
                        None => None,
                    };
                    let (file, line, column) = if message.spans.len() > 0 {
                        let s = &message.spans[0];
                        (Some(s.file_name.clone()), Some(s.line_start), Some(s.column_start))
                    } else {
                        (None, None, None)
                    };
                    v.push(
                        RustDiagnostic {
                            level: message.level.clone(),
                            code,
                            message: message.message.clone(),
                            file,
                            line,
                            column,
                        },
                    );
                }
            },
            CargoMessage::Other => {},
        }
        proof {
            crate::seqrel::lemma_mapped_filter_step(prev, ms, i as int, reported_keep(), diagnostic_rel(), v@);
        }
        i = i + 1;
    }
    assert(ms.take(i as int) =~= ms);
    v
}

} // verus!
