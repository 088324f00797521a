use crate::config::{ConfigError, RemoteServer, auth_server, find_auth_server, find_server, server_index};
use crate::outside::{local_time_now, new_uuid};
use crate::pipeline::{concat, texts_view};
use crate::queue::QueuedRun;
use crate::vars::{VarMap, assignments_lookup, lookup, parse_variables};
use vstd::prelude::*;

verus! {

/// The pipeline run when none is named.
pub const TOOL_DEFAULT_PIPELINE: &'static str = "default";

/// A subcommand of the command line.
pub trait BldCommand {
    fn id(&self) -> &'static str;
}

/// Runs a pipeline here or on a server.
pub struct RunCommand;

/// Starts the server.
pub struct ServerCommand;

impl BldCommand for RunCommand {
    fn id(&self) -> &'static str {
        "run"
    }
}

impl BldCommand for ServerCommand {
    fn id(&self) -> &'static str {
        "server"
    }
}

/// Creates a new pipeline, here or on a server.
pub struct AddCommand {
    pub verbose: bool,
    pub pipeline: String,
    pub server: Option<String>,
    pub edit: bool,
}

/// Prints a pipeline, from here or from a server.
pub struct CatCommand {
    pub verbose: bool,
    pub pipeline: String,
    pub server: Option<String>,
}

/// Lays out the build directory.
pub struct InitCommand {
    pub verbose: bool,
    pub is_server: bool,
}

/// Runs one pipeline on behalf of a supervisor.
pub struct WorkerCommand {
    pub verbose: bool,
    pub pipeline: String,
    pub run_id: String,
    pub variables: Vec<String>,
    pub environment: Vec<String>,
}

/// Where a `run` goes.
pub enum RunTarget {
    /// Run here.
    Local { pipeline: String, variables: VarMap },
    /// Submit to a server, authenticating as another (or the same) one.
    Server {
        server: usize,
        auth: usize,
        pipeline: String,
        detach: bool,
        variables: VarMap,
    },
}

/// The text of each argument.
pub open spec fn args_view(args: Seq<String>) -> Seq<Seq<char>> {
    args.map_values(|a: String| a@)
}

impl RunCommand {
    pub fn boxed() -> (r: Box<dyn BldCommand>) {
        Box::new(RunCommand)
    }

    /// The pipeline named on the command line, or the default one.
    pub fn pipeline_or_default(arg: Option<String>) -> (r: String)
        ensures
            arg matches Some(p) ==> r == p,
            arg is None ==> r@ == TOOL_DEFAULT_PIPELINE@,
    {
        match arg {
            Some(p) => p,
            None => String::from_str(TOOL_DEFAULT_PIPELINE),
        }
    }

    /// Decides where a run goes: to the named server, with the credentials
    /// its configuration points to, or here.
    pub fn target(
        pipeline: Option<String>,
        server: Option<String>,
        detach: bool,
        variables: &Vec<String>,
        servers: &Vec<RemoteServer>,
    ) -> (r: Result<RunTarget, ConfigError>)
        ensures
            r matches Ok(RunTarget::Local { pipeline: p, variables: vs }) ==> server is None && (
            pipeline is None ==> p@ == TOOL_DEFAULT_PIPELINE@) && (pipeline matches Some(q) ==> p
                == q) && vs.wf() && forall|k: Seq<char>|
                lookup(vs@, k) == assignments_lookup(args_view(variables@), k),
            server is None ==> r matches Ok(RunTarget::Local { .. }),
            server matches Some(s) ==> match auth_server(servers@, s@) {
                Ok(a) => r matches Ok(RunTarget::Server { server: i, auth, detach: d, .. }) && (
                server_index(servers@, s@) == Some(i as int)) && auth == a && d == detach,
                Err(e) => r == Err::<RunTarget, ConfigError>(e),
            },
            r matches Ok(RunTarget::Server { pipeline: p, variables: vs, .. }) ==> (pipeline is None
                ==> p@ == TOOL_DEFAULT_PIPELINE@) && (pipeline matches Some(q) ==> p == q)
                && vs.wf() && forall|k: Seq<char>|
                lookup(vs@, k) == assignments_lookup(args_view(variables@), k),
    {
        let pipeline = Self::pipeline_or_default(pipeline);
        let vars = parse_variables(variables);
        proof {
            assert(args_view(variables@) == variables@.map_values(|a: String| a@));
        }
        match server {
            Some(s) => {
                let auth = find_auth_server(servers, &s)?;
                let i = find_server(servers, &s)?;
                Ok(RunTarget::Server { server: i, auth, pipeline, detach, variables: vars })
            },
            None => Ok(RunTarget::Local { pipeline, variables: vars }),
        }
    }

    /// A fresh run id and the local time at which the run starts.
    pub fn local_identity() -> (r: (String, String))
        ensures
            r.0@.len() == 36,
    {
        (new_uuid(), local_time_now())
    }
}

/// The value of a decimal digit.
pub open spec fn digit_value(c: char) -> int {
    if c == '0' { 0 }
    else if c == '1' { 1 }
    else if c == '2' { 2 }
    else if c == '3' { 3 }
    else if c == '4' { 4 }
    else if c == '5' { 5 }
    else if c == '6' { 6 }
    else if c == '7' { 7 }
    else if c == '8' { 8 }
    else { 9 }
}

pub open spec fn is_digit(c: char) -> bool {
    '0' <= c && c <= '9'
}

/// The number that the first `n` digits of `s` write.
pub open spec fn digits_value(s: Seq<char>, n: int) -> int
    decreases n,
{
    if n <= 0 {
        0
    } else {
        digits_value(s, n - 1) * 10 + digit_value(s[n - 1])
    }
}

/// `s` begins with a sign.
pub open spec fn has_sign(s: Seq<char>) -> bool {
    s.len() > 0 && (s[0] == '-' || s[0] == '+')
}

/// The digits of `s`, after its sign if it has one.
pub open spec fn unsigned_part(s: Seq<char>) -> Seq<char> {
    if has_sign(s) {
        s.drop_first()
    } else {
        s
    }
}

pub open spec fn all_digits(s: Seq<char>) -> bool {
    forall|i: int| 0 <= i < s.len() ==> is_digit(#[trigger] s[i])
}

/// The integer that `s` writes: an optional sign, then one or more decimal
/// digits, within the range of `i64`.
pub open spec fn parse_int(s: Seq<char>) -> Option<int> {
    let body = unsigned_part(s);
    if body.len() > 0 && all_digits(body) {
        let m = digits_value(body, body.len() as int);
        let v = if s[0] == '-' {
            -m
        } else {
            m
        };
        if i64::MIN <= v <= i64::MAX {
            Some(v)
        } else {
            None
        }
    } else {
        None
    }
}

proof fn lemma_digits_nonneg(s: Seq<char>, n: int)
    ensures
        0 <= digits_value(s, n),
    decreases n,
{
    if n > 0 {
        lemma_digits_nonneg(s, n - 1);
    }
}

proof fn lemma_digits_grow(s: Seq<char>, m: int, n: int)
    requires
        0 <= m <= n,
    ensures
        digits_value(s, m) <= digits_value(s, n),
    decreases n - m,
{
    if m < n {
        lemma_digits_grow(s, m, n - 1);
        lemma_digits_nonneg(s, n - 1);
    }
}

fn digit_of(c: char) -> (r: u8)
    requires
        is_digit(c),
    ensures
        r as int == digit_value(c),
{
    if c == '0' { 0 }
    else if c == '1' { 1 }
    else if c == '2' { 2 }
    else if c == '3' { 3 }
    else if c == '4' { 4 }
    else if c == '5' { 5 }
    else if c == '6' { 6 }
    else if c == '7' { 7 }
    else if c == '8' { 8 }
    else { 9 }
}

/// Reads an integer written as an optional sign and decimal digits.
pub fn parse_i64(s: &str) -> (r: Option<i64>)
    ensures
        r matches Some(v) ==> parse_int(s@) == Some(v as int),
        r is None ==> parse_int(s@) is None,
{
    let n = s.unicode_len();
    if n == 0 {
        return None;
    }
    let first = s.get_char(0);
    let neg = first == '-';
    let start: usize = if first == '-' || first == '+' {
        1
    } else {
        0
    };
    let ghost body = unsigned_part(s@);
    if start >= n {
        return None;
    }
    let limit: u128 = 9223372036854775808;
    let mut acc: u128 = 0;
    let mut i: usize = start;
    while i < n
        invariant
            n == s@.len(),
            start <= i <= n,
            start <= 1,
            start == 1 <==> (s@[0] == '-' || s@[0] == '+'),
            neg == (s@[0] == '-'),
            body == unsigned_part(s@),
            body.len() == n - start,
            forall|k: int| 0 <= k < i - start ==> is_digit(body[k]),
            acc as int == digits_value(body, i - start),
            limit == 9223372036854775808u128,
            acc <= limit,
        decreases n - i,
    {
        let c = s.get_char(i);
        proof {
            assert(body[i - start] == c);
        }
        if !('0' <= c && c <= '9') {
            proof {
                assert(!is_digit(body[i - start]));
                assert(!all_digits(body));
            }
            return None;
        }
        let d = digit_of(c);
        proof {
            assert(acc * 10 + d <= limit * 10 + 9) by (nonlinear_arith)
                requires
                    acc <= limit,
                    d <= 9,
            ;
        }
        let next = acc * 10 + d as u128;
        proof {
            assert(digits_value(body, i - start + 1) == digits_value(body, i - start) * 10
                + digit_value(body[i - start]));
        }
        if next > limit {
            proof {
                lemma_digits_grow(body, i - start + 1, body.len() as int);
            }
            return None;
        }
        acc = next;
        i = i + 1;
    }
    if neg {
        if acc == limit {
            Some(i64::MIN)
        } else {
            Some(-(acc as i64))
        }
    } else {
        if acc == limit {
            None
        } else {
            Some(acc as i64)
        }
    }
}

impl ServerCommand {
    pub fn boxed() -> (r: Box<dyn BldCommand>) {
        Box::new(ServerCommand)
    }

    /// The host named on the command line, or the configured one.
    pub fn host_or_default(arg: Option<String>, configured: &String) -> (r: String)
        ensures
            arg matches Some(h) ==> r == h,
            arg is None ==> r@ == configured@,
    {
        match arg {
            Some(h) => h,
            None => configured.clone(),
        }
    }

    /// The port named on the command line if it reads as an integer, else
    /// the configured one.
    pub fn port_or_default(arg: Option<String>, configured: i64) -> (r: i64)
        ensures
            arg matches Some(p) ==> (parse_int(p@) is Some ==> r as int == parse_int(p@)->Some_0),
            arg matches Some(p) ==> (parse_int(p@) is None ==> r == configured),
            arg is None ==> r == configured,
    {
        match arg {
            Some(p) => match parse_i64(p.as_str()) {
                Some(v) => v,
                None => configured,
            },
            None => configured,
        }
    }
}

/// `flag value` for each value, in order.
pub open spec fn flag_pairs(flag: Seq<char>, values: Seq<Seq<char>>, n: int) -> Seq<Seq<char>>
    decreases n,
{
    if n <= 0 {
        seq![]
    } else {
        flag_pairs(flag, values, n - 1) + seq![flag, values[n - 1]]
    }
}

/// The command line of a worker process for `run`.
pub open spec fn worker_command_line(run: QueuedRun) -> Seq<Seq<char>> {
    seq!["worker"@, "--pipeline"@, run.pipeline@, "--run-id"@, run.run_id@] + flag_pairs(
        "--variable"@,
        args_view(run.variables@),
        run.variables@.len() as int,
    ) + flag_pairs("--environment"@, args_view(run.environment@), run.environment@.len() as int)
}

fn push_flag_pairs(out: &mut Vec<String>, flag: &str, values: &Vec<String>)
    ensures
        texts_view(final(out)@) == texts_view(old(out)@) + flag_pairs(
            flag@,
            args_view(values@),
            values@.len() as int,
        ),
{
    let ghost base = texts_view(out@);
    let mut i: usize = 0;
    proof {
        assert(base + seq![] =~= base);
    }
    while i < values.len()
        invariant
            i <= values@.len(),
            texts_view(out@) == base + flag_pairs(flag@, args_view(values@), i as int),
        decreases values@.len() - i,
    {
        let ghost pre = out@;
        out.push(String::from_str(flag));
        out.push(values[i].clone());
        proof {
            assert(texts_view(out@) =~= texts_view(pre) + seq![flag@, values@[i as int]@]);
            assert(args_view(values@)[i as int] == values@[i as int]@);
            assert(texts_view(out@) =~= base + flag_pairs(flag@, args_view(values@), i + 1));
        }
        i = i + 1;
    }
}

impl WorkerCommand {
    /// The variables and environment handed to the worker, as maps.
    pub fn inputs(&self) -> (r: (VarMap, VarMap))
        ensures
            r.0.wf() && r.1.wf(),
            forall|k: Seq<char>|
                lookup(r.0@, k) == assignments_lookup(args_view(self.variables@), k),
            forall|k: Seq<char>|
                lookup(r.1@, k) == assignments_lookup(args_view(self.environment@), k),
    {
        let v = parse_variables(&self.variables);
        let e = parse_variables(&self.environment);
        proof {
            assert(args_view(self.variables@) == self.variables@.map_values(|a: String| a@));
            assert(args_view(self.environment@) == self.environment@.map_values(|a: String| a@));
        }
        (v, e)
    }

    /// The arguments with which a supervisor starts a worker for `run`.
    pub fn command_line(run: &QueuedRun) -> (r: Vec<String>)
        ensures
            texts_view(r@) == worker_command_line(*run),
    {
        let mut out: Vec<String> = Vec::new();
        out.push(String::from_str("worker"));
        out.push(String::from_str("--pipeline"));
        out.push(run.pipeline.clone());
        out.push(String::from_str("--run-id"));
        out.push(run.run_id.clone());
        proof {
            assert(texts_view(out@) =~= seq![
                "worker"@,
                "--pipeline"@,
                run.pipeline@,
                "--run-id"@,
                run.run_id@,
            ]);
        }
        push_flag_pairs(&mut out, "--variable", &run.variables);
        push_flag_pairs(&mut out, "--environment", &run.environment);
        out
    }
}

impl AddCommand {
    /// The file name of a temporary pipeline: `<id>.yaml`.
    pub fn tmp_name(id: &str) -> (r: String)
        ensures
            r@ == id@ + ".yaml"@,
    {
        concat(id, ".yaml")
    }

    /// A fresh temporary pipeline file name.
    pub fn new_tmp_name() -> (r: String)
        ensures
            r@.len() == 36 + ".yaml"@.len(),
    {
        let id = new_uuid();
        Self::tmp_name(id.as_str())
    }
}

/// What `init` creates.
#[derive(Clone, Copy, Debug, PartialEq, Eq, Structural)]
pub enum InitKind {
    Directory,
    /// An empty file.
    EmptyFile,
    /// The default pipeline.
    DefaultPipeline,
    /// The configuration, for a server or a client.
    Config,
}

/// One thing that `init` creates, by path components.
pub struct InitEntry {
    pub kind: InitKind,
    pub path: Vec<String>,
}

pub const TOOL_DIR: &'static str = ".bld";

pub const LOCAL_LOGS: &'static str = "logs";

pub const LOCAL_DEFAULT_DB_DIR: &'static str = "db";

pub const LOCAL_DEFAULT_DB_NAME: &'static str = "bld-server.db";

pub const LOCAL_SERVER_PIPELINES: &'static str = "server_pipelines";

pub const TOOL_DEFAULT_PIPELINE_FILE: &'static str = "default.yaml";

pub const TOOL_DEFAULT_CONFIG_FILE: &'static str = "config.yaml";

pub open spec fn entry_view(e: InitEntry) -> (InitKind, Seq<Seq<char>>) {
    (e.kind, texts_view(e.path@))
}

/// What `init` creates, in order: the build directory; for a server, the
/// logs directory, the database directory and its file, and the directory of
/// server pipelines; then the default pipeline and the configuration.
pub open spec fn init_layout(is_server: bool) -> Seq<(InitKind, Seq<Seq<char>>)> {
    seq![(InitKind::Directory, seq![TOOL_DIR@])] + (if is_server {
        seq![
            (InitKind::Directory, seq![TOOL_DIR@, LOCAL_LOGS@]),
            (InitKind::Directory, seq![TOOL_DIR@, LOCAL_DEFAULT_DB_DIR@]),
            (InitKind::EmptyFile, seq![TOOL_DIR@, LOCAL_DEFAULT_DB_DIR@, LOCAL_DEFAULT_DB_NAME@]),
            (InitKind::Directory, seq![TOOL_DIR@, LOCAL_SERVER_PIPELINES@]),
        ]
    } else {
        seq![]
    }) + seq![
        (InitKind::DefaultPipeline, seq![TOOL_DIR@, TOOL_DEFAULT_PIPELINE_FILE@]),
        (InitKind::Config, seq![TOOL_DIR@, TOOL_DEFAULT_CONFIG_FILE@]),
    ]
}

fn path_of(a: &str, b: Option<&str>, c: Option<&str>) -> (r: Vec<String>)
    ensures
        texts_view(r@) == seq![a@] + (match b {
            Some(x) => seq![x@],
            None => seq![],
        }) + (match c {
            Some(x) => seq![x@],
            None => seq![],
        }),
{
    let mut v: Vec<String> = Vec::new();
    v.push(String::from_str(a));
    match b {
        Some(x) => v.push(String::from_str(x)),
        None => {},
    }
    match c {
        Some(x) => v.push(String::from_str(x)),
        None => {},
    }
    proof {
        assert(texts_view(v@) =~= seq![a@] + (match b {
            Some(x) => seq![x@],
            None => seq![],
        }) + (match c {
            Some(x) => seq![x@],
            None => seq![],
        }));
    }
    v
}

pub open spec fn layout_view(v: Seq<InitEntry>) -> Seq<(InitKind, Seq<Seq<char>>)> {
    v.map_values(|e: InitEntry| entry_view(e))
}

fn push_entry(out: &mut Vec<InitEntry>, kind: InitKind, path: Vec<String>)
    ensures
        layout_view(final(out)@) == layout_view(old(out)@).push((kind, texts_view(path@))),
{
    let ghost pv = texts_view(path@);
    out.push(InitEntry { kind, path });
    proof {
        assert(layout_view(out@) =~= layout_view(old(out)@).push((kind, pv)));
    }
}

impl InitCommand {
    /// What `init` creates, in order.
    pub fn layout(&self) -> (r: Vec<InitEntry>)
        ensures
            layout_view(r@) == init_layout(self.is_server),
    {
        let mut out: Vec<InitEntry> = Vec::new();
        proof {
            assert(layout_view(out@) =~= seq![]);
        }
        push_entry(&mut out, InitKind::Directory, path_of(TOOL_DIR, None, None));
        let ghost first = layout_view(out@);
        if self.is_server {
            push_entry(&mut out, InitKind::Directory, path_of(TOOL_DIR, Some(LOCAL_LOGS), None));
            push_entry(
                &mut out,
                InitKind::Directory,
                path_of(TOOL_DIR, Some(LOCAL_DEFAULT_DB_DIR), None),
            );
            push_entry(
                &mut out,
                InitKind::EmptyFile,
                path_of(TOOL_DIR, Some(LOCAL_DEFAULT_DB_DIR), Some(LOCAL_DEFAULT_DB_NAME)),
            );
            push_entry(
                &mut out,
                InitKind::Directory,
                path_of(TOOL_DIR, Some(LOCAL_SERVER_PIPELINES), None),
            );
        }
        push_entry(
            &mut out,
            InitKind::DefaultPipeline,
            path_of(TOOL_DIR, Some(TOOL_DEFAULT_PIPELINE_FILE), None),
        );
        push_entry(
            &mut out,
            InitKind::Config,
            path_of(TOOL_DIR, Some(TOOL_DEFAULT_CONFIG_FILE), None),
        );
        proof {
            assert(layout_view(out@) =~~= init_layout(self.is_server));
        }
        out
    }

    /// Whether the build directory is among the entries of the current
    /// directory, given as (name, is a directory).
    pub fn build_dir_exists(entries: &Vec<(String, bool)>) -> (r: bool)
        ensures
            r == exists|i: int|
                0 <= i < entries@.len() && entries@[i].1 && entries@[i].0@ == TOOL_DIR@,
    {
        let tool = String::from_str(TOOL_DIR);
        let mut i: usize = 0;
        while i < entries.len()
            invariant
                i <= entries@.len(),
                tool@ == TOOL_DIR@,
                forall|k: int| 0 <= k < i ==> !(entries@[k].1 && entries@[k].0@ == TOOL_DIR@),
            decreases entries@.len() - i,
        {
            if entries[i].1 && entries[i].0 == tool {
                return true;
            }
            i = i + 1;
        }
        false
    }
}

} // verus!
