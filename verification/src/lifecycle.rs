//! The life of a daemon process: what it reads from its environment, and which
//! files it leaves and takes away.

use crate::address::{get_port_for_session, session_port};
use crate::server::Platform;
use crate::text::{
    decimal, decimal_reads_back, decimal_text, opt_view, parse_decimal, parsed_decimal,
    push_decimal,
};
use vstd::prelude::*;

verus! {

/// The time between periodic saves of the session, where none is asked for.
pub const DEFAULT_AUTOSAVE_INTERVAL_MS: u64 = 30_000;

/// The number in a setting, where there is one of at most `max`.
pub open spec fn setting(raw: Option<Seq<char>>, max: nat) -> Option<nat> {
    match raw {
        Some(text) => parsed_decimal(text, max),
        None => None,
    }
}

/// A number in a setting is read back, where it is allowed; a setting that is
/// missing, no number or too large gives none.
pub proof fn settings_are_read_back()
    ensures
        forall|n: nat, max: nat|
            #![trigger setting(Some(decimal(n)), max)]
            setting(Some(decimal(n)), max) == if n <= max {
                Some(n)
            } else {
                None
            },
        forall|max: nat| #[trigger] setting(None, max) is None,
        forall|text: Seq<char>, max: nat|
            #![trigger setting(Some(text), max)]
            setting(Some(text), max) == parsed_decimal(text, max),
{
    assert forall|n: nat, max: nat|
        #![trigger setting(Some(decimal(n)), max)]
        setting(Some(decimal(n)), max) == if n <= max {
            Some(n)
        } else {
            None
        } by {
        decimal_reads_back(n, n);
        crate::text::only_digits_are_read(decimal(n), n, n, max);
    }
}

/// Saved states expire after so many days as are written down, and never where
/// that is none, or nothing is.
pub proof fn expiry_is_what_is_written(n: nat, text: Seq<char>)
    ensures
        match parsed_decimal(text, u64::MAX as nat) {
            Some(days) => expire_days(Some(text)) == if days == 0 {
                None
            } else {
                Some(days)
            },
            None => expire_days(Some(text)) is None,
        },
        0 < n <= u64::MAX ==> expire_days(Some(decimal(n))) == Some(n),
        n == 0 || n > u64::MAX ==> expire_days(Some(decimal(n))) is None,
        expire_days(None) is None,
{
    settings_are_read_back();
}

fn read_setting(raw: &Option<String>, max: u64) -> (r: Option<u64>)
    ensures
        match r {
            Some(n) => setting(opt_view(*raw), max as nat) == Some(n as nat),
            None => setting(opt_view(*raw), max as nat) is None,
        },
{
    match raw {
        Some(text) => parse_decimal(text.as_str(), max),
        None => None,
    }
}

/// Minimum milliseconds between periodic saves of the session while the browser
/// is open, from AGENT_BROWSER_AUTOSAVE_INTERVAL_MS. Half a minute where there
/// is no number; 0 disables periodic saves, though the one on close still runs.
pub fn autosave_interval_ms_from_env(raw: Option<String>) -> (r: u64)
    ensures
        r as nat == match setting(opt_view(raw), u64::MAX as nat) {
            Some(ms) => ms,
            None => DEFAULT_AUTOSAVE_INTERVAL_MS as nat,
        },
        forall|n: nat|
            n <= u64::MAX && opt_view(raw) == Some(#[trigger] decimal(n)) ==> r as nat == n,
        opt_view(raw) is None ==> r == 30_000,
        opt_view(raw) matches Some(text) ==> match parsed_decimal(text, u64::MAX as nat) {
            Some(ms) => r as nat == ms,
            None => r == 30_000,
        },
{
    proof {
        settings_are_read_back();
    }
    match read_setting(&raw, u64::MAX) {
        Some(ms) => ms,
        None => DEFAULT_AUTOSAVE_INTERVAL_MS,
    }
}

/// The port that the stream server is to try first, from
/// AGENT_BROWSER_STREAM_PORT. Any port where there is no number of one.
pub fn preferred_stream_port(raw: Option<String>) -> (r: u16)
    ensures
        r as nat == match setting(opt_view(raw), u16::MAX as nat) {
            Some(port) => port,
            None => 0,
        },
        forall|n: nat|
            n <= u16::MAX && opt_view(raw) == Some(#[trigger] decimal(n)) ==> r as nat == n,
        opt_view(raw) is None ==> r == 0,
        opt_view(raw) matches Some(text) ==> match parsed_decimal(text, u16::MAX as nat) {
            Some(port) => r as nat == port,
            None => r == 0,
        },
{
    proof {
        settings_are_read_back();
    }
    match read_setting(&raw, u16::MAX as u64) {
        Some(port) => port as u16,
        None => 0,
    }
}

/// After how many days saved states expire.
pub open spec fn expire_days(raw: Option<Seq<char>>) -> Option<nat> {
    match setting(raw, u64::MAX as nat) {
        Some(days) => if days > 0 {
            Some(days)
        } else {
            None
        },
        None => None,
    }
}

/// After how many days saved states expire, from
/// AGENT_BROWSER_STATE_EXPIRE_DAYS. Never where there is no number, or zero.
pub fn state_expire_days(raw: Option<String>) -> (r: Option<u64>)
    ensures
        match r {
            Some(days) => expire_days(opt_view(raw)) == Some(days as nat),
            None => expire_days(opt_view(raw)) is None,
        },
        forall|n: nat|
            0 < n <= u64::MAX && opt_view(raw) == Some(#[trigger] decimal(n)) ==> (r matches Some(
                days,
            ) && days == n),
        opt_view(raw) is None ==> r is None,
        r matches Some(days) ==> days > 0 && (opt_view(raw) matches Some(text) && parsed_decimal(
            text,
            u64::MAX as nat,
        ) == Some(days as nat)),
{
    proof {
        settings_are_read_back();
    }
    match read_setting(&raw, u64::MAX) {
        Some(days) => if days > 0 {
            Some(days)
        } else {
            None
        },
        None => None,
    }
}

/// The files of a session.
#[derive(Clone, Copy, Debug, PartialEq, Eq, Structural)]
pub enum SessionFile {
    Log,
    Pid,
    Version,
    Sock,
    Port,
    Stream,
    Engine,
    Provider,
    Extensions,
}

/// What the name of a file ends in.
pub open spec fn suffix(file: SessionFile) -> Seq<char> {
    match file {
        SessionFile::Log => ".log"@,
        SessionFile::Pid => ".pid"@,
        SessionFile::Version => ".version"@,
        SessionFile::Sock => ".sock"@,
        SessionFile::Port => ".port"@,
        SessionFile::Stream => ".stream"@,
        SessionFile::Engine => ".engine"@,
        SessionFile::Provider => ".provider"@,
        SessionFile::Extensions => ".extensions"@,
    }
}

/// The name of a session's file.
pub open spec fn file_name(session: Seq<char>, file: SessionFile) -> Seq<char> {
    session + suffix(file)
}

/// The name of a session's file.
pub fn session_file_name(session: &str, file: SessionFile) -> (r: String)
    ensures
        r@ == file_name(session@, file),
{
    let mut name = session.to_owned();
    match file {
        SessionFile::Log => name.append(".log"),
        SessionFile::Pid => name.append(".pid"),
        SessionFile::Version => name.append(".version"),
        SessionFile::Sock => name.append(".sock"),
        SessionFile::Port => name.append(".port"),
        SessionFile::Stream => name.append(".stream"),
        SessionFile::Engine => name.append(".engine"),
        SessionFile::Provider => name.append(".provider"),
        SessionFile::Extensions => name.append(".extensions"),
    }
    name
}

/// What a daemon does before and after it serves. Where a step fails the next
/// one follows all the same.
pub enum StepView {
    CreateDirectory,
    LogToFile(SessionFile, Seq<char>),
    DiscardLog,
    Write(SessionFile, Seq<char>),
    Remove(SessionFile),
    CleanStates(u64),
    StartStream(u16),
    Log(Seq<char>),
    Exit(i32),
}

/// What a daemon does before and after it serves. Where a step fails the next
/// one follows all the same.
#[derive(Debug, PartialEq)]
pub enum Step {
    /// Create the directory, unless it is there.
    CreateDirectory,
    /// Log to a file, and begin with that line.
    LogToFile(SessionFile, String),
    /// Log nowhere: the parent drops its end of the pipe after startup, and a
    /// write to it would end the daemon.
    DiscardLog,
    /// Write a file, in place of one that is there.
    Write(SessionFile, String),
    /// Remove a file, if it is there.
    Remove(SessionFile),
    /// Remove saved states that are older than so many days.
    CleanStates(u64),
    /// Start the stream server, preferably on that port.
    StartStream(u16),
    /// Write a line to the log.
    Log(String),
    /// End the process with that code.
    Exit(i32),
}

impl View for Step {
    type V = StepView;

    open spec fn view(&self) -> StepView {
        match self {
            Step::CreateDirectory => StepView::CreateDirectory,
            Step::LogToFile(file, banner) => StepView::LogToFile(*file, banner@),
            Step::DiscardLog => StepView::DiscardLog,
            Step::Write(file, text) => StepView::Write(*file, text@),
            Step::Remove(file) => StepView::Remove(*file),
            Step::CleanStates(days) => StepView::CleanStates(*days),
            Step::StartStream(port) => StepView::StartStream(*port),
            Step::Log(message) => StepView::Log(message@),
            Step::Exit(code) => StepView::Exit(*code),
        }
    }
}

/// The steps, in order.
pub open spec fn step_views(steps: Seq<Step>) -> Seq<StepView> {
    steps.map_values(|step: Step| step@)
}

/// Where the daemon's complaints go. On Windows they stay where they were.
pub open spec fn log_steps(platform: Platform, session: Seq<char>, debug: bool) -> Seq<StepView> {
    if platform == Platform::Windows {
        Seq::empty()
    } else if debug {
        seq![
            StepView::LogToFile(
                SessionFile::Log,
                "[daemon] Debug logging started for session: "@ + session,
            ),
        ]
    } else {
        seq![StepView::DiscardLog]
    }
}

/// The file that tells clients where the daemon listens.
pub open spec fn listening_file(platform: Platform) -> SessionFile {
    match platform {
        Platform::Unix => SessionFile::Sock,
        Platform::Windows => SessionFile::Port,
    }
}

/// The expiry of saved states, where they expire.
pub open spec fn expiry_steps(days: Option<u64>) -> Seq<StepView> {
    match days {
        Some(n) => seq![StepView::CleanStates(n)],
        None => Seq::empty(),
    }
}

/// All that a daemon does before it serves: it makes itself known, and takes
/// away what an earlier daemon of the session may have left.
pub open spec fn startup(
    platform: Platform,
    session: Seq<char>,
    debug: bool,
    pid: u32,
    version: Seq<char>,
    days: Option<u64>,
    stream_port: u16,
) -> Seq<StepView> {
    seq![StepView::CreateDirectory] + log_steps(platform, session, debug) + seq![
        StepView::Write(SessionFile::Pid, decimal(pid as nat)),
        StepView::Write(SessionFile::Version, version),
        StepView::Remove(listening_file(platform)),
        StepView::Remove(SessionFile::Stream),
        StepView::Remove(SessionFile::Engine),
        StepView::Remove(SessionFile::Provider),
        StepView::Remove(SessionFile::Extensions),
    ] + expiry_steps(days) + seq![StepView::StartStream(stream_port)]
}

/// All that a daemon does before it serves.
pub fn startup_plan(
    platform: Platform,
    session: &str,
    debug: bool,
    pid: u32,
    version: &str,
    days: Option<u64>,
    stream_port: u16,
) -> (r: Vec<Step>)
    ensures
        step_views(r@) == startup(platform, session@, debug, pid, version@, days, stream_port),
{
    let mut steps: Vec<Step> = Vec::new();
    steps.push(Step::CreateDirectory);
    let listening: SessionFile = match platform {
        Platform::Unix => {
            if debug {
                let banner = "[daemon] Debug logging started for session: ".to_owned().concat(
                    session,
                );
                steps.push(Step::LogToFile(SessionFile::Log, banner));
            } else {
                steps.push(Step::DiscardLog);
            }
            SessionFile::Sock
        },
        Platform::Windows => SessionFile::Port,
    };
    steps.push(Step::Write(SessionFile::Pid, decimal_text(pid as u128)));
    steps.push(Step::Write(SessionFile::Version, version.to_owned()));
    steps.push(Step::Remove(listening));
    steps.push(Step::Remove(SessionFile::Stream));
    steps.push(Step::Remove(SessionFile::Engine));
    steps.push(Step::Remove(SessionFile::Provider));
    steps.push(Step::Remove(SessionFile::Extensions));
    match days {
        Some(n) => steps.push(Step::CleanStates(n)),
        None => {},
    }
    steps.push(Step::StartStream(stream_port));
    assert(step_views(steps@) =~= startup(
        platform,
        session@,
        debug,
        pid,
        version@,
        days,
        stream_port,
    ));
    steps
}

/// What the outcome of starting the stream server leads to.
pub open spec fn stream_started(outcome: Result<u16, Seq<char>>) -> StepView {
    match outcome {
        Ok(port) => StepView::Write(SessionFile::Stream, decimal(port as nat)),
        Err(message) => StepView::Log("Stream server failed to start: "@ + message),
    }
}

/// What the outcome of starting the stream server leads to: its port is made
/// known, or the complaint logged. The daemon serves either way.
pub fn after_stream_start(outcome: Result<u16, String>) -> (r: Step)
    ensures
        r@ == stream_started(
            match outcome {
                Ok(port) => Ok(port),
                Err(message) => Err(message@),
            },
        ),
{
    match outcome {
        Ok(port) => Step::Write(SessionFile::Stream, decimal_text(port as u128)),
        Err(message) => Step::Log(
            "Stream server failed to start: ".to_owned().concat(message.as_str()),
        ),
    }
}

/// What a failure to make the stream server's port known is logged as.
pub fn stream_file_complaint(message: &str) -> (r: String)
    ensures
        r@ == "Failed to write .stream file: "@ + message@,
{
    "Failed to write .stream file: ".to_owned().concat(message)
}

/// Where a daemon may listen.
#[derive(Debug, PartialEq)]
pub enum Endpoint {
    /// On the session's socket file.
    Socket,
    /// On a TCP address.
    Tcp(String),
}

/// Where a daemon may listen.
pub enum EndpointView {
    Socket,
    Tcp(Seq<char>),
}

impl View for Endpoint {
    type V = EndpointView;

    open spec fn view(&self) -> EndpointView {
        match self {
            Endpoint::Socket => EndpointView::Socket,
            Endpoint::Tcp(address) => EndpointView::Tcp(address@),
        }
    }
}

/// Where a daemon of a session tries to listen, until it can. On Windows the
/// port that the session has without a namespace comes first; it may be blocked,
/// and any port does then.
pub open spec fn endpoints(platform: Platform, session: Seq<char>) -> Seq<EndpointView> {
    match platform {
        Platform::Unix => seq![EndpointView::Socket],
        Platform::Windows => seq![
            EndpointView::Tcp("127.0.0.1:"@ + decimal(session_port(session))),
            EndpointView::Tcp("127.0.0.1:0"@),
        ],
    }
}

/// Where a daemon of a session tries to listen, until it can.
pub fn listening_endpoints(platform: Platform, session: &str) -> (r: Vec<Endpoint>)
    ensures
        r@.map_values(|endpoint: Endpoint| endpoint@) == endpoints(platform, session@),
{
    let mut tried: Vec<Endpoint> = Vec::new();
    match platform {
        Platform::Unix => tried.push(Endpoint::Socket),
        Platform::Windows => {
            let mut address = "127.0.0.1:".to_owned();
            push_decimal(&mut address, get_port_for_session(session) as u128);
            tried.push(Endpoint::Tcp(address));
            tried.push(Endpoint::Tcp("127.0.0.1:0".to_owned()));
        },
    }
    assert(tried@.map_values(|endpoint: Endpoint| endpoint@) =~= endpoints(platform, session@));
    tried
}

/// What serving fails with where the daemon can listen nowhere, given what the
/// last try failed with.
pub fn bind_failure(platform: Platform, message: &str) -> (r: String)
    ensures
        r@ == match platform {
            Platform::Unix => "Failed to bind socket: "@ + message@,
            Platform::Windows => "Failed to bind TCP: "@ + message@,
        },
{
    match platform {
        Platform::Unix => "Failed to bind socket: ".to_owned().concat(message),
        Platform::Windows => "Failed to bind TCP: ".to_owned().concat(message),
    }
}

/// What the outcome of asking for the port listened on leads to, on Windows:
/// clients are told of it, or serving fails.
pub fn after_tcp_bind(port: Result<u16, String>) -> (r: Result<Step, String>)
    ensures
        match (port, r) {
            (Ok(number), Ok(step)) => step@ == StepView::Write(
                SessionFile::Port,
                decimal(number as nat),
            ),
            (Err(message), Err(failure)) => failure@ == "Failed to get local address: "@ + message@,
            _ => false,
        },
        port matches Ok(number) ==> (r matches Ok(step) && (step@ matches StepView::Write(
            file,
            text,
        ) && file == SessionFile::Port && parsed_decimal(text, u16::MAX as nat) == Some(
            number as nat,
        ))),
{
    match port {
        Ok(number) => {
            proof {
                decimal_reads_back(number as nat, u16::MAX as nat);
            }
            Ok(Step::Write(SessionFile::Port, decimal_text(number as u128)))
        },
        Err(message) => Err("Failed to get local address: ".to_owned().concat(message.as_str())),
    }
}

/// What a failure to watch for a signal is logged as; the process then ends.
pub fn handler_complaint(signal: &str, message: &str) -> (r: String)
    ensures
        r@ == "Failed to install "@ + signal@ + " handler: "@ + message@,
{
    "Failed to install ".to_owned().concat(signal).concat(" handler: ").concat(message)
}

/// The view of how serving went.
pub open spec fn outcome_view(outcome: Result<(), String>) -> Result<(), Seq<char>> {
    match outcome {
        Ok(_) => Ok(()),
        Err(message) => Err(message@),
    }
}

/// How a daemon that failed ends.
pub open spec fn failure_steps(outcome: Result<(), Seq<char>>) -> Seq<StepView> {
    match outcome {
        Ok(_) => Seq::empty(),
        Err(message) => seq![StepView::Log("Daemon error: "@ + message), StepView::Exit(1)],
    }
}

/// All that a daemon does after it has served: it takes its files away.
pub open spec fn shutdown(platform: Platform, outcome: Result<(), Seq<char>>) -> Seq<StepView> {
    seq![
        StepView::Remove(listening_file(platform)),
        StepView::Remove(SessionFile::Pid),
        StepView::Remove(SessionFile::Version),
        StepView::Remove(SessionFile::Stream),
        StepView::Remove(SessionFile::Engine),
        StepView::Remove(SessionFile::Provider),
        StepView::Remove(SessionFile::Extensions),
    ] + failure_steps(outcome)
}

/// All that a daemon does after it has served.
pub fn shutdown_plan(platform: Platform, outcome: Result<(), String>) -> (r: Vec<Step>)
    ensures
        step_views(r@) == shutdown(platform, outcome_view(outcome)),
{
    let ghost seen = outcome_view(outcome);
    let mut steps: Vec<Step> = Vec::new();
    steps.push(
        Step::Remove(
            match platform {
                Platform::Unix => SessionFile::Sock,
                Platform::Windows => SessionFile::Port,
            },
        ),
    );
    steps.push(Step::Remove(SessionFile::Pid));
    steps.push(Step::Remove(SessionFile::Version));
    steps.push(Step::Remove(SessionFile::Stream));
    steps.push(Step::Remove(SessionFile::Engine));
    steps.push(Step::Remove(SessionFile::Provider));
    steps.push(Step::Remove(SessionFile::Extensions));
    match outcome {
        Ok(_) => {},
        Err(message) => {
            steps.push(Step::Log("Daemon error: ".to_owned().concat(message.as_str())));
            steps.push(Step::Exit(1));
        },
    }
    assert(step_views(steps@) =~= shutdown(platform, seen));
    steps
}

/// Whether a file is there after the steps, given whether it was before.
pub open spec fn present(steps: Seq<StepView>, file: SessionFile, before: bool) -> bool
    decreases steps.len(),
{
    if steps.len() == 0 {
        before
    } else {
        let earlier = present(steps.drop_last(), file, before);
        match steps.last() {
            StepView::Write(written, _) => written == file || earlier,
            StepView::LogToFile(written, _) => written == file || earlier,
            StepView::Remove(removed) => removed != file && earlier,
            _ => earlier,
        }
    }
}

proof fn lemma_present_adds(a: Seq<StepView>, b: Seq<StepView>, file: SessionFile, before: bool)
    ensures
        present(a + b, file, before) == present(b, file, present(a, file, before)),
    decreases b.len(),
{
    if b.len() == 0 {
        assert(a + b == a);
    } else {
        assert((a + b).drop_last() == a + b.drop_last());
        assert((a + b).last() == b.last());
        lemma_present_adds(a, b.drop_last(), file, before);
    }
}

proof fn lemma_present_unrolls(steps: Seq<StepView>, file: SessionFile, before: bool)
    requires
        steps.len() == 7,
    ensures
        ({
            let one = |step: StepView, earlier: bool|
                present(seq![step], file, earlier);
            present(steps, file, before) == one(
                steps[6],
                one(
                    steps[5],
                    one(
                        steps[4],
                        one(steps[3], one(steps[2], one(steps[1], one(steps[0], before)))),
                    ),
                ),
            )
        }),
{
    assert(steps =~= seq![steps[0]] + seq![steps[1]] + seq![steps[2]] + seq![steps[3]] + seq![
        steps[4],
    ] + seq![steps[5]] + seq![steps[6]]);
    let s1 = seq![steps[0]];
    let s2 = s1 + seq![steps[1]];
    let s3 = s2 + seq![steps[2]];
    let s4 = s3 + seq![steps[3]];
    let s5 = s4 + seq![steps[4]];
    let s6 = s5 + seq![steps[5]];
    lemma_present_adds(s1, seq![steps[1]], file, before);
    lemma_present_adds(s2, seq![steps[2]], file, before);
    lemma_present_adds(s3, seq![steps[3]], file, before);
    lemma_present_adds(s4, seq![steps[4]], file, before);
    lemma_present_adds(s5, seq![steps[5]], file, before);
    lemma_present_adds(s6, seq![steps[6]], file, before);
}

proof fn lemma_present_one(step: StepView, file: SessionFile, before: bool)
    ensures
        present(seq![step], file, before) == match step {
            StepView::Write(written, _) => written == file || before,
            StepView::LogToFile(written, _) => written == file || before,
            StepView::Remove(removed) => removed != file && before,
            _ => before,
        },
{
    reveal_with_fuel(present, 2);
    assert(seq![step].drop_last() =~= Seq::<StepView>::empty());
    assert(seq![step].last() == step);
}

proof fn lemma_startup_present(
    platform: Platform,
    session: Seq<char>,
    debug: bool,
    pid: u32,
    version: Seq<char>,
    days: Option<u64>,
    stream_port: u16,
    file: SessionFile,
    before: bool,
)
    ensures
        present(
            startup(platform, session, debug, pid, version, days, stream_port),
            file,
            before,
        ) == match file {
            SessionFile::Log => before || (platform == Platform::Unix && debug),
            SessionFile::Pid => true,
            SessionFile::Version => true,
            SessionFile::Sock => before && platform == Platform::Windows,
            SessionFile::Port => before && platform == Platform::Unix,
            _ => false,
        },
{
    let first = seq![StepView::CreateDirectory];
    let logging = log_steps(platform, session, debug);
    let files = seq![
        StepView::Write(SessionFile::Pid, decimal(pid as nat)),
        StepView::Write(SessionFile::Version, version),
        StepView::Remove(listening_file(platform)),
        StepView::Remove(SessionFile::Stream),
        StepView::Remove(SessionFile::Engine),
        StepView::Remove(SessionFile::Provider),
        StepView::Remove(SessionFile::Extensions),
    ];
    let expiry = expiry_steps(days);
    let last = seq![StepView::StartStream(stream_port)];
    lemma_present_adds(first, logging, file, before);
    lemma_present_adds(first + logging, files, file, before);
    lemma_present_adds(first + logging + files, expiry, file, before);
    lemma_present_adds(first + logging + files + expiry, last, file, before);
    assert forall|step: StepView, b: bool| #[trigger]
        present(seq![step], file, b) == match step {
            StepView::Write(written, _) => written == file || b,
            StepView::LogToFile(written, _) => written == file || b,
            StepView::Remove(removed) => removed != file && b,
            _ => b,
        } by {
        lemma_present_one(step, file, b);
    }
    lemma_present_unrolls(files, file, present(first + logging, file, before));
}

/// Once started, a daemon has made itself known, and nothing is left of an
/// earlier daemon of the session, whatever that one had left.
pub proof fn startup_leaves_nothing_stale(
    platform: Platform,
    session: Seq<char>,
    debug: bool,
    pid: u32,
    version: Seq<char>,
    days: Option<u64>,
    stream_port: u16,
    before: bool,
)
    ensures
        ({
            let steps = startup(platform, session, debug, pid, version, days, stream_port);
            &&& present(steps, SessionFile::Pid, before)
            &&& present(steps, SessionFile::Version, before)
            &&& !present(steps, listening_file(platform), before)
            &&& !present(steps, SessionFile::Stream, before)
            &&& !present(steps, SessionFile::Engine, before)
            &&& !present(steps, SessionFile::Provider, before)
            &&& !present(steps, SessionFile::Extensions, before)
        }),
{
    lemma_startup_present(
        platform, session, debug, pid, version, days, stream_port, SessionFile::Pid, before,
    );
    lemma_startup_present(
        platform, session, debug, pid, version, days, stream_port, SessionFile::Version, before,
    );
    lemma_startup_present(
        platform, session, debug, pid, version, days, stream_port, listening_file(platform), before,
    );
    lemma_startup_present(
        platform, session, debug, pid, version, days, stream_port, SessionFile::Stream, before,
    );
    lemma_startup_present(
        platform, session, debug, pid, version, days, stream_port, SessionFile::Engine, before,
    );
    lemma_startup_present(
        platform, session, debug, pid, version, days, stream_port, SessionFile::Provider, before,
    );
    lemma_startup_present(
        platform, session, debug, pid, version, days, stream_port, SessionFile::Extensions, before,
    );
}

/// Once stopped, with or without a failure, a daemon has left none of its files
/// but the log, whatever was there while it ran.
pub proof fn shutdown_leaves_nothing_behind(
    platform: Platform,
    outcome: Result<(), Seq<char>>,
    file: SessionFile,
    before: bool,
)
    requires
        file != SessionFile::Log,
        file == SessionFile::Sock ==> platform == Platform::Unix,
        file == SessionFile::Port ==> platform == Platform::Windows,
    ensures
        !present(shutdown(platform, outcome), file, before),
{
    let files = seq![
        StepView::Remove(listening_file(platform)),
        StepView::Remove(SessionFile::Pid),
        StepView::Remove(SessionFile::Version),
        StepView::Remove(SessionFile::Stream),
        StepView::Remove(SessionFile::Engine),
        StepView::Remove(SessionFile::Provider),
        StepView::Remove(SessionFile::Extensions),
    ];
    let failure = failure_steps(outcome);
    lemma_present_adds(files, failure, file, before);
    assert forall|step: StepView, b: bool| #[trigger]
        present(seq![step], file, b) == match step {
            StepView::Write(written, _) => written == file || b,
            StepView::LogToFile(written, _) => written == file || b,
            StepView::Remove(removed) => removed != file && b,
            _ => b,
        } by {
        lemma_present_one(step, file, b);
    }
    lemma_present_unrolls(files, file, before);
    match outcome {
        Ok(_) => {},
        Err(message) => {
            let log = StepView::Log("Daemon error: "@ + message);
            assert(failure =~= seq![log] + seq![StepView::Exit(1)]);
            lemma_present_adds(
                seq![log],
                seq![StepView::Exit(1)],
                file,
                present(files, file, before),
            );
        },
    }
}

proof fn lemma_suffix_shape(file: SessionFile)
    ensures
        suffix(file).len() >= 4,
        suffix(file)[0] == '.',
        forall|i: int| 1 <= i < suffix(file).len() ==> suffix(file)[i] != '.',
        (suffix(file)[1], suffix(file)[2]) == match file {
            SessionFile::Log => ('l', 'o'),
            SessionFile::Pid => ('p', 'i'),
            SessionFile::Version => ('v', 'e'),
            SessionFile::Sock => ('s', 'o'),
            SessionFile::Port => ('p', 'o'),
            SessionFile::Stream => ('s', 't'),
            SessionFile::Engine => ('e', 'n'),
            SessionFile::Provider => ('p', 'r'),
            SessionFile::Extensions => ('e', 'x'),
        },
{
    reveal_strlit(".log");
    reveal_strlit(".pid");
    reveal_strlit(".version");
    reveal_strlit(".sock");
    reveal_strlit(".port");
    reveal_strlit(".stream");
    reveal_strlit(".engine");
    reveal_strlit(".provider");
    reveal_strlit(".extensions");
    match file {
        SessionFile::Log => {
            assert(".log"@[1] == 'l' && ".log"@[2] == 'o');
        },
        SessionFile::Pid => {
            assert(".pid"@[1] == 'p' && ".pid"@[2] == 'i');
        },
        SessionFile::Version => {
            assert(".version"@[1] == 'v' && ".version"@[2] == 'e');
        },
        SessionFile::Sock => {
            assert(".sock"@[1] == 's' && ".sock"@[2] == 'o');
        },
        SessionFile::Port => {
            assert(".port"@[1] == 'p' && ".port"@[2] == 'o');
        },
        SessionFile::Stream => {
            assert(".stream"@[1] == 's' && ".stream"@[2] == 't');
        },
        SessionFile::Engine => {
            assert(".engine"@[1] == 'e' && ".engine"@[2] == 'n');
        },
        SessionFile::Provider => {
            assert(".provider"@[1] == 'p' && ".provider"@[2] == 'r');
        },
        SessionFile::Extensions => {
            assert(".extensions"@[1] == 'e' && ".extensions"@[2] == 'x');
        },
    }
}

/// No two files, of one session or of two, have one name: daemons of different
/// sessions keep out of each other's way.
pub proof fn file_names_are_distinct(
    session1: Seq<char>,
    file1: SessionFile,
    session2: Seq<char>,
    file2: SessionFile,
)
    requires
        file_name(session1, file1) == file_name(session2, file2),
    ensures
        session1 == session2,
        file1 == file2,
{
    let name = file_name(session1, file1);
    let n1 = session1.len() as int;
    let n2 = session2.len() as int;
    lemma_suffix_shape(file1);
    lemma_suffix_shape(file2);
    assert(name == session2 + suffix(file2));
    assert(name.len() == n1 + suffix(file1).len());
    assert(name.len() == n2 + suffix(file2).len());
    assert(name[n1] == '.');
    assert(name[n2] == '.');
    if n1 < n2 {
        assert(name[n2] == suffix(file1)[n2 - n1]);
    } else if n2 < n1 {
        assert(name[n1] == suffix(file2)[n1 - n2]);
    }
    assert(session1 =~= name.take(n1));
    assert(session2 =~= name.take(n2));
    assert(suffix(file1) =~= name.skip(n1));
    assert(suffix(file2) =~= name.skip(n2));
    assert(suffix(file1)[1] == suffix(file2)[1] && suffix(file1)[2] == suffix(file2)[2]);
}

/// What a file holds after a step, given what it held before, if it was there.
pub open spec fn held_after(step: StepView, file: SessionFile, before: Option<Seq<char>>) -> Option<
    Seq<char>,
> {
    match step {
        StepView::Write(written, text) => if written == file {
            Some(text)
        } else {
            before
        },
        StepView::LogToFile(written, banner) => if written == file {
            Some(banner.push('\n'))
        } else {
            before
        },
        StepView::Remove(removed) => if removed == file {
            None
        } else {
            before
        },
        _ => before,
    }
}

/// What a file holds after the steps, given what it held before, if it was
/// there.
pub open spec fn held(steps: Seq<StepView>, file: SessionFile, before: Option<Seq<char>>) -> Option<
    Seq<char>,
>
    decreases steps.len(),
{
    if steps.len() == 0 {
        before
    } else {
        held_after(steps.last(), file, held(steps.drop_last(), file, before))
    }
}

proof fn lemma_held_adds(
    a: Seq<StepView>,
    b: Seq<StepView>,
    file: SessionFile,
    before: Option<Seq<char>>,
)
    ensures
        held(a + b, file, before) == held(b, file, held(a, file, before)),
    decreases b.len(),
{
    if b.len() == 0 {
        assert(a + b =~= a);
    } else {
        assert((a + b).drop_last() =~= a + b.drop_last());
        lemma_held_adds(a, b.drop_last(), file, before);
    }
}

proof fn lemma_held_one(step: StepView, file: SessionFile, before: Option<Seq<char>>)
    ensures
        held(seq![step], file, before) == held_after(step, file, before),
{
    reveal_with_fuel(held, 2);
    assert(seq![step].drop_last() =~= Seq::<StepView>::empty());
}

proof fn lemma_held_seven(steps: Seq<StepView>, file: SessionFile, before: Option<Seq<char>>)
    requires
        steps.len() == 7,
    ensures
        ({
            let after = |step: StepView, earlier: Option<Seq<char>>|
                held_after(step, file, earlier);
            held(steps, file, before) == after(
                steps[6],
                after(
                    steps[5],
                    after(
                        steps[4],
                        after(steps[3], after(steps[2], after(steps[1], after(steps[0], before)))),
                    ),
                ),
            )
        }),
{
    reveal_with_fuel(held, 8);
    let s6 = steps.drop_last();
    let s5 = s6.drop_last();
    let s4 = s5.drop_last();
    let s3 = s4.drop_last();
    let s2 = s3.drop_last();
    let s1 = s2.drop_last();
    assert(s1.drop_last().len() == 0);
    assert(s6.last() == steps[5] && s5.last() == steps[4] && s4.last() == steps[3]);
    assert(s3.last() == steps[2] && s2.last() == steps[1] && s1.last() == steps[0]);
}

/// Once started, a daemon has put its process id into one file, so that it reads
/// back, and its version into another, as it stands; of an earlier daemon of the
/// session no file is left that speaks of it, and no other file is touched but
/// the log.
pub proof fn startup_makes_the_daemon_known(
    platform: Platform,
    session: Seq<char>,
    debug: bool,
    pid: u32,
    version: Seq<char>,
    days: Option<u64>,
    stream_port: u16,
    file: SessionFile,
    before: Option<Seq<char>>,
)
    ensures
        ({
            let after = held(
                startup(platform, session, debug, pid, version, days, stream_port),
                file,
                before,
            );
            match file {
                SessionFile::Pid => after matches Some(text) && parsed_decimal(
                    text,
                    u32::MAX as nat,
                ) == Some(pid as nat) && !text.contains('+') && (pid > 0 ==> text[0] != '0'),
                SessionFile::Version => after == Some(version),
                SessionFile::Log => if platform == Platform::Unix && debug {
                    after == Some(
                        ("[daemon] Debug logging started for session: "@ + session).push('\n'),
                    )
                } else {
                    after == before
                },
                SessionFile::Sock => if platform == Platform::Unix {
                    after is None
                } else {
                    after == before
                },
                SessionFile::Port => if platform == Platform::Windows {
                    after is None
                } else {
                    after == before
                },
                _ => after is None,
            }
        }),
{
    let first = seq![StepView::CreateDirectory];
    let logging = log_steps(platform, session, debug);
    let rest = startup(platform, session, debug, pid, version, days, stream_port);
    let start = 1 + logging.len() as int;
    let files = rest.subrange(start, start + 7);
    let expiry = expiry_steps(days);
    let last = seq![StepView::StartStream(stream_port)];
    assert(rest =~= first + logging + files + expiry + last);
    lemma_held_adds(first, logging, file, before);
    lemma_held_adds(first + logging, files, file, before);
    lemma_held_adds(first + logging + files, expiry, file, before);
    lemma_held_adds(first + logging + files + expiry, last, file, before);
    assert forall|step: StepView, b: Option<Seq<char>>| #[trigger]
        held(seq![step], file, b) == held_after(step, file, b) by {
        lemma_held_one(step, file, b);
    }
    lemma_held_seven(files, file, held(first + logging, file, before));
    decimal_reads_back(pid as nat, u32::MAX as nat);
    lemma_digits_have_no_sign(pid as nat);
    if pid > 0 {
        crate::text::decimals_have_no_leading_zero(pid as nat);
    }
}

proof fn lemma_digits_have_no_sign(n: nat)
    ensures
        !decimal(n).contains('+'),
    decreases n,
{
    if n >= 10 {
        lemma_digits_have_no_sign(n / 10);
        assert forall|i: int| 0 <= i < decimal(n).len() implies decimal(n)[i] != '+' by {
            if i < decimal(n).len() - 1 {
                assert(decimal(n)[i] == decimal(n / 10)[i]);
                assert(decimal(n / 10).contains(decimal(n / 10)[i]));
            }
        }
    }
}

/// A daemon creates its directory before all else and starts its stream server
/// after all else, on the port that was asked for, each once. In between it cleans
/// up states of so many days where they expire, and only then; it complains of
/// nothing and does not end.
pub proof fn startup_is_orderly(
    platform: Platform,
    session: Seq<char>,
    debug: bool,
    pid: u32,
    version: Seq<char>,
    days: Option<u64>,
    stream_port: u16,
    i: int,
)
    ensures
        ({
            let steps = startup(platform, session, debug, pid, version, days, stream_port);
            let n = steps.len() as int;
            &&& n >= 2
            &&& 0 <= i < n ==> {
                &&& steps[i] is CreateDirectory <==> i == 0
                &&& steps[i] is StartStream <==> i == n - 1
                &&& i == n - 1 ==> steps[i] == StepView::StartStream(stream_port)
                &&& !(steps[i] is Log) && !(steps[i] is Exit)
                &&& steps[i] is CleanStates ==> days == Some(steps[i]->CleanStates_0) && i == n - 2
                &&& steps[i] is DiscardLog <==> platform == Platform::Unix && !debug && i == 1
                &&& steps[i] is LogToFile <==> platform == Platform::Unix && debug && i == 1
            }
            &&& days matches Some(count) ==> steps[n - 2] == StepView::CleanStates(count)
        }),
{
}

/// A daemon that stops takes files away, and never the log; if serving failed, it
/// then logs why and ends with code 1, and otherwise it does nothing more.
pub proof fn shutdown_is_orderly(platform: Platform, outcome: Result<(), Seq<char>>, i: int)
    ensures
        ({
            let steps = shutdown(platform, outcome);
            let n = steps.len() as int;
            let removals = if outcome is Ok {
                n
            } else {
                n - 2
            };
            &&& 0 <= i < removals ==> steps[i] is Remove && steps[i] != StepView::Remove(
                SessionFile::Log,
            )
            &&& outcome matches Err(message) ==> n >= 2 && steps[n - 2] == StepView::Log(
                "Daemon error: "@ + message,
            ) && steps[n - 1] == StepView::Exit(1)
        }),
{
}

/// A daemon that stops leaves no file of its own but the log, and leaves files
/// alone that are not its own.
pub proof fn shutdown_takes_its_own_files(
    platform: Platform,
    outcome: Result<(), Seq<char>>,
    file: SessionFile,
    before: Option<Seq<char>>,
)
    ensures
        ({
            let own = match file {
                SessionFile::Log => false,
                SessionFile::Sock => platform == Platform::Unix,
                SessionFile::Port => platform == Platform::Windows,
                _ => true,
            };
            held(shutdown(platform, outcome), file, before) == if own {
                None
            } else {
                before
            }
        }),
{
    let steps = shutdown(platform, outcome);
    let files = steps.take(7);
    let failure = failure_steps(outcome);
    assert(steps =~= files + failure);
    lemma_held_adds(files, failure, file, before);
    lemma_held_seven(files, file, before);
    if let Err(message) = outcome {
        let log = StepView::Log("Daemon error: "@ + message);
        let exit = StepView::Exit(1);
        assert(failure =~= seq![log] + seq![exit]);
        lemma_held_adds(seq![log], seq![exit], file, held(files, file, before));
        lemma_held_one(log, file, held(files, file, before));
        lemma_held_one(exit, file, held(files, file, before));
    }
}

/// A stream server that started has its port in its file, so that it reads back;
/// one that did not is logged with the reason, and no file is touched.
pub proof fn stream_servers_are_made_known(
    port: u16,
    message: Seq<char>,
    file: SessionFile,
    before: Option<Seq<char>>,
)
    ensures
        held_after(stream_started(Ok(port)), SessionFile::Stream, before) matches Some(text)
            && parsed_decimal(text, u16::MAX as nat) == Some(port as nat),
        file != SessionFile::Stream ==> held_after(stream_started(Ok(port)), file, before)
            == before,
        stream_started(Err(message)) == StepView::Log("Stream server failed to start: "@ + message),
{
    decimal_reads_back(port as nat, u16::MAX as nat);
}

/// The files of a session bear its name, each with an ending of its own.
pub proof fn files_are_named_after_the_session(session: Seq<char>)
    ensures
        file_name(session, SessionFile::Log) == session + ".log"@,
        file_name(session, SessionFile::Pid) == session + ".pid"@,
        file_name(session, SessionFile::Version) == session + ".version"@,
        file_name(session, SessionFile::Sock) == session + ".sock"@,
        file_name(session, SessionFile::Port) == session + ".port"@,
        file_name(session, SessionFile::Stream) == session + ".stream"@,
        file_name(session, SessionFile::Engine) == session + ".engine"@,
        file_name(session, SessionFile::Provider) == session + ".provider"@,
        file_name(session, SessionFile::Extensions) == session + ".extensions"@,
{
}

/// On Unix a daemon listens on its socket file and nowhere else. On Windows it
/// tries the session's port on the loopback address, and then any port there.
pub proof fn daemons_listen_on_loopback_only(session: Seq<char>)
    ensures
        endpoints(Platform::Unix, session) == seq![EndpointView::Socket],
        endpoints(Platform::Windows, session).len() == 2,
        endpoints(Platform::Windows, session)[0] matches EndpointView::Tcp(address)
            && "127.0.0.1:"@.is_prefix_of(address) && parsed_decimal(
            address.skip("127.0.0.1:"@.len() as int),
            u16::MAX as nat,
        ) == Some(session_port(session)),
        endpoints(Platform::Windows, session)[1] == EndpointView::Tcp("127.0.0.1:0"@),
{
    let digits = decimal(session_port(session));
    let address = "127.0.0.1:"@ + digits;
    assert(address.skip("127.0.0.1:"@.len() as int) =~= digits);
    assert(address.subrange(0, "127.0.0.1:"@.len() as int) =~= "127.0.0.1:"@);
    crate::address::session_port_is_dynamic(session);
    decimal_reads_back(session_port(session), u16::MAX as nat);
}

} // verus!
