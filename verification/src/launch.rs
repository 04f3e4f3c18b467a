//! The course of launching the dedicated server.

use vstd::prelude::*;

use crate::failure::outcome;
use crate::properties::{port_of, server_port, DEFAULT_PORT, WORLD_NAME};
use crate::text::join;

verus! {

/// The file that a server writes its messages to.
pub const LOG_FILE: &'static str = "bedrock_server.log";

/// The server, launched.
#[derive(Debug)]
pub struct LaunchResult {
    pub pid: u32,
    pub address: String,
    pub port: u16,
    pub world_name: String,
}

/// The value of a [`LaunchResult`].
pub struct LaunchResultView {
    pub pid: u32,
    pub address: Seq<char>,
    pub port: u16,
    pub world_name: Seq<char>,
}

impl View for LaunchResult {
    type V = LaunchResultView;

    open spec fn view(&self) -> LaunchResultView {
        LaunchResultView {
            pid: self.pid,
            address: self.address@,
            port: self.port,
            world_name: self.world_name@,
        }
    }
}

/// What is known of the server that was launched last.
pub enum ProcessState {
    /// What was noted of it cannot be had.
    Lost,
    /// None was launched.
    Absent,
    /// It cannot be told whether it is running, for this reason.
    Unknown(String),
    /// It is running.
    Running,
    /// It has ended.
    Ended,
}

/// Find out what became of the server that was launched last.
pub struct ProbeProcess {}

/// Is the program of the server there?
pub struct FindProgram {}

/// Open the file that the server writes its messages to.
pub struct OpenLog {}

/// Start the program, and note the process.
pub struct StartProgram {}

/// Read the properties of the server.
pub struct ReadProperties {
    pub pid: u32,
}

/// The step at hand. Whoever launches the server performs it and hands the outcome
/// back with `resume`, until the step is `Finished` or `Failed`.
pub enum LaunchStep {
    Probe(ProbeProcess),
    Find(FindProgram),
    OpenLog(OpenLog),
    Start(StartProgram),
    ReadProperties(ReadProperties),
    Finished(LaunchResult),
    Failed(String),
}

/// The value of a [`LaunchStep`].
pub enum LaunchStepView {
    Probe,
    Find,
    OpenLog,
    Start,
    ReadProperties(u32),
    Finished(LaunchResultView),
    Failed(Seq<char>),
}

impl View for LaunchStep {
    type V = LaunchStepView;

    open spec fn view(&self) -> LaunchStepView {
        match *self {
            LaunchStep::Probe(_) => LaunchStepView::Probe,
            LaunchStep::Find(_) => LaunchStepView::Find,
            LaunchStep::OpenLog(_) => LaunchStepView::OpenLog,
            LaunchStep::Start(_) => LaunchStepView::Start,
            LaunchStep::ReadProperties(request) => LaunchStepView::ReadProperties(request.pid),
            LaunchStep::Finished(result) => LaunchStepView::Finished(result@),
            LaunchStep::Failed(message) => LaunchStepView::Failed(message@),
        }
    }
}

/// The outcome of a step.
pub enum LaunchEvent {
    Probed(ProcessState),
    Found(bool),
    LogOpened(Result<(), Seq<char>>),
    Started(Result<u32, Seq<char>>),
    PropertiesRead(Option<Seq<char>>),
}

/// The server that runs as process `pid`, with these properties if they could be read.
pub open spec fn launched(pid: u32, properties: Option<Seq<char>>) -> LaunchResultView {
    LaunchResultView {
        pid,
        address: "127.0.0.1"@,
        port: match properties {
            Some(text) => port_of(text),
            None => DEFAULT_PORT,
        },
        world_name: WORLD_NAME@,
    }
}

/// The step that follows from an outcome. An outcome of another step changes nothing.
pub open spec fn after(step: LaunchStepView, event: LaunchEvent) -> LaunchStepView {
    match (step, event) {
        (LaunchStepView::Probe, LaunchEvent::Probed(state)) => match state {
            ProcessState::Lost => LaunchStepView::Failed("BDSプロセス状態を取得できませんでした"@),
            ProcessState::Unknown(detail) => LaunchStepView::Failed(detail@),
            ProcessState::Running => LaunchStepView::Failed("BDSは既に起動しています"@),
            ProcessState::Absent | ProcessState::Ended => LaunchStepView::Find,
        },
        (LaunchStepView::Find, LaunchEvent::Found(found)) => if found {
            LaunchStepView::OpenLog
        } else {
            LaunchStepView::Failed("BDSが準備されていません"@)
        },
        (LaunchStepView::OpenLog, LaunchEvent::LogOpened(opened)) => match opened {
            Ok(()) => LaunchStepView::Start,
            Err(detail) => LaunchStepView::Failed(detail),
        },
        (LaunchStepView::Start, LaunchEvent::Started(started)) => match started {
            Ok(pid) => LaunchStepView::ReadProperties(pid),
            Err(detail) => LaunchStepView::Failed("BDSを起動できませんでした: "@ + detail),
        },
        (LaunchStepView::ReadProperties(pid), LaunchEvent::PropertiesRead(properties)) =>
        LaunchStepView::Finished(launched(pid, properties)),
        _ => step,
    }
}

/// Begins a launch.
pub fn begin_launch() -> (step: LaunchStep)
    ensures
        step@ == LaunchStepView::Probe,
{
    LaunchStep::Probe(ProbeProcess {  })
}

impl ProbeProcess {
    /// What follows from what became of the server that was launched last.
    pub fn resume(self, state: ProcessState) -> (step: LaunchStep)
        ensures
            step@ == after(LaunchStepView::Probe, LaunchEvent::Probed(state)),
    {
        match state {
            ProcessState::Lost => LaunchStep::Failed(
                "BDSプロセス状態を取得できませんでした".to_owned(),
            ),
            ProcessState::Unknown(detail) => LaunchStep::Failed(detail),
            ProcessState::Running => LaunchStep::Failed("BDSは既に起動しています".to_owned()),
            ProcessState::Absent | ProcessState::Ended => LaunchStep::Find(FindProgram {  }),
        }
    }
}

impl FindProgram {
    /// What follows from whether the program is there.
    pub fn resume(self, found: bool) -> (step: LaunchStep)
        ensures
            step@ == after(LaunchStepView::Find, LaunchEvent::Found(found)),
    {
        if found {
            LaunchStep::OpenLog(OpenLog {  })
        } else {
            LaunchStep::Failed("BDSが準備されていません".to_owned())
        }
    }
}

impl OpenLog {
    /// What follows once the file was opened, or could not be.
    pub fn resume(self, opened: Result<(), String>) -> (step: LaunchStep)
        ensures
            step@ == after(LaunchStepView::OpenLog, LaunchEvent::LogOpened(outcome(opened))),
    {
        match opened {
            Ok(()) => LaunchStep::Start(StartProgram {  }),
            Err(detail) => LaunchStep::Failed(detail),
        }
    }
}

impl StartProgram {
    /// What follows once the program runs as a process, or could not be started.
    pub fn resume(self, started: Result<u32, String>) -> (step: LaunchStep)
        ensures
            step@ == after(LaunchStepView::Start, LaunchEvent::Started(outcome(started))),
    {
        match started {
            Ok(pid) => LaunchStep::ReadProperties(ReadProperties { pid }),
            Err(detail) => LaunchStep::Failed(
                join("BDSを起動できませんでした: ", detail.as_str()),
            ),
        }
    }
}

impl ReadProperties {
    /// What follows from the properties, if they could be read.
    pub fn resume(self, properties: Option<String>) -> (step: LaunchStep)
        ensures
            step@ == after(
                LaunchStepView::ReadProperties(self.pid),
                LaunchEvent::PropertiesRead(
                    match properties {
                        Some(text) => Some(text@),
                        None => None,
                    },
                ),
            ),
    {
        let port: u16 = match &properties {
            Some(text) => server_port(Some(text.as_str())),
            None => server_port(None),
        };
        LaunchStep::Finished(
            LaunchResult {
                pid: self.pid,
                address: "127.0.0.1".to_owned(),
                port,
                world_name: WORLD_NAME.to_owned(),
            },
        )
    }
}

/// The step that a sequence of outcomes leads to.
pub open spec fn after_all(step: LaunchStepView, events: Seq<LaunchEvent>) -> LaunchStepView
    decreases events.len(),
{
    if events.len() == 0 {
        step
    } else {
        after(after_all(step, events.drop_last()), events.last())
    }
}

/// Whether among these outcomes the server that was launched last was found absent or
/// ended.
pub open spec fn found_idle(events: Seq<LaunchEvent>) -> bool {
    ||| events.contains(LaunchEvent::Probed(ProcessState::Absent))
    ||| events.contains(LaunchEvent::Probed(ProcessState::Ended))
}

proof fn lemma_earlier(events: Seq<LaunchEvent>, event: LaunchEvent)
    requires
        events.len() > 0,
        events.drop_last().contains(event),
    ensures
        events.contains(event),
{
    let i = events.drop_last().index_of(event);
    assert(events[i] == event);
}

/// Whether a step comes after the program was looked for.
pub open spec fn is_past_find(step: LaunchStepView) -> bool {
    step is OpenLog || step is Start || step is ReadProperties || step is Finished
}

/// Whatever the outcomes are: the program is started only after no server was found
/// running and the program was found, and a launch that finishes has started it.
pub proof fn one_prepared_server_is_launched(events: Seq<LaunchEvent>)
    ensures
        ({
            let step = after_all(LaunchStepView::Probe, events);
            &&& step is Find || is_past_find(step) ==> found_idle(events)
            &&& is_past_find(step) ==> events.contains(LaunchEvent::Found(true))
            &&& step matches LaunchStepView::ReadProperties(pid) ==> events.contains(
                LaunchEvent::Started(Ok(pid)),
            )
            &&& step matches LaunchStepView::Finished(result) ==> events.contains(
                LaunchEvent::Started(Ok(result.pid)),
            )
        }),
    decreases events.len(),
{
    if events.len() > 0 {
        let front = events.drop_last();
        one_prepared_server_is_launched(front);
        assert(events[events.len() - 1] == events.last());
        if front.contains(LaunchEvent::Probed(ProcessState::Absent)) {
            lemma_earlier(events, LaunchEvent::Probed(ProcessState::Absent));
        }
        if front.contains(LaunchEvent::Probed(ProcessState::Ended)) {
            lemma_earlier(events, LaunchEvent::Probed(ProcessState::Ended));
        }
        if front.contains(LaunchEvent::Found(true)) {
            lemma_earlier(events, LaunchEvent::Found(true));
        }
        match after_all(LaunchStepView::Probe, front) {
            LaunchStepView::ReadProperties(pid) => {
                lemma_earlier(events, LaunchEvent::Started(Ok(pid)));
            },
            LaunchStepView::Finished(result) => {
                lemma_earlier(events, LaunchEvent::Started(Ok(result.pid)));
            },
            _ => {},
        }
    }
}

/// Where no server runs and nothing fails, the program is started, and what is told of it
/// is its process, that it is reached on this machine, the port that its properties give,
/// and the world.
pub proof fn idle_and_prepared_servers_are_launched(
    state: ProcessState,
    pid: u32,
    properties: Option<Seq<char>>,
)
    requires
        state is Absent || state is Ended,
    ensures
        ({
            let find = after(LaunchStepView::Probe, LaunchEvent::Probed(state));
            let open = after(find, LaunchEvent::Found(true));
            let start = after(open, LaunchEvent::LogOpened(Ok(())));
            let read = after(start, LaunchEvent::Started(Ok(pid)));
            &&& start == LaunchStepView::Start
            &&& after(read, LaunchEvent::PropertiesRead(properties)) == LaunchStepView::Finished(
                LaunchResultView {
                    pid,
                    address: "127.0.0.1"@,
                    port: match properties {
                        Some(text) => port_of(text),
                        None => 19132,
                    },
                    world_name: "Werewolf"@,
                },
            )
        }),
{
}

/// A launch fails exactly where a server runs or it cannot be told, the program is not
/// there, or one of its steps fails. Properties that cannot be read are no reason.
pub proof fn launches_fail_exactly_where_there_is_trouble(
    step: LaunchStepView,
    event: LaunchEvent,
)
    requires
        step !is Failed,
    ensures
        after(step, event) is Failed <==> {
            ||| step is Probe && event is Probed && !(event->Probed_0 is Absent
                || event->Probed_0 is Ended)
            ||| step is Find && event == LaunchEvent::Found(false)
            ||| step is OpenLog && event is LogOpened && event->LogOpened_0 is Err
            ||| step is Start && event is Started && event->Started_0 is Err
        },
{
}

/// What is said where a launch fails: what failed, and all that is known of why.
pub proof fn failed_launches_are_told_in_full(detail: String, why: Seq<char>)
    ensures
        after(LaunchStepView::Probe, LaunchEvent::Probed(ProcessState::Lost))
            == LaunchStepView::Failed("BDSプロセス状態を取得できませんでした"@),
        after(LaunchStepView::Probe, LaunchEvent::Probed(ProcessState::Unknown(detail)))
            == LaunchStepView::Failed(detail@),
        after(LaunchStepView::Probe, LaunchEvent::Probed(ProcessState::Running))
            == LaunchStepView::Failed("BDSは既に起動しています"@),
        after(LaunchStepView::Find, LaunchEvent::Found(false)) == LaunchStepView::Failed(
            "BDSが準備されていません"@,
        ),
        after(LaunchStepView::OpenLog, LaunchEvent::LogOpened(Err(why)))
            == LaunchStepView::Failed(why),
        after(LaunchStepView::Start, LaunchEvent::Started(Err(why))) == LaunchStepView::Failed(
            "BDSを起動できませんでした: "@ + why,
        ),
{
}

} // verus!
