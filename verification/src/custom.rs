//! The custom block: it shows what a shell command prints.
//!
//! The block decides; it runs nothing itself. A render goes in steps: the
//! caller runs the command that [`Custom::render_command`] names, hands the
//! outcome to [`crate::text::raw_output`] and the text to
//! [`Custom::render`]; where the block reads JSON, the caller parses the
//! text and hands what it got to [`Custom::render_json`]. A click hands
//! back the program to launch.

use crate::block::{Block, ClickOutcome, Launch, LaunchView};
use crate::channel::{send, tried};
use crate::cycle::{CommandCycle, CycleView};
use crate::error::{Error, ErrorKind, ErrorView};
use crate::queue::Task;
use crate::router::ClickEvent;
use crate::signals::{convert_to_valid_signal, signal_error, valid_signal};
use crate::update::Update;
use crate::widget::{State, Widget, WidgetView};
use crossbeam_channel::Sender;
use vstd::prelude::*;
use vstd::string::StringExecFns;

verus! {

/// The options of a custom block.
#[derive(Debug, PartialEq, Eq)]
pub struct CustomConfig {
    /// The cadence on which the command is run again.
    pub interval: Update,
    /// The shell command whose output is shown.
    pub command: Option<String>,
    /// Commands to show in turn; a click steps to the next one.
    pub cycle: Option<Vec<String>>,
    /// The signal on which to render again, as an offset from the first
    /// real-time signal.
    pub signal: Option<i32>,
    /// Whether the command prints a JSON object rather than plain text.
    pub json: bool,
    /// Whether to show nothing at all while the text is empty.
    pub hide_when_empty: bool,
    /// The shell that runs the commands.
    pub shell: String,
}

/// The mathematical value of a [`CustomConfig`].
pub struct CustomConfigView {
    pub interval: Update,
    pub command: Option<Seq<char>>,
    pub cycle: Option<Seq<Seq<char>>>,
    pub signal: Option<i32>,
    pub json: bool,
    pub hide_when_empty: bool,
    pub shell: Seq<char>,
}

impl View for CustomConfig {
    type V = CustomConfigView;

    open spec fn view(&self) -> CustomConfigView {
        CustomConfigView {
            interval: self.interval,
            command: self.command.deep_view(),
            cycle: self.cycle.deep_view(),
            signal: self.signal,
            json: self.json,
            hide_when_empty: self.hide_when_empty,
            shell: self.shell@,
        }
    }
}

impl Clone for CustomConfig {
    fn clone(&self) -> (config: CustomConfig)
        ensures
            config@ == self@,
    {
        let command = match &self.command {
            Some(command) => Some(command.clone()),
            None => None,
        };
        let cycle = match &self.cycle {
            Some(items) => {
                let mut copy: Vec<String> = Vec::new();
                let mut i: usize = 0;
                while i < items.len()
                    invariant
                        i <= items@.len(),
                        copy.deep_view() == items.deep_view().take(i as int),
                    decreases items@.len() - i,
                {
                    let ghost before = copy.deep_view();
                    copy.push(items[i].clone());
                    assert(copy.deep_view() =~= before.push(items@[i as int]@));
                    assert(items.deep_view().take(i as int + 1) =~= before.push(items@[i as int]@));
                    i += 1;
                }
                assert(copy.deep_view() =~= items.deep_view());
                Some(copy)
            },
            None => None,
        };
        CustomConfig {
            interval: self.interval,
            command,
            cycle,
            signal: self.signal,
            json: self.json,
            hide_when_empty: self.hide_when_empty,
            shell: self.shell.clone(),
        }
    }
}

/// The interval of a block that sets none: ten seconds.
pub const DEFAULT_INTERVAL: u64 = 10_000;

impl CustomConfig {
    /// The options of a block that sets none: the command, if one is set
    /// later, runs every ten seconds in the user's shell `shell`, or in `sh`
    /// where the user has none.
    pub fn default(shell: Option<String>) -> (config: CustomConfig)
        ensures
            config@ == (CustomConfigView {
                interval: Update::Every(DEFAULT_INTERVAL),
                command: None,
                cycle: None,
                signal: None,
                json: false,
                hide_when_empty: false,
                shell: match shell {
                    Some(name) => name@,
                    None => "sh"@,
                },
            }),
    {
        let shell = match shell {
            Some(name) => name,
            None => "sh".to_owned(),
        };
        CustomConfig {
            interval: Update::Every(DEFAULT_INTERVAL),
            command: None,
            cycle: None,
            signal: None,
            json: false,
            hide_when_empty: false,
            shell,
        }
    }
}

/// What a command prints where the block reads JSON: an icon, a severity
/// and the text.
#[derive(Debug, PartialEq, Eq)]
pub struct Output {
    pub icon: String,
    pub state: State,
    pub text: String,
}

/// The icon of an output that names none: no icon.
pub fn default_icon() -> (icon: String)
    ensures
        icon@ == Seq::<char>::empty(),
{
    String::new()
}

/// The severity of an output that names none.
pub fn default_state() -> (state: State)
    ensures
        state == State::Idle,
{
    State::Idle
}

/// What the text of a finished command comes to.
#[derive(Debug, PartialEq, Eq)]
pub enum Rendered {
    /// The block's output.
    Widgets(Vec<Widget>),
    /// The text is JSON: the caller parses it into an [`Output`] and hands
    /// the outcome to [`Custom::render_json`].
    Json(String),
}

/// A custom block.
pub struct Custom {
    id: usize,
    update_interval: Update,
    command: Option<String>,
    on_click: Option<String>,
    cycle: Option<CommandCycle>,
    signal: Option<i32>,
    tx_update_request: Sender<Task>,
    pub json: bool,
    hide_when_empty: bool,
    shell: String,
}

/// The mathematical value of a [`Custom`] block.
pub struct CustomView {
    pub id: usize,
    pub update_interval: Update,
    pub command: Option<Seq<char>>,
    pub on_click: Option<Seq<char>>,
    pub cycle: Option<CycleView>,
    pub signal: Option<i32>,
    pub json: bool,
    pub hide_when_empty: bool,
    pub shell: Seq<char>,
    /// The channel on which the block asks to be rendered again.
    pub tx: Sender<Task>,
}

impl CustomView {
    /// The command of the next render: the current command of the cycle
    /// where the block has one, else its command; empty where it has
    /// neither.
    pub open spec fn command_str(self) -> Seq<char> {
        match self.cycle {
            Some(cycle) => match cycle.current() {
                Some(command) => command,
                None => Seq::empty(),
            },
            None => match self.command {
                Some(command) => command,
                None => Seq::empty(),
            },
        }
    }

    /// The request that `signal` makes the block send at `now`: one to
    /// render at once, if it is the signal that the block subscribed to.
    pub open spec fn signal_request(self, signal: i32, now: u64) -> Option<Task> {
        if self.signal == Some(signal) {
            Some(Task { id: self.id, update_time: now })
        } else {
            None
        }
    }

    /// The request that a click makes the block send at `now`: one to
    /// render at once, if the click launched a program or stepped the
    /// cycle.
    pub open spec fn click_request(self, now: u64) -> Option<Task> {
        if self.on_click is Some || self.cycle is Some {
            Some(Task { id: self.id, update_time: now })
        } else {
            None
        }
    }

    /// The program that a click launches.
    pub open spec fn click_launch(self) -> Option<LaunchView> {
        match self.on_click {
            Some(command) => Some(LaunchView { shell: self.shell, command }),
            None => None,
        }
    }

    /// The block after a click: its cycle has stepped to the next command.
    pub open spec fn clicked(self) -> CustomView {
        CustomView {
            cycle: match self.cycle {
                Some(cycle) => Some(cycle.advanced()),
                None => None,
            },
            ..self
        }
    }

    /// The output for a text with an icon and a severity: a single widget,
    /// without icon where the icon's name is empty; nothing at all where
    /// the text is empty and the block hides itself then.
    pub open spec fn shown(self, text: Seq<char>, icon: Seq<char>, state: State) -> Seq<
        WidgetView,
    > {
        if text.len() == 0 && self.hide_when_empty {
            Seq::empty()
        } else {
            seq![
                WidgetView {
                    id: self.id,
                    text,
                    icon: if icon.len() == 0 {
                        None
                    } else {
                        Some(icon)
                    },
                    state,
                },
            ]
        }
    }
}

impl View for Custom {
    type V = CustomView;

    closed spec fn view(&self) -> CustomView {
        CustomView {
            id: self.id,
            update_interval: self.update_interval,
            command: self.command.deep_view(),
            on_click: self.on_click.deep_view(),
            cycle: match self.cycle {
                Some(cycle) => Some(cycle@),
                None => None,
            },
            signal: self.signal,
            json: self.json,
            hide_when_empty: self.hide_when_empty,
            shell: self.shell@,
            tx: self.tx_update_request,
        }
    }
}

/// The error for a block that is given both a command and a cycle.
pub open spec fn exclusive_error() -> ErrorView {
    ErrorView {
        kind: ErrorKind::Config,
        block: "custom"@,
        message: "`command` and `cycle` are mutually exclusive"@,
    }
}

/// The error of kind `kind` for a request that did not reach the scheduler.
pub open spec fn undelivered(kind: ErrorKind) -> ErrorView {
    ErrorView { kind, block: "custom"@, message: "the request to render again could not be sent"@ }
}

/// The error of the channel for a request that did not reach the scheduler.
pub open spec fn channel_error() -> ErrorView {
    undelivered(ErrorKind::Channel)
}

/// The error for a command whose output is not the JSON that the block
/// reads; `reason` is the parser's message.
pub open spec fn json_error(reason: Seq<char>) -> ErrorView {
    ErrorView {
        kind: ErrorKind::Render,
        block: "custom"@,
        message: "Error parsing JSON: "@ + reason,
    }
}

/// The block that `config` describes, subscribed to the signal `signal`,
/// which sends its requests on `tx`.
pub open spec fn configured(
    id: usize,
    config: CustomConfigView,
    signal: Option<i32>,
    tx: Sender<Task>,
) -> CustomView {
    CustomView {
        id,
        update_interval: config.interval,
        command: if config.cycle is Some {
            None
        } else {
            config.command
        },
        on_click: None,
        cycle: match config.cycle {
            Some(items) => Some(CycleView { items, position: 0 }),
            None => None,
        },
        signal,
        json: config.json,
        hide_when_empty: config.hide_when_empty,
        shell: config.shell,
        tx,
    }
}

/// What the result of sending a request comes to.
pub fn delivery_result(sent: bool) -> (r: Result<(), Error>)
    ensures
        match r {
            Ok(()) => sent,
            Err(e) => !sent && e@ == channel_error(),
        },
{
    if sent {
        Ok(())
    } else {
        Err(
            Error::new(
                ErrorKind::Channel,
                "custom",
                "the request to render again could not be sent".to_owned(),
            ),
        )
    }
}

impl Custom {
    /// Builds block `id` from its options. `rt_min ..= rt_max` are the
    /// real-time signals of the machine, and `tx` is the channel on which
    /// the block asks the scheduler to render it again.
    ///
    /// The block is refused if its signal is out of range, and else if it
    /// is given both a command and a cycle.
    pub fn new(
        id: usize,
        block_config: CustomConfig,
        rt_min: i32,
        rt_max: i32,
        tx: Sender<Task>,
    ) -> (r: Result<Custom, Error>)
        ensures
            match r {
                Ok(custom) => {
                    &&& block_config.signal matches Some(signal) ==> valid_signal(
                        signal,
                        rt_min,
                        rt_max,
                    )
                    &&& !(block_config.cycle is Some && block_config.command is Some)
                    &&& custom@ == configured(
                        id,
                        block_config@,
                        match block_config.signal {
                            Some(signal) => Some((signal + rt_min) as i32),
                            None => None,
                        },
                        tx,
                    )
                },
                Err(e) => if block_config.signal matches Some(signal) && !valid_signal(
                    signal,
                    rt_min,
                    rt_max,
                ) {
                    e@ == signal_error()
                } else {
                    block_config.cycle is Some && block_config.command is Some && e@
                        == exclusive_error()
                },
            },
    {
        let signal = match block_config.signal {
            Some(signal) => {
                match convert_to_valid_signal(signal, rt_min, rt_max) {
                    Ok(number) => Some(number),
                    Err(e) => {
                        return Err(e);
                    },
                }
            },
            None => None,
        };
        if block_config.cycle.is_some() && block_config.command.is_some() {
            return Err(
                Error::new(
                    ErrorKind::Config,
                    "custom",
                    "`command` and `cycle` are mutually exclusive".to_owned(),
                ),
            );
        }
        let ghost config = block_config@;
        let CustomConfig { interval, command, cycle, signal: _, json, hide_when_empty, shell } =
            block_config;
        let (command, cycle) = match cycle {
            Some(items) => (None, Some(CommandCycle::new(items))),
            None => (command, None),
        };
        let custom = Custom {
            id,
            update_interval: interval,
            command,
            on_click: None,
            cycle,
            signal,
            tx_update_request: tx,
            json,
            hide_when_empty,
            shell,
        };
        assert(custom@ == configured(id, config, signal, tx));
        Ok(custom)
    }

    /// The place of the command that a click launches, for the
    /// configuration to set.
    pub fn override_on_click(&mut self) -> (slot: Option<&mut Option<String>>)
        ensures
            slot matches Some(on_click) && on_click.deep_view() == old(self)@.on_click,
            slot matches Some(on_click) ==> final(self)@ == (CustomView {
                on_click: final(on_click).deep_view(),
                ..old(self)@
            }),
    {
        Some(&mut self.on_click)
    }

    /// The block's cadence.
    pub fn update_interval(&self) -> (update: Update)
        ensures
            update == self@.update_interval,
    {
        self.update_interval
    }

    /// Whether the block reads its command's output as JSON.
    pub fn json(&self) -> (json: bool)
        ensures
            json == self@.json,
    {
        self.json
    }

    /// The block's id.
    pub fn id(&self) -> (id: usize)
        ensures
            id == self@.id,
    {
        self.id
    }

    /// The signal that the block subscribed to, if any.
    pub fn subscription(&self) -> (signal: Option<i32>)
        ensures
            signal == self@.signal,
    {
        self.signal
    }

    /// The command of the next render.
    pub fn command_str(&self) -> (command: String)
        ensures
            command@ == self@.command_str(),
    {
        match &self.cycle {
            Some(cycle) => match cycle.peek() {
                Some(command) => command.clone(),
                None => String::new(),
            },
            None => match &self.command {
                Some(command) => command.clone(),
                None => String::new(),
            },
        }
    }

    /// The program whose output the next render shows.
    pub fn render_command(&self) -> (launch: Launch)
        ensures
            launch@ == (LaunchView { shell: self@.shell, command: self@.command_str() }),
    {
        Launch { shell: self.shell.clone(), command: self.command_str() }
    }

    fn show(&self, text: String, icon: String, state: State) -> (widgets: Vec<Widget>)
        ensures
            widgets.deep_view() == self@.shown(text@, icon@, state),
    {
        let mut widgets: Vec<Widget> = Vec::new();
        if text.as_str().is_empty() && self.hide_when_empty {
            assert(widgets.deep_view() =~= Seq::<WidgetView>::empty());
        } else {
            let icon = if icon.as_str().is_empty() {
                None
            } else {
                Some(icon)
            };
            let widget = Widget { id: self.id, text, icon, state };
            widgets.push(widget);
            assert(widgets.deep_view() =~= seq![widget@]);
        }
        widgets
    }

    /// Takes the text that the command left, `raw_output`. Where the block
    /// reads plain text, that is its output. Where it reads JSON, the text
    /// goes back to the caller to be parsed.
    pub fn render(&self, raw_output: String) -> (r: Rendered)
        ensures
            match r {
                Rendered::Widgets(widgets) => !self@.json && widgets.deep_view() == self@.shown(
                    raw_output@,
                    Seq::empty(),
                    State::Idle,
                ),
                Rendered::Json(text) => self@.json && text@ == raw_output@,
            },
    {
        if self.json {
            Rendered::Json(raw_output)
        } else {
            Rendered::Widgets(self.show(raw_output, default_icon(), default_state()))
        }
    }

    /// Takes what the parser made of the command's JSON: the output with
    /// its icon and severity, or the parser's message, which fails the
    /// render.
    pub fn render_json(&self, parsed: Result<Output, String>) -> (r: Result<Vec<Widget>, Error>)
        ensures
            match parsed {
                Ok(output) => r matches Ok(widgets) && widgets.deep_view() == self@.shown(
                    output.text@,
                    output.icon@,
                    output.state,
                ),
                Err(reason) => r matches Err(e) && e@ == json_error(reason@),
            },
    {
        match parsed {
            Ok(output) => Ok(self.show(output.text, output.icon, output.state)),
            Err(reason) => {
                let message = "Error parsing JSON: ".to_owned().concat(reason.as_str());
                Err(Error::new(ErrorKind::Render, "custom", message))
            },
        }
    }

    /// The request that `signal` makes the block send at `now`.
    pub fn signal_request(&self, signal: i32, now: u64) -> (request: Option<Task>)
        ensures
            request == self@.signal_request(signal, now),
    {
        match self.signal {
            Some(own) => if own == signal {
                Some(Task { id: self.id, update_time: now })
            } else {
                None
            },
            None => None,
        }
    }

    /// The request that a click makes the block send at `now`.
    pub fn click_request(&self, now: u64) -> (request: Option<Task>)
        ensures
            request == self@.click_request(now),
    {
        if self.on_click.is_some() || self.cycle.is_some() {
            Some(Task { id: self.id, update_time: now })
        } else {
            None
        }
    }

    /// Sends `request`, if there is one, to the scheduler without waiting:
    /// the task is handed to the block's channel as it is. Sending nothing
    /// succeeds. Whether a request gets through is up to the channel; it
    /// succeeds if the channel took the task, and else the error says so.
    pub fn deliver(&self, request: Option<Task>) -> (r: Result<(), Error>)
        ensures
            request is None ==> r is Ok,
            request matches Some(task) ==> exists|sent: bool|
                #[trigger] tried(self@.tx, task, sent) && (r is Ok <==> sent),
            r matches Err(e) ==> e@ == channel_error(),
    {
        match request {
            Some(task) => {
                let sent = send(&self.tx_update_request, task);
                assert(tried(self@.tx, task, sent));
                delivery_result(sent)
            },
            None => Ok(()),
        }
    }

    /// Tells the block of `signal` at `now`. If it is the block's signal,
    /// the block asks to be rendered at once; any other signal is ignored.
    /// The handler fails if its request does not get through.
    pub fn signal(&self, signal: i32, now: u64) -> (r: Result<(), Error>)
        ensures
            self@.signal_request(signal, now) is None ==> r is Ok,
            self@.signal_request(signal, now) matches Some(task) ==> exists|sent: bool|
                #[trigger] tried(self@.tx, task, sent) && (r is Ok <==> sent),
            r matches Err(e) ==> e@ == undelivered(ErrorKind::Signal),
    {
        match self.deliver(self.signal_request(signal, now)) {
            Ok(()) => Ok(()),
            Err(e) => Err(Error { kind: ErrorKind::Signal, block: e.block, message: e.message }),
        }
    }

    /// Tells the block of a click at `now`. The block hands back the
    /// program to launch, if it has one for clicks, and steps its cycle, if
    /// it has one; if it did either, it asks to be rendered at once. The
    /// handler fails if its request does not get through; the cycle has
    /// stepped all the same.
    pub fn click(&mut self, _e: &ClickEvent, now: u64) -> (outcome: ClickOutcome)
        ensures
            final(self)@ == old(self)@.clicked(),
            outcome.launch.deep_view() == old(self)@.click_launch(),
            old(self)@.click_request(now) is None ==> outcome.result is Ok,
            old(self)@.click_request(now) matches Some(task) ==> exists|sent: bool|
                #[trigger] tried(old(self)@.tx, task, sent) && (outcome.result is Ok <==> sent),
            outcome.result matches Err(e) ==> e@ == undelivered(ErrorKind::Click),
    {
        let request = self.click_request(now);
        let launch = match &self.on_click {
            Some(command) => Some(Launch { shell: self.shell.clone(), command: command.clone() }),
            None => None,
        };
        match &mut self.cycle {
            Some(cycle) => {
                cycle.advance();
            },
            None => {},
        }
        let result = match self.deliver(request) {
            Ok(()) => Ok(()),
            Err(e) => Err(Error { kind: ErrorKind::Click, block: e.block, message: e.message }),
        };
        ClickOutcome { launch, result }
    }
}

impl Block for Custom {
    fn id(&self) -> (id: usize)
        ensures
            id == self@.id,
    {
        Custom::id(self)
    }

    fn update_interval(&self) -> (update: Update)
        ensures
            update == self@.update_interval,
    {
        Custom::update_interval(self)
    }

    fn subscription(&self) -> (signal: Option<i32>)
        ensures
            signal == self@.signal,
    {
        Custom::subscription(self)
    }

    /// Tells the block of `signal` at `now`, as [`Custom::signal`] does. The
    /// block itself stays as it is: all that a signal does is to ask for a
    /// render where it is the block's own signal.
    fn signal(&mut self, signal: i32, now: u64) -> (r: Result<(), Error>)
        ensures
            *final(self) == *old(self),
            old(self)@.signal_request(signal, now) is None ==> r is Ok,
            old(self)@.signal_request(signal, now) matches Some(task) ==> exists|sent: bool|
                #[trigger] tried(old(self)@.tx, task, sent) && (r is Ok <==> sent),
            r matches Err(e) ==> e@ == undelivered(ErrorKind::Signal),
    {
        Custom::signal(self, signal, now)
    }

    /// Tells the block of a click at `now`, as [`Custom::click`] does: the
    /// cycle steps to its next command, the program for clicks is handed
    /// back, and the block asks for a render if it did either.
    fn click(&mut self, event: &ClickEvent, now: u64) -> (outcome: ClickOutcome)
        ensures
            final(self)@ == old(self)@.clicked(),
            outcome.launch.deep_view() == old(self)@.click_launch(),
            old(self)@.click_request(now) is None ==> outcome.result is Ok,
            old(self)@.click_request(now) matches Some(task) ==> exists|sent: bool|
                #[trigger] tried(old(self)@.tx, task, sent) && (outcome.result is Ok <==> sent),
            outcome.result matches Err(e) ==> e@ == undelivered(ErrorKind::Click),
    {
        Custom::click(self, event, now)
    }
}

} // verus!
