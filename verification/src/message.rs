use vstd::prelude::*;

verus! {

/// Severity of one diagnostic line reported by a remote instance.
#[derive(Clone, Copy, Debug, PartialEq, Eq, Structural)]
pub enum OutputLevel {
    Print,
    Info,
    Warning,
    Error,
    ScriptError,
}

/// One diagnostic line produced inside a remote instance and forwarded
/// downstream by the orchestrator.
#[derive(Clone, Debug, PartialEq)]
pub enum RobloxMessage {
    Output { level: OutputLevel, body: String, server: String },
}

/// Mathematical image of one diagnostic line.
pub struct RobloxMessageView {
    pub level: OutputLevel,
    pub body: Seq<char>,
    pub server: Seq<char>,
}

impl View for RobloxMessage {
    type V = RobloxMessageView;

    open spec fn view(&self) -> RobloxMessageView {
        match self {
            RobloxMessage::Output { level, body, server } => RobloxMessageView {
                level: *level,
                body: body@,
                server: server@,
            },
        }
    }
}

impl DeepView for RobloxMessage {
    type V = RobloxMessageView;

    open spec fn deep_view(&self) -> RobloxMessageView {
        self.view()
    }
}

/// A command queued for one remote instance, delivered when that instance
/// next polls the broker.
#[derive(Clone, Debug, PartialEq)]
pub enum RobloxEvent {
    /// Run the given script text inside the instance.
    RunScript { script: String, oneshot: bool },
    /// Ask the instance to disconnect voluntarily, so the run can end
    /// without the driver killing a host process it may not own.
    Deregister { no_exit: bool },
}

/// Mathematical image of one queued command.
pub enum RobloxEventView {
    RunScript { script: Seq<char>, oneshot: bool },
    Deregister { no_exit: bool },
}

impl View for RobloxEvent {
    type V = RobloxEventView;

    open spec fn view(&self) -> RobloxEventView {
        match self {
            RobloxEvent::RunScript { script, oneshot } => RobloxEventView::RunScript {
                script: script@,
                oneshot: *oneshot,
            },
            RobloxEvent::Deregister { no_exit } => RobloxEventView::Deregister {
                no_exit: *no_exit,
            },
        }
    }
}

impl DeepView for RobloxEvent {
    type V = RobloxEventView;

    open spec fn deep_view(&self) -> RobloxEventView {
        self.view()
    }
}

/// One event handed from the broker to the orchestrator: an instance came
/// alive, an instance went away, or a batch of diagnostic lines arrived.
#[derive(Clone, Debug, PartialEq)]
pub enum Message {
    Start { server: String },
    Stop { server: String },
    Messages(Vec<RobloxMessage>),
}

/// Mathematical image of one broker event.
pub enum MessageView {
    Start { server: Seq<char> },
    Stop { server: Seq<char> },
    Messages(Seq<RobloxMessageView>),
}

impl View for Message {
    type V = MessageView;

    open spec fn view(&self) -> MessageView {
        match self {
            Message::Start { server } => MessageView::Start { server: server@ },
            Message::Stop { server } => MessageView::Stop { server: server@ },
            Message::Messages(batch) => MessageView::Messages(batch.deep_view()),
        }
    }
}

impl DeepView for Message {
    type V = MessageView;

    open spec fn deep_view(&self) -> MessageView {
        self.view()
    }
}

} // verus!
