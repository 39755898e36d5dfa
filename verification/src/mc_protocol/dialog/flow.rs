//! Which state of the dialog comes next, from how the last one ended.
//!
//! The caller opens connections, runs each state with its packets and
//! timer, and resolves host names; it tells the flow what came of it, and
//! the flow answers with what to do next, until it says how the dialog
//! ended.

use crate::mc_protocol::connection::McConnectionError;
use crate::mc_protocol::dialog::server_data::{
    ConnectionResult, DisconnectConfigurationReason, DisconnectLoginReason, DisconnectPlayReason,
    ServerData,
};
use crate::mc_protocol::dialog::server_dst::{CantResolveHost, ServerDst};
use crate::mc_protocol::dialog::{
    ConfigurationResult, ConnectionMethod, ConnectionSettings, DialogError, LoginResult, PlayResult,
};
use vstd::prelude::*;

verus! {

/// What came of the last thing the flow asked for. `None` in a state's
/// result: its time ran out.
#[derive(Debug)]
pub enum ConnectEvent {
    Connected(Result<(), McConnectionError>),
    Status(Result<ServerData, McConnectionError>),
    Login(Option<Result<LoginResult, DialogError>>),
    Configured(ServerData, Option<Result<ConfigurationResult, DialogError>>),
    Resolved(Result<ServerDst, CantResolveHost>),
    Played(ServerData, Option<Result<PlayResult, DialogError>>),
}

/// What the caller does next.
#[derive(Debug)]
pub enum ConnectAction {
    /// Open a connection to the destination with `protocol`; answer
    /// `Connected`.
    Connect { protocol: i32 },
    /// Send the handshake for the status and the status request (what
    /// `ServerDialog::queue_status_request` queues), and read the status;
    /// answer `Status`.
    RequestStatus,
    /// Send the handshake with `next_state`, then run the login state
    /// within the login time; answer `Login`.
    Login { next_state: i32 },
    /// Run the configuration state on `data` within the configuration time;
    /// answer `Configured` with the data.
    Configure { data: ServerData, send_finish: bool },
    /// Resolve the host a server transfers to; answer `Resolved`.
    Resolve { host: String, port: u16 },
    /// Make `dst` the destination and open a connection to it with
    /// `protocol`; answer `Connected`.
    Reconnect { dst: ServerDst, protocol: i32 },
    /// Run the play state on `data` for the play time; answer `Played` with
    /// the data.
    Play { data: ServerData },
    /// The dialog is over.
    Finish(ConnectionResult),
}

/// What the flow waits for.
#[derive(Clone, Copy, Debug, PartialEq, Eq, Structural)]
pub enum ConnectStage {
    AwaitStatusConnection,
    AwaitStatus,
    AwaitLoginConnection { next_state: i32 },
    AwaitLogin,
    AwaitConfiguration,
    AwaitResolve,
    AwaitPlay,
    Finished,
}

/// The flow's state as values: what it waits for, the data it holds (none
/// while a state runs on it, or before the status came), the server's
/// protocol and the transfers so far.
pub struct FlowState {
    pub stage: ConnectStage,
    pub data: Option<ServerData>,
    pub protocol: i32,
    pub transfer_count: u32,
}

/// Whether the dialog ends once the status is read.
pub open spec fn stops_after_status(m: ConnectionMethod, d: ServerData) -> bool {
    ||| m == ConnectionMethod::OnlyHandshake
    ||| m == ConnectionMethod::LoginIfNoMsg && d.protocol < 764
    ||| m == ConnectionMethod::JoinIfEmpty && d.protocol < 764 && d.online_players > 0
}

/// The protocols the dialog logs in with.
pub open spec fn supported_protocol(p: i32) -> bool {
    5 <= p <= 776
}

/// Whether the end of the configuration is acknowledged, which takes the
/// client on to the play state.
pub open spec fn sends_finish(m: ConnectionMethod, d: ServerData) -> bool {
    m == ConnectionMethod::Join || (m == ConnectionMethod::JoinIfEmpty && d.online_players == 0)
}

/// Whether the dialog ends once logged in, without playing.
pub open spec fn stops_before_play(m: ConnectionMethod, d: ServerData) -> bool {
    ||| m == ConnectionMethod::OnlyHandshake
    ||| m == ConnectionMethod::LoginIfNoMsg
    ||| m == ConnectionMethod::JoinIfEmpty && d.online_players > 0
}

/// The flow ends with `res`.
pub open spec fn finished(v: FlowState, res: ConnectionResult) -> (FlowState, Option<ConnectAction>) {
    (
        FlowState { stage: ConnectStage::Finished, data: None, ..v },
        Some(ConnectAction::Finish(res)),
    )
}

/// Once logged in (and configured), with data `d`: the end, or the play
/// state.
pub open spec fn after_logging_in(s: ConnectionSettings, v: FlowState, d: ServerData) -> (
    FlowState,
    Option<ConnectAction>,
) {
    if stops_before_play(s.conn_method, d) {
        finished(v, ConnectionResult::Successful { data: d })
    } else {
        (
            FlowState { stage: ConnectStage::AwaitPlay, data: None, ..v },
            Some(ConnectAction::Play { data: d }),
        )
    }
}

/// The next state and what to do, for an event in a state. An event the
/// state does not wait for changes nothing and asks for nothing.
pub open spec fn transition(s: ConnectionSettings, v: FlowState, e: ConnectEvent) -> (
    FlowState,
    Option<ConnectAction>,
) {
    match v.stage {
        ConnectStage::AwaitStatusConnection => match e {
            ConnectEvent::Connected(Err(err)) => finished(
                v,
                ConnectionResult::NoHandshake(DialogError::ConnectionError(err)),
            ),
            ConnectEvent::Connected(Ok(())) => (
                FlowState { stage: ConnectStage::AwaitStatus, ..v },
                Some(ConnectAction::RequestStatus),
            ),
            _ => (v, None),
        },
        ConnectStage::AwaitStatus => match e {
            ConnectEvent::Status(Err(err)) => finished(
                v,
                ConnectionResult::NoHandshake(DialogError::ConnectionError(err)),
            ),
            ConnectEvent::Status(Ok(d)) => if stops_after_status(s.conn_method, d) {
                finished(v, ConnectionResult::Successful { data: d })
            } else if !supported_protocol(d.protocol) {
                finished(
                    v,
                    ConnectionResult::DisconnectAtLogin {
                        data: d,
                        reason: DisconnectLoginReason::DialogError(
                            DialogError::UnsupportedProtocolVersion(d.protocol),
                        ),
                    },
                )
            } else {
                (
                    FlowState {
                        stage: ConnectStage::AwaitLoginConnection { next_state: 2 },
                        data: Some(d),
                        protocol: d.protocol,
                        ..v
                    },
                    Some(ConnectAction::Connect { protocol: d.protocol }),
                )
            },
            _ => (v, None),
        },
        ConnectStage::AwaitLoginConnection { next_state } => match e {
            ConnectEvent::Connected(Err(err)) => if next_state == 2 {
                finished(
                    v,
                    ConnectionResult::DisconnectAtLogin {
                        data: v.data->0,
                        reason: DisconnectLoginReason::DialogError(
                            DialogError::ConnectionError(err),
                        ),
                    },
                )
            } else {
                finished(
                    v,
                    ConnectionResult::DisconnectAtConfiguration {
                        data: v.data->0,
                        reason: DisconnectConfigurationReason::DialogError(
                            DialogError::ConnectionError(err),
                        ),
                    },
                )
            },
            ConnectEvent::Connected(Ok(())) => (
                FlowState { stage: ConnectStage::AwaitLogin, ..v },
                Some(ConnectAction::Login { next_state }),
            ),
            _ => (v, None),
        },
        ConnectStage::AwaitLogin => match e {
            ConnectEvent::Login(None) => finished(
                v,
                ConnectionResult::DisconnectAtLogin {
                    data: v.data->0,
                    reason: DisconnectLoginReason::Timeout,
                },
            ),
            ConnectEvent::Login(Some(Err(err))) => finished(
                v,
                ConnectionResult::DisconnectAtLogin {
                    data: v.data->0,
                    reason: DisconnectLoginReason::DialogError(err),
                },
            ),
            ConnectEvent::Login(Some(Ok(LoginResult::DisconnectByServer { msg }))) => finished(
                v,
                ConnectionResult::DisconnectAtLogin {
                    data: v.data->0,
                    reason: DisconnectLoginReason::DisconnectByServer { msg },
                },
            ),
            ConnectEvent::Login(Some(Ok(LoginResult::OnlineMode { should_authenticate }))) => finished(
                v,
                ConnectionResult::DisconnectAtLogin {
                    data: v.data->0,
                    reason: DisconnectLoginReason::OnlineMode { should_authenticate },
                },
            ),
            ConnectEvent::Login(Some(Ok(LoginResult::Successful))) => if v.protocol < 764 {
                after_logging_in(s, v, v.data->0)
            } else {
                (
                    FlowState { stage: ConnectStage::AwaitConfiguration, data: None, ..v },
                    Some(
                        ConnectAction::Configure {
                            data: v.data->0,
                            send_finish: sends_finish(s.conn_method, v.data->0),
                        },
                    ),
                )
            },
            _ => (v, None),
        },
        ConnectStage::AwaitConfiguration => match e {
            ConnectEvent::Configured(d, None) => finished(
                v,
                ConnectionResult::DisconnectAtConfiguration {
                    data: d,
                    reason: DisconnectConfigurationReason::Timeout,
                },
            ),
            ConnectEvent::Configured(d, Some(Err(err))) => finished(
                v,
                ConnectionResult::DisconnectAtConfiguration {
                    data: d,
                    reason: DisconnectConfigurationReason::DialogError(err),
                },
            ),
            ConnectEvent::Configured(d, Some(Ok(ConfigurationResult::DisconnectByServer { msg }))) => finished(
                v,
                ConnectionResult::DisconnectAtConfiguration {
                    data: d,
                    reason: DisconnectConfigurationReason::DisconnectByServer { msg },
                },
            ),
            ConnectEvent::Configured(d, Some(Ok(ConfigurationResult::ShowDialog))) => finished(
                v,
                ConnectionResult::DisconnectAtConfiguration {
                    data: d,
                    reason: DisconnectConfigurationReason::ShowDialog,
                },
            ),
            ConnectEvent::Configured(d, Some(Ok(ConfigurationResult::Transfer { host, port }))) => if v.transfer_count
                > s.max_transfer_count {
                finished(
                    v,
                    ConnectionResult::DisconnectAtConfiguration {
                        data: d,
                        reason: DisconnectConfigurationReason::TooMuchTransfers {
                            count: v.transfer_count,
                        },
                    },
                )
            } else {
                (
                    FlowState {
                        stage: ConnectStage::AwaitResolve,
                        data: Some(d),
                        transfer_count: if v.transfer_count < u32::MAX {
                            (v.transfer_count + 1) as u32
                        } else {
                            0
                        },
                        ..v
                    },
                    Some(ConnectAction::Resolve { host, port }),
                )
            },
            ConnectEvent::Configured(d, Some(Ok(ConfigurationResult::Successful))) => after_logging_in(
                s,
                v,
                d,
            ),
            _ => (v, None),
        },
        ConnectStage::AwaitResolve => match e {
            ConnectEvent::Resolved(Err(err)) => finished(
                v,
                ConnectionResult::DisconnectAtConfiguration {
                    data: v.data->0,
                    reason: DisconnectConfigurationReason::CantResolveHost(err),
                },
            ),
            ConnectEvent::Resolved(Ok(dst)) => (
                FlowState { stage: ConnectStage::AwaitLoginConnection { next_state: 3 }, ..v },
                Some(ConnectAction::Reconnect { dst, protocol: v.protocol }),
            ),
            _ => (v, None),
        },
        ConnectStage::AwaitPlay => match e {
            ConnectEvent::Played(d, None) => finished(v, ConnectionResult::Successful { data: d }),
            ConnectEvent::Played(d, Some(Err(err))) => finished(
                v,
                ConnectionResult::DisconnectAtPlay {
                    data: d,
                    reason: DisconnectPlayReason::DialogError(err),
                },
            ),
            ConnectEvent::Played(d, Some(Ok(PlayResult { msg }))) => finished(
                v,
                ConnectionResult::DisconnectAtPlay {
                    data: d,
                    reason: DisconnectPlayReason::DisconnectByServer { msg },
                },
            ),
            _ => (v, None),
        },
        ConnectStage::Finished => (v, None),
    }
}

/// The flow holds data exactly while it waits for a connection, a login or
/// a host name after the status.
pub open spec fn holds_data_when_due(v: FlowState) -> bool {
    match v.stage {
        ConnectStage::AwaitLoginConnection { .. } => v.data is Some,
        ConnectStage::AwaitLogin => v.data is Some,
        ConnectStage::AwaitResolve => v.data is Some,
        _ => v.data is None,
    }
}


/// What the flow knows of the server once an event came: the data the
/// event brings back, else the data it held.
pub open spec fn data_after(e: ConnectEvent, held: Option<ServerData>) -> Option<ServerData> {
    match e {
        ConnectEvent::Status(Ok(d)) => Some(d),
        ConnectEvent::Configured(d, _) => Some(d),
        ConnectEvent::Played(d, _) => Some(d),
        _ => held,
    }
}

/// The stages in which the flow has logged in or is about to.
pub open spec fn past_status(stage: ConnectStage) -> bool {
    !(stage is AwaitStatusConnection || stage is AwaitStatus || stage is Finished)
}

/// A dialog that ends gives back all it learnt: the result holds the data
/// the last event brought, or the data the flow held, and none only when
/// the status never came.
pub proof fn lemma_finish_keeps_data(s: ConnectionSettings, v: FlowState, e: ConnectEvent)
    requires
        holds_data_when_due(v),
    ensures
        transition(s, v, e).1 matches Some(ConnectAction::Finish(res)) ==> res.data_of() == data_after(
            e,
            v.data,
        ),
{
}

/// The flow holds its data when it is due, from one state to the next.
pub proof fn lemma_holds_data(s: ConnectionSettings, v: FlowState, e: ConnectEvent)
    requires
        holds_data_when_due(v),
    ensures
        holds_data_when_due(transition(s, v, e).0),
{
}

/// A dialog follows a transfer only while it has followed no more than the
/// most transfers allowed, and counts each one: so it follows at most one
/// more than that number.
pub proof fn lemma_transfers_bounded(s: ConnectionSettings, v: FlowState, e: ConnectEvent)
    requires
        v.transfer_count <= s.max_transfer_count as int + 1,
    ensures
        transition(s, v, e).0.transfer_count <= s.max_transfer_count as int + 1,
        transition(s, v, e).1 matches Some(ConnectAction::Resolve { .. }) ==> {
            &&& v.transfer_count <= s.max_transfer_count
            &&& v.transfer_count < u32::MAX ==> transition(s, v, e).0.transfer_count
                == v.transfer_count + 1
        },
{
}

/// A dialog that only reads the status never logs in: it stays in the
/// status stages until it ends.
pub proof fn lemma_only_handshake_stays(s: ConnectionSettings, v: FlowState, e: ConnectEvent)
    requires
        s.conn_method == ConnectionMethod::OnlyHandshake,
        !past_status(v.stage),
    ensures
        !past_status(transition(s, v, e).0.stage),
{
}

/// The dialog logs in only with a protocol it supports.
pub proof fn lemma_supported_protocol(s: ConnectionSettings, v: FlowState, e: ConnectEvent)
    requires
        past_status(v.stage) ==> supported_protocol(v.protocol),
    ensures
        past_status(transition(s, v, e).0.stage) ==> supported_protocol(
            transition(s, v, e).0.protocol,
        ),
{
}

/// Only a dialog that joins the server reaches the play state: the flow
/// asks to play only with the Join method, or with JoinIfEmpty when nobody
/// is online; the other methods end once logged in.
pub proof fn lemma_play_only_when_joining(s: ConnectionSettings, v: FlowState, e: ConnectEvent)
    ensures
        transition(s, v, e).1 matches Some(ConnectAction::Play { data }) ==> (s.conn_method
            == ConnectionMethod::Join || (s.conn_method == ConnectionMethod::JoinIfEmpty
            && data.online_players <= 0)),
        transition(s, v, e).0.stage == ConnectStage::AwaitPlay && v.stage != ConnectStage::AwaitPlay
            ==> (s.conn_method == ConnectionMethod::Join || s.conn_method
            == ConnectionMethod::JoinIfEmpty),
{
}

/// A configuration that succeeds leads to the play state for a dialog that
/// joins (Join, or JoinIfEmpty with nobody online) and to the end, with
/// all that was learnt, for every other method.
pub proof fn lemma_configured_then_play_or_end(s: ConnectionSettings, v: FlowState, d: ServerData)
    requires
        v.stage == ConnectStage::AwaitConfiguration,
    ensures
        transition(
            s,
            v,
            ConnectEvent::Configured(d, Some(Ok(ConfigurationResult::Successful))),
        ).1 == if s.conn_method == ConnectionMethod::Join || (s.conn_method
            == ConnectionMethod::JoinIfEmpty && d.online_players <= 0) {
            Some(ConnectAction::Play { data: d })
        } else {
            Some(ConnectAction::Finish(ConnectionResult::Successful { data: d }))
        },
{
}

/// On a protocol without the configuration state, a login that succeeds
/// leads to the play state for a dialog that joins and to the end for
/// every other method; on a newer protocol it leads to the configuration,
/// which is asked to acknowledge its end exactly for a dialog that joins.
pub proof fn lemma_logged_in_then(s: ConnectionSettings, v: FlowState)
    requires
        v.stage == ConnectStage::AwaitLogin,
        v.data is Some,
    ensures
        ({
            let d = v.data->0;
            let r = transition(s, v, ConnectEvent::Login(Some(Ok(LoginResult::Successful)))).1;
            &&& v.protocol < 764 ==> r == if s.conn_method == ConnectionMethod::Join || (
            s.conn_method == ConnectionMethod::JoinIfEmpty && d.online_players <= 0) {
                Some(ConnectAction::Play { data: d })
            } else {
                Some(ConnectAction::Finish(ConnectionResult::Successful { data: d }))
            }
            &&& v.protocol >= 764 ==> r == Some(
                ConnectAction::Configure {
                    data: d,
                    send_finish: s.conn_method == ConnectionMethod::Join || (s.conn_method
                        == ConnectionMethod::JoinIfEmpty && d.online_players == 0),
                },
            )
        }),
{
}

/// What a status that came leads to: the end, with the status, for
/// OnlyHandshake, and on a protocol without the configuration state for
/// LoginIfNoMsg and for JoinIfEmpty with players online; else a refusal of
/// a protocol the dialog cannot log in with; else a new connection with
/// the server's protocol, for the login.
pub proof fn lemma_status_then(s: ConnectionSettings, v: FlowState, d: ServerData)
    requires
        v.stage == ConnectStage::AwaitStatus,
    ensures
        ({
            let r = transition(s, v, ConnectEvent::Status(Ok(d))).1;
            let ends = s.conn_method == ConnectionMethod::OnlyHandshake || (d.protocol < 764 && (
            s.conn_method == ConnectionMethod::LoginIfNoMsg || (s.conn_method
                == ConnectionMethod::JoinIfEmpty && d.online_players > 0)));
            &&& ends ==> r == Some(ConnectAction::Finish(ConnectionResult::Successful { data: d }))
            &&& !ends && !(5 <= d.protocol <= 776) ==> r == Some(
                ConnectAction::Finish(
                    ConnectionResult::DisconnectAtLogin {
                        data: d,
                        reason: DisconnectLoginReason::DialogError(
                            DialogError::UnsupportedProtocolVersion(d.protocol),
                        ),
                    },
                ),
            )
            &&& !ends && 5 <= d.protocol <= 776 ==> r == Some(
                ConnectAction::Connect { protocol: d.protocol },
            )
        }),
{
}

/// The decisions of a dialog from the status to its end.
pub struct ConnectFlow {
    settings: ConnectionSettings,
    stage: ConnectStage,
    data: Option<ServerData>,
    protocol: i32,
    transfer_count: u32,
}

impl ConnectFlow {
    /// The flow's state as values.
    pub closed spec fn state(&self) -> FlowState {
        FlowState {
            stage: self.stage,
            data: self.data,
            protocol: self.protocol,
            transfer_count: self.transfer_count,
        }
    }

    /// The settings the flow follows.
    pub closed spec fn spec_settings(&self) -> ConnectionSettings {
        self.settings
    }

    /// The flow holds its data when it is due.
    pub closed spec fn wf(&self) -> bool {
        holds_data_when_due(self.state())
    }

    /// A flow with `settings`, and its first action: a connection with the
    /// default protocol for the status.
    pub fn new(settings: ConnectionSettings) -> (r: (ConnectFlow, ConnectAction))
        ensures
            r.0.wf(),
            r.0.spec_settings() == settings,
            r.0.state() == (FlowState {
                stage: ConnectStage::AwaitStatusConnection,
                data: None,
                protocol: settings.default_protocol,
                transfer_count: 0,
            }),
            r.1 == (ConnectAction::Connect { protocol: settings.default_protocol }),
    {
        (
            ConnectFlow {
                settings,
                stage: ConnectStage::AwaitStatusConnection,
                data: None,
                protocol: settings.default_protocol,
                transfer_count: 0,
            },
            ConnectAction::Connect { protocol: settings.default_protocol },
        )
    }

    /// The settings the flow follows.
    pub fn settings(&self) -> (r: ConnectionSettings)
        ensures
            r == self.spec_settings(),
    {
        self.settings
    }

    /// Ends the flow with `res`.
    fn finish(&mut self, res: ConnectionResult) -> (r: Option<ConnectAction>)
        ensures
            (final(self).state(), r) == finished(old(self).state(), res),
            final(self).spec_settings() == old(self).spec_settings(),
    {
        self.stage = ConnectStage::Finished;
        self.data = None;
        Some(ConnectAction::Finish(res))
    }

    /// Takes the data the flow holds.
    fn take_data(&mut self) -> (r: ServerData)
        requires
            old(self).data is Some,
        ensures
            r == old(self).data->0,
            final(self).data is None,
            final(self).stage == old(self).stage,
            final(self).protocol == old(self).protocol,
            final(self).transfer_count == old(self).transfer_count,
            final(self).settings == old(self).settings,
    {
        let mut data: Option<ServerData> = None;
        std::mem::swap(&mut data, &mut self.data);
        data.unwrap()
    }

    /// Once logged in (and configured), with data `d`.
    fn after_logging_in(&mut self, d: ServerData) -> (r: Option<ConnectAction>)
        requires
            old(self).data is None,
        ensures
            (final(self).state(), r) == after_logging_in(
                old(self).spec_settings(),
                old(self).state(),
                d,
            ),
            final(self).spec_settings() == old(self).spec_settings(),
    {
        let stop = match self.settings.conn_method {
            ConnectionMethod::OnlyHandshake => true,
            ConnectionMethod::LoginIfNoMsg => true,
            ConnectionMethod::JoinIfEmpty => d.online_players > 0,
            ConnectionMethod::Join => false,
        };
        if stop {
            self.finish(ConnectionResult::Successful { data: d })
        } else {
            self.stage = ConnectStage::AwaitPlay;
            Some(ConnectAction::Play { data: d })
        }
    }

    /// Takes what came of the last action, and says what to do next. An
    /// event the flow does not wait for changes nothing and asks for
    /// nothing.
    pub fn step(&mut self, event: ConnectEvent) -> (r: Option<ConnectAction>)
        requires
            old(self).wf(),
        ensures
            final(self).wf(),
            final(self).spec_settings() == old(self).spec_settings(),
            (final(self).state(), r) == transition(
                old(self).spec_settings(),
                old(self).state(),
                event,
            ),
    {
        let method = self.settings.conn_method;
        match self.stage {
            ConnectStage::AwaitStatusConnection => match event {
                ConnectEvent::Connected(Err(err)) => self.finish(
                    ConnectionResult::NoHandshake(DialogError::ConnectionError(err)),
                ),
                ConnectEvent::Connected(Ok(())) => {
                    self.stage = ConnectStage::AwaitStatus;
                    Some(ConnectAction::RequestStatus)
                },
                _ => None,
            },
            ConnectStage::AwaitStatus => match event {
                ConnectEvent::Status(Err(err)) => self.finish(
                    ConnectionResult::NoHandshake(DialogError::ConnectionError(err)),
                ),
                ConnectEvent::Status(Ok(d)) => {
                    let stop = match method {
                        ConnectionMethod::OnlyHandshake => true,
                        ConnectionMethod::LoginIfNoMsg => d.protocol < 764,
                        ConnectionMethod::JoinIfEmpty => d.protocol < 764 && d.online_players > 0,
                        ConnectionMethod::Join => false,
                    };
                    if stop {
                        self.finish(ConnectionResult::Successful { data: d })
                    } else if d.protocol < 5 || d.protocol > 776 {
                        let protocol = d.protocol;
                        self.finish(
                            ConnectionResult::DisconnectAtLogin {
                                data: d,
                                reason: DisconnectLoginReason::DialogError(
                                    DialogError::UnsupportedProtocolVersion(protocol),
                                ),
                            },
                        )
                    } else {
                        let protocol = d.protocol;
                        self.stage = ConnectStage::AwaitLoginConnection { next_state: 2 };
                        self.protocol = protocol;
                        self.data = Some(d);
                        Some(ConnectAction::Connect { protocol })
                    }
                },
                _ => None,
            },
            ConnectStage::AwaitLoginConnection { next_state } => match event {
                ConnectEvent::Connected(Err(err)) => {
                    let d = self.take_data();
                    if next_state == 2 {
                        self.finish(
                            ConnectionResult::DisconnectAtLogin {
                                data: d,
                                reason: DisconnectLoginReason::DialogError(
                                    DialogError::ConnectionError(err),
                                ),
                            },
                        )
                    } else {
                        self.finish(
                            ConnectionResult::DisconnectAtConfiguration {
                                data: d,
                                reason: DisconnectConfigurationReason::DialogError(
                                    DialogError::ConnectionError(err),
                                ),
                            },
                        )
                    }
                },
                ConnectEvent::Connected(Ok(())) => {
                    self.stage = ConnectStage::AwaitLogin;
                    Some(ConnectAction::Login { next_state })
                },
                _ => None,
            },
            ConnectStage::AwaitLogin => match event {
                ConnectEvent::Login(None) => {
                    let d = self.take_data();
                    self.finish(
                        ConnectionResult::DisconnectAtLogin {
                            data: d,
                            reason: DisconnectLoginReason::Timeout,
                        },
                    )
                },
                ConnectEvent::Login(Some(Err(err))) => {
                    let d = self.take_data();
                    self.finish(
                        ConnectionResult::DisconnectAtLogin {
                            data: d,
                            reason: DisconnectLoginReason::DialogError(err),
                        },
                    )
                },
                ConnectEvent::Login(Some(Ok(LoginResult::DisconnectByServer { msg }))) => {
                    let d = self.take_data();
                    self.finish(
                        ConnectionResult::DisconnectAtLogin {
                            data: d,
                            reason: DisconnectLoginReason::DisconnectByServer { msg },
                        },
                    )
                },
                ConnectEvent::Login(Some(Ok(LoginResult::OnlineMode { should_authenticate }))) => {
                    let d = self.take_data();
                    self.finish(
                        ConnectionResult::DisconnectAtLogin {
                            data: d,
                            reason: DisconnectLoginReason::OnlineMode { should_authenticate },
                        },
                    )
                },
                ConnectEvent::Login(Some(Ok(LoginResult::Successful))) => {
                    let d = self.take_data();
                    if self.protocol < 764 {
                        self.after_logging_in(d)
                    } else {
                        let send_finish = match method {
                            ConnectionMethod::JoinIfEmpty => d.online_players == 0,
                            ConnectionMethod::Join => true,
                            _ => false,
                        };
                        self.stage = ConnectStage::AwaitConfiguration;
                        Some(ConnectAction::Configure { data: d, send_finish })
                    }
                },
                _ => None,
            },
            ConnectStage::AwaitConfiguration => match event {
                ConnectEvent::Configured(d, None) => self.finish(
                    ConnectionResult::DisconnectAtConfiguration {
                        data: d,
                        reason: DisconnectConfigurationReason::Timeout,
                    },
                ),
                ConnectEvent::Configured(d, Some(Err(err))) => self.finish(
                    ConnectionResult::DisconnectAtConfiguration {
                        data: d,
                        reason: DisconnectConfigurationReason::DialogError(err),
                    },
                ),
                ConnectEvent::Configured(
                    d,
                    Some(Ok(ConfigurationResult::DisconnectByServer { msg })),
                ) => self.finish(
                    ConnectionResult::DisconnectAtConfiguration {
                        data: d,
                        reason: DisconnectConfigurationReason::DisconnectByServer { msg },
                    },
                ),
                ConnectEvent::Configured(d, Some(Ok(ConfigurationResult::ShowDialog))) => self.finish(
                    ConnectionResult::DisconnectAtConfiguration {
                        data: d,
                        reason: DisconnectConfigurationReason::ShowDialog,
                    },
                ),
                ConnectEvent::Configured(
                    d,
                    Some(Ok(ConfigurationResult::Transfer { host, port })),
                ) => {
                    if self.transfer_count > self.settings.max_transfer_count {
                        let count = self.transfer_count;
                        self.finish(
                            ConnectionResult::DisconnectAtConfiguration {
                                data: d,
                                reason: DisconnectConfigurationReason::TooMuchTransfers { count },
                            },
                        )
                    } else {
                        self.transfer_count = if self.transfer_count < u32::MAX {
                            self.transfer_count + 1
                        } else {
                            0
                        };
                        self.stage = ConnectStage::AwaitResolve;
                        self.data = Some(d);
                        Some(ConnectAction::Resolve { host, port })
                    }
                },
                ConnectEvent::Configured(d, Some(Ok(ConfigurationResult::Successful))) => {
                    self.after_logging_in(d)
                },
                _ => None,
            },
            ConnectStage::AwaitResolve => match event {
                ConnectEvent::Resolved(Err(err)) => {
                    let d = self.take_data();
                    self.finish(
                        ConnectionResult::DisconnectAtConfiguration {
                            data: d,
                            reason: DisconnectConfigurationReason::CantResolveHost(err),
                        },
                    )
                },
                ConnectEvent::Resolved(Ok(dst)) => {
                    self.stage = ConnectStage::AwaitLoginConnection { next_state: 3 };
                    Some(ConnectAction::Reconnect { dst, protocol: self.protocol })
                },
                _ => None,
            },
            ConnectStage::AwaitPlay => match event {
                ConnectEvent::Played(d, None) => self.finish(ConnectionResult::Successful { data: d }),
                ConnectEvent::Played(d, Some(Err(err))) => self.finish(
                    ConnectionResult::DisconnectAtPlay {
                        data: d,
                        reason: DisconnectPlayReason::DialogError(err),
                    },
                ),
                ConnectEvent::Played(d, Some(Ok(PlayResult { msg }))) => self.finish(
                    ConnectionResult::DisconnectAtPlay {
                        data: d,
                        reason: DisconnectPlayReason::DisconnectByServer { msg },
                    },
                ),
                _ => None,
            },
            ConnectStage::Finished => None,
        }
    }
}

} // verus!
