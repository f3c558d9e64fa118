//! The session with the console: which transfers to make for a memory write
//! or read, and what their outcomes mean.
//!
//! The session does no I/O itself. A driver asks it for an [`Action`], performs
//! it on the device, and reports the outcome as an [`Event`], until the action
//! is `Finished` or `Failed`.
use vstd::prelude::*;

use crate::protocol::{
    frame_header, frame_header_bytes, frame_payload, frame_payload_bytes, le_value, peek_command,
    peek_command_bytes, poke_command, poke_command_bytes, u32_from_le_bytes,
};
use crate::usb::Endpoint;

verus! {

/// Seconds allowed for each transfer of a command.
pub const SEND_TIMEOUT_SECS: u64 = 5;

/// Seconds allowed for each transfer of a response.
pub const RECEIVE_TIMEOUT_SECS: u64 = 30;

/// Why an exchange with the device failed.
#[derive(PartialEq, Eq, Structural, Debug, Clone, Copy)]
pub enum TransportError {
    /// No device with the console's vendor and product identifiers.
    DeviceNotFound,
    /// The device has no bulk endpoint in a needed direction.
    EndpointNotFound,
    /// Selecting the configuration, claiming the interface or selecting the
    /// alternate setting failed.
    ConfigurationFailure,
    /// A transfer did not complete in time.
    TransferTimeout,
    /// A transfer failed for another reason.
    TransferFailed,
    /// The response announced another length than the one asked for.
    FrameLengthMismatch { advertised: u32, expected: u32 },
    /// An outcome was reported that the session did not ask for.
    UnexpectedEvent,
}

/// What to do when a response announces an unexpected length.
#[derive(PartialEq, Eq, Structural, Debug, Clone, Copy)]
pub enum LengthPolicy {
    /// Fail the read with `FrameLengthMismatch`.
    Strict,
    /// Note the announced length and read the expected number of bytes anyway.
    Permissive,
}

/// Where an exchange stands.
#[derive(PartialEq, Eq, Structural, Debug, Clone, Copy)]
pub enum Stage {
    /// No exchange has been started, or the last one has ended.
    Idle,
    ConfigureWrite,
    SendHeader,
    SendPayload,
    ConfigureRead,
    ReceiveHeader,
    ReceivePayload,
}

/// The next thing a driver must do on the device.
#[derive(Debug)]
pub enum Action {
    /// Select the configuration, claim the interface, select the alternate setting.
    Configure { config: u8, iface: u8, setting: u8 },
    /// Write `data` to the endpoint in one bulk transfer.
    Write { out_endpoint: u8, data: Vec<u8>, write_timeout_secs: u64 },
    /// Read at most `length` bytes from the endpoint in one bulk transfer.
    Read { in_endpoint: u8, length: usize, read_timeout_secs: u64 },
    /// The exchange succeeded with these response bytes (none for a write).
    Finished(Vec<u8>),
    /// The exchange failed.
    Failed(TransportError),
}

/// The outcome of the last action.
#[derive(Debug)]
pub enum Event {
    /// The configuration step succeeded.
    Configured,
    /// A bulk write completed.
    Sent,
    /// A bulk read completed with these bytes.
    Received(Vec<u8>),
    /// The transfer or step did not complete in time.
    TimedOut,
    /// The transfer or step failed otherwise.
    Error,
}

/// The endpoint state of the device after a successful configuration step for
/// `ep`: whatever was selected before, `ep`'s configuration, interface and
/// alternate setting are now the selected ones.
pub open spec fn configured(claimed: Option<Endpoint>, ep: Endpoint) -> Option<Endpoint> {
    Some(ep)
}

/// Configuring the same endpoint twice leaves the device as configuring it once.
pub proof fn lemma_configure_idempotent(claimed: Option<Endpoint>, ep: Endpoint)
    ensures
        configured(configured(claimed, ep), ep) == configured(claimed, ep),
{
}

/// The endpoint state after a successful configuration step.
pub fn configure(claimed: Option<Endpoint>, ep: Endpoint) -> (r: Option<Endpoint>)
    ensures
        r == configured(claimed, ep),
{
    Some(ep)
}

/// The failure that a failed step reports: a timeout, or else `other`.
pub open spec fn failure_of(event: Event, other: TransportError) -> TransportError {
    if event is TimedOut {
        TransportError::TransferTimeout
    } else {
        other
    }
}

/// A session with the console over one write and one read endpoint.
pub struct Switch {
    read_endpoint: Endpoint,
    write_endpoint: Endpoint,
    policy: LengthPolicy,
    claimed: Option<Endpoint>,
    stage: Stage,
    command: Vec<u8>,
    expected: Option<u32>,
    received: Vec<u8>,
    mismatch: Option<u32>,
}

impl Switch {
    pub closed spec fn read_endpoint_spec(&self) -> Endpoint {
        self.read_endpoint
    }

    pub closed spec fn write_endpoint_spec(&self) -> Endpoint {
        self.write_endpoint
    }

    pub closed spec fn policy_spec(&self) -> LengthPolicy {
        self.policy
    }

    /// The endpoint whose configuration the device was last switched to.
    pub closed spec fn claimed_spec(&self) -> Option<Endpoint> {
        self.claimed
    }

    pub closed spec fn stage_spec(&self) -> Stage {
        self.stage
    }

    /// The command of the exchange in progress.
    pub closed spec fn command_spec(&self) -> Seq<u8> {
        self.command@
    }

    /// The response length of a read in progress; `None` for a write.
    pub closed spec fn expected_spec(&self) -> Option<u32> {
        self.expected
    }

    /// The bytes received so far in the current receive stage.
    pub closed spec fn received_spec(&self) -> Seq<u8> {
        self.received@
    }

    /// The announced length of the last read, where it differed from the
    /// expected one and the policy let the read go on.
    pub closed spec fn mismatch_spec(&self) -> Option<u32> {
        self.mismatch
    }

    pub closed spec fn wf(&self) -> bool {
        &&& self.command@.len() + 2 <= u32::MAX
        &&& self.stage == Stage::ReceiveHeader ==> self.received@.len() < 4
        &&& self.stage == Stage::ReceiveHeader || self.stage == Stage::ReceivePayload
            || self.stage == Stage::ConfigureRead ==> self.expected is Some
        &&& self.stage == Stage::ReceivePayload ==> self.received@.len() < self.expected->0
    }

    /// Whether both states belong to one session: same endpoints, same policy.
    pub open spec fn same_session(&self, other: &Switch) -> bool {
        &&& self.read_endpoint_spec() == other.read_endpoint_spec()
        &&& self.write_endpoint_spec() == other.write_endpoint_spec()
        &&& self.policy_spec() == other.policy_spec()
    }

    /// A session over resolved endpoints, before any configuration step.
    pub fn new(read_endpoint: Endpoint, write_endpoint: Endpoint, policy: LengthPolicy) -> (r: Switch)
        ensures
            r.wf(),
            r.read_endpoint_spec() == read_endpoint,
            r.write_endpoint_spec() == write_endpoint,
            r.policy_spec() == policy,
            r.claimed_spec() is None,
            r.stage_spec() == Stage::Idle,
            r.mismatch_spec() is None,
    {
        Switch {
            read_endpoint,
            write_endpoint,
            policy,
            claimed: None,
            stage: Stage::Idle,
            command: Vec::new(),
            expected: None,
            received: Vec::new(),
            mismatch: None,
        }
    }

    /// The endpoint whose configuration the device was last switched to.
    pub fn claimed(&self) -> (r: Option<Endpoint>)
        ensures
            r == self.claimed_spec(),
    {
        self.claimed
    }

    pub fn stage(&self) -> (r: Stage)
        ensures
            r == self.stage_spec(),
    {
        self.stage
    }

    /// The announced length of the last read, where it differed from the
    /// expected one and the policy let the read go on.
    pub fn mismatch(&self) -> (r: Option<u32>)
        ensures
            r == self.mismatch_spec(),
    {
        self.mismatch
    }

    fn start(&mut self, command: Vec<u8>, expected: Option<u32>) -> (r: Action)
        requires
            command@.len() + 2 <= u32::MAX,
        ensures
            final(self).wf(),
            final(self).same_session(old(self)),
            final(self).claimed_spec() == old(self).claimed_spec(),
            final(self).stage_spec() == Stage::ConfigureWrite,
            final(self).command_spec() == command@,
            final(self).expected_spec() == expected,
            final(self).mismatch_spec() is None,
            r == (Action::Configure {
                config: old(self).write_endpoint_spec().config,
                iface: old(self).write_endpoint_spec().iface,
                setting: old(self).write_endpoint_spec().setting,
            }),
    {
        self.command = command;
        self.expected = expected;
        self.stage = Stage::ConfigureWrite;
        self.received = Vec::new();
        self.mismatch = None;
        Action::Configure {
            config: self.write_endpoint.config,
            iface: self.write_endpoint.iface,
            setting: self.write_endpoint.setting,
        }
    }

    /// Starts writing the word `value` at `address`: the command
    /// `poke 0xAAAAAAAA 0xVVVVVVVV` with the value's bytes reversed. Any
    /// exchange in progress is abandoned.
    pub fn write_dword(&mut self, address: u32, value: u32) -> (r: Action)
        ensures
            final(self).wf(),
            final(self).same_session(old(self)),
            final(self).claimed_spec() == old(self).claimed_spec(),
            final(self).stage_spec() == Stage::ConfigureWrite,
            final(self).command_spec() == poke_command(address, value),
            final(self).expected_spec() is None,
            r == (Action::Configure {
                config: old(self).write_endpoint_spec().config,
                iface: old(self).write_endpoint_spec().iface,
                setting: old(self).write_endpoint_spec().setting,
            }),
    {
        let command = poke_command_bytes(address, value);
        self.start(command, None)
    }

    /// Starts reading `length` bytes at `address`: the command
    /// `peek 0xAAAAAAAA 0xLLLLLLLL`, then the response. Any exchange in
    /// progress is abandoned.
    pub fn read_bytes(&mut self, address: u32, length: u32) -> (r: Action)
        ensures
            final(self).wf(),
            final(self).same_session(old(self)),
            final(self).claimed_spec() == old(self).claimed_spec(),
            final(self).stage_spec() == Stage::ConfigureWrite,
            final(self).command_spec() == peek_command(address, length),
            final(self).expected_spec() == Some(length),
            r == (Action::Configure {
                config: old(self).write_endpoint_spec().config,
                iface: old(self).write_endpoint_spec().iface,
                setting: old(self).write_endpoint_spec().setting,
            }),
    {
        let command = peek_command_bytes(address, length);
        self.start(command, Some(length))
    }

    /// Ends the exchange with a failure.
    fn fail(&mut self, e: TransportError) -> (r: Action)
        requires
            old(self).wf(),
        ensures
            final(self).wf(),
            final(self).same_session(old(self)),
            final(self).claimed_spec() == old(self).claimed_spec(),
            final(self).stage_spec() == Stage::Idle,
            final(self).mismatch_spec() == old(self).mismatch_spec(),
            final(self).command_spec() == old(self).command_spec(),
            final(self).expected_spec() == old(self).expected_spec(),
            r == Action::Failed(e),
    {
        self.stage = Stage::Idle;
        self.received = Vec::new();
        Action::Failed(e)
    }

    /// Takes the outcome of the last action and gives the next one.
    ///
    /// A failed configuration step fails the exchange with
    /// `ConfigurationFailure`, a failed transfer with `TransferFailed`, and
    /// either with `TransferTimeout` when it timed out; only a successful
    /// configuration step changes which endpoint is claimed. A read receives
    /// the 4-byte length header and then the expected number of bytes, each
    /// over as many reads as it takes; an empty read fails the exchange.
    pub fn step(&mut self, event: Event) -> (r: Action)
        requires
            old(self).wf(),
        ensures
            final(self).wf(),
            final(self).same_session(old(self)),
            final(self).command_spec() == old(self).command_spec(),
            final(self).expected_spec() == old(self).expected_spec(),
            !(event is Configured) ==> final(self).claimed_spec() == old(self).claimed_spec(),
            old(self).stage_spec() == Stage::Idle ==> r == Action::Failed(
                TransportError::UnexpectedEvent,
            ) && final(self).stage_spec() == Stage::Idle,
            old(self).stage_spec() == Stage::ConfigureWrite ==> if event is Configured {
                &&& final(self).claimed_spec() == configured(
                    old(self).claimed_spec(),
                    old(self).write_endpoint_spec(),
                )
                &&& final(self).stage_spec() == Stage::SendHeader
                &&& r is Write
                &&& r->out_endpoint == old(self).write_endpoint_spec().address
                &&& r->data@ == frame_header(old(self).command_spec())
                &&& r->write_timeout_secs == SEND_TIMEOUT_SECS
            } else {
                &&& r == Action::Failed(failure_of(event, TransportError::ConfigurationFailure))
                &&& final(self).stage_spec() == Stage::Idle
            },
            old(self).stage_spec() == Stage::SendHeader ==> if event is Sent {
                &&& final(self).stage_spec() == Stage::SendPayload
                &&& r is Write
                &&& r->out_endpoint == old(self).write_endpoint_spec().address
                &&& r->data@ == frame_payload(old(self).command_spec())
                &&& r->write_timeout_secs == SEND_TIMEOUT_SECS
            } else {
                &&& r == Action::Failed(failure_of(event, TransportError::TransferFailed))
                &&& final(self).stage_spec() == Stage::Idle
            },
            old(self).stage_spec() == Stage::SendPayload ==> if event is Sent {
                match old(self).expected_spec() {
                    None => {
                        &&& r is Finished
                        &&& r->Finished_0@.len() == 0
                        &&& final(self).stage_spec() == Stage::Idle
                    },
                    Some(n) => {
                        &&& final(self).stage_spec() == Stage::ConfigureRead
                        &&& final(self).expected_spec() == Some(n)
                        &&& final(self).mismatch_spec() is None
                        &&& r == (Action::Configure {
                            config: old(self).read_endpoint_spec().config,
                            iface: old(self).read_endpoint_spec().iface,
                            setting: old(self).read_endpoint_spec().setting,
                        })
                    },
                }
            } else {
                &&& r == Action::Failed(failure_of(event, TransportError::TransferFailed))
                &&& final(self).stage_spec() == Stage::Idle
            },
            old(self).stage_spec() == Stage::ConfigureRead ==> if event is Configured {
                &&& final(self).claimed_spec() == configured(
                    old(self).claimed_spec(),
                    old(self).read_endpoint_spec(),
                )
                &&& final(self).stage_spec() == Stage::ReceiveHeader
                &&& final(self).received_spec().len() == 0
                &&& final(self).expected_spec() == old(self).expected_spec()
                &&& final(self).mismatch_spec() == old(self).mismatch_spec()
                &&& r == (Action::Read {
                    in_endpoint: old(self).read_endpoint_spec().address,
                    length: 4,
                    read_timeout_secs: RECEIVE_TIMEOUT_SECS,
                })
            } else {
                &&& r == Action::Failed(failure_of(event, TransportError::ConfigurationFailure))
                &&& final(self).stage_spec() == Stage::Idle
            },
            old(self).stage_spec() == Stage::ReceiveHeader ==> match event {
                Event::Received(bytes) => {
                    let need = 4 - old(self).received_spec().len();
                    let got = old(self).received_spec() + bytes@.take(
                        if bytes@.len() < need { bytes@.len() as int } else { need },
                    );
                    let expected = old(self).expected_spec()->0;
                    if bytes@.len() == 0 {
                        &&& r == Action::Failed(TransportError::TransferFailed)
                        &&& final(self).stage_spec() == Stage::Idle
                    } else if got.len() < 4 {
                        &&& final(self).stage_spec() == Stage::ReceiveHeader
                        &&& final(self).received_spec() == got
                        &&& final(self).expected_spec() == old(self).expected_spec()
                        &&& final(self).mismatch_spec() == old(self).mismatch_spec()
                        &&& r == (Action::Read {
                            in_endpoint: old(self).read_endpoint_spec().address,
                            length: (4 - got.len()) as usize,
                            read_timeout_secs: RECEIVE_TIMEOUT_SECS,
                        })
                    } else if le_value(got) != expected && old(self).policy_spec()
                        == LengthPolicy::Strict {
                        &&& r == Action::Failed(
                            TransportError::FrameLengthMismatch { advertised: le_value(got), expected },
                        )
                        &&& final(self).stage_spec() == Stage::Idle
                    } else {
                        &&& final(self).mismatch_spec() == if le_value(got) != expected {
                            Some(le_value(got))
                        } else {
                            None
                        }
                        &&& if expected == 0 {
                            &&& r is Finished
                            &&& r->Finished_0@.len() == 0
                            &&& final(self).stage_spec() == Stage::Idle
                        } else {
                            &&& final(self).stage_spec() == Stage::ReceivePayload
                            &&& final(self).received_spec().len() == 0
                            &&& final(self).expected_spec() == old(self).expected_spec()
                            &&& r == (Action::Read {
                                in_endpoint: old(self).read_endpoint_spec().address,
                                length: expected as usize,
                                read_timeout_secs: RECEIVE_TIMEOUT_SECS,
                            })
                        }
                    }
                },
                _ => {
                    &&& r == Action::Failed(failure_of(event, TransportError::TransferFailed))
                    &&& final(self).stage_spec() == Stage::Idle
                },
            },
            old(self).stage_spec() == Stage::ReceivePayload ==> match event {
                Event::Received(bytes) => {
                    let expected = old(self).expected_spec()->0;
                    let need = expected - old(self).received_spec().len();
                    let got = old(self).received_spec() + bytes@.take(
                        if bytes@.len() < need { bytes@.len() as int } else { need },
                    );
                    if bytes@.len() == 0 {
                        &&& r == Action::Failed(TransportError::TransferFailed)
                        &&& final(self).stage_spec() == Stage::Idle
                    } else if got.len() < expected {
                        &&& final(self).stage_spec() == Stage::ReceivePayload
                        &&& final(self).received_spec() == got
                        &&& final(self).expected_spec() == old(self).expected_spec()
                        &&& final(self).mismatch_spec() == old(self).mismatch_spec()
                        &&& r == (Action::Read {
                            in_endpoint: old(self).read_endpoint_spec().address,
                            length: (expected - got.len()) as usize,
                            read_timeout_secs: RECEIVE_TIMEOUT_SECS,
                        })
                    } else {
                        &&& r is Finished
                        &&& r->Finished_0@ == got
                        &&& final(self).stage_spec() == Stage::Idle
                        &&& final(self).mismatch_spec() == old(self).mismatch_spec()
                    }
                },
                _ => {
                    &&& r == Action::Failed(failure_of(event, TransportError::TransferFailed))
                    &&& final(self).stage_spec() == Stage::Idle
                },
            },
    {
        match self.stage {
            Stage::Idle => Action::Failed(TransportError::UnexpectedEvent),
            Stage::ConfigureWrite => match event {
                Event::Configured => {
                    self.claimed = configure(self.claimed, self.write_endpoint);
                    self.stage = Stage::SendHeader;
                    Action::Write {
                        out_endpoint: self.write_endpoint.address,
                        data: frame_header_bytes(&self.command),
                        write_timeout_secs: SEND_TIMEOUT_SECS,
                    }
                },
                Event::TimedOut => self.fail(TransportError::TransferTimeout),
                _ => self.fail(TransportError::ConfigurationFailure),
            },
            Stage::SendHeader => match event {
                Event::Sent => {
                    self.stage = Stage::SendPayload;
                    Action::Write {
                        out_endpoint: self.write_endpoint.address,
                        data: frame_payload_bytes(&self.command),
                        write_timeout_secs: SEND_TIMEOUT_SECS,
                    }
                },
                Event::TimedOut => self.fail(TransportError::TransferTimeout),
                _ => self.fail(TransportError::TransferFailed),
            },
            Stage::SendPayload => match event {
                Event::Sent => match self.expected {
                    None => {
                        self.stage = Stage::Idle;
                        Action::Finished(Vec::new())
                    },
                    Some(_) => {
                        self.stage = Stage::ConfigureRead;
                        self.mismatch = None;
                        Action::Configure {
                            config: self.read_endpoint.config,
                            iface: self.read_endpoint.iface,
                            setting: self.read_endpoint.setting,
                        }
                    },
                },
                Event::TimedOut => self.fail(TransportError::TransferTimeout),
                _ => self.fail(TransportError::TransferFailed),
            },
            Stage::ConfigureRead => match event {
                Event::Configured => {
                    self.claimed = configure(self.claimed, self.read_endpoint);
                    self.stage = Stage::ReceiveHeader;
                    self.received = Vec::new();
                    Action::Read {
                        in_endpoint: self.read_endpoint.address,
                        length: 4,
                        read_timeout_secs: RECEIVE_TIMEOUT_SECS,
                    }
                },
                Event::TimedOut => self.fail(TransportError::TransferTimeout),
                _ => self.fail(TransportError::ConfigurationFailure),
            },
            Stage::ReceiveHeader => match event {
                Event::Received(bytes) => {
                    if bytes.len() == 0 {
                        return self.fail(TransportError::TransferFailed);
                    }
                    let need: usize = 4 - self.received.len();
                    let take: usize = if bytes.len() < need {
                        bytes.len()
                    } else {
                        need
                    };
                    append_prefix(&mut self.received, &bytes, take);
                    if self.received.len() < 4 {
                        return Action::Read {
                            in_endpoint: self.read_endpoint.address,
                            length: 4 - self.received.len(),
                            read_timeout_secs: RECEIVE_TIMEOUT_SECS,
                        };
                    }
                    let expected = match self.expected {
                        Some(n) => n,
                        None => 0,
                    };
                    let advertised = u32_from_le_bytes(self.received.as_slice());
                    if advertised != expected {
                        match self.policy {
                            LengthPolicy::Strict => {
                                self.received = Vec::new();
                                return self.fail(
                                    TransportError::FrameLengthMismatch { advertised, expected },
                                );
                            },
                            LengthPolicy::Permissive => {
                                self.mismatch = Some(advertised);
                            },
                        }
                    } else {
                        self.mismatch = None;
                    }
                    self.received = Vec::new();
                    if expected == 0 {
                        self.stage = Stage::Idle;
                        Action::Finished(Vec::new())
                    } else {
                        self.stage = Stage::ReceivePayload;
                        Action::Read {
                            in_endpoint: self.read_endpoint.address,
                            length: expected as usize,
                            read_timeout_secs: RECEIVE_TIMEOUT_SECS,
                        }
                    }
                },
                Event::TimedOut => self.fail(TransportError::TransferTimeout),
                _ => self.fail(TransportError::TransferFailed),
            },
            Stage::ReceivePayload => match event {
                Event::Received(bytes) => {
                    if bytes.len() == 0 {
                        return self.fail(TransportError::TransferFailed);
                    }
                    let expected = match self.expected {
                        Some(n) => n,
                        None => 0,
                    };
                    let need: usize = expected as usize - self.received.len();
                    let take: usize = if bytes.len() < need {
                        bytes.len()
                    } else {
                        need
                    };
                    append_prefix(&mut self.received, &bytes, take);
                    if self.received.len() < expected as usize {
                        return Action::Read {
                            in_endpoint: self.read_endpoint.address,
                            length: expected as usize - self.received.len(),
                            read_timeout_secs: RECEIVE_TIMEOUT_SECS,
                        };
                    }
                    self.stage = Stage::Idle;
                    let mut payload: Vec<u8> = Vec::new();
                    std::mem::swap(&mut payload, &mut self.received);
                    Action::Finished(payload)
                },
                Event::TimedOut => self.fail(TransportError::TransferTimeout),
                _ => self.fail(TransportError::TransferFailed),
            },
        }
    }
}

/// Appends the first `n` bytes of `src` to `dst`.
fn append_prefix(dst: &mut Vec<u8>, src: &Vec<u8>, n: usize)
    requires
        n <= src@.len(),
    ensures
        final(dst)@ == old(dst)@ + src@.take(n as int),
{
    let mut i: usize = 0;
    while i < n
        invariant
            n <= src@.len(),
            i <= n,
            dst@ == old(dst)@ + src@.take(i as int),
        decreases n - i,
    {
        dst.push(src[i]);
        i = i + 1;
        assert(src@.take(i as int) =~= src@.take(i - 1).push(src@[i - 1]));
    }
}

} // verus!
