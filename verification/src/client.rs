//! Request/response transactions over a transport: one outgoing command
//! paired with the next validated inbound payload within a bounded poll
//! budget, and the command vocabulary the device understands.

use vstd::prelude::*;

use crate::codec::Protocol;
use crate::reassembler::StreamReassembler;
use crate::reassembler::spec_emittable;
use crate::state::ControllerState;
use crate::state::spec_parse_state;
use crate::state::spec_state_report;
use crate::transport::Transport;

verus! {

/// Top-level command bytes of the wire vocabulary.
#[derive(Debug, Clone, Copy, PartialEq, Eq, Structural)]
pub enum Command {
    SysStatus,
    FileInit,
    FactoryPing,
    ControllerCdc,
}

impl Command {
    /// The byte this command puts on the wire.
    pub open spec fn spec_code(self) -> u8 {
        match self {
            Command::SysStatus => 0x20,
            Command::FileInit => 0x11,
            Command::FactoryPing => 0xF4,
            Command::ControllerCdc => 0x58,
        }
    }

    /// The byte this command puts on the wire.
    #[verifier::when_used_as_spec(spec_code)]
    pub fn code(self) -> (r: u8)
        ensures
            r == self.spec_code(),
    {
        match self {
            Command::SysStatus => 0x20,
            Command::FileInit => 0x11,
            Command::FactoryPing => 0xF4,
            Command::ControllerCdc => 0x58,
        }
    }
}

/// Sub-command bytes understood under the controller command.
#[derive(Debug, Clone, Copy, PartialEq, Eq, Structural)]
pub enum ControllerSubCommand {
    GetState,
    SetPairId,
    GetPairId,
    GetTestData,
    TestCmd,
    AbortJsCal,
    StartJsCal,
    GetVersions,
    DevState,
}

impl ControllerSubCommand {
    /// The byte this sub-command puts on the wire.
    pub open spec fn spec_code(self) -> u8 {
        match self {
            ControllerSubCommand::GetState => 0x60,
            ControllerSubCommand::SetPairId => 0x61,
            ControllerSubCommand::GetPairId => 0x62,
            ControllerSubCommand::GetTestData => 0x63,
            ControllerSubCommand::TestCmd => 0x64,
            ControllerSubCommand::AbortJsCal => 0x65,
            ControllerSubCommand::StartJsCal => 0x66,
            ControllerSubCommand::GetVersions => 0x67,
            ControllerSubCommand::DevState => 0x68,
        }
    }

    /// The byte this sub-command puts on the wire.
    #[verifier::when_used_as_spec(spec_code)]
    pub fn code(self) -> (r: u8)
        ensures
            r == self.spec_code(),
    {
        match self {
            ControllerSubCommand::GetState => 0x60,
            ControllerSubCommand::SetPairId => 0x61,
            ControllerSubCommand::GetPairId => 0x62,
            ControllerSubCommand::GetTestData => 0x63,
            ControllerSubCommand::TestCmd => 0x64,
            ControllerSubCommand::AbortJsCal => 0x65,
            ControllerSubCommand::StartJsCal => 0x66,
            ControllerSubCommand::GetVersions => 0x67,
            ControllerSubCommand::DevState => 0x68,
        }
    }
}

/// What a transaction can surface to its caller. Nothing here is fatal
/// to the hosting process; the caller decides whether to retry.
#[derive(Debug, Clone, Copy, PartialEq, Eq, Structural)]
pub enum ProtocolError {
    /// No validated reply arrived within the transaction's poll budget.
    Timeout,
    /// The transport failed to move bytes; propagated, never retried
    /// here.
    Transport,
    /// The reply to a state request was not a state report.
    MalformedState,
    /// The reply to a versions request had no text after its tag byte.
    InvalidVersionPayload,
    /// The reply to a pair-id request had no value after its tag byte.
    InvalidPairIdPayload,
}

/// The text std's lossy UTF-8 decoding makes of a byte sequence.
pub uninterp spec fn spec_utf8_lossy(bytes: Seq<u8>) -> Seq<char>;

/// Relies on String::from_utf8_lossy: the decoded text depends on the
/// bytes alone, and no bytes decode to nothing.
#[verifier::external_body]
fn bytes_to_string_lossy(bytes: &[u8]) -> (r: String)
    ensures
        r@ == spec_utf8_lossy(bytes@),
        bytes@.len() == 0 ==> r@.len() == 0,
{
    String::from_utf8_lossy(bytes).into_owned()
}

/// How many read attempts one transaction spends before surfacing a
/// timeout. With the transport's blocking poll on the order of ten
/// milliseconds per attempt this bounds a transaction to about two
/// seconds end to end.
pub const TRANSACTION_POLL_BUDGET: usize = 200;

/// One device behind one transport. The caller must not issue a second
/// command before the current call resolves: the wire carries no
/// request identifiers, so replies are paired with requests purely by
/// order.
pub struct VexController<T: Transport> {
    transport: T,
}

impl<T: Transport> VexController<T> {
    /// Takes ownership of the transport; the controller is its one
    /// logical owner from here on.
    pub fn new(transport: T) -> Self {
        VexController { transport }
    }

    /// One transaction: discards stale buffered input, sends one framed
    /// command, then reads and reassembles until a validated payload
    /// arrives or the poll budget is spent. Every payload handed back
    /// came out of a checksum-validated frame.
    pub fn send_command(&mut self, cmd1: u8, cmd2: u8, data: &[u8]) -> (r: Result<
        Vec<u8>,
        ProtocolError,
    >)
        requires
            data@.len() < 0x8000,
        ensures
            r matches Ok(payload) ==> spec_emittable(payload@),
            r matches Err(e) ==> (e == ProtocolError::Timeout || e == ProtocolError::Transport),
    {
        let frame = Protocol::encode_command(cmd1, cmd2, data);
        match self.transport.clear_buffer() {
            Ok(_) => {},
            Err(_) => {
                return Err(ProtocolError::Transport);
            },
        }
        match self.transport.send_bytes(frame.as_slice()) {
            Ok(_) => {},
            Err(_) => {
                return Err(ProtocolError::Transport);
            },
        }
        let mut reassembler = StreamReassembler::new();
        let mut polls: usize = 0;
        while polls < TRANSACTION_POLL_BUDGET
            decreases TRANSACTION_POLL_BUDGET - polls,
        {
            let chunk = match self.transport.receive_bytes() {
                Ok(c) => c,
                Err(_) => {
                    return Err(ProtocolError::Transport);
                },
            };
            let mut emitted = reassembler.feed(chunk.as_slice());
            if emitted.len() > 0 {
                let ghost first = emitted.deep_view()[0];
                proof {
                    assert(first == emitted@[0].deep_view());
                    assert(spec_emittable(first));
                }
                let payload = emitted.remove(0);
                proof {
                    assert(payload.deep_view() =~= payload@);
                    assert(spec_emittable(payload@));
                }
                return Ok(payload);
            }
            polls = polls + 1;
        }
        Err(ProtocolError::Timeout)
    }

    /// Requests the current state and decodes the reply. A reply that is
    /// not a state report surfaces as an error the caller may treat as
    /// "no update this cycle".
    pub fn get_state(&mut self) -> (r: Result<ControllerState, ProtocolError>)
        ensures
            r matches Ok(s) ==> exists|p: Seq<u8>|
                #[trigger] spec_emittable(p) && spec_state_report(p) && s == spec_parse_state(p),
            r matches Err(e) ==> (e == ProtocolError::Timeout || e == ProtocolError::Transport
                || e == ProtocolError::MalformedState),
            r == Err::<ControllerState, ProtocolError>(ProtocolError::MalformedState)
                ==> exists|p: Seq<u8>| #[trigger] spec_emittable(p) && !spec_state_report(p),
    {
        let no_data: Vec<u8> = Vec::new();
        let payload = match self.send_command(
            Command::ControllerCdc.code(),
            ControllerSubCommand::GetState.code(),
            no_data.as_slice(),
        ) {
            Ok(p) => p,
            Err(e) => {
                return Err(e);
            },
        };
        match Protocol::parse_controller_state(payload.as_slice()) {
            Some(s) => {
                proof {
                    assert(spec_emittable(payload@) && spec_state_report(payload@) && s
                        == spec_parse_state(payload@));
                }
                Ok(s)
            },
            None => {
                proof {
                    assert(spec_emittable(payload@) && !spec_state_report(payload@));
                }
                Err(ProtocolError::MalformedState)
            },
        }
    }

    /// Requests the firmware version text: everything after the reply's
    /// tag byte, decoded leniently as UTF-8.
    pub fn get_versions(&mut self) -> (r: Result<String, ProtocolError>)
        ensures
            r matches Ok(v) ==> exists|p: Seq<u8>|
                #[trigger] spec_emittable(p) && p.len() > 1 && v@ == spec_utf8_lossy(p.skip(1)),
            r matches Err(e) ==> (e == ProtocolError::Timeout || e == ProtocolError::Transport
                || e == ProtocolError::InvalidVersionPayload),
            r == Err::<String, ProtocolError>(ProtocolError::InvalidVersionPayload)
                ==> exists|p: Seq<u8>| #[trigger] spec_emittable(p) && p.len() <= 1,
    {
        let no_data: Vec<u8> = Vec::new();
        let payload = match self.send_command(
            Command::ControllerCdc.code(),
            ControllerSubCommand::GetVersions.code(),
            no_data.as_slice(),
        ) {
            Ok(p) => p,
            Err(e) => {
                return Err(e);
            },
        };
        if payload.len() > 1 {
            let text = bytes_to_string_lossy(&payload[1..payload.len()]);
            proof {
                assert(payload@.subrange(1, payload@.len() as int) =~= payload@.skip(1));
                assert(spec_emittable(payload@) && payload@.len() > 1 && text@ == spec_utf8_lossy(
                    payload@.skip(1),
                ));
            }
            Ok(text)
        } else {
            proof {
                assert(spec_emittable(payload@) && payload@.len() <= 1);
            }
            Err(ProtocolError::InvalidVersionPayload)
        }
    }

    /// Requests the pairing identifier: the byte after the reply's tag.
    pub fn get_pair_id(&mut self) -> (r: Result<u8, ProtocolError>)
        ensures
            r matches Ok(id) ==> exists|p: Seq<u8>|
                #[trigger] spec_emittable(p) && p.len() > 1 && id == p[1],
            r matches Err(e) ==> (e == ProtocolError::Timeout || e == ProtocolError::Transport
                || e == ProtocolError::InvalidPairIdPayload),
            r == Err::<u8, ProtocolError>(ProtocolError::InvalidPairIdPayload)
                ==> exists|p: Seq<u8>| #[trigger] spec_emittable(p) && p.len() <= 1,
    {
        let no_data: Vec<u8> = Vec::new();
        let payload = match self.send_command(
            Command::ControllerCdc.code(),
            ControllerSubCommand::GetPairId.code(),
            no_data.as_slice(),
        ) {
            Ok(p) => p,
            Err(e) => {
                return Err(e);
            },
        };
        if payload.len() > 1 {
            let id = payload[1];
            proof {
                assert(spec_emittable(payload@) && payload@.len() > 1 && id == payload@[1]);
            }
            Ok(id)
        } else {
            proof {
                assert(spec_emittable(payload@) && payload@.len() <= 1);
            }
            Err(ProtocolError::InvalidPairIdPayload)
        }
    }

    /// Asks the device to start joystick calibration; the reply payload
    /// carries nothing the caller needs.
    pub fn start_calibration(&mut self) -> (r: Result<(), ProtocolError>)
        ensures
            r matches Err(e) ==> (e == ProtocolError::Timeout || e == ProtocolError::Transport),
    {
        let no_data: Vec<u8> = Vec::new();
        match self.send_command(
            Command::ControllerCdc.code(),
            ControllerSubCommand::StartJsCal.code(),
            no_data.as_slice(),
        ) {
            Ok(_) => Ok(()),
            Err(e) => Err(e),
        }
    }

    /// Asks the device to abort a running joystick calibration.
    pub fn abort_calibration(&mut self) -> (r: Result<(), ProtocolError>)
        ensures
            r matches Err(e) ==> (e == ProtocolError::Timeout || e == ProtocolError::Transport),
    {
        let no_data: Vec<u8> = Vec::new();
        match self.send_command(
            Command::ControllerCdc.code(),
            ControllerSubCommand::AbortJsCal.code(),
            no_data.as_slice(),
        ) {
            Ok(_) => Ok(()),
            Err(e) => Err(e),
        }
    }
}

} // verus!
