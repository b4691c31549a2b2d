//! Transactions against scripted transports: request framing, reply
//! pairing, timeout, and the command getters.

use vexlink::client::Command;
use vexlink::client::ControllerSubCommand;
use vexlink::client::ProtocolError;
use vexlink::client::VexController;
use vexlink::codec::Protocol;
use vexlink::transport::Transport;
use vexlink::transport::TransportError;

use std::cell::RefCell;
use std::rc::Rc;

/// What a scripted transport saw the client do.
#[derive(Default)]
struct WireLog {
    sent: Vec<Vec<u8>>,
    clears: usize,
}

/// A transport fed from a script: each read hands out the next chunk,
/// then empty reads forever. What the client writes is recorded.
struct ScriptedTransport {
    chunks: Vec<Vec<u8>>,
    next: usize,
    log: Rc<RefCell<WireLog>>,
}

impl ScriptedTransport {
    fn new(chunks: Vec<Vec<u8>>) -> Self {
        ScriptedTransport { chunks, next: 0, log: Rc::new(RefCell::new(WireLog::default())) }
    }

    fn log(&self) -> Rc<RefCell<WireLog>> {
        Rc::clone(&self.log)
    }
}

impl Transport for ScriptedTransport {
    fn send_bytes(&mut self, data: &[u8]) -> Result<(), TransportError> {
        self.log.borrow_mut().sent.push(data.to_vec());
        Ok(())
    }

    fn receive_bytes(&mut self) -> Result<Vec<u8>, TransportError> {
        if self.next < self.chunks.len() {
            let chunk = self.chunks[self.next].clone();
            self.next += 1;
            Ok(chunk)
        } else {
            Ok(Vec::new())
        }
    }

    fn clear_buffer(&mut self) -> Result<(), TransportError> {
        self.log.borrow_mut().clears += 1;
        Ok(())
    }
}

/// A transport whose every operation fails.
struct BrokenTransport;

impl Transport for BrokenTransport {
    fn send_bytes(&mut self, _data: &[u8]) -> Result<(), TransportError> {
        Err(TransportError)
    }

    fn receive_bytes(&mut self) -> Result<Vec<u8>, TransportError> {
        Err(TransportError)
    }

    fn clear_buffer(&mut self) -> Result<(), TransportError> {
        Err(TransportError)
    }
}

fn state_payload() -> Vec<u8> {
    let mut p = vec![0u8; 14];
    p[0] = 0x60;
    p[1] = 101;
    p[2] = 102;
    p[3] = 103;
    p[4] = 104;
    p[8] = 0b0001_0000;
    p[9] = 0b0010_0000;
    p[10] = 0b0000_0001;
    p[11] = 55;
    p
}

#[test]
fn get_state_pairs_command_and_reply() {
    let reply = Protocol::encode_reply(0x56, &state_payload());
    let mut controller = VexController::new(ScriptedTransport::new(vec![reply]));
    let state = controller.get_state().expect("state");
    assert_eq!(state.left_x, 101);
    assert_eq!(state.left_y, 102);
    assert_eq!(state.right_x, 103);
    assert_eq!(state.right_y, 104);
    assert!(state.l_up);
    assert!(state.l3);
    assert!(state.cal_active);
    assert_eq!(state.battery, 55);
}

#[test]
fn send_command_clears_stale_input_and_frames_request() {
    let reply = Protocol::encode_reply(0x56, &state_payload());
    let transport = ScriptedTransport::new(vec![reply]);
    let log = transport.log();
    let mut controller = VexController::new(transport);
    controller.get_state().expect("state");
    let log = log.borrow();
    assert_eq!(log.clears, 1);
    assert_eq!(log.sent.len(), 1);
    assert_eq!(log.sent[0], Protocol::encode_command(0x58, 0x60, &[]));
}

#[test]
fn reply_split_across_reads_with_noise_ahead() {
    let reply = Protocol::encode_reply(0x56, &state_payload());
    let mut chunks = vec![vec![0x13, 0x37]];
    chunks.push(reply[0..5].to_vec());
    chunks.push(Vec::new());
    chunks.push(reply[5..].to_vec());
    let mut controller = VexController::new(ScriptedTransport::new(chunks));
    let state = controller.get_state().expect("state");
    assert_eq!(state.battery, 55);
}

#[test]
fn silent_transport_times_out() {
    let mut controller = VexController::new(ScriptedTransport::new(Vec::new()));
    assert_eq!(controller.get_state(), Err(ProtocolError::Timeout));
}

#[test]
fn failing_transport_surfaces_transport_error() {
    let mut controller = VexController::new(BrokenTransport);
    assert_eq!(controller.get_state(), Err(ProtocolError::Transport));
}

#[test]
fn reply_to_another_command_is_malformed_state() {
    let reply = Protocol::encode_reply(0x56, &[0x67, b'v', b'1']);
    let mut controller = VexController::new(ScriptedTransport::new(vec![reply]));
    assert_eq!(controller.get_state(), Err(ProtocolError::MalformedState));
}

#[test]
fn get_versions_decodes_text_after_tag() {
    let reply = Protocol::encode_reply(0x56, &[0x67, b'1', b'.', b'2', b'.', b'3']);
    let mut controller = VexController::new(ScriptedTransport::new(vec![reply]));
    assert_eq!(controller.get_versions().expect("versions"), "1.2.3");
}

#[test]
fn get_versions_replaces_invalid_utf8() {
    let reply = Protocol::encode_reply(0x56, &[0x67, 0xFF, b'A']);
    let mut controller = VexController::new(ScriptedTransport::new(vec![reply]));
    assert_eq!(controller.get_versions().expect("versions"), "\u{FFFD}A");
}

#[test]
fn get_versions_rejects_bare_tag() {
    let reply = Protocol::encode_reply(0x56, &[0x67]);
    let mut controller = VexController::new(ScriptedTransport::new(vec![reply]));
    assert_eq!(controller.get_versions(), Err(ProtocolError::InvalidVersionPayload));
}

#[test]
fn get_pair_id_returns_byte_after_tag() {
    let reply = Protocol::encode_reply(0x56, &[0x62, 42]);
    let mut controller = VexController::new(ScriptedTransport::new(vec![reply]));
    assert_eq!(controller.get_pair_id().expect("pair id"), 42);
}

#[test]
fn get_pair_id_rejects_bare_tag() {
    let reply = Protocol::encode_reply(0x56, &[0x62]);
    let mut controller = VexController::new(ScriptedTransport::new(vec![reply]));
    assert_eq!(controller.get_pair_id(), Err(ProtocolError::InvalidPairIdPayload));
}

#[test]
fn calibration_commands_put_their_bytes_on_the_wire() {
    let reply = Protocol::encode_reply(0x56, &[0x66]);
    let transport = ScriptedTransport::new(vec![reply]);
    let log = transport.log();
    let mut controller = VexController::new(transport);
    controller.start_calibration().expect("start");
    assert_eq!(log.borrow().sent[0], Protocol::encode_command(0x58, 0x66, &[]));

    let reply = Protocol::encode_reply(0x56, &[0x65]);
    let transport = ScriptedTransport::new(vec![reply]);
    let log = transport.log();
    let mut controller = VexController::new(transport);
    controller.abort_calibration().expect("abort");
    assert_eq!(log.borrow().sent[0], Protocol::encode_command(0x58, 0x65, &[]));
}

#[test]
fn command_bytes_match_the_wire_vocabulary() {
    assert_eq!(Command::SysStatus.code(), 0x20);
    assert_eq!(Command::FileInit.code(), 0x11);
    assert_eq!(Command::FactoryPing.code(), 0xF4);
    assert_eq!(Command::ControllerCdc.code(), 0x58);
    assert_eq!(ControllerSubCommand::GetState.code(), 0x60);
    assert_eq!(ControllerSubCommand::SetPairId.code(), 0x61);
    assert_eq!(ControllerSubCommand::GetPairId.code(), 0x62);
    assert_eq!(ControllerSubCommand::GetTestData.code(), 0x63);
    assert_eq!(ControllerSubCommand::TestCmd.code(), 0x64);
    assert_eq!(ControllerSubCommand::AbortJsCal.code(), 0x65);
    assert_eq!(ControllerSubCommand::StartJsCal.code(), 0x66);
    assert_eq!(ControllerSubCommand::GetVersions.code(), 0x67);
    assert_eq!(ControllerSubCommand::DevState.code(), 0x68);
}
