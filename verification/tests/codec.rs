use backlightd::errors::ProtocolError;
use backlightd::ipc::frame_len;
use backlightd::ipc::BacklightCommand;
use backlightd::ipc::BacklightInfo;
use backlightd::ipc::BacklightMode;

fn round_trips(cmd: BacklightCommand) {
    let bytes = cmd.encode();
    let (decoded, used) = BacklightCommand::decode(&bytes).expect("a just-encoded command decodes");
    assert_eq!(decoded, cmd);
    assert_eq!(used, bytes.len());
}

#[test]
fn every_variant_round_trips_at_boundaries() {
    for p in [0u8, 100u8] {
        round_trips(BacklightCommand::SetBrightness(p));
        round_trips(BacklightCommand::IncreaseBrightness(p));
        round_trips(BacklightCommand::DecreaseBrightness(p));
        round_trips(BacklightCommand::GetInfoResponse(BacklightInfo { brightness_percent: p }));
    }
    round_trips(BacklightCommand::TurnOffMonitors);
    round_trips(BacklightCommand::TurnOnMonitors);
    round_trips(BacklightCommand::Refresh);
    round_trips(BacklightCommand::SetMode(BacklightMode::Auto));
    round_trips(BacklightCommand::SetMode(BacklightMode::Manual));
    round_trips(BacklightCommand::GetInfo);
    round_trips(BacklightCommand::NotifyShutdown);
}

#[test]
fn decode_rejects_truncated_messages() {
    assert_eq!(BacklightCommand::decode(&[]), Err(ProtocolError::Truncated));
    assert_eq!(BacklightCommand::decode(&[0]), Err(ProtocolError::Truncated));
    assert_eq!(BacklightCommand::decode(&[6]), Err(ProtocolError::Truncated));
}

#[test]
fn decode_rejects_out_of_range_percent() {
    assert_eq!(BacklightCommand::decode(&[0, 101]), Err(ProtocolError::ValueOutOfRange));
    assert_eq!(BacklightCommand::decode(&[1, 255]), Err(ProtocolError::ValueOutOfRange));
    assert_eq!(BacklightCommand::decode(&[8, 101]), Err(ProtocolError::ValueOutOfRange));
}

#[test]
fn decode_rejects_unknown_bytes() {
    assert_eq!(BacklightCommand::decode(&[10]), Err(ProtocolError::UnknownTag));
    assert_eq!(BacklightCommand::decode(&[255, 0]), Err(ProtocolError::UnknownTag));
    assert_eq!(BacklightCommand::decode(&[6, 2]), Err(ProtocolError::UnknownMode));
}

#[test]
fn decode_leaves_trailing_bytes() {
    let (cmd, used) = BacklightCommand::decode(&[3, 7, 7]).unwrap();
    assert_eq!(cmd, BacklightCommand::TurnOffMonitors);
    assert_eq!(used, 1);
    let (cmd2, used2) = BacklightCommand::decode(&[2, 30, 9]).unwrap();
    assert_eq!(cmd2, BacklightCommand::DecreaseBrightness(30));
    assert_eq!(used2, 2);
}

#[test]
fn frame_len_matches_encodings() {
    assert_eq!(frame_len(0), Ok(2));
    assert_eq!(frame_len(6), Ok(2));
    assert_eq!(frame_len(8), Ok(2));
    assert_eq!(frame_len(3), Ok(1));
    assert_eq!(frame_len(9), Ok(1));
    assert_eq!(frame_len(10), Err(ProtocolError::UnknownTag));
    for cmd in [
        BacklightCommand::SetBrightness(5),
        BacklightCommand::SetMode(BacklightMode::Auto),
        BacklightCommand::GetInfo,
        BacklightCommand::NotifyShutdown,
    ] {
        let bytes = cmd.encode();
        assert_eq!(frame_len(bytes[0]), Ok(bytes.len()));
    }
}
