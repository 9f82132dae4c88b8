use backlightd::ipc::BacklightCommand;
use backlightd::ipc::BacklightInfo;
use backlightd::ipc::BacklightMode;
use backlightd::router::RouterAction;
use backlightd::router::route_command;
use backlightd::sched::ModeState;

#[test]
fn scheduler_starts_in_auto() {
    let st = ModeState::new(10);
    assert_eq!(st.mode, BacklightMode::Auto);
    assert!(st.should_adjust());
}

#[test]
fn manual_mode_survives_within_twelve_hours() {
    let mut st = ModeState::new(0);
    st.step(Some(BacklightMode::Manual), 1_000);
    assert_eq!(st.mode, BacklightMode::Manual);
    assert!(!st.should_adjust());
    st.step(None, 1_000 + 43_200); // exactly 12 h: still manual
    assert_eq!(st.mode, BacklightMode::Manual);
}

#[test]
fn mode_reverts_to_auto_after_twelve_hours_without_signal() {
    let mut st = ModeState::new(0);
    st.step(Some(BacklightMode::Manual), 1_000);
    st.step(None, 1_000 + 43_201); // one wake, no new command
    assert_eq!(st.mode, BacklightMode::Auto);
    assert!(st.should_adjust());
}

#[test]
fn a_signal_resets_the_reversion_clock() {
    let mut st = ModeState::new(0);
    st.step(Some(BacklightMode::Manual), 1_000);
    st.step(Some(BacklightMode::Manual), 40_000);
    st.step(None, 1_000 + 43_201); // 12 h after the first signal only
    assert_eq!(st.mode, BacklightMode::Manual);
    st.step(None, 40_000 + 43_201);
    assert_eq!(st.mode, BacklightMode::Auto);
}

#[test]
fn brightness_commands_signal_manual_mode() {
    let d = route_command(&BacklightCommand::SetBrightness(40));
    assert_eq!(d.signal, Some(BacklightMode::Manual));
    assert_eq!(d.action, RouterAction::ApplySet(40));

    let d = route_command(&BacklightCommand::IncreaseBrightness(10));
    assert_eq!(d.signal, Some(BacklightMode::Manual));
    assert_eq!(d.action, RouterAction::ApplyIncrease(10));

    let d = route_command(&BacklightCommand::DecreaseBrightness(10));
    assert_eq!(d.signal, Some(BacklightMode::Manual));
    assert_eq!(d.action, RouterAction::ApplyDecrease(10));
}

#[test]
fn mode_command_forwards_its_mode() {
    let d = route_command(&BacklightCommand::SetMode(BacklightMode::Auto));
    assert_eq!(d.signal, Some(BacklightMode::Auto));
    assert_eq!(d.action, RouterAction::NoOp);
    let d = route_command(&BacklightCommand::SetMode(BacklightMode::Manual));
    assert_eq!(d.signal, Some(BacklightMode::Manual));
}

#[test]
fn other_commands_leave_the_scheduler_alone() {
    let d = route_command(&BacklightCommand::Refresh);
    assert_eq!(d.signal, None);
    assert_eq!(d.action, RouterAction::DoRefresh);

    let d = route_command(&BacklightCommand::TurnOffMonitors);
    assert_eq!(d.signal, None);
    assert_eq!(d.action, RouterAction::PowerOff);

    let d = route_command(&BacklightCommand::TurnOnMonitors);
    assert_eq!(d.signal, None);
    assert_eq!(d.action, RouterAction::PowerOn);

    let d = route_command(&BacklightCommand::GetInfo);
    assert_eq!(d.signal, None);
    assert_eq!(d.action, RouterAction::Respond);

    let d = route_command(&BacklightCommand::GetInfoResponse(BacklightInfo {
        brightness_percent: 5,
    }));
    assert_eq!(d.signal, None);
    assert_eq!(d.action, RouterAction::NoOp);

    let d = route_command(&BacklightCommand::NotifyShutdown);
    assert_eq!(d.signal, None);
    assert_eq!(d.action, RouterAction::EndSession);
}
