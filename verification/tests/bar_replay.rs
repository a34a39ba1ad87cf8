use pengwm::command::{BarMessage, BarState};
use pengwm::ipc::BarReplay;

fn state() -> BarMessage {
    BarMessage::State(BarState {
        workspaces: vec![],
        active_workspace: 0,
        split_direction: None,
        rect: None,
    })
}

#[test]
fn late_bar_gets_last_visibility_then_last_state() {
    let mut r = BarReplay::new();
    assert!(r.replay().is_empty());
    r.record(&BarMessage::Show, b"show\n".to_vec());
    r.record(&state(), b"state\n".to_vec());
    r.record(&BarMessage::Hide, b"hide\n".to_vec());
    r.record(&BarMessage::Reload, b"reload\n".to_vec());
    r.record(&BarMessage::Exit, b"exit\n".to_vec());
    assert_eq!(r.replay(), vec![b"hide\n".to_vec(), b"state\n".to_vec()]);
}
