use plantita_ayudante::buttons::{announces, button_plan, generate_row, ButtonAction, QueueOp};

#[test]
fn button_ids() {
    assert!(ButtonAction::from("skip") == ButtonAction::Skip);
    assert!(ButtonAction::from("stop") == ButtonAction::Stop);
    assert!(ButtonAction::from("pause") == ButtonAction::Pause);
    assert!(ButtonAction::from("resume") == ButtonAction::Resume);
    assert!(ButtonAction::from("close") == ButtonAction::Unknown);
}

#[test]
fn row_has_stop_pause_skip() {
    let row = generate_row();
    let ids: Vec<&str> = row.iter().map(|b| b.custom_id.as_str()).collect();
    assert_eq!(ids, vec!["stop", "pause", "skip"]);
    let labels: Vec<&str> = row.iter().map(|b| b.label.as_str()).collect();
    assert_eq!(labels, vec!["Detener", "Pausar", "Saltar"]);
    assert_eq!(row[1].emoji, '⏸');
    for b in &row {
        assert!(ButtonAction::from(&b.custom_id) != ButtonAction::Unknown);
    }
}

#[test]
fn plans() {
    let p = button_plan(ButtonAction::Skip).unwrap();
    assert!(p.op == QueueOp::Skip && !p.refresh_row);
    assert_eq!(p.reply.as_deref(), Some("Se ha saltado la canción"));
    let p = button_plan(ButtonAction::Pause).unwrap();
    assert!(p.op == QueueOp::Pause && p.refresh_row && p.reply.is_none());
    let p = button_plan(ButtonAction::Stop).unwrap();
    assert_eq!(p.reply.as_deref(), Some("Se ha detenido la canción"));
    assert!(button_plan(ButtonAction::Unknown).is_none());
    assert!(!announces(ButtonAction::Resume));
    assert!(announces(ButtonAction::Stop));
}
