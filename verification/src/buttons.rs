//! The music player's buttons: which button was pressed, what it does to the
//! queue, and whether the player answers with a message or refreshes its row.

use vstd::prelude::*;
use crate::text::str_eq;

verus! {

/// A button of the music player, by its custom id.
#[derive(PartialEq, Eq, Structural, Clone, Copy)]
pub enum ButtonAction {
    Skip,
    Stop,
    Pause,
    Resume,
    Unknown,
}

/// The button named by a custom id.
pub open spec fn spec_button_action(item: Seq<char>) -> ButtonAction {
    if item == "skip"@ {
        ButtonAction::Skip
    } else if item == "stop"@ {
        ButtonAction::Stop
    } else if item == "pause"@ {
        ButtonAction::Pause
    } else if item == "resume"@ {
        ButtonAction::Resume
    } else {
        ButtonAction::Unknown
    }
}

impl ButtonAction {
    /// The button named by a custom id; unknown ids give `Unknown`.
    pub fn from(item: &str) -> (a: ButtonAction)
        ensures
            a == spec_button_action(item@),
    {
        if str_eq(item, "skip") {
            ButtonAction::Skip
        } else if str_eq(item, "stop") {
            ButtonAction::Stop
        } else if str_eq(item, "pause") {
            ButtonAction::Pause
        } else if str_eq(item, "resume") {
            ButtonAction::Resume
        } else {
            ButtonAction::Unknown
        }
    }
}

/// A button of the player's row: its custom id, label and emoji.
pub struct ButtonSpec {
    pub custom_id: String,
    pub label: String,
    pub emoji: char,
}

fn button(custom_id: &str, label: &str, emoji: char) -> (b: ButtonSpec)
    ensures
        b.custom_id@ == custom_id@,
        b.label@ == label@,
        b.emoji == emoji,
{
    ButtonSpec { custom_id: custom_id.to_owned(), label: label.to_owned(), emoji }
}

/// The player's row of buttons: stop, pause, skip.
pub fn generate_row() -> (row: Vec<ButtonSpec>)
    ensures
        row.len() == 3,
        row@[0].custom_id@ == "stop"@ && row@[0].label@ == "Detener"@ && row@[0].emoji == '⏹',
        row@[1].custom_id@ == "pause"@ && row@[1].label@ == "Pausar"@ && row@[1].emoji == '⏸',
        row@[2].custom_id@ == "skip"@ && row@[2].label@ == "Saltar"@ && row@[2].emoji == '⏭',
{
    let pause = button("pause", "Pausar", '⏸');
    let skip = button("skip", "Saltar", '⏭');
    let stop = button("stop", "Detener", '⏹');
    let mut row = Vec::new();
    row.push(stop);
    row.push(pause);
    row.push(skip);
    row
}

/// Every button of the player's row is recognized by its custom id: the ids
/// that `generate_row` gives map back, through `ButtonAction::from`, to stop,
/// pause and skip.
pub proof fn lemma_row_buttons_recognized()
    ensures
        spec_button_action("stop"@) == ButtonAction::Stop,
        spec_button_action("pause"@) == ButtonAction::Pause,
        spec_button_action("skip"@) == ButtonAction::Skip,
{
    reveal_strlit("skip");
    reveal_strlit("stop");
    reveal_strlit("pause");
    assert("stop"@ != "skip"@) by {
        assert("stop"@[1] != "skip"@[1]);
    }
    assert("pause"@ != "skip"@) by {
        assert("pause"@.len() != "skip"@.len());
    }
    assert("pause"@ != "stop"@) by {
        assert("pause"@.len() != "stop"@.len());
    }
}

/// What a button does to the track queue.
#[derive(PartialEq, Eq, Structural, Clone, Copy)]
pub enum QueueOp {
    Skip,
    Pause,
    Resume,
    Stop,
}

/// What pressing a button leads to.
pub struct ButtonPlan {
    /// The operation on the queue.
    pub op: QueueOp,
    /// The message the player answers with, if any.
    pub reply: Option<String>,
    /// Whether the row of buttons is sent again after the operation.
    pub refresh_row: bool,
}

/// After its operation, a button answers with its message, except pause and
/// resume, which answer nothing.
pub fn announces(action: ButtonAction) -> (b: bool)
    ensures
        b == !(action == ButtonAction::Pause || action == ButtonAction::Resume),
{
    match action {
        ButtonAction::Pause | ButtonAction::Resume => false,
        _ => true,
    }
}

/// What pressing a button does: skip and stop answer with a message; pause
/// and resume answer nothing and refresh the row; unknown buttons do nothing.
pub fn button_plan(action: ButtonAction) -> (p: Option<ButtonPlan>)
    ensures
        action == ButtonAction::Unknown <==> p is None,
        action == ButtonAction::Skip ==> p is Some && p->0.op == QueueOp::Skip && !p->0.refresh_row
            && p->0.reply is Some && p->0.reply->0@ == "Se ha saltado la canción"@,
        action == ButtonAction::Stop ==> p is Some && p->0.op == QueueOp::Stop && !p->0.refresh_row
            && p->0.reply is Some && p->0.reply->0@ == "Se ha detenido la canción"@,
        action == ButtonAction::Pause ==> p is Some && p->0.op == QueueOp::Pause && p->0.refresh_row
            && p->0.reply is None,
        action == ButtonAction::Resume ==> p is Some && p->0.op == QueueOp::Resume && p->0.refresh_row
            && p->0.reply is None,
{
    match action {
        ButtonAction::Skip => Some(
            ButtonPlan { op: QueueOp::Skip, reply: Some("Se ha saltado la canción".to_owned()), refresh_row: false },
        ),
        ButtonAction::Stop => Some(
            ButtonPlan { op: QueueOp::Stop, reply: Some("Se ha detenido la canción".to_owned()), refresh_row: false },
        ),
        ButtonAction::Pause => Some(ButtonPlan { op: QueueOp::Pause, reply: None, refresh_row: true }),
        ButtonAction::Resume => Some(ButtonPlan { op: QueueOp::Resume, reply: None, refresh_row: true }),
        ButtonAction::Unknown => None,
    }
}

} // verus!
