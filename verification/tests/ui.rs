use kubi::draw::{BindTexture, UiDrawCommand};
use kubi::ui::KubiUi;

fn rect(id: u32) -> UiDrawCommand<u32> {
    UiDrawCommand::Rectangle { geometry: id }
}

#[test]
fn changed_frame_rebuilds_the_plan() {
    let mut ui: KubiUi<u32> = KubiUi::new();
    ui.begin();
    ui.record(rect(1));
    ui.record(rect(2));
    assert!(ui.can_build());
    let unchanged = ui.draw_commands().commands == ui.prev_draw_commands().commands;
    assert!(!unchanged);
    ui.end(unchanged);
    let (modified, plan) = ui.draw_plan();
    assert!(modified);
    assert_eq!(plan.calls.len(), 1);
    assert_eq!(plan.calls[0].vertices.len(), 8);
    assert_eq!(plan.calls[0].indices, vec![0, 1, 2, 0, 2, 3, 4, 5, 6, 4, 6, 7]);
}

#[test]
fn unchanged_frame_keeps_the_plan() {
    let mut ui: KubiUi<u32> = KubiUi::default();
    ui.begin();
    ui.record(rect(7));
    ui.end(false);
    ui.begin();
    assert!(!ui.draw_plan().0);
    assert_eq!(ui.prev_draw_commands().commands, vec![rect(7)]);
    assert!(ui.draw_commands().commands.is_empty());
    ui.record(rect(7));
    let unchanged = ui.draw_commands().commands == ui.prev_draw_commands().commands;
    assert!(unchanged);
    ui.end(unchanged);
    let (modified, plan) = ui.draw_plan();
    assert!(!modified);
    assert_eq!(plan.calls.len(), 1);
    assert_eq!(plan.calls[0].vertices.len(), 4);
}

#[test]
fn text_needs_a_font_to_be_built() {
    let mut ui: KubiUi<u32> = KubiUi::new();
    ui.begin();
    ui.record(UiDrawCommand::Text { geometry: 0, size: 12, text: String::from("hi") });
    assert!(!ui.can_build());
    ui.begin();
    ui.record(UiDrawCommand::Text { geometry: 0, size: 12, text: String::new() });
    assert!(ui.can_build());
    ui.end(false);
    let (_, plan) = ui.draw_plan();
    assert_eq!(plan.calls[0].bind_texture, Some(BindTexture::FontTexture));
    assert!(!ui.font_texture().modified);
}

#[test]
fn invalid_font_is_refused_by_the_ui() {
    let mut ui: KubiUi<u32> = KubiUi::new();
    assert!(ui.try_add_font_from_bytes(&[1, 2, 3]).is_none());
}
