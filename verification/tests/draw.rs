use kubi::draw::{UiDrawCommand, UiDrawCommands, UiDrawPlan, BindTexture, Corner, UiVertex};
use kubi::modified::IfModified;
use kubi::text::TextRenderer;

fn rect(id: u32) -> UiDrawCommand<u32> {
    UiDrawCommand::Rectangle { geometry: id }
}

fn empty_text(id: u32) -> UiDrawCommand<u32> {
    UiDrawCommand::Text { geometry: id, size: 16, text: String::new() }
}

#[test]
fn empty_command_list_gives_one_empty_call() {
    let mut tr = TextRenderer::new();
    let commands: UiDrawCommands<u32> = UiDrawCommands::default();
    let plan = UiDrawPlan::build(&commands, &mut tr);
    assert_eq!(plan.calls.len(), 1);
    assert!(plan.calls[0].vertices.is_empty());
    assert!(plan.calls[0].indices.is_empty());
    assert_eq!(plan.calls[0].bind_texture, None);
}

#[test]
fn consecutive_rectangles_share_a_call() {
    let mut tr = TextRenderer::new();
    let commands = UiDrawCommands { commands: vec![rect(0), rect(1)] };
    let plan = UiDrawPlan::build(&commands, &mut tr);
    assert_eq!(plan.calls.len(), 1);
    let call = &plan.calls[0];
    assert_eq!(call.indices, vec![0, 1, 2, 0, 2, 3, 4, 5, 6, 4, 6, 7]);
    assert_eq!(call.vertices.len(), 8);
    assert_eq!(call.vertices[0], UiVertex { command: 0, corner: Corner::TopLeft });
    assert_eq!(call.vertices[1], UiVertex { command: 0, corner: Corner::TopRight });
    assert_eq!(call.vertices[2], UiVertex { command: 0, corner: Corner::BottomRight });
    assert_eq!(call.vertices[3], UiVertex { command: 0, corner: Corner::BottomLeft });
    assert_eq!(call.vertices[4], UiVertex { command: 1, corner: Corner::TopLeft });
    assert_eq!(call.bind_texture, None);
}

#[test]
fn a_change_of_kind_starts_a_new_call() {
    let mut tr = TextRenderer::new();
    let commands = UiDrawCommands {
        commands: vec![rect(0), rect(1), empty_text(2), empty_text(3), rect(4)],
    };
    let plan = UiDrawPlan::build(&commands, &mut tr);
    assert_eq!(plan.calls.len(), 3);
    assert_eq!(plan.calls[0].vertices.len(), 8);
    assert_eq!(plan.calls[0].bind_texture, None);
    assert_eq!(plan.calls[1].vertices.len(), 8);
    assert_eq!(plan.calls[1].bind_texture, Some(BindTexture::FontTexture));
    assert_eq!(plan.calls[1].vertices[0].command, 2);
    assert_eq!(plan.calls[1].indices, vec![0, 1, 2, 0, 2, 3, 4, 5, 6, 4, 6, 7]);
    assert_eq!(plan.calls[2].vertices.len(), 4);
    assert_eq!(plan.calls[2].vertices[0].command, 4);
    assert_eq!(plan.calls[2].indices, vec![0, 1, 2, 0, 2, 3]);
    assert_eq!(plan.calls[2].bind_texture, None);
}

#[test]
fn a_leading_text_command_binds_the_font_texture() {
    let mut tr = TextRenderer::new();
    let commands = UiDrawCommands { commands: vec![empty_text(0), rect(1)] };
    let plan = UiDrawPlan::build(&commands, &mut tr);
    assert_eq!(plan.calls.len(), 2);
    assert_eq!(plan.calls[0].bind_texture, Some(BindTexture::FontTexture));
    assert_eq!(plan.calls[1].bind_texture, None);
}

#[test]
fn every_index_names_a_vertex_of_its_call() {
    let mut tr = TextRenderer::new();
    let mut list = Vec::new();
    for i in 0..50u32 {
        if i % 7 < 3 { list.push(rect(i)) } else { list.push(empty_text(i)) }
    }
    let commands = UiDrawCommands { commands: list };
    let plan = UiDrawPlan::build(&commands, &mut tr);
    let mut total = 0;
    let mut next_command = 0;
    for call in &plan.calls {
        assert_eq!(call.indices.len() * 4, call.vertices.len() * 6);
        for &i in &call.indices {
            assert!((i as usize) < call.vertices.len());
        }
        for (k, v) in call.vertices.iter().enumerate() {
            assert_eq!(v.command, next_command + k / 4);
        }
        next_command += call.vertices.len() / 4;
        total += call.vertices.len();
    }
    assert_eq!(total, 4 * 50);
}

#[test]
fn draw_plan_if_modified_follows_the_flag() {
    let plan = UiDrawPlan::default();
    assert!((true, &plan).if_modified().is_some());
    assert!((false, &plan).if_modified().is_none());
}
