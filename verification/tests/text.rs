use std::sync::Arc;
use kubi::text::{TextRenderer, FontTextureManager, FontManager, ParsedFont};
use kubi::draw::{UiDrawCommand, UiDrawCommands, UiDrawPlan, BindTexture};
use kubi::modified::IfModified;
use kubi::math::UVec2;

/// A minimal TrueType font with one glyph, `A`.
const DEMO_FONT: [u8; 400] = [
    0x00, 0x01, 0x00, 0x00, 0x00, 0x07, 0x00, 0x40, 0x00, 0x02, 0x00, 0x30, 0x63, 0x6d, 0x61, 0x70,
    0x00, 0x09, 0x00, 0x76, 0x00, 0x00, 0x01, 0x00, 0x00, 0x00, 0x00, 0x2c, 0x67, 0x6c, 0x79, 0x66,
    0xf1, 0xcb, 0x66, 0x98, 0x00, 0x00, 0x01, 0x34, 0x00, 0x00, 0x00, 0x5c, 0x68, 0x65, 0x61, 0x64,
    0xf2, 0x35, 0xdd, 0xf8, 0x00, 0x00, 0x00, 0x7c, 0x00, 0x00, 0x00, 0x36, 0x68, 0x68, 0x65, 0x61,
    0x06, 0x61, 0x00, 0xca, 0x00, 0x00, 0x00, 0xb4, 0x00, 0x00, 0x00, 0x24, 0x68, 0x6d, 0x74, 0x78,
    0x04, 0x74, 0x00, 0x6a, 0x00, 0x00, 0x00, 0xf8, 0x00, 0x00, 0x00, 0x08, 0x6c, 0x6f, 0x63, 0x61,
    0x00, 0x2e, 0x00, 0x14, 0x00, 0x00, 0x01, 0x2c, 0x00, 0x00, 0x00, 0x06, 0x6d, 0x61, 0x78, 0x70,
    0x00, 0x05, 0x00, 0x0b, 0x00, 0x00, 0x00, 0xd8, 0x00, 0x00, 0x00, 0x20, 0x00, 0x01, 0x00, 0x00,
    0x00, 0x01, 0x00, 0x00, 0xf5, 0x9c, 0x29, 0x44, 0x5f, 0x0f, 0x3c, 0xf5, 0x00, 0x02, 0x03, 0xe8,
    0x00, 0x00, 0x00, 0x00, 0xb4, 0x92, 0xf4, 0x00, 0x00, 0x00, 0x00, 0x00, 0xdc, 0x2f, 0xa6, 0x5c,
    0x00, 0x06, 0x00, 0x00, 0x02, 0x58, 0x02, 0xbc, 0x00, 0x00, 0x00, 0x03, 0x00, 0x02, 0x00, 0x00,
    0x00, 0x00, 0x00, 0x00, 0x00, 0x01, 0x00, 0x00, 0x04, 0x00, 0xfe, 0x70, 0x00, 0x00, 0x02, 0x58,
    0x00, 0x06, 0xff, 0xff, 0x02, 0x58, 0x00, 0x01, 0x00, 0x00, 0x00, 0x00, 0x00, 0x00, 0x00, 0x00,
    0x00, 0x00, 0x00, 0x00, 0x00, 0x00, 0x00, 0x02, 0x00, 0x01, 0x00, 0x00, 0x00, 0x02, 0x00, 0x0b,
    0x00, 0x02, 0x00, 0x00, 0x00, 0x00, 0x00, 0x00, 0x00, 0x00, 0x00, 0x00, 0x00, 0x00, 0x00, 0x00,
    0x00, 0x00, 0x00, 0x00, 0x00, 0x00, 0x00, 0x00, 0x02, 0x58, 0x00, 0x64, 0x02, 0x1c, 0x00, 0x06,
    0x00, 0x00, 0x00, 0x01, 0x00, 0x00, 0x00, 0x03, 0x00, 0x00, 0x00, 0x0c, 0x00, 0x04, 0x00, 0x20,
    0x00, 0x00, 0x00, 0x04, 0x00, 0x04, 0x00, 0x01, 0x00, 0x00, 0x00, 0x41, 0xff, 0xff, 0x00, 0x00,
    0x00, 0x41, 0xff, 0xff, 0xff, 0xc0, 0x00, 0x01, 0x00, 0x00, 0x00, 0x00, 0x00, 0x00, 0x00, 0x14,
    0x00, 0x2e, 0x00, 0x00, 0x00, 0x02, 0x00, 0x64, 0x00, 0x00, 0x02, 0x58, 0x02, 0xbc, 0x00, 0x03,
    0x00, 0x07, 0x00, 0x00, 0x33, 0x11, 0x21, 0x11, 0x25, 0x21, 0x11, 0x21, 0x64, 0x01, 0xf4, 0xfe,
    0x34, 0x01, 0xa4, 0xfe, 0x5c, 0x02, 0xbc, 0xfd, 0x44, 0x28, 0x02, 0x6c, 0x00, 0x02, 0x00, 0x06,
    0x00, 0x00, 0x02, 0x1d, 0x02, 0x90, 0x00, 0x02, 0x00, 0x0a, 0x00, 0x00, 0x13, 0x33, 0x03, 0x01,
    0x13, 0x33, 0x13, 0x23, 0x27, 0x23, 0x07, 0xad, 0xc4, 0x63, 0xfe, 0xf8, 0xda, 0x60, 0xdd, 0x59,
    0x3e, 0xef, 0x42, 0x01, 0x0b, 0x01, 0x40, 0xfd, 0xb5, 0x02, 0x90, 0xfd, 0x70, 0xc8, 0xc8, 0x00,
];

#[test]
fn invalid_font_bytes_are_refused() {
    let mut tr = TextRenderer::new();
    assert!(tr.try_add_font_from_bytes(&[1, 2, 3, 4]).is_none());
}

#[test]
fn fresh_renderer_has_an_empty_unmodified_atlas() {
    let tr = TextRenderer::new();
    let info = tr.font_texture();
    assert!(!info.modified);
    assert_eq!(info.size, UVec2 { x: 1024, y: 1024 });
    assert_eq!(info.data.len(), 1024 * 1024 * 4);
    assert!(info.data.iter().all(|&b| b == 0));
    assert!(info.if_modified().is_none());
}

#[test]
fn font_texture_manager_new_allocates_rgba_texture() {
    let ftm = FontTextureManager::new(UVec2 { x: 8, y: 4 });
    let info = ftm.info();
    assert_eq!(info.data.len(), 8 * 4 * 4);
    assert_eq!(info.size, UVec2 { x: 8, y: 4 });
    assert!(!info.modified);
}

#[test]
fn font_manager_finds_added_fonts_by_handle() {
    let mut fm = FontManager::new();
    let first = fm.add_font(ParsedFont::from_bytes(&DEMO_FONT).expect("demo font"));
    let second = fm.add_font(ParsedFont::from_bytes(&DEMO_FONT).expect("demo font"));
    assert!(ParsedFont::from_bytes(&[0, 1, 2]).is_none());
    assert_ne!(first, second);
    assert!(fm.get(first).is_some());
    assert!(fm.get(second).is_some());
    let empty = FontManager::default();
    assert!(empty.get(first).is_none());
}

#[test]
fn glyph_is_rendered_once_and_then_cached() {
    let mut tr = TextRenderer::new();
    let handle = match tr.try_add_font_from_bytes(&DEMO_FONT) {
        Some(h) => h,
        None => {
            // the demo font must be accepted by fontdue for the rest of this test
            panic!("demo font refused");
        }
    };
    let first = tr.glyph(handle, 'A', 16).expect("glyph placed");
    assert!(first.size.x > 0 && first.size.y > 0);
    assert_eq!(first.size.x as usize, first.metrics.width);
    assert_eq!(first.size.y as usize, first.metrics.height);
    assert_eq!(first.data.len(), first.metrics.width * first.metrics.height);
    {
        let info = tr.font_texture();
        assert!(info.modified);
        assert!(info.if_modified().is_some());
        // every pixel of the glyph is white with the coverage as alpha
        let w = info.size.x as usize;
        for y in 0..first.size.y as usize {
            for x in 0..first.size.x as usize {
                let p = w * (first.position.y as usize + y) + first.position.x as usize + x;
                assert_eq!(&info.data[4 * p..4 * p + 3], &[255, 255, 255]);
                assert_eq!(info.data[4 * p + 3], first.data[first.size.x as usize * y + x]);
            }
        }
        // a pixel outside the glyph stays clear
        let outside = w * (first.position.y as usize + first.size.y as usize) + first.position.x as usize;
        if 4 * outside + 3 < info.data.len() {
            assert_eq!(info.data[4 * outside + 3], 0);
        }
    }
    tr.reset_frame();
    assert!(!tr.font_texture().modified);
    let before: Vec<u8> = tr.font_texture().data.to_vec();
    let second = tr.glyph(handle, 'A', 16).expect("cached glyph");
    assert!(Arc::ptr_eq(&first, &second));
    assert!(!tr.font_texture().modified);
    assert_eq!(tr.font_texture().data, &before[..]);
}

#[test]
fn different_sizes_are_different_glyphs() {
    let mut tr = TextRenderer::new();
    let handle = tr.try_add_font_from_bytes(&DEMO_FONT).expect("demo font");
    let small = tr.glyph(handle, 'A', 12).expect("small glyph");
    let large = tr.glyph(handle, 'A', 32).expect("large glyph");
    assert!(!Arc::ptr_eq(&small, &large));
    assert!(large.size.x >= small.size.x);
}

#[test]
fn building_text_renders_its_glyphs() {
    let mut tr = TextRenderer::new();
    tr.try_add_font_from_bytes(&DEMO_FONT).expect("demo font");
    let commands = UiDrawCommands {
        commands: vec![UiDrawCommand::Text { geometry: (), size: 16, text: String::from("AA") }],
    };
    let plan = UiDrawPlan::build(&commands, &mut tr);
    assert_eq!(plan.calls.len(), 1);
    assert_eq!(plan.calls[0].bind_texture, Some(BindTexture::FontTexture));
    assert!(tr.font_texture().modified);
    assert!(tr.font_texture().data.iter().any(|&b| b == 255));
}

#[test]
fn added_font_handles_are_consecutive() {
    let mut tr = TextRenderer::new();
    let a = tr.try_add_font_from_bytes(&DEMO_FONT).expect("demo font");
    let b = tr.try_add_font_from_bytes(&DEMO_FONT).expect("demo font");
    assert_ne!(a, b);
    let _ = tr.glyph(b, 'A', 8);
}

#[test]
fn earlier_glyphs_stay_shown_and_glyphs_do_not_overlap() {
    let mut tr = TextRenderer::new();
    let handle = tr.try_add_font_from_bytes(&DEMO_FONT).expect("demo font");
    let first = tr.glyph(handle, 'A', 20).expect("first glyph");
    let second = tr.glyph(handle, 'A', 24).expect("second glyph");
    let apart = first.position.x + first.size.x as i32 <= second.position.x
        || second.position.x + second.size.x as i32 <= first.position.x
        || first.position.y + first.size.y as i32 <= second.position.y
        || second.position.y + second.size.y as i32 <= first.position.y;
    assert!(apart);
    let info = tr.font_texture();
    let w = info.size.x as usize;
    for glyph in [&first, &second] {
        for y in 0..glyph.size.y as usize {
            for x in 0..glyph.size.x as usize {
                let p = w * (glyph.position.y as usize + y) + glyph.position.x as usize + x;
                assert_eq!(&info.data[4 * p..4 * p + 3], &[255, 255, 255]);
                assert_eq!(info.data[4 * p + 3], glyph.data[glyph.size.x as usize * y + x]);
            }
        }
    }
}

#[test]
fn first_glyph_of_an_empty_atlas_goes_to_the_corner() {
    let mut tr = TextRenderer::new();
    let handle = tr.try_add_font_from_bytes(&DEMO_FONT).expect("demo font");
    let glyph = tr.glyph(handle, 'A', 16).expect("fits the empty atlas");
    assert_eq!((glyph.position.x, glyph.position.y), (0, 0));
    assert!(glyph.size.x > 0 && glyph.size.y > 0);
}

#[test]
fn later_glyphs_go_where_the_packer_puts_them() {
    let mut tr = TextRenderer::new();
    let handle = tr.try_add_font_from_bytes(&DEMO_FONT).expect("demo font");
    let first = tr.glyph(handle, 'A', 20).expect("first glyph");
    let second = tr.glyph(handle, 'A', 24).expect("second glyph");
    let third = tr.glyph(handle, 'A', 12).expect("third glyph");
    assert_eq!((first.position.x, first.position.y), (0, 0));
    // the lowest place on the skyline is to the right of the glyphs placed so far
    assert_eq!((second.position.x, second.position.y), (first.size.x as i32, 0));
    assert_eq!((third.position.x, third.position.y), ((first.size.x + second.size.x) as i32, 0));
}

#[test]
fn a_font_added_after_a_refused_one_gets_the_next_handle() {
    let mut tr = TextRenderer::new();
    assert!(tr.try_add_font_from_bytes(&[0, 1, 2]).is_none());
    assert_eq!(tr.font_count(), 0);
    let first = tr.add_font_from_bytes(&DEMO_FONT);
    let second = tr.try_add_font_from_bytes(&DEMO_FONT).expect("demo font");
    assert_eq!(tr.font_count(), 2);
    assert_ne!(first, second);
    let a = tr.glyph(first, 'A', 18).expect("glyph of the first font");
    let b = tr.glyph(second, 'A', 18).expect("glyph of the second font");
    assert!(!Arc::ptr_eq(&a, &b));
    assert_eq!(a.data, b.data);
    assert_eq!(a.size, b.size);
}
