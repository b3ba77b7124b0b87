//! A UI's drawing from frame to frame.
//!
//! Each frame records draw commands; at the end of the frame the draw plan is rebuilt,
//! but only when the commands differ from those of the frame before.

use vstd::prelude::*;
use crate::draw::{
    UiDrawCommand, UiDrawCommands, UiDrawPlan, draw_plan_of, indices_fit_u32, needs_font,
    commands_fit_u32, commands_need_font, lookups_outcome, text_lookups,
};
use crate::text::{TextRenderer, FontHandle, FontTextureInfo, font_parses};

verus! {

/// The drawing state of a UI: the commands recorded this frame and in the frame before,
/// the draw plan with a flag telling whether it was rebuilt this frame, and the text
/// renderer whose atlas holds the glyphs. `G` is the geometry that the commands carry.
pub struct KubiUi<G> {
    prev_draw_commands: UiDrawCommands<G>,
    draw_commands: UiDrawCommands<G>,
    draw_plan: UiDrawPlan,
    draw_plan_modified: bool,
    text_renderer: TextRenderer,
}

/// A plan can be built from `cmds` with the fonts `font_count`: its indices fit in `u32`,
/// and text with characters has a font to be rendered in.
pub open spec fn buildable<G>(cmds: Seq<UiDrawCommand<G>>, font_count: nat) -> bool {
    &&& indices_fit_u32(cmds)
    &&& needs_font(cmds) ==> font_count > 0
}

/// What starting a frame does: the commands become the previous frame's, the new frame
/// has none, the plan is kept but no longer counts as rebuilt, and the atlas is no longer
/// marked modified; fonts and glyphs stay.
pub open spec fn frame_begun<G>(before: KubiUi<G>, after: KubiUi<G>) -> bool {
    &&& after.prev_commands() == before.commands()
    &&& after.commands() == Seq::<UiDrawCommand<G>>::empty()
    &&& after.plan() == before.plan()
    &&& !after.plan_modified()
    &&& after.text().fonts() == before.text().fonts()
    &&& after.text().atlas().cache() == before.text().atlas().cache()
    &&& after.text().atlas().texture() == before.text().atlas().texture()
    &&& after.text().atlas().texture_size() == before.text().atlas().texture_size()
    &&& !after.text().atlas().is_modified()
}

/// What ending a frame does, given whether its commands equal those of the frame before:
/// if they do, nothing; otherwise the plan is rebuilt from them and counts as rebuilt,
/// the glyphs of their text are looked up in the atlas in order (in font 0), and the
/// commands and fonts stay.
pub open spec fn frame_ended<G>(before: KubiUi<G>, after: KubiUi<G>, unchanged: bool) -> bool {
    if unchanged {
        after == before
    } else {
        &&& after.plan() == draw_plan_of(before.commands())
        &&& after.plan_modified()
        &&& after.commands() == before.commands()
        &&& after.prev_commands() == before.prev_commands()
        &&& after.text().fonts() == before.text().fonts()
        &&& after.text().atlas().texture_size() == before.text().atlas().texture_size()
        &&& before.text().atlas().cache().submap_of(after.text().atlas().cache())
        &&& lookups_outcome(
            before.text().atlas(),
            after.text().atlas(),
            text_lookups(before.commands()),
            before.text().fonts()[0].source(),
        )
    }
}

impl<G> KubiUi<G> {
    /// The commands recorded this frame.
    pub closed spec fn commands(&self) -> Seq<UiDrawCommand<G>> {
        self.draw_commands.commands@
    }

    /// The commands of the frame before.
    pub closed spec fn prev_commands(&self) -> Seq<UiDrawCommand<G>> {
        self.prev_draw_commands.commands@
    }

    /// The current draw plan.
    pub closed spec fn plan(&self) -> Seq<crate::draw::CallView> {
        self.draw_plan@
    }

    /// Whether the plan was rebuilt this frame.
    pub closed spec fn plan_modified(&self) -> bool {
        self.draw_plan_modified
    }

    /// The text renderer.
    pub closed spec fn text(&self) -> TextRenderer {
        self.text_renderer
    }

    /// The text renderer's atlas is well formed.
    pub open spec fn wf(&self) -> bool {
        self.text().wf()
    }

    /// No commands, an empty plan, no fonts and an empty atlas.
    pub fn new() -> (ui: Self)
        ensures
            ui.wf(),
            ui.commands() == Seq::<UiDrawCommand<G>>::empty(),
            ui.prev_commands() == Seq::<UiDrawCommand<G>>::empty(),
            ui.plan() == Seq::<crate::draw::CallView>::empty(),
            !ui.plan_modified(),
            ui.text().fonts().len() == 0,
            ui.text().atlas().cache() =~= Map::empty(),
            !ui.text().atlas().is_modified(),
    {
        KubiUi {
            prev_draw_commands: UiDrawCommands::default(),
            draw_commands: UiDrawCommands::default(),
            draw_plan: UiDrawPlan::default(),
            draw_plan_modified: false,
            text_renderer: TextRenderer::new(),
        }
    }

    /// Parse `font` with fontdue and register it. The bytes must be a font fontdue accepts.
    pub fn add_font_from_bytes(&mut self, font: &[u8]) -> (handle: FontHandle)
        requires
            font_parses(font@),
        ensures
            final(self).text().fonts().len() == old(self).text().fonts().len() + 1,
            final(self).text().fonts().take(old(self).text().fonts().len() as int) == old(self).text().fonts(),
            final(self).text().fonts()[old(self).text().fonts().len() as int].source() == font@,
            handle.index() == old(self).text().fonts().len(),
            final(self).text().atlas() == old(self).text().atlas(),
            final(self).commands() == old(self).commands(),
            final(self).prev_commands() == old(self).prev_commands(),
            final(self).plan() == old(self).plan(),
            final(self).plan_modified() == old(self).plan_modified(),
    {
        self.text_renderer.add_font_from_bytes(font)
    }

    /// Register `font` if fontdue accepts it; `None`, and no change, if it does not.
    pub fn try_add_font_from_bytes(&mut self, font: &[u8]) -> (handle: Option<FontHandle>)
        ensures
            handle is Some <==> font_parses(font@),
            (match handle {
                Some(h) => {
                    &&& final(self).text().fonts().len() == old(self).text().fonts().len() + 1
                    &&& final(self).text().fonts().take(old(self).text().fonts().len() as int) == old(self).text().fonts()
                    &&& final(self).text().fonts()[old(self).text().fonts().len() as int].source() == font@
                    &&& h.index() == old(self).text().fonts().len()
                },
                None => final(self).text().fonts() == old(self).text().fonts(),
            }),
            final(self).text().atlas() == old(self).text().atlas(),
            final(self).commands() == old(self).commands(),
            final(self).prev_commands() == old(self).prev_commands(),
            final(self).plan() == old(self).plan(),
            final(self).plan_modified() == old(self).plan_modified(),
    {
        self.text_renderer.try_add_font_from_bytes(font)
    }

    /// Record a draw command of this frame.
    pub fn record(&mut self, command: UiDrawCommand<G>)
        ensures
            final(self).commands() == old(self).commands().push(command),
            final(self).prev_commands() == old(self).prev_commands(),
            final(self).plan() == old(self).plan(),
            final(self).plan_modified() == old(self).plan_modified(),
            final(self).text() == old(self).text(),
    {
        self.draw_commands.add(command);
    }

    /// Start a frame (see [`frame_begun`]).
    pub fn begin(&mut self)
        requires
            old(self).wf(),
        ensures
            final(self).wf(),
            frame_begun(*old(self), *final(self)),
    {
        std::mem::swap(&mut self.prev_draw_commands, &mut self.draw_commands);
        self.draw_plan_modified = false;
        self.draw_commands.commands.clear();
        self.text_renderer.reset_frame();
    }

    /// Whether a plan can be built from this frame's commands (see [`buildable`]).
    pub fn can_build(&self) -> (ok: bool)
        ensures
            ok == buildable(self.commands(), self.text().fonts().len()),
    {
        commands_fit_u32(&self.draw_commands.commands)
            && (!commands_need_font(&self.draw_commands.commands) || self.text_renderer.font_count() > 0)
    }

    /// End a frame (see [`frame_ended`]). `unchanged` tells whether this frame's commands
    /// equal those of the frame before; the caller compares them, as their geometry is the
    /// caller's. A plan is built only from commands that allow one.
    pub fn end(&mut self, unchanged: bool)
        requires
            old(self).wf(),
            !unchanged ==> buildable(old(self).commands(), old(self).text().fonts().len()),
        ensures
            final(self).wf(),
            frame_ended(*old(self), *final(self), unchanged),
    {
        if unchanged {
            return;
        }
        self.draw_plan = UiDrawPlan::build(&self.draw_commands, &mut self.text_renderer);
        self.draw_plan_modified = true;
    }

    /// The plan and whether it was rebuilt this frame.
    pub fn draw_plan(&self) -> (plan: (bool, &UiDrawPlan))
        ensures
            plan.0 == self.plan_modified(),
            plan.1@ == self.plan(),
    {
        (self.draw_plan_modified, &self.draw_plan)
    }

    /// The commands recorded this frame.
    pub fn draw_commands(&self) -> (commands: &UiDrawCommands<G>)
        ensures
            commands.commands@ == self.commands(),
    {
        &self.draw_commands
    }

    /// The commands of the frame before.
    pub fn prev_draw_commands(&self) -> (commands: &UiDrawCommands<G>)
        ensures
            commands.commands@ == self.prev_commands(),
    {
        &self.prev_draw_commands
    }

    /// The atlas as the renderer sees it.
    pub fn font_texture(&self) -> (info: FontTextureInfo<'_>)
        ensures
            info.modified == self.text().atlas().is_modified(),
            info.data@ == self.text().atlas().texture(),
            info.size == self.text().atlas().texture_size(),
    {
        self.text_renderer.font_texture()
    }
}

impl<G> Default for KubiUi<G> {
    fn default() -> (ui: Self)
        ensures
            ui.wf(),
            ui.commands() == Seq::<UiDrawCommand<G>>::empty(),
            ui.prev_commands() == Seq::<UiDrawCommand<G>>::empty(),
            ui.plan() == Seq::<crate::draw::CallView>::empty(),
            !ui.plan_modified(),
    {
        Self::new()
    }
}

/// A frame that draws what the frame before drew keeps the plan: after starting a frame
/// and ending it unchanged, the plan is the one from before and is not marked rebuilt.
pub proof fn lemma_unchanged_frame_keeps_plan<G>(first: KubiUi<G>, second: KubiUi<G>, third: KubiUi<G>)
    requires
        frame_begun(first, second),
        frame_ended(second, third, true),
    ensures
        third.plan() == first.plan(),
        !third.plan_modified(),
{
}

/// A frame that draws something new ends with the plan of exactly its commands, marked
/// rebuilt.
pub proof fn lemma_changed_frame_rebuilds_plan<G>(before: KubiUi<G>, after: KubiUi<G>)
    requires
        frame_ended(before, after, false),
    ensures
        after.plan() == draw_plan_of(after.commands()),
        after.plan_modified(),
{
}

} // verus!
