//! Draw commands and the draw plan built from them.
//!
//! A frame produces a list of draw commands (rectangles and text). The plan groups
//! consecutive commands of the same kind into one draw call; every command becomes a quad
//! of four vertices and six indices in its call. A vertex here records which command and
//! which corner it stands for; the renderer derives its position, colour and texture
//! coordinate from that command's geometry.

use vstd::prelude::*;
use std::sync::Arc;
use crate::text::{TextRenderer, FontHandle, FontTextureManager, GlyphKey, GlyphCacheEntry, glyph_outcome};

verus! {

broadcast use vstd::string::group_string_axioms;

/// One drawing operation. `G` is the geometry (position, size, colour) that the renderer
/// keeps for the command; the plan only carries it along.
#[derive(Clone, Debug, PartialEq)]
pub enum UiDrawCommand<G> {
    /// A filled, coloured rectangle.
    Rectangle { geometry: G },
    /// A line of text at a font size.
    Text { geometry: G, size: u8, text: String },
}

/// The commands of one frame, in drawing order.
pub struct UiDrawCommands<G> {
    pub commands: Vec<UiDrawCommand<G>>,
}

impl<G> UiDrawCommands<G> {
    /// Append a command.
    pub fn add(&mut self, command: UiDrawCommand<G>)
        ensures
            final(self).commands@ == old(self).commands@.push(command),
    {
        self.commands.push(command);
    }
}

impl<G> Default for UiDrawCommands<G> {
    fn default() -> (c: Self)
        ensures
            c.commands@.len() == 0,
    {
        UiDrawCommands { commands: Vec::new() }
    }
}

/// A texture that a draw call samples.
#[derive(Clone, Copy, Debug, PartialEq, Eq, Structural)]
pub enum BindTexture {
    FontTexture,
}

/// A corner of a command's quad, in the order the quad's vertices are emitted:
/// texture coordinates (0, 0), (1, 0), (1, 1), (0, 1).
#[derive(Clone, Copy, Debug, PartialEq, Eq, Structural)]
pub enum Corner {
    TopLeft,
    TopRight,
    BottomRight,
    BottomLeft,
}

/// A vertex of the plan: the corner `corner` of the quad of command number `command`.
#[derive(Clone, Copy, Debug, PartialEq, Eq, Structural)]
pub struct UiVertex {
    pub command: usize,
    pub corner: Corner,
}

/// One draw call: vertices, triangle indices into them, and the texture it binds.
pub struct UiDrawCall {
    pub vertices: Vec<UiVertex>,
    pub indices: Vec<u32>,
    pub bind_texture: Option<BindTexture>,
}

/// The abstract content of a draw call: (vertices, indices, bound texture).
pub type CallView = (Seq<UiVertex>, Seq<u32>, Option<BindTexture>);

impl View for UiDrawCall {
    type V = CallView;

    open spec fn view(&self) -> CallView {
        (self.vertices@, self.indices@, self.bind_texture)
    }
}

impl Default for UiDrawCall {
    fn default() -> (call: Self)
        ensures
            call@ == empty_call(),
    {
        UiDrawCall { vertices: Vec::new(), indices: Vec::new(), bind_texture: None }
    }
}

/// The draw calls of a frame, in drawing order.
pub struct UiDrawPlan {
    pub calls: Vec<UiDrawCall>,
}

impl View for UiDrawPlan {
    type V = Seq<CallView>;

    open spec fn view(&self) -> Seq<CallView> {
        self.calls@.map_values(|c: UiDrawCall| c@)
    }
}

impl Default for UiDrawPlan {
    fn default() -> (plan: Self)
        ensures
            plan@ == Seq::<CallView>::empty(),
    {
        let plan = UiDrawPlan { calls: Vec::new() };
        assert(plan@ =~= Seq::<CallView>::empty());
        plan
    }
}

// ---------------------------------------------------------------------------
// specification of the plan

/// A draw call with nothing in it.
pub open spec fn empty_call() -> CallView {
    (Seq::empty(), Seq::empty(), None)
}

/// Two commands are of the same kind (both rectangles or both text).
pub open spec fn same_kind<G>(a: UiDrawCommand<G>, b: UiDrawCommand<G>) -> bool {
    (a is Text) == (b is Text)
}

/// The four vertices of the quad of command `j`.
pub open spec fn quad_vertices(j: int) -> Seq<UiVertex> {
    seq![
        UiVertex { command: j as usize, corner: Corner::TopLeft },
        UiVertex { command: j as usize, corner: Corner::TopRight },
        UiVertex { command: j as usize, corner: Corner::BottomRight },
        UiVertex { command: j as usize, corner: Corner::BottomLeft },
    ]
}

/// The two triangles of a quad whose first vertex is vertex `v` of its call.
pub open spec fn quad_indices(v: int) -> Seq<u32> {
    seq![v as u32, (v + 1) as u32, (v + 2) as u32, v as u32, (v + 2) as u32, (v + 3) as u32]
}

/// Command `j` starts a new draw call: it differs in kind from the command before it.
pub open spec fn starts_call<G>(cmds: Seq<UiDrawCommand<G>>, j: int) -> bool {
    j > 0 && !same_kind(cmds[j - 1], cmds[j])
}

/// The plan for the first `n` commands: it starts as one empty call; each command opens a
/// new call when it differs in kind from the one before, a text command makes the call it
/// opens (or the first call) bind the font texture, and the command's quad is appended to
/// the last call.
pub open spec fn plan_prefix<G>(cmds: Seq<UiDrawCommand<G>>, n: nat) -> Seq<CallView>
    decreases n,
{
    if n == 0 {
        seq![empty_call()]
    } else {
        let j = n - 1;
        let prev = plan_prefix(cmds, (n - 1) as nat);
        let calls = if starts_call(cmds, j) { prev.push(empty_call()) } else { prev };
        let cur = calls.last();
        let bind = if (starts_call(cmds, j) || j == 0) && cmds[j] is Text {
            Some(BindTexture::FontTexture)
        } else {
            cur.2
        };
        calls.update(
            calls.len() - 1,
            (cur.0 + quad_vertices(j), cur.1 + quad_indices(cur.0.len() as int), bind),
        )
    }
}

/// The draw plan of a command list.
pub open spec fn draw_plan_of<G>(cmds: Seq<UiDrawCommand<G>>) -> Seq<CallView> {
    plan_prefix(cmds, cmds.len())
}

/// Some text command has characters to render (and so needs a font).
pub open spec fn needs_font<G>(cmds: Seq<UiDrawCommand<G>>) -> bool {
    exists|j: int| 0 <= j < cmds.len() && (#[trigger] cmds[j] matches UiDrawCommand::Text { text, .. } && text@.len() > 0)
}

/// `key` names a glyph of some text command: font 0, that command's size and one of its
/// characters.
pub open spec fn text_glyph_key<G>(cmds: Seq<UiDrawCommand<G>>, key: (usize, char, u8)) -> bool {
    &&& key.0 == 0
    &&& exists|j: int| 0 <= j < cmds.len() && (#[trigger] cmds[j] matches UiDrawCommand::Text { size, text, .. } && size == key.2 && text@.contains(key.1))
}

/// The glyph keys of the characters of `text` at `size`, in font 0, in order.
pub open spec fn char_keys(text: Seq<char>, size: u8) -> Seq<GlyphKey> {
    text.map_values(|c: char| (0usize, c, size))
}

/// The glyph lookups that building the plan of `cmds` makes, in order: for each text
/// command, each of its characters at its size, in font 0.
pub open spec fn text_lookups<G>(cmds: Seq<UiDrawCommand<G>>) -> Seq<GlyphKey>
    decreases cmds.len(),
{
    if cmds.len() == 0 {
        Seq::empty()
    } else {
        text_lookups(cmds.drop_last()) + match cmds.last() {
            UiDrawCommand::Text { size, text, .. } => char_keys(text@, size),
            UiDrawCommand::Rectangle { .. } => Seq::empty(),
        }
    }
}

/// The lookups of a run of commands are those of its first part followed by those of the
/// rest.
pub proof fn lemma_text_lookups_concat<G>(a: Seq<UiDrawCommand<G>>, b: Seq<UiDrawCommand<G>>)
    ensures
        text_lookups(a + b) == text_lookups(a) + text_lookups(b),
    decreases b.len(),
{
    if b.len() == 0 {
        assert(a + b =~= a);
        assert(text_lookups(a) + text_lookups(b) =~= text_lookups(a));
    } else {
        assert((a + b).drop_last() =~= a + b.drop_last());
        assert((a + b).last() == b.last());
        lemma_text_lookups_concat(a, b.drop_last());
        let rest = match b.last() {
            UiDrawCommand::Text { size, text, .. } => char_keys(text@, size),
            UiDrawCommand::Rectangle { .. } => Seq::empty(),
        };
        assert(text_lookups(a) + text_lookups(b.drop_last()) + rest =~= text_lookups(a) + (text_lookups(b.drop_last()) + rest));
    }
}

/// One command looks up nothing when it is a rectangle, and when it is text, each of its
/// characters in turn, at its size, in the first font.
pub proof fn lemma_text_lookups_one<G>(command: UiDrawCommand<G>)
    ensures
        command is Rectangle ==> text_lookups(seq![command]).len() == 0,
        command matches UiDrawCommand::Text { size, text, .. } ==> {
            &&& text_lookups(seq![command]).len() == text@.len()
            &&& forall|i: int| 0 <= i < text@.len() ==> #[trigger] text_lookups(seq![command])[i] == (0usize, text@[i], size)
        },
{
    let one = seq![command];
    assert(one.drop_last() =~= Seq::<UiDrawCommand<G>>::empty());
    assert(one.last() == command);
    assert(text_lookups(one.drop_last()) == Seq::<GlyphKey>::empty());
    match command {
        UiDrawCommand::Text { size, text, .. } => {
            assert(text_lookups(one) =~= char_keys(text@, size));
        },
        _ => {},
    }
}

/// `trace` is a run of lookups of `keys`, in order, in an atlas whose glyphs are those of
/// the font parsed from `source`: each lookup takes the atlas from one state of the trace to
/// the next and returns the matching one of `entries`, as [`glyph_outcome`] says.
pub open spec fn lookup_trace(
    trace: Seq<FontTextureManager>,
    entries: Seq<Option<Arc<GlyphCacheEntry>>>,
    keys: Seq<GlyphKey>,
    source: Seq<u8>,
) -> bool {
    &&& trace.len() == keys.len() + 1
    &&& entries.len() == keys.len()
    &&& forall|i: int|
        0 <= i < keys.len() ==> #[trigger] glyph_outcome(trace[i], trace[i + 1], keys[i], source, entries[i])
}

/// `after` is what looking up `keys`, in order, in the atlas `before` can leave (see
/// [`lookup_trace`]).
pub open spec fn lookups_outcome(
    before: FontTextureManager,
    after: FontTextureManager,
    keys: Seq<GlyphKey>,
    source: Seq<u8>,
) -> bool {
    exists|trace: Seq<FontTextureManager>, entries: Seq<Option<Arc<GlyphCacheEntry>>>|
        #[trigger] lookup_trace(trace, entries, keys, source) && trace[0] == before && trace.last() == after
}

/// A glyph that a lookup of the run found stays cached, as it was found, in every later
/// state of the run.
proof fn lemma_found_glyph_cached_until(
    trace: Seq<FontTextureManager>,
    entries: Seq<Option<Arc<GlyphCacheEntry>>>,
    keys: Seq<GlyphKey>,
    source: Seq<u8>,
    i: int,
    j: int,
)
    requires
        lookup_trace(trace, entries, keys, source),
        0 <= i < j <= keys.len(),
        entries[i] is Some,
    ensures
        trace[j].cache().contains_key(keys[i]),
        trace[j].cache()[keys[i]] == entries[i]->0,
    decreases j - i,
{
    if j == i + 1 {
        assert(glyph_outcome(trace[i], trace[i + 1], keys[i], source, entries[i]));
    } else {
        let m = j - 1;
        lemma_found_glyph_cached_until(trace, entries, keys, source, i, m);
        assert(glyph_outcome(trace[m], trace[m + 1], keys[m], source, entries[m]));
        assert(trace[m].cache().contains_key(keys[i]));
    }
}

/// Every glyph that one of a run of lookups found is cached at the end of the run, as it
/// was found: building a plan leaves each glyph of its text that the atlas took in the atlas.
pub proof fn lemma_found_glyphs_stay_cached(
    trace: Seq<FontTextureManager>,
    entries: Seq<Option<Arc<GlyphCacheEntry>>>,
    keys: Seq<GlyphKey>,
    source: Seq<u8>,
    i: int,
)
    requires
        lookup_trace(trace, entries, keys, source),
        0 <= i < keys.len(),
        entries[i] is Some,
    ensures
        trace.last().cache().contains_key(keys[i]),
        trace.last().cache()[keys[i]] == entries[i]->0,
{
    lemma_found_glyph_cached_until(trace, entries, keys, source, i, keys.len() as int);
}

/// How many commands of the same kind directly precede command `j` in its run.
pub open spec fn run_offset<G>(cmds: Seq<UiDrawCommand<G>>, j: int) -> nat
    decreases j,
{
    if j <= 0 {
        0
    } else if starts_call(cmds, j) {
        0
    } else {
        run_offset(cmds, j - 1) + 1
    }
}

/// Every quad's indices fit in `u32` (no call holds more than 2^30 quads).
pub open spec fn indices_fit_u32<G>(cmds: Seq<UiDrawCommand<G>>) -> bool {
    forall|j: int| 0 <= j < cmds.len() ==> 4 * run_offset(cmds, j) + 3 <= u32::MAX
}

/// The last call of the plan for the first `n` commands holds four vertices per command of
/// the run that ends at command `n - 1`.
proof fn lemma_plan_prefix_last<G>(cmds: Seq<UiDrawCommand<G>>, n: nat)
    requires
        0 < n <= cmds.len(),
    ensures
        plan_prefix(cmds, n).len() >= 1,
        plan_prefix(cmds, n).last().0.len() == 4 * (run_offset(cmds, n - 1) + 1),
    decreases n,
{
    let j = n - 1;
    let prev = plan_prefix(cmds, (n - 1) as nat);
    lemma_plan_prefix_len(cmds, (n - 1) as nat);
    let calls = if starts_call(cmds, j) { prev.push(empty_call()) } else { prev };
    assert(calls.len() >= 1);
    if n > 1 {
        lemma_plan_prefix_last(cmds, (n - 1) as nat);
    }
    if !starts_call(cmds, j) && j > 0 {
        assert(calls.last() == prev.last());
    }
    assert(plan_prefix(cmds, n).last().0 == calls.last().0 + quad_vertices(j));
    lemma_plan_prefix_len(cmds, n);
}

/// A plan has at least one call.
proof fn lemma_plan_prefix_len<G>(cmds: Seq<UiDrawCommand<G>>, n: nat)
    requires
        n <= cmds.len(),
    ensures
        plan_prefix(cmds, n).len() >= 1,
    decreases n,
{
    if n > 0 {
        lemma_plan_prefix_len(cmds, (n - 1) as nat);
    }
}


// ---------------------------------------------------------------------------
// laws of the plan

/// The quads of the first `n` commands, in order.
pub open spec fn quads_upto(n: nat) -> Seq<UiVertex>
    decreases n,
{
    if n == 0 {
        Seq::empty()
    } else {
        quads_upto((n - 1) as nat) + quad_vertices(n - 1)
    }
}

/// The vertex lists of the calls of a plan.
pub open spec fn call_vertices(plan: Seq<CallView>) -> Seq<Seq<UiVertex>> {
    plan.map_values(|c: CallView| c.0)
}

proof fn lemma_plan_prefix_vertices<G>(cmds: Seq<UiDrawCommand<G>>, n: nat)
    requires
        n <= cmds.len(),
    ensures
        call_vertices(plan_prefix(cmds, n)).flatten_alt() == quads_upto(n),
    decreases n,
{
    if n == 0 {
        let vs = call_vertices(plan_prefix(cmds, 0));
        assert(vs =~= seq![Seq::<UiVertex>::empty()]);
        assert(vs.drop_last() =~= Seq::<Seq<UiVertex>>::empty());
        assert(vs.drop_last().flatten_alt() =~= Seq::<UiVertex>::empty());
        assert(vs.flatten_alt() == vs.drop_last().flatten_alt() + vs.last());
        assert(vs.flatten_alt() =~= Seq::<UiVertex>::empty());
    } else {
        let j = n - 1;
        let prev = plan_prefix(cmds, (n - 1) as nat);
        lemma_plan_prefix_vertices(cmds, (n - 1) as nat);
        lemma_plan_prefix_len(cmds, (n - 1) as nat);
        let calls = if starts_call(cmds, j) { prev.push(empty_call()) } else { prev };
        if starts_call(cmds, j) {
            assert(call_vertices(calls).drop_last() =~= call_vertices(prev));
            assert(call_vertices(calls).flatten_alt() =~= call_vertices(prev).flatten_alt());
        }
        assert(call_vertices(calls).flatten_alt() == quads_upto((n - 1) as nat));
        let cur = calls.last();
        let next = plan_prefix(cmds, n);
        assert(call_vertices(next).drop_last() =~= call_vertices(calls).drop_last());
        assert(call_vertices(next).last() == call_vertices(calls).last() + quad_vertices(j));
        assert(call_vertices(calls).flatten_alt()
            == call_vertices(calls).drop_last().flatten_alt() + call_vertices(calls).last());
        assert(call_vertices(next).flatten_alt() =~= quads_upto(n));
    }
}

/// Drawing the calls of a plan one after the other draws every command's quad, in
/// command order: the calls' vertices, concatenated, are the quads of all commands.
pub proof fn lemma_plan_draws_every_quad_in_order<G>(cmds: Seq<UiDrawCommand<G>>)
    ensures
        call_vertices(draw_plan_of(cmds)).flatten() == quads_upto(cmds.len()),
{
    lemma_plan_prefix_vertices(cmds, cmds.len());
    call_vertices(draw_plan_of(cmds)).lemma_flatten_and_flatten_alt_are_equivalent();
}

/// Quad `q` of a call is drawn from its own four vertices: they are the four corners
/// (top-left, top-right, bottom-right, bottom-left) of one command's quad, and the quad's
/// six indices are the two triangles (first, second, third) and (first, third, fourth) of
/// exactly those vertices.
pub open spec fn quad_drawn(call: CallView, q: int) -> bool {
    let v = 4 * q;
    let i = 6 * q;
    &&& call.1[i] == v && call.1[i + 1] == v + 1 && call.1[i + 2] == v + 2
    &&& call.1[i + 3] == v && call.1[i + 4] == v + 2 && call.1[i + 5] == v + 3
    &&& call.0[v].corner == Corner::TopLeft
    &&& call.0[v + 1].corner == Corner::TopRight
    &&& call.0[v + 2].corner == Corner::BottomRight
    &&& call.0[v + 3].corner == Corner::BottomLeft
    &&& call.0[v + 1].command == call.0[v].command
    &&& call.0[v + 2].command == call.0[v].command
    &&& call.0[v + 3].command == call.0[v].command
}

/// A call is well indexed: its vertices come in quads, it has six indices per quad, every
/// index names one of its vertices, and each quad is drawn from its own vertices.
pub open spec fn well_indexed(call: CallView) -> bool {
    &&& call.0.len() % 4 == 0
    &&& call.1.len() * 4 == call.0.len() * 6
    &&& forall|m: int| 0 <= m < call.1.len() ==> (#[trigger] call.1[m]) < call.0.len()
    &&& forall|q: int| 0 <= q && 4 * q < call.0.len() ==> #[trigger] quad_drawn(call, q)
}

proof fn lemma_plan_prefix_well_indexed<G>(cmds: Seq<UiDrawCommand<G>>, n: nat)
    requires
        n <= cmds.len(),
        indices_fit_u32(cmds),
    ensures
        forall|k: int| 0 <= k < plan_prefix(cmds, n).len() ==> well_indexed(#[trigger] plan_prefix(cmds, n)[k]),
    decreases n,
{
    if n > 0 {
        let j = n - 1;
        let prev = plan_prefix(cmds, (n - 1) as nat);
        lemma_plan_prefix_well_indexed(cmds, (n - 1) as nat);
        lemma_plan_prefix_len(cmds, (n - 1) as nat);
        lemma_plan_prefix_last(cmds, n);
        let calls = if starts_call(cmds, j) { prev.push(empty_call()) } else { prev };
        assert(forall|k: int| 0 <= k < calls.len() ==> well_indexed(#[trigger] calls[k])) by {
            assert forall|k: int| 0 <= k < calls.len() implies well_indexed(#[trigger] calls[k]) by {
                if k < prev.len() {
                    assert(calls[k] == prev[k]);
                } else {
                    assert(calls[k] == empty_call());
                }
            }
        }
        let cur = calls.last();
        let v = cur.0.len() as int;
        assert(well_indexed(cur));
        assert(v == 4 * run_offset(cmds, j));
        assert(v + 3 <= u32::MAX);
        let new_call = (cur.0 + quad_vertices(j), cur.1 + quad_indices(v), cur.2);
        assert forall|m: int| 0 <= m < new_call.1.len() implies (#[trigger] new_call.1[m]) < new_call.0.len() by {
            if m < cur.1.len() {
                assert(new_call.1[m] == cur.1[m]);
            } else {
                assert(new_call.1[m] == quad_indices(v)[m - cur.1.len()]);
            }
        }
        assert forall|q: int| 0 <= q && 4 * q < new_call.0.len() implies #[trigger] quad_drawn(new_call, q) by {
            if 4 * q < v {
                assert(quad_drawn(cur, q));
                assert(6 * q + 5 < cur.1.len());
                assert(4 * q + 3 < cur.0.len());
                assert(new_call.1[6 * q] == cur.1[6 * q]);
                assert(new_call.1[6 * q + 1] == cur.1[6 * q + 1]);
                assert(new_call.1[6 * q + 2] == cur.1[6 * q + 2]);
                assert(new_call.1[6 * q + 3] == cur.1[6 * q + 3]);
                assert(new_call.1[6 * q + 4] == cur.1[6 * q + 4]);
                assert(new_call.1[6 * q + 5] == cur.1[6 * q + 5]);
                assert(new_call.0[4 * q] == cur.0[4 * q]);
                assert(new_call.0[4 * q + 1] == cur.0[4 * q + 1]);
                assert(new_call.0[4 * q + 2] == cur.0[4 * q + 2]);
                assert(new_call.0[4 * q + 3] == cur.0[4 * q + 3]);
            } else {
                assert(4 * q == v);
                assert(6 * q == cur.1.len());
                assert(new_call.1[6 * q] == quad_indices(v)[0]);
                assert(new_call.1[6 * q + 1] == quad_indices(v)[1]);
                assert(new_call.1[6 * q + 2] == quad_indices(v)[2]);
                assert(new_call.1[6 * q + 3] == quad_indices(v)[3]);
                assert(new_call.1[6 * q + 4] == quad_indices(v)[4]);
                assert(new_call.1[6 * q + 5] == quad_indices(v)[5]);
                assert(new_call.0[4 * q] == quad_vertices(j)[0]);
                assert(new_call.0[4 * q + 1] == quad_vertices(j)[1]);
                assert(new_call.0[4 * q + 2] == quad_vertices(j)[2]);
                assert(new_call.0[4 * q + 3] == quad_vertices(j)[3]);
            }
        }
        let next = plan_prefix(cmds, n);
        assert forall|k: int| 0 <= k < next.len() implies well_indexed(#[trigger] next[k]) by {
            if k < next.len() - 1 {
                assert(next[k] == calls[k]);
            } else {
                assert(next[k].0 == new_call.0);
                assert(next[k].1 == new_call.1);
            }
        }
    }
}

/// Every call of a plan is well indexed: each of its triangle indices names one of its
/// own vertices, it has six indices for every four vertices, and the six indices of each
/// quad are the two triangles of that quad's own four corners.
pub proof fn lemma_plan_indices_in_bounds<G>(cmds: Seq<UiDrawCommand<G>>)
    requires
        indices_fit_u32(cmds),
    ensures
        forall|k: int| 0 <= k < draw_plan_of(cmds).len() ==> well_indexed(#[trigger] draw_plan_of(cmds)[k]),
{
    lemma_plan_prefix_well_indexed(cmds, cmds.len());
}

/// The command that the first vertex of a call stands for.
pub open spec fn first_command<G>(cmds: Seq<UiDrawCommand<G>>, call: CallView) -> UiDrawCommand<G> {
    cmds[call.0[0].command as int]
}

/// A call draws commands of one kind only, it is not empty, and it binds the font texture
/// exactly when those commands are text.
pub open spec fn single_kind<G>(cmds: Seq<UiDrawCommand<G>>, call: CallView) -> bool {
    &&& call.0.len() > 0
    &&& forall|m: int| 0 <= m < call.0.len() ==> {
        &&& (#[trigger] call.0[m]).command < cmds.len()
        &&& same_kind(cmds[call.0[m].command as int], first_command(cmds, call))
    }
    &&& call.2 == if first_command(cmds, call) is Text { Some(BindTexture::FontTexture) } else { None }
}

#[verifier::spinoff_prover]
proof fn lemma_plan_prefix_kinds<G>(cmds: Seq<UiDrawCommand<G>>, n: nat)
    requires
        0 < n <= cmds.len(),
        cmds.len() <= usize::MAX,
    ensures
        forall|k: int| 0 <= k < plan_prefix(cmds, n).len() ==> single_kind(cmds, #[trigger] plan_prefix(cmds, n)[k]),
        forall|k: int| 0 <= k < plan_prefix(cmds, n).len() - 1 ==>
            !same_kind(first_command(cmds, #[trigger] plan_prefix(cmds, n)[k]), first_command(cmds, plan_prefix(cmds, n)[k + 1])),
        same_kind(first_command(cmds, plan_prefix(cmds, n).last()), cmds[n - 1]),
    decreases n,
{
    let j = n - 1;
    let prev = plan_prefix(cmds, (n - 1) as nat);
    lemma_plan_prefix_len(cmds, (n - 1) as nat);
    let calls = if starts_call(cmds, j) { prev.push(empty_call()) } else { prev };
    let cur = calls.last();
    let bind = if (starts_call(cmds, j) || j == 0) && cmds[j] is Text {
        Some(BindTexture::FontTexture)
    } else {
        cur.2
    };
    let new_call = (cur.0 + quad_vertices(j), cur.1 + quad_indices(cur.0.len() as int), bind);
    let next = plan_prefix(cmds, n);
    assert(next == calls.update(calls.len() - 1, new_call));
    if n > 1 {
        lemma_plan_prefix_kinds(cmds, (n - 1) as nat);
    }
    if starts_call(cmds, j) || j == 0 {
        // the quad of command j starts a fresh call
        assert(cur == empty_call());
        assert(new_call.0 =~= quad_vertices(j));
        assert(new_call.0[0].command == j);
        assert(single_kind(cmds, new_call));
    } else {
        // command j joins the call of command j - 1
        assert(cur == prev.last());
        assert(cur.0.len() > 0);
        assert(new_call.0[0] == cur.0[0]);
        assert forall|m: int| 0 <= m < new_call.0.len() implies {
            &&& (#[trigger] new_call.0[m]).command < cmds.len()
            &&& same_kind(cmds[new_call.0[m].command as int], first_command(cmds, new_call))
        } by {
            if m < cur.0.len() {
                assert(new_call.0[m] == cur.0[m]);
            } else {
                assert(new_call.0[m] == quad_vertices(j)[m - cur.0.len()]);
            }
        }
        assert(single_kind(cmds, new_call));
    }
    assert forall|k: int| 0 <= k < next.len() implies single_kind(cmds, #[trigger] next[k]) by {
        if k < next.len() - 1 {
            assert(next[k] == calls[k]);
            if k < prev.len() {
                assert(calls[k] == prev[k]);
            }
        }
    }
    assert forall|k: int| 0 <= k < next.len() - 1 implies
        !same_kind(first_command(cmds, #[trigger] next[k]), first_command(cmds, next[k + 1])) by {
        if k + 1 < next.len() - 1 {
            assert(next[k] == prev[k]);
            assert(next[k + 1] == prev[k + 1]);
        } else if starts_call(cmds, j) {
            assert(next[k] == prev.last());
            assert(first_command(cmds, next[k + 1]) == first_command(cmds, new_call));
        } else {
            assert(next[k] == prev[k]);
            assert(first_command(cmds, next[k + 1]) == first_command(cmds, prev[k + 1]));
        }
    }
}

/// The calls of a plan alternate between rectangles and text: every call draws commands
/// of one kind only and binds the font texture exactly when they are text, and two
/// neighbouring calls draw commands of different kinds.
pub proof fn lemma_plan_calls_alternate_kinds<G>(cmds: Seq<UiDrawCommand<G>>)
    requires
        0 < cmds.len() <= usize::MAX,
    ensures
        forall|k: int| 0 <= k < draw_plan_of(cmds).len() ==> single_kind(cmds, #[trigger] draw_plan_of(cmds)[k]),
        forall|k: int| 0 <= k < draw_plan_of(cmds).len() - 1 ==>
            !same_kind(first_command(cmds, #[trigger] draw_plan_of(cmds)[k]), first_command(cmds, draw_plan_of(cmds)[k + 1])),
{
    lemma_plan_prefix_kinds(cmds, cmds.len());
}

// ---------------------------------------------------------------------------
// building the plan

/// Collects finished draw calls while one call is being filled.
pub struct CallSwapper {
    calls: Vec<UiDrawCall>,
    call: UiDrawCall,
}

impl View for CallSwapper {
    type V = Seq<CallView>;

    /// The finished calls followed by the one being filled.
    closed spec fn view(&self) -> Seq<CallView> {
        self.calls@.map_values(|c: UiDrawCall| c@).push(self.call@)
    }
}

impl CallSwapper {
    /// No finished calls; an empty call being filled.
    pub fn new() -> (swapper: Self)
        ensures
            swapper@ == seq![empty_call()],
    {
        let swapper = CallSwapper { calls: Vec::new(), call: UiDrawCall::default() };
        assert(swapper@ =~= seq![empty_call()]);
        swapper
    }

    /// The call being filled.
    pub fn current(&self) -> (call: &UiDrawCall)
        ensures
            call@ == self@.last(),
    {
        &self.call
    }

    /// The call being filled, for changing it.
    pub fn current_mut(&mut self) -> (call: &mut UiDrawCall)
        ensures
            call@ == old(self)@.last(),
            final(self)@ == old(self)@.update(old(self)@.len() - 1, final(call)@),
    {
        proof {
            assert(old(self)@.last() == old(self).call@);
        }
        &mut self.call
    }

    /// Finish the current call and start filling an empty one.
    pub fn swap(&mut self)
        ensures
            final(self)@ == old(self)@.push(empty_call()),
    {
        let mut finished = UiDrawCall::default();
        std::mem::swap(&mut finished, &mut self.call);
        self.calls.push(finished);
        assert(self@ =~= old(self)@.push(empty_call()));
    }

    /// All calls, the current one last.
    pub fn finish(self) -> (calls: Vec<UiDrawCall>)
        ensures
            calls@.map_values(|c: UiDrawCall| c@) == self@,
    {
        let mut calls = self.calls;
        calls.push(self.call);
        assert(calls@.map_values(|c: UiDrawCall| c@) =~= self@);
        calls
    }
}

/// Whether two commands are of the same kind.
fn kinds_match<G>(a: &UiDrawCommand<G>, b: &UiDrawCommand<G>) -> (r: bool)
    ensures
        r == same_kind(*a, *b),
{
    match (a, b) {
        (UiDrawCommand::Rectangle { .. }, UiDrawCommand::Rectangle { .. }) => true,
        (UiDrawCommand::Text { .. }, UiDrawCommand::Text { .. }) => true,
        _ => false,
    }
}

/// Whether the plan of `cmds` can be indexed in `u32` (see [`indices_fit_u32`]).
pub fn commands_fit_u32<G>(cmds: &Vec<UiDrawCommand<G>>) -> (fit: bool)
    ensures
        fit == indices_fit_u32(cmds@),
{
    let n = cmds.len();
    let mut run: u64 = 0;
    let mut i: usize = 0;
    while i < n
        invariant
            n == cmds@.len(),
            i <= n,
            i > 0 ==> run == run_offset(cmds@, i - 1),
            forall|j: int| 0 <= j < i ==> 4 * run_offset(cmds@, j) + 3 <= u32::MAX,
        decreases n - i,
    {
        let current: u64 = if i > 0 && kinds_match(&cmds[i - 1], &cmds[i]) {
            run + 1
        } else {
            0
        };
        assert(current == run_offset(cmds@, i as int));
        if current > 0x3fff_ffff {
            return false;
        }
        run = current;
        i = i + 1;
    }
    true
}

/// Whether some text command of `cmds` has characters to render (see [`needs_font`]).
pub fn commands_need_font<G>(cmds: &Vec<UiDrawCommand<G>>) -> (needs: bool)
    ensures
        needs == needs_font(cmds@),
{
    let n = cmds.len();
    let mut i: usize = 0;
    while i < n
        invariant
            n == cmds@.len(),
            i <= n,
            forall|j: int| 0 <= j < i ==> !(#[trigger] cmds@[j] matches UiDrawCommand::Text { text, .. } && text@.len() > 0),
        decreases n - i,
    {
        match &cmds[i] {
            UiDrawCommand::Text { text, .. } => {
                if !text.as_str().is_empty() {
                    return true;
                }
            },
            UiDrawCommand::Rectangle { .. } => {},
        }
        i = i + 1;
    }
    false
}

impl UiDrawPlan {
    /// Build the draw plan of `draw_commands` (see [`draw_plan_of`]). The glyphs of every
    /// text command are looked up in (or rendered into) the atlas of `tr`, in font 0.
    pub fn build<G>(draw_commands: &UiDrawCommands<G>, tr: &mut TextRenderer) -> (plan: Self)
        requires
            old(tr).wf(),
            indices_fit_u32(draw_commands.commands@),
            needs_font(draw_commands.commands@) ==> old(tr).fonts().len() > 0,
        ensures
            plan@ == draw_plan_of(draw_commands.commands@),
            final(tr).wf(),
            final(tr).fonts() == old(tr).fonts(),
            final(tr).atlas().texture_size() == old(tr).atlas().texture_size(),
            old(tr).atlas().cache().submap_of(final(tr).atlas().cache()),
            forall|k: (usize, char, u8)|
                #[trigger] final(tr).atlas().cache().contains_key(k) ==> old(tr).atlas().cache().contains_key(k)
                    || text_glyph_key(draw_commands.commands@, k),
            lookups_outcome(
                old(tr).atlas(),
                final(tr).atlas(),
                text_lookups(draw_commands.commands@),
                old(tr).fonts()[0].source(),
            ),
    {
        let ghost cmds = draw_commands.commands@;
        let ghost source = old(tr).fonts()[0].source();
        let ghost mut trace: Seq<FontTextureManager> = seq![tr.atlas()];
        let ghost mut done: Seq<GlyphKey> = Seq::empty();
        let ghost mut entries: Seq<Option<Arc<GlyphCacheEntry>>> = Seq::empty();
        assert(cmds.take(0) =~= Seq::<UiDrawCommand<G>>::empty());
        let n = draw_commands.commands.len();
        let mut swapper = CallSwapper::new();
        let mut i: usize = 0;
        while i < n
            invariant
                cmds == draw_commands.commands@,
                n == cmds.len(),
                i <= n,
                indices_fit_u32(cmds),
                swapper@ == plan_prefix(cmds, i as nat),
                tr.wf(),
                tr.fonts() == old(tr).fonts(),
                needs_font(cmds) ==> tr.fonts().len() > 0,
                tr.atlas().texture_size() == old(tr).atlas().texture_size(),
                old(tr).atlas().cache().submap_of(tr.atlas().cache()),
                forall|k: (usize, char, u8)|
                    #[trigger] tr.atlas().cache().contains_key(k) ==> old(tr).atlas().cache().contains_key(k)
                        || text_glyph_key(cmds, k),
                source == old(tr).fonts()[0].source(),
                done == text_lookups(cmds.take(i as int)),
                lookup_trace(trace, entries, done, source),
                trace[0] == old(tr).atlas(),
                trace.last() == tr.atlas(),
            decreases n - i,
        {
            let ghost done_before = done;
            let command = &draw_commands.commands[i];
            let ghost prev = swapper@;
            let do_swap = i > 0 && !kinds_match(&draw_commands.commands[i - 1], command);
            proof {
                lemma_plan_prefix_len(cmds, i as nat);
                if i > 0 {
                    lemma_plan_prefix_last(cmds, i as nat);
                }
            }
            if do_swap {
                swapper.swap();
            }
            if do_swap || i == 0 {
                match command {
                    UiDrawCommand::Rectangle { .. } => {},
                    UiDrawCommand::Text { .. } => {
                        swapper.current_mut().bind_texture = Some(BindTexture::FontTexture);
                    },
                }
            }
            assert(swapper@.last().0.len() == 4 * run_offset(cmds, i as int));
            assert(4 * run_offset(cmds, i as int) + 3 <= u32::MAX);
            let ghost calls = if starts_call(cmds, i as int) { prev.push(empty_call()) } else { prev };
            let ghost bind = if (starts_call(cmds, i as int) || i == 0) && cmds[i as int] is Text {
                Some(BindTexture::FontTexture)
            } else {
                calls.last().2
            };
            assert(swapper@ == calls.update(calls.len() - 1, (calls.last().0, calls.last().1, bind)));
            let vidx = swapper.current().vertices.len() as u32;
            match command {
                UiDrawCommand::Rectangle { .. } => {},
                UiDrawCommand::Text { size, text, .. } => {
                    for ch in iter: text.as_str().chars()
                        invariant
                            cmds == draw_commands.commands@,
                            0 <= i < cmds.len(),
                            cmds[i as int] == *command,
                            *command matches UiDrawCommand::Text { size: s, text: t, .. } && s == *size && t == *text,
                            iter.seq() == text@,
                            tr.wf(),
                            tr.fonts() == old(tr).fonts(),
                            needs_font(cmds) ==> tr.fonts().len() > 0,
                            tr.atlas().texture_size() == old(tr).atlas().texture_size(),
                            old(tr).atlas().cache().submap_of(tr.atlas().cache()),
                            forall|k: (usize, char, u8)|
                                #[trigger] tr.atlas().cache().contains_key(k) ==> old(tr).atlas().cache().contains_key(k)
                                    || text_glyph_key(cmds, k),
                            source == old(tr).fonts()[0].source(),
                            done == done_before + char_keys(text@.take(iter.index()), *size),
                            lookup_trace(trace, entries, done, source),
                            trace[0] == old(tr).atlas(),
                            trace.last() == tr.atlas(),
                    {
                        assert(ch == iter.seq()[iter.index()]);
                        assert(text_glyph_key(cmds, (0usize, ch, *size)));
                        let ghost atlas_before = tr.atlas();
                        let ghost trace_before = trace;
                        let ghost entries_before = entries;
                        let ghost done_so_far = done;
                        let found = tr.glyph(FontHandle::from_index(0), ch, *size);
                        proof {
                            let key = (0usize, ch, *size);
                            trace = trace.push(tr.atlas());
                            done = done.push(key);
                            entries = entries.push(found);
                            assert forall|j: int| 0 <= j < done.len() implies
                                #[trigger] glyph_outcome(trace[j], trace[j + 1], done[j], source, entries[j]) by {
                                if j < done_so_far.len() {
                                    assert(trace[j] == trace_before[j] && trace[j + 1] == trace_before[j + 1]);
                                    assert(done[j] == done_so_far[j] && entries[j] == entries_before[j]);
                                } else {
                                    assert(trace[j] == atlas_before && trace[j + 1] == tr.atlas());
                                    assert(done[j] == key && entries[j] == found);
                                }
                            }
                            let k = iter.index() as int;
                            assert(char_keys(text@.take(k + 1), *size) =~= char_keys(text@.take(k), *size).push(key));
                            assert(done =~= done_before + char_keys(text@.take(k + 1), *size));
                        }
                    }
                    proof {
                        assert(text@.take(text@.len() as int) =~= text@);
                    }
                },
            }
            proof {
                let t = cmds.take(i + 1);
                assert(t.drop_last() =~= cmds.take(i as int));
                assert(t.last() == cmds[i as int]);
                match cmds[i as int] {
                    UiDrawCommand::Text { .. } => {},
                    UiDrawCommand::Rectangle { .. } => {
                        assert(done =~= done + Seq::<GlyphKey>::empty());
                    },
                }
            }
            let ghost mid = swapper@;
            let call = swapper.current_mut();
            call.indices.push(vidx);
            call.indices.push(vidx + 1);
            call.indices.push(vidx + 2);
            call.indices.push(vidx);
            call.indices.push(vidx + 2);
            call.indices.push(vidx + 3);
            call.vertices.push(UiVertex { command: i, corner: Corner::TopLeft });
            call.vertices.push(UiVertex { command: i, corner: Corner::TopRight });
            call.vertices.push(UiVertex { command: i, corner: Corner::BottomRight });
            call.vertices.push(UiVertex { command: i, corner: Corner::BottomLeft });
            assert(call@.0 =~= mid.last().0 + quad_vertices(i as int));
            assert(call@.1 =~= mid.last().1 + quad_indices(vidx as int));
            assert(swapper@ =~= plan_prefix(cmds, (i + 1) as nat));
            i = i + 1;
        }
        proof {
            assert(cmds.take(n as int) =~= cmds);
            assert(lookup_trace(trace, entries, text_lookups(cmds), source));
        }
        UiDrawPlan { calls: swapper.finish() }
    }
}

} // verus!
