//! Fingers on a touch screen, followed through the touch events of each frame.
//!
//! Positions are of a type `P` and touch devices are named by a type `D`, both chosen by
//! the caller (the window system's); which
//! fingers exist, where each started and whether it moved is decided here.

use vstd::prelude::*;
use tinyset::SetU64;
use hashbrown::HashMap;
use nohash_hasher::BuildNoHashHasher;

verus! {

#[verifier::external_type_specification]
#[verifier::external_body]
pub struct ExSetU64(SetU64);

/// The numbers a `tinyset::SetU64` holds.
pub uninterp spec fn set_u64_contents(set: SetU64) -> Set<u64>;

/// Calls `tinyset::SetU64::new`. Claimed: the set is empty.
#[verifier::external_body]
fn set_u64_new() -> (set: SetU64)
    ensures
        set_u64_contents(set) == Set::<u64>::empty(),
{
    SetU64::new()
}

/// Calls `tinyset::SetU64::insert`. Claimed, as its documentation says: `e` is added and
/// the result tells whether it was absent.
#[verifier::external_body]
fn set_u64_insert(set: &mut SetU64, e: u64) -> (added: bool)
    ensures
        set_u64_contents(*final(set)) == set_u64_contents(*old(set)).insert(e),
        added == !set_u64_contents(*old(set)).contains(e),
{
    set.insert(e)
}

/// Calls `tinyset::SetU64::contains`. Claimed: whether `e` is in the set.
#[verifier::external_body]
fn set_u64_contains(set: &SetU64, e: u64) -> (present: bool)
    ensures
        present == set_u64_contents(*set).contains(e),
{
    set.contains(e)
}

/// Where each finger on the screen is kept: a `hashbrown::HashMap` from finger ids to positions
/// in the list of fingers, hashed by the id itself (`nohash_hasher`).
#[verifier::external_body]
pub struct FingerIndex {
    map: HashMap<u64, usize, BuildNoHashHasher<u64>>,
}

/// What the finger index holds: a position for each id.
pub uninterp spec fn finger_index_contents(index: FingerIndex) -> Map<u64, usize>;

/// Calls `hashbrown::HashMap::default` (with the id hasher). Claimed: the map is empty.
#[verifier::external_body]
fn finger_index_new() -> (index: FingerIndex)
    ensures
        finger_index_contents(index) =~= Map::empty(),
{
    FingerIndex { map: HashMap::default() }
}

/// Calls `hashbrown::HashMap::get` and copies the value. Claimed: the position stored under
/// `id`, if there is one.
#[verifier::external_body]
fn finger_index_get(index: &FingerIndex, id: u64) -> (position: Option<usize>)
    ensures
        (match position {
            Some(i) => finger_index_contents(*index).contains_key(id) && finger_index_contents(*index)[id] == i,
            None => !finger_index_contents(*index).contains_key(id),
        }),
{
    index.map.get(&id).copied()
}

/// Calls `hashbrown::HashMap::insert`. Claimed: the map holds `position` under `id`, and
/// everything else it held.
#[verifier::external_body]
fn finger_index_insert(index: &mut FingerIndex, id: u64, position: usize)
    ensures
        finger_index_contents(*final(index)) == finger_index_contents(*old(index)).insert(id, position),
{
    index.map.insert(id, position);
}

/// Calls `hashbrown::HashMap::remove`. Claimed: `id` is no longer in the map, and the rest
/// is kept.
#[verifier::external_body]
fn finger_index_remove(index: &mut FingerIndex, id: u64)
    ensures
        finger_index_contents(*final(index)) == finger_index_contents(*old(index)).remove(id),
{
    index.map.remove(&id);
}

/// A finger touching the screen.
#[derive(Clone, Copy, Debug)]
pub struct Finger<P, D> {
    pub id: u64,
    pub device_id: D,
    pub prev_position: P,
    pub start_position: P,
    pub current_position: P,
    pub has_moved: bool,
}

/// The phase of a touch event.
#[derive(Clone, Copy, Debug, PartialEq, Eq, Structural)]
pub enum TouchPhase {
    Started,
    Moved,
    Ended,
    Cancelled,
}

/// A touch event: which finger on which device, what happened to it, and where.
#[derive(Clone, Copy, Debug)]
pub struct TouchInput<P, D> {
    pub id: u64,
    pub device_id: D,
    pub phase: TouchPhase,
    pub location: P,
}

/// The fingers on the screen, each kept once.
pub struct RawTouchState<P, D> {
    held: FingerList<P, D>,
}

/// A list of fingers and the index that finds each of them by id.
struct FingerList<P, D> {
    list: Vec<Finger<P, D>>,
    index: FingerIndex,
}

/// The index `index` finds every finger of `fingers` by its id, and nothing else.
pub open spec fn index_matches<P, D>(index: Map<u64, usize>, fingers: Seq<Finger<P, D>>) -> bool {
    &&& forall|id: u64| #[trigger] index.contains_key(id)
        ==> index[id] < fingers.len() && fingers[index[id] as int].id == id
    &&& forall|i: int| 0 <= i < fingers.len() ==> index.contains_key(#[trigger] fingers[i].id)
}

impl<P, D> FingerList<P, D> {
    /// No two fingers share an id, and the index finds each.
    spec fn ok(&self) -> bool {
        &&& ids_unique(self.list@)
        &&& index_matches(finger_index_contents(self.index), self.list@)
    }
}

/// No two fingers of `fingers` have the same id.
pub open spec fn ids_unique<P, D>(fingers: Seq<Finger<P, D>>) -> bool {
    forall|i: int, j: int|
        #![trigger fingers[i], fingers[j]]
        0 <= i < fingers.len() && 0 <= j < fingers.len() && i != j ==> fingers[i].id != fingers[j].id
}

/// Some finger of `fingers` has the id `id`.
pub open spec fn has_id<P, D>(fingers: Seq<Finger<P, D>>, id: u64) -> bool {
    exists|i: int| 0 <= i < fingers.len() && #[trigger] fingers[i].id == id
}

/// The fingers of `fingers` by id.
pub open spec fn finger_map<P, D>(fingers: Seq<Finger<P, D>>) -> Map<u64, Finger<P, D>> {
    Map::new(
        |id: u64| has_id(fingers, id),
        |id: u64| fingers[choose|i: int| 0 <= i < fingers.len() && #[trigger] fingers[i].id == id],
    )
}

/// A finger that has just touched the screen of `device_id` at `location`.
pub open spec fn started_finger<P, D>(id: u64, device_id: D, location: P) -> Finger<P, D> {
    Finger { id, device_id, prev_position: location, start_position: location, current_position: location, has_moved: false }
}

/// The finger `f` moved to `location`.
pub open spec fn moved_finger<P, D>(f: Finger<P, D>, location: P) -> Finger<P, D> {
    Finger { id: f.id, device_id: f.device_id, prev_position: f.prev_position, start_position: f.start_position, current_position: location, has_moved: true }
}

/// The finger `f` at the start of a frame: its previous position is where it was.
pub open spec fn carried_finger<P, D>(f: Finger<P, D>) -> Finger<P, D> {
    Finger { id: f.id, device_id: f.device_id, prev_position: f.current_position, start_position: f.start_position, current_position: f.current_position, has_moved: f.has_moved }
}

/// What one touch event does to the fingers: a touch starts (or restarts) a finger, a
/// move of a known finger records its position and that it moved, and a finger that is
/// lifted or cancelled is forgotten.
pub open spec fn touch_step<P, D>(fingers: Map<u64, Finger<P, D>>, event: TouchInput<P, D>) -> Map<u64, Finger<P, D>> {
    match event.phase {
        TouchPhase::Started => fingers.insert(event.id, started_finger(event.id, event.device_id, event.location)),
        TouchPhase::Moved => if fingers.contains_key(event.id) {
            fingers.insert(event.id, moved_finger(fingers[event.id], event.location))
        } else {
            fingers
        },
        TouchPhase::Ended | TouchPhase::Cancelled => fingers.remove(event.id),
    }
}

/// The fingers after `events`, in order, starting from `fingers`.
pub open spec fn touches_after<P, D>(fingers: Map<u64, Finger<P, D>>, events: Seq<TouchInput<P, D>>) -> Map<u64, Finger<P, D>>
    decreases events.len(),
{
    if events.len() == 0 {
        fingers
    } else {
        touch_step(touches_after(fingers, events.drop_last()), events.last())
    }
}

/// Every finger is kept under its own id.
pub open spec fn keyed_by_id<P, D>(fingers: Map<u64, Finger<P, D>>) -> bool {
    forall|id: u64| #[trigger] fingers.contains_key(id) ==> fingers[id].id == id
}

/// The fingers of `fingers` by id, with every finger's previous position set to its
/// current one.
pub open spec fn fingers_carried<P, D>(fingers: Map<u64, Finger<P, D>>) -> Map<u64, Finger<P, D>> {
    Map::new(|id: u64| fingers.contains_key(id), |id: u64| carried_finger(fingers[id]))
}

/// With unique ids, the finger at `i` is the one found under its id.
proof fn lemma_finger_at<P, D>(fingers: Seq<Finger<P, D>>, i: int)
    requires
        ids_unique(fingers),
        0 <= i < fingers.len(),
    ensures
        finger_map(fingers).contains_key(fingers[i].id),
        finger_map(fingers)[fingers[i].id] == fingers[i],
{
    let id = fingers[i].id;
    assert(has_id(fingers, id));
    let j = choose|j: int| 0 <= j < fingers.len() && #[trigger] fingers[j].id == id;
    assert(fingers[j].id == id);
}

/// Replacing the finger at `i` by one with the same id replaces it in the map.
proof fn lemma_finger_update<P, D>(fingers: Seq<Finger<P, D>>, i: int, f: Finger<P, D>)
    requires
        ids_unique(fingers),
        0 <= i < fingers.len(),
        f.id == fingers[i].id,
    ensures
        ids_unique(fingers.update(i, f)),
        finger_map(fingers.update(i, f)) == finger_map(fingers).insert(f.id, f),
{
    let after = fingers.update(i, f);
    assert forall|a: int, b: int| 0 <= a < after.len() && 0 <= b < after.len() && a != b implies
        #[trigger] after[a].id != #[trigger] after[b].id by {
        assert(after[a].id == fingers[a].id);
        assert(after[b].id == fingers[b].id);
    }
    lemma_finger_at(after, i);
    assert forall|id: u64| #[trigger] has_id(after, id) == (has_id(fingers, id) || id == f.id) by {
        if has_id(fingers, id) {
            let j = choose|j: int| 0 <= j < fingers.len() && #[trigger] fingers[j].id == id;
            assert(after[j].id == id);
        }
        if has_id(after, id) {
            let j = choose|j: int| 0 <= j < after.len() && #[trigger] after[j].id == id;
            assert(fingers[j].id == id);
        }
    }
    assert forall|id: u64| #[trigger] finger_map(after).contains_key(id) && id != f.id implies
        finger_map(after)[id] == finger_map(fingers)[id] by {
        let j = choose|j: int| 0 <= j < after.len() && #[trigger] after[j].id == id;
        assert(j != i);
        assert(fingers[j] == after[j]);
        lemma_finger_at(fingers, j);
        lemma_finger_at(after, j);
    }
    assert(finger_map(after) =~= finger_map(fingers).insert(f.id, f));
}

/// Appending a finger with a new id adds it to the map.
proof fn lemma_finger_push<P, D>(fingers: Seq<Finger<P, D>>, f: Finger<P, D>)
    requires
        ids_unique(fingers),
        !has_id(fingers, f.id),
    ensures
        ids_unique(fingers.push(f)),
        finger_map(fingers.push(f)) == finger_map(fingers).insert(f.id, f),
{
    let after = fingers.push(f);
    assert forall|a: int, b: int| 0 <= a < after.len() && 0 <= b < after.len() && a != b implies
        #[trigger] after[a].id != #[trigger] after[b].id by {
        if a < fingers.len() {
            assert(after[a] == fingers[a]);
        }
        if b < fingers.len() {
            assert(after[b] == fingers[b]);
        }
    }
    lemma_finger_at(after, fingers.len() as int);
    assert forall|id: u64| #[trigger] has_id(after, id) == (has_id(fingers, id) || id == f.id) by {
        if has_id(fingers, id) {
            let j = choose|j: int| 0 <= j < fingers.len() && #[trigger] fingers[j].id == id;
            assert(after[j].id == id);
        }
        if has_id(after, id) {
            let j = choose|j: int| 0 <= j < after.len() && #[trigger] after[j].id == id;
            if j < fingers.len() {
                assert(fingers[j].id == id);
            }
        }
    }
    assert forall|id: u64| #[trigger] finger_map(after).contains_key(id) && id != f.id implies
        finger_map(after)[id] == finger_map(fingers)[id] by {
        let j = choose|j: int| 0 <= j < after.len() && #[trigger] after[j].id == id;
        assert(j < fingers.len());
        assert(fingers[j] == after[j]);
        lemma_finger_at(fingers, j);
        lemma_finger_at(after, j);
    }
    assert(finger_map(after) =~= finger_map(fingers).insert(f.id, f));
}

/// Removing the finger at `i` by moving the last finger into its place removes its id
/// from the map.
proof fn lemma_finger_swap_remove<P, D>(fingers: Seq<Finger<P, D>>, i: int)
    requires
        ids_unique(fingers),
        0 <= i < fingers.len(),
    ensures
        ids_unique(fingers.update(i, fingers.last()).drop_last()),
        finger_map(fingers.update(i, fingers.last()).drop_last()) == finger_map(fingers).remove(fingers[i].id),
{
    let last = fingers.len() - 1;
    let gone = fingers[i].id;
    let after = fingers.update(i, fingers.last()).drop_last();
    assert(fingers.last() == fingers[last]);
    assert forall|k: int| 0 <= k < after.len() implies #[trigger] after[k] == fingers[if k == i { last } else { k }] by {}
    assert forall|a: int, b: int| 0 <= a < after.len() && 0 <= b < after.len() && a != b implies
        #[trigger] after[a].id != #[trigger] after[b].id by {
        assert(after[a] == fingers[if a == i { last } else { a }]);
        assert(after[b] == fingers[if b == i { last } else { b }]);
    }
    assert forall|id: u64| #[trigger] has_id(after, id) == (has_id(fingers, id) && id != gone) by {
        if has_id(fingers, id) && id != gone {
            let j = choose|j: int| 0 <= j < fingers.len() && #[trigger] fingers[j].id == id;
            assert(j != i);
            let k = if j == last { i } else { j };
            assert(after[k] == fingers[j]);
        }
        if has_id(after, id) {
            let k = choose|k: int| 0 <= k < after.len() && #[trigger] after[k].id == id;
            let j = if k == i { last } else { k };
            assert(after[k] == fingers[j]);
            assert(fingers[j].id == id);
            assert(j != i);
        }
    }
    assert forall|id: u64| #[trigger] finger_map(after).contains_key(id) implies
        finger_map(after)[id] == finger_map(fingers)[id] by {
        let k = choose|k: int| 0 <= k < after.len() && #[trigger] after[k].id == id;
        let j = if k == i { last } else { k };
        assert(after[k] == fingers[j]);
        lemma_finger_at(fingers, j);
        lemma_finger_at(after, k);
    }
    assert(finger_map(after) =~= finger_map(fingers).remove(gone));
}

impl<P, D> View for RawTouchState<P, D> {
    type V = Map<u64, Finger<P, D>>;

    /// The fingers by id.
    closed spec fn view(&self) -> Map<u64, Finger<P, D>> {
        finger_map(self.held.list@)
    }
}

impl<P, D> RawTouchState<P, D> {
    /// No finger is kept twice, and the index finds each.
    #[verifier::type_invariant]
    spec fn fingers_indexed(self) -> bool {
        self.held.ok()
    }
}

impl<P: Copy, D: Copy> RawTouchState<P, D> {

    /// No fingers on the screen.
    pub fn new() -> (state: Self)
        ensures
            state@ == Map::<u64, Finger<P, D>>::empty(),
    {
        let state = RawTouchState { held: FingerList { list: Vec::new(), index: finger_index_new() } };
        assert(state@ =~= Map::<u64, Finger<P, D>>::empty());
        state
    }

    /// The fingers, each once, in no particular order.
    pub fn fingers(&self) -> (fingers: &[Finger<P, D>])
        ensures
            forall|i: int| 0 <= i < fingers@.len() ==> self@.contains_key(#[trigger] fingers@[i].id)
                && self@[fingers@[i].id] == fingers@[i],
            forall|id: u64| #[trigger] self@.contains_key(id) ==> has_id(fingers@, id),
            ids_unique(fingers@),
    {
        proof {
            use_type_invariant(self);
            assert forall|i: int| 0 <= i < self.held.list@.len() implies self@.contains_key(#[trigger] self.held.list@[i].id)
                && self@[self.held.list@[i].id] == self.held.list@[i] by {
                lemma_finger_at(self.held.list@, i);
            }
        }
        self.held.list.as_slice()
    }

    /// Apply this frame's touch events: every finger's previous position becomes its
    /// current one, then the events are applied in order (see [`touch_step`]).
    pub fn process_touch_events(&mut self, touch_events: &[TouchInput<P, D>])
        ensures
            final(self)@ == touches_after(fingers_carried(old(self)@), touch_events@),
            forall|id: u64| #![trigger final(self)@.contains_key(id)]
                old(self)@.contains_key(id) && final(self)@.contains_key(id)
                && (forall|j: int| 0 <= j < touch_events@.len() && (#[trigger] touch_events@[j]).id == id
                    ==> touch_events@[j].phase != TouchPhase::Started)
                ==> final(self)@[id].prev_position == old(self)@[id].current_position
                    && final(self)@[id].start_position == old(self)@[id].start_position,
    {
        proof {
            use_type_invariant(&*self);
        }
        let mut held = FingerList { list: Vec::new(), index: finger_index_new() };
        std::mem::swap(&mut held, &mut self.held);
        carry_fingers(&mut held);
        let ghost start = finger_map(held.list@);
        let mut i: usize = 0;
        while i < touch_events.len()
            invariant
                held.ok(),
                i <= touch_events@.len(),
                finger_map(held.list@) == touches_after(start, touch_events@.take(i as int)),
            decreases touch_events@.len() - i,
        {
            proof {
                let t = touch_events@.take(i + 1);
                assert(t.drop_last() =~= touch_events@.take(i as int));
                assert(t.last() == touch_events@[i as int]);
            }
            apply_touch(&mut held, touch_events[i]);
            i = i + 1;
        }
        proof {
            assert(touch_events@.take(touch_events@.len() as int) =~= touch_events@);
            assert forall|id: u64| #![trigger finger_map(held.list@).contains_key(id)]
                old(self)@.contains_key(id) && finger_map(held.list@).contains_key(id)
                && (forall|j: int| 0 <= j < touch_events@.len() && (#[trigger] touch_events@[j]).id == id
                    ==> touch_events@[j].phase != TouchPhase::Started)
                implies finger_map(held.list@)[id].prev_position == old(self)@[id].current_position
                    && finger_map(held.list@)[id].start_position == old(self)@[id].start_position by {
                lemma_prev_position_is_frame_start(old(self)@, touch_events@, id);
            }
        }
        self.held = held;
    }
}

impl<P: Copy, D: Copy> Default for RawTouchState<P, D> {
    fn default() -> (state: Self)
        ensures
            state@ == Map::<u64, Finger<P, D>>::empty(),
    {
        Self::new()
    }
}

/// Start a frame: every finger's previous position becomes its current one.
fn carry_fingers<P: Copy, D: Copy>(held: &mut FingerList<P, D>)
    requires
        old(held).ok(),
    ensures
        final(held).ok(),
        finger_map(final(held).list@) == fingers_carried(finger_map(old(held).list@)),
{
    let ghost was = held.list@;
    let ghost index = finger_index_contents(held.index);
    let mut k: usize = 0;
    while k < held.list.len()
        invariant
            ids_unique(was),
            index_matches(index, was),
            finger_index_contents(held.index) == index,
            k <= held.list@.len(),
            held.list@.len() == was.len(),
            forall|j: int| 0 <= j < held.list@.len() ==> #[trigger] held.list@[j].id == was[j].id,
            forall|j: int| 0 <= j < k ==> #[trigger] held.list@[j] == carried_finger(was[j]),
            forall|j: int| k <= j < held.list@.len() ==> #[trigger] held.list@[j] == was[j],
        decreases held.list@.len() - k,
    {
        let f = held.list[k];
        let carried = Finger {
            id: f.id,
            device_id: f.device_id,
            prev_position: f.current_position,
            start_position: f.start_position,
            current_position: f.current_position,
            has_moved: f.has_moved,
        };
        held.list.set(k, carried);
        k = k + 1;
    }
    proof {
        let now = held.list@;
        assert forall|a: int, b: int| 0 <= a < now.len() && 0 <= b < now.len() && a != b implies
            #[trigger] now[a].id != #[trigger] now[b].id by {
            assert(now[a].id == was[a].id);
            assert(now[b].id == was[b].id);
        }
        assert forall|id: u64| #[trigger] index.contains_key(id) implies
            index[id] < now.len() && now[index[id] as int].id == id by {
            assert(was[index[id] as int].id == id);
        }
        assert forall|i: int| 0 <= i < now.len() implies index.contains_key(#[trigger] now[i].id) by {
            assert(now[i].id == was[i].id);
            assert(index.contains_key(was[i].id));
        }
        assert forall|id: u64| #[trigger] has_id(now, id) == has_id(was, id) by {
            if has_id(now, id) {
                let j = choose|j: int| 0 <= j < now.len() && #[trigger] now[j].id == id;
                assert(was[j].id == id);
            }
            if has_id(was, id) {
                let j = choose|j: int| 0 <= j < was.len() && #[trigger] was[j].id == id;
                assert(now[j].id == id);
            }
        }
        assert forall|id: u64| #[trigger] finger_map(now).contains_key(id) implies
            finger_map(now)[id] == carried_finger(finger_map(was)[id]) by {
            let j = choose|j: int| 0 <= j < now.len() && #[trigger] now[j].id == id;
            lemma_finger_at(now, j);
            lemma_finger_at(was, j);
        }
        assert(finger_map(now) =~= fingers_carried(finger_map(was)));
    }
}

/// The index finds a finger exactly when the list holds one with that id.
proof fn lemma_index_finds<P, D>(index: Map<u64, usize>, fingers: Seq<Finger<P, D>>, id: u64)
    requires
        index_matches(index, fingers),
    ensures
        index.contains_key(id) == has_id(fingers, id),
{
    if has_id(fingers, id) {
        let j = choose|j: int| 0 <= j < fingers.len() && #[trigger] fingers[j].id == id;
        assert(index.contains_key(fingers[j].id));
    }
    if index.contains_key(id) {
        assert(fingers[index[id] as int].id == id);
    }
}

/// Apply one touch event (see [`touch_step`]).
fn apply_touch<P: Copy, D: Copy>(held: &mut FingerList<P, D>, event: TouchInput<P, D>)
    requires
        old(held).ok(),
    ensures
        final(held).ok(),
        finger_map(final(held).list@) == touch_step(finger_map(old(held).list@), event),
{
    let ghost was = held.list@;
    let ghost index = finger_index_contents(held.index);
    let found = finger_index_get(&held.index, event.id);
    proof {
        lemma_index_finds(index, was, event.id);
    }
    match event.phase {
        TouchPhase::Started => {
            let f = Finger {
                id: event.id,
                device_id: event.device_id,
                prev_position: event.location,
                start_position: event.location,
                current_position: event.location,
                has_moved: false,
            };
            match found {
                Some(i) => {
                    proof {
                        lemma_finger_update(was, i as int, f);
                    }
                    held.list.set(i, f);
                    proof {
                        lemma_same_ids_same_index(index, was, held.list@);
                    }
                },
                None => {
                    proof {
                        lemma_finger_push(was, f);
                    }
                    let position = held.list.len();
                    held.list.push(f);
                    finger_index_insert(&mut held.index, event.id, position);
                    proof {
                        let now = held.list@;
                        let idx = finger_index_contents(held.index);
                        assert forall|id: u64| #[trigger] idx.contains_key(id) implies
                            idx[id] < now.len() && now[idx[id] as int].id == id by {
                            if id != event.id {
                                assert(now[index[id] as int] == was[index[id] as int]);
                            }
                        }
                        assert forall|k: int| 0 <= k < now.len() implies idx.contains_key(#[trigger] now[k].id) by {
                            if k < was.len() {
                                assert(now[k] == was[k]);
                                assert(index.contains_key(was[k].id));
                            }
                        }
                    }
                },
            }
        },
        TouchPhase::Moved => {
            match found {
                Some(i) => {
                    let old_finger = held.list[i];
                    let f = Finger {
                        id: old_finger.id,
                        device_id: old_finger.device_id,
                        prev_position: old_finger.prev_position,
                        start_position: old_finger.start_position,
                        current_position: event.location,
                        has_moved: true,
                    };
                    proof {
                        lemma_finger_at(was, i as int);
                        lemma_finger_update(was, i as int, f);
                    }
                    held.list.set(i, f);
                    proof {
                        lemma_same_ids_same_index(index, was, held.list@);
                    }
                },
                None => {},
            }
        },
        TouchPhase::Ended | TouchPhase::Cancelled => {
            match found {
                Some(i) => {
                    proof {
                        lemma_finger_swap_remove(was, i as int);
                    }
                    let last = held.list.len() - 1;
                    held.list.swap_remove(i);
                    if i < last {
                        let moved = held.list[i].id;
                        finger_index_insert(&mut held.index, moved, i);
                    }
                    finger_index_remove(&mut held.index, event.id);
                    proof {
                        let now = held.list@;
                        let idx = finger_index_contents(held.index);
                        assert(was.last() == was[last as int]);
                        assert forall|k: int| 0 <= k < now.len() implies #[trigger] now[k] == was[if k == i { last as int } else { k }] by {}
                        assert forall|id: u64| #[trigger] idx.contains_key(id) implies
                            idx[id] < now.len() && now[idx[id] as int].id == id by {
                            if i < last && id == was[last as int].id {
                                assert(now[i as int] == was[last as int]);
                            } else {
                                let j = index[id] as int;
                                assert(was[j].id == id);
                                assert(j != i);
                                assert(j != last);
                                assert(now[j] == was[j]);
                            }
                        }
                        assert forall|k: int| 0 <= k < now.len() implies idx.contains_key(#[trigger] now[k].id) by {
                            let j = if k == i { last as int } else { k };
                            assert(now[k] == was[j]);
                            assert(index.contains_key(was[j].id));
                            assert(j != i);
                        }
                    }
                },
                None => {
                    assert(finger_map(was) =~= finger_map(was).remove(event.id));
                },
            }
        },
    }
}

/// Replacing fingers by fingers with the same ids keeps the index right.
proof fn lemma_same_ids_same_index<P, D>(index: Map<u64, usize>, was: Seq<Finger<P, D>>, now: Seq<Finger<P, D>>)
    requires
        index_matches(index, was),
        now.len() == was.len(),
        forall|k: int| 0 <= k < was.len() ==> #[trigger] now[k].id == was[k].id,
    ensures
        index_matches(index, now),
{
    assert forall|id: u64| #[trigger] index.contains_key(id) implies
        index[id] < now.len() && now[index[id] as int].id == id by {
        assert(now[index[id] as int].id == was[index[id] as int].id);
    }
    assert forall|k: int| 0 <= k < now.len() implies index.contains_key(#[trigger] now[k].id) by {
        assert(now[k].id == was[k].id);
        assert(index.contains_key(was[k].id));
    }
}

/// Where a finger lies with respect to the on-screen controls (the caller measures this
/// from the finger's positions and the window size).
#[derive(Clone, Copy, Debug, PartialEq, Eq, Structural)]
pub struct FingerAreas {
    pub id: u64,
    /// It started in the movement half of the screen.
    pub movement: bool,
    /// It started in the action-button area.
    pub action: bool,
    /// It started or is now on the first action button.
    pub button_a: bool,
    /// It started or is now on the second action button.
    pub button_b: bool,
    /// It started in the camera half of the screen.
    pub look: bool,
}

/// What the touch controls decide for a frame: the finger that steers movement, whether
/// each action button is pressed, and the finger that turns the camera (indices into the
/// fingers handed in).
#[derive(Clone, Copy, Debug, PartialEq, Eq, Structural)]
pub struct TouchControls {
    pub movement: Option<usize>,
    pub action_a: bool,
    pub action_b: bool,
    pub look: Option<usize>,
}

/// The finger at `i` presses the first action button.
pub open spec fn presses_a(f: FingerAreas) -> bool {
    f.action && f.button_a
}

/// The finger at `i` presses the second action button.
pub open spec fn presses_b(f: FingerAreas) -> bool {
    f.action && f.button_b
}

/// `found` is the first finger of `fingers` for which `p` holds, or `None` when there is
/// none.
pub open spec fn first_such(fingers: Seq<FingerAreas>, p: spec_fn(FingerAreas) -> bool, found: Option<usize>) -> bool {
    match found {
        Some(i) => i < fingers.len() && p(fingers[i as int]) && forall|j: int| 0 <= j < i ==> !p(#[trigger] fingers[j]),
        None => forall|j: int| 0 <= j < fingers.len() ==> !p(#[trigger] fingers[j]),
    }
}

/// The index of the first finger of `fingers` for which `p` holds, if any.
pub open spec fn first_index(fingers: Seq<FingerAreas>, p: spec_fn(FingerAreas) -> bool) -> Option<usize>
    decreases fingers.len(),
{
    if fingers.len() == 0 {
        None
    } else {
        match first_index(fingers.drop_last(), p) {
            Some(i) => Some(i),
            None => if p(fingers.last()) {
                Some((fingers.len() - 1) as usize)
            } else {
                None
            },
        }
    }
}

/// The first finger for which `p` holds is the one [`first_index`] names.
proof fn lemma_first_such_is_first_index(fingers: Seq<FingerAreas>, p: spec_fn(FingerAreas) -> bool, found: Option<usize>)
    requires
        first_such(fingers, p, found),
        fingers.len() <= usize::MAX + 1,
    ensures
        found == first_index(fingers, p),
    decreases fingers.len(),
{
    if fingers.len() > 0 {
        let init = fingers.drop_last();
        let last = fingers.len() - 1;
        assert(fingers.last() == fingers[last]);
        match found {
            Some(i) => {
                if i < last {
                    assert(init[i as int] == fingers[i as int]);
                    assert forall|j: int| 0 <= j < i implies !p(#[trigger] init[j]) by {
                        assert(init[j] == fingers[j]);
                    }
                    lemma_first_such_is_first_index(init, p, Some(i));
                } else {
                    assert forall|j: int| 0 <= j < init.len() implies !p(#[trigger] init[j]) by {
                        assert(init[j] == fingers[j]);
                    }
                    lemma_first_such_is_first_index(init, p, None);
                }
            },
            None => {
                assert forall|j: int| 0 <= j < init.len() implies !p(#[trigger] init[j]) by {
                    assert(init[j] == fingers[j]);
                }
                lemma_first_such_is_first_index(init, p, None);
            },
        }
    }
}

/// The ids of the fingers that press the action buttons: the first finger that presses
/// each button.
pub open spec fn button_finger_ids(fingers: Seq<FingerAreas>, a: Option<usize>, b: Option<usize>) -> Set<u64> {
    let with_a = match a {
        Some(i) => set![fingers[i as int].id],
        None => Set::empty(),
    };
    match b {
        Some(i) => with_a.insert(fingers[i as int].id),
        None => with_a,
    }
}

/// The first finger of `fingers` of the kind `kind` (see [`finger_kind`]).
fn first_finger(fingers: &[FingerAreas], kind: u8, exclude: &SetU64) -> (found: Option<usize>)
    ensures
        first_such(fingers@, |f: FingerAreas| finger_kind(f, kind, set_u64_contents(*exclude)), found),
{
    let mut i: usize = 0;
    while i < fingers.len()
        invariant
            i <= fingers@.len(),
            forall|j: int| 0 <= j < i ==> !finger_kind(#[trigger] fingers@[j], kind, set_u64_contents(*exclude)),
        decreases fingers@.len() - i,
    {
        let f = fingers[i];
        let hit = match kind {
            0 => f.movement,
            1 => f.action && f.button_a,
            2 => f.action && f.button_b,
            _ => f.look && !set_u64_contains(exclude, f.id),
        };
        if hit {
            return Some(i);
        }
        i = i + 1;
    }
    None
}

/// The finger tests that [`touch_controls`] searches for: movement, first button, second
/// button, and camera (`kind` 3, leaving out the fingers whose ids are in `exclude`).
pub open spec fn finger_kind(f: FingerAreas, kind: u8, exclude: Set<u64>) -> bool {
    if kind == 0 {
        f.movement
    } else if kind == 1 {
        presses_a(f)
    } else if kind == 2 {
        presses_b(f)
    } else {
        f.look && !exclude.contains(f.id)
    }
}

/// Finger `k` is the first of `fingers` for which `p` holds.
pub open spec fn is_first(fingers: Seq<FingerAreas>, k: int, p: spec_fn(FingerAreas) -> bool) -> bool {
    &&& 0 <= k < fingers.len()
    &&& p(fingers[k])
    &&& forall|m: int| 0 <= m < k ==> !p(#[trigger] fingers[m])
}

/// The id `id` is that of a finger pressing an action button: the first finger pressing
/// the first button or the first finger pressing the second.
pub open spec fn is_button_finger(fingers: Seq<FingerAreas>, id: u64) -> bool {
    exists|k: int| #![trigger fingers[k]]
        (is_first(fingers, k, |f: FingerAreas| presses_a(f)) || is_first(fingers, k, |f: FingerAreas| presses_b(f)))
            && fingers[k].id == id
}

/// The ids that [`touch_controls`] keeps from the camera are the button fingers.
proof fn lemma_button_ids_are_button_fingers(fingers: Seq<FingerAreas>, id: u64)
    requires
        fingers.len() <= usize::MAX,
    ensures
        button_finger_ids(
            fingers,
            first_index(fingers, |g: FingerAreas| presses_a(g)),
            first_index(fingers, |g: FingerAreas| presses_b(g)),
        ).contains(id) == is_button_finger(fingers, id),
{
    let pa = |g: FingerAreas| presses_a(g);
    let pb = |g: FingerAreas| presses_b(g);
    lemma_first_index_is_first(fingers, pa);
    lemma_first_index_is_first(fingers, pb);
    let fa = first_index(fingers, pa);
    let fb = first_index(fingers, pb);
    if is_button_finger(fingers, id) {
        let k = choose|k: int| #![trigger fingers[k]]
            (is_first(fingers, k, |f: FingerAreas| presses_a(f)) || is_first(fingers, k, |f: FingerAreas| presses_b(f)))
                && fingers[k].id == id;
        if is_first(fingers, k, |f: FingerAreas| presses_a(f)) {
            assert(presses_a(fingers[k]));
            match fa {
                Some(a) => {
                    if (a as int) < k {
                        assert(!presses_a(fingers[a as int]));
                    }
                    if k < (a as int) {
                        assert(!presses_a(fingers[k]));
                    }
                },
                None => {
                    assert(!pa(fingers[k]));
                },
            }
        } else {
            assert(presses_b(fingers[k]));
            match fb {
                Some(b) => {
                    if (b as int) < k {
                        assert(!presses_b(fingers[b as int]));
                    }
                    if k < (b as int) {
                        assert(!presses_b(fingers[k]));
                    }
                },
                None => {
                    assert(!pb(fingers[k]));
                },
            }
        }
    }
    if button_finger_ids(fingers, fa, fb).contains(id) {
        match fa {
            Some(a) => {
                if fingers[a as int].id == id {
                    assert(is_first(fingers, a as int, |f: FingerAreas| presses_a(f)));
                }
            },
            None => {},
        }
        match fb {
            Some(b) => {
                if fingers[b as int].id == id {
                    assert(is_first(fingers, b as int, |f: FingerAreas| presses_b(f)));
                }
            },
            None => {},
        }
    }
}

/// Decide the touch controls of a frame from where the fingers are: movement follows the
/// first finger that started in the movement half; an action button is pressed when some
/// finger that started in the action area is on it; the camera follows the first finger
/// that started in the camera half and presses neither button (the first finger on each
/// button counts as pressing it).
pub fn touch_controls(fingers: &[FingerAreas]) -> (controls: TouchControls)
    ensures
        controls.movement == first_index(fingers@, |f: FingerAreas| f.movement),
        controls.action_a == exists|j: int| 0 <= j < fingers@.len() && presses_a(#[trigger] fingers@[j]),
        controls.action_b == exists|j: int| 0 <= j < fingers@.len() && presses_b(#[trigger] fingers@[j]),
        controls.look == first_index(
            fingers@,
            |f: FingerAreas| f.look && !button_finger_ids(
                fingers@,
                first_index(fingers@, |g: FingerAreas| presses_a(g)),
                first_index(fingers@, |g: FingerAreas| presses_b(g)),
            ).contains(f.id),
        ),
        controls.movement matches Some(i) ==> i < fingers@.len() && fingers@[i as int].movement
            && forall|j: int| 0 <= j < i ==> !(#[trigger] fingers@[j]).movement,
        controls.movement is None ==> forall|j: int| 0 <= j < fingers@.len() ==> !(#[trigger] fingers@[j]).movement,
        controls.look matches Some(i) ==> i < fingers@.len() && fingers@[i as int].look
            && !is_button_finger(fingers@, fingers@[i as int].id)
            && forall|j: int| 0 <= j < i && (#[trigger] fingers@[j]).look ==> is_button_finger(fingers@, fingers@[j].id),
        controls.look is None ==> forall|j: int| 0 <= j < fingers@.len() && (#[trigger] fingers@[j]).look
            ==> is_button_finger(fingers@, fingers@[j].id),
{
    let none = set_u64_new();
    let movement = first_finger(fingers, 0, &none);
    let a = first_finger(fingers, 1, &none);
    let b = first_finger(fingers, 2, &none);
    let mut button_fingers = set_u64_new();
    match a {
        Some(i) => {
            set_u64_insert(&mut button_fingers, fingers[i].id);
        },
        None => {},
    }
    match b {
        Some(i) => {
            set_u64_insert(&mut button_fingers, fingers[i].id);
        },
        None => {},
    }
    let look = first_finger(fingers, 3, &button_fingers);
    let count = fingers.len();
    proof {
        assert(fingers@.len() == count);
        let empty = set_u64_contents(none);
        assert((|f: FingerAreas| finger_kind(f, 0, empty)) =~= (|f: FingerAreas| f.movement));
        assert((|f: FingerAreas| finger_kind(f, 1, empty)) =~= (|f: FingerAreas| presses_a(f)));
        assert((|f: FingerAreas| finger_kind(f, 2, empty)) =~= (|f: FingerAreas| presses_b(f)));
        let ids = button_finger_ids(fingers@, a, b);
        assert(set_u64_contents(button_fingers) =~= ids);
        assert((|f: FingerAreas| finger_kind(f, 3, set_u64_contents(button_fingers)))
            =~= (|f: FingerAreas| f.look && !ids.contains(f.id)));
        if a is Some {
            assert(presses_a(fingers@[a->0 as int]));
        }
        if b is Some {
            assert(presses_b(fingers@[b->0 as int]));
        }
        lemma_first_such_is_first_index(fingers@, |f: FingerAreas| f.movement, movement);
        lemma_first_such_is_first_index(fingers@, |f: FingerAreas| presses_a(f), a);
        lemma_first_such_is_first_index(fingers@, |f: FingerAreas| presses_b(f), b);
        lemma_first_such_is_first_index(fingers@, |f: FingerAreas| f.look && !ids.contains(f.id), look);
        assert((|g: FingerAreas| presses_a(g)) =~= (|f: FingerAreas| presses_a(f)));
        assert((|g: FingerAreas| presses_b(g)) =~= (|f: FingerAreas| presses_b(f)));
        let q = |f: FingerAreas| f.look && !ids.contains(f.id);
        lemma_first_index_is_first(fingers@, |f: FingerAreas| f.movement);
        lemma_first_index_is_first(fingers@, q);
        assert forall|j: int| 0 <= j < fingers@.len() implies
            ids.contains(#[trigger] fingers@[j].id) == is_button_finger(fingers@, fingers@[j].id) by {
            lemma_button_ids_are_button_fingers(fingers@, fingers@[j].id);
        }
        assert forall|j: int| 0 <= j < fingers@.len() implies
            q(#[trigger] fingers@[j]) == (fingers@[j].look && !is_button_finger(fingers@, fingers@[j].id)) by {
            assert(ids.contains(fingers@[j].id) == is_button_finger(fingers@, fingers@[j].id));
        }
    }
    TouchControls { movement, action_a: a.is_some(), action_b: b.is_some(), look }
}

/// Events that do not restart finger `id` keep where it was at the start of the frame as
/// its previous position, and where it first touched as its start.
proof fn lemma_prev_kept<P, D>(fingers: Map<u64, Finger<P, D>>, events: Seq<TouchInput<P, D>>, id: u64, prev: P, start: P)
    requires
        fingers.contains_key(id) ==> fingers[id].prev_position == prev && fingers[id].start_position == start,
        forall|j: int| 0 <= j < events.len() && (#[trigger] events[j]).id == id ==> events[j].phase != TouchPhase::Started,
    ensures
        touches_after(fingers, events).contains_key(id) ==> {
            &&& touches_after(fingers, events)[id].prev_position == prev
            &&& touches_after(fingers, events)[id].start_position == start
        },
    decreases events.len(),
{
    if events.len() > 0 {
        let init = events.drop_last();
        assert forall|j: int| 0 <= j < init.len() && (#[trigger] init[j]).id == id implies init[j].phase != TouchPhase::Started by {
            assert(init[j] == events[j]);
        }
        lemma_prev_kept(fingers, init, id, prev, start);
        assert(events.last() == events[events.len() - 1]);
    }
}

/// Within a frame a finger's previous position is where it was when the frame started: after
/// the frame's events (see [`RawTouchState::process_touch_events`]), every finger that was
/// on the screen before the frame, is still on it and was not touched down anew has as its
/// previous position its position at the start of the frame, however often it moved, and
/// keeps the place where it first touched.
pub proof fn lemma_prev_position_is_frame_start<P, D>(fingers: Map<u64, Finger<P, D>>, events: Seq<TouchInput<P, D>>, id: u64)
    requires
        fingers.contains_key(id),
        forall|j: int| 0 <= j < events.len() && (#[trigger] events[j]).id == id ==> events[j].phase != TouchPhase::Started,
    ensures
        touches_after(fingers_carried(fingers), events).contains_key(id) ==> {
            &&& touches_after(fingers_carried(fingers), events)[id].prev_position == fingers[id].current_position
            &&& touches_after(fingers_carried(fingers), events)[id].start_position == fingers[id].start_position
        },
{
    lemma_prev_kept(fingers_carried(fingers), events, id, fingers[id].current_position, fingers[id].start_position);
}

/// A move of a finger on the screen puts it where the move went and marks it moved,
/// leaving its start and previous positions; a move of an unknown finger changes nothing.
pub proof fn lemma_move_sets_current<P, D>(fingers: Map<u64, Finger<P, D>>, event: TouchInput<P, D>)
    requires
        event.phase == TouchPhase::Moved,
    ensures
        fingers.contains_key(event.id) ==> {
            &&& touch_step(fingers, event).contains_key(event.id)
            &&& touch_step(fingers, event)[event.id].current_position == event.location
            &&& touch_step(fingers, event)[event.id].prev_position == fingers[event.id].prev_position
            &&& touch_step(fingers, event)[event.id].start_position == fingers[event.id].start_position
            &&& touch_step(fingers, event)[event.id].has_moved
        },
        !fingers.contains_key(event.id) ==> touch_step(fingers, event) == fingers,
{
}

/// A touch that starts a finger puts it, whatever was there, where it touched: its start,
/// previous and current positions are the touch's location, it has not moved, and it keeps
/// the touch's device; other fingers stay as they were.
pub proof fn lemma_start_places_finger<P, D>(fingers: Map<u64, Finger<P, D>>, event: TouchInput<P, D>, other: u64)
    requires
        event.phase == TouchPhase::Started,
    ensures
        touch_step(fingers, event).contains_key(event.id),
        touch_step(fingers, event)[event.id].id == event.id,
        touch_step(fingers, event)[event.id].device_id == event.device_id,
        touch_step(fingers, event)[event.id].start_position == event.location,
        touch_step(fingers, event)[event.id].prev_position == event.location,
        touch_step(fingers, event)[event.id].current_position == event.location,
        !touch_step(fingers, event)[event.id].has_moved,
        other != event.id ==> touch_step(fingers, event).contains_key(other) == fingers.contains_key(other),
        other != event.id && fingers.contains_key(other) ==> touch_step(fingers, event)[other] == fingers[other],
{
}

/// A touch that lifts or cancels a finger removes it and nothing else.
pub proof fn lemma_lift_removes_finger<P, D>(fingers: Map<u64, Finger<P, D>>, event: TouchInput<P, D>, other: u64)
    requires
        event.phase == TouchPhase::Ended || event.phase == TouchPhase::Cancelled,
    ensures
        !touch_step(fingers, event).contains_key(event.id),
        other != event.id ==> touch_step(fingers, event).contains_key(other) == fingers.contains_key(other),
        other != event.id && fingers.contains_key(other) ==> touch_step(fingers, event)[other] == fingers[other],
{
}

/// At the start of a frame every finger stays, in the same place, with its previous
/// position set to where it is.
pub proof fn lemma_carried_fingers<P, D>(fingers: Map<u64, Finger<P, D>>, id: u64)
    ensures
        fingers_carried(fingers).contains_key(id) == fingers.contains_key(id),
        fingers.contains_key(id) ==> {
            &&& fingers_carried(fingers)[id].prev_position == fingers[id].current_position
            &&& fingers_carried(fingers)[id].current_position == fingers[id].current_position
            &&& fingers_carried(fingers)[id].start_position == fingers[id].start_position
            &&& fingers_carried(fingers)[id].has_moved == fingers[id].has_moved
            &&& fingers_carried(fingers)[id].device_id == fingers[id].device_id
            &&& fingers_carried(fingers)[id].id == fingers[id].id
        },
{
}

/// The first index that satisfies `p` is the first: it satisfies `p` and no finger before
/// it does; there is none exactly when no finger satisfies `p` (for any list of fingers
/// that a slice can hold).
pub proof fn lemma_first_index_is_first(fingers: Seq<FingerAreas>, p: spec_fn(FingerAreas) -> bool)
    requires
        fingers.len() <= usize::MAX,
    ensures
        (match first_index(fingers, p) {
            Some(i) => i < fingers.len() && p(fingers[i as int]) && forall|j: int| 0 <= j < i ==> !p(#[trigger] fingers[j]),
            None => forall|j: int| 0 <= j < fingers.len() ==> !p(#[trigger] fingers[j]),
        }),
    decreases fingers.len(),
{
    if fingers.len() > 0 {
        let init = fingers.drop_last();
        let last = fingers.len() - 1;
        assert(fingers.last() == fingers[last]);
        lemma_first_index_is_first(init, p);
        match first_index(init, p) {
            Some(i) => {
                assert(fingers[i as int] == init[i as int]);
                assert forall|j: int| 0 <= j < i implies !p(#[trigger] fingers[j]) by {
                    assert(fingers[j] == init[j]);
                }
            },
            None => {
                assert forall|j: int| 0 <= j < last implies !p(#[trigger] fingers[j]) by {
                    assert(fingers[j] == init[j]);
                }
            },
        }
    }
}

/// Every finger that a touch state tracks is kept under its own id.
pub proof fn lemma_fingers_keyed_by_id<P, D>(state: RawTouchState<P, D>)
    ensures
        keyed_by_id(state@),
{
    assert forall|id: u64| #[trigger] state@.contains_key(id) implies state@[id].id == id by {
        let j = choose|j: int| 0 <= j < state.held.list@.len() && #[trigger] state.held.list@[j].id == id;
        assert(state.held.list@[j].id == id);
    }
}

/// A finger that no event of the frame mentions is as it was.
pub proof fn lemma_untouched_finger_kept<P, D>(fingers: Map<u64, Finger<P, D>>, events: Seq<TouchInput<P, D>>, id: u64)
    requires
        forall|j: int| 0 <= j < events.len() ==> (#[trigger] events[j]).id != id,
    ensures
        touches_after(fingers, events).contains_key(id) == fingers.contains_key(id),
        fingers.contains_key(id) ==> touches_after(fingers, events)[id] == fingers[id],
    decreases events.len(),
{
    if events.len() > 0 {
        let init = events.drop_last();
        assert forall|j: int| 0 <= j < init.len() implies (#[trigger] init[j]).id != id by {
            assert(init[j] == events[j]);
        }
        assert(events.last() == events[events.len() - 1]);
        lemma_untouched_finger_kept(fingers, init, id);
    }
}

/// The last event of a finger decides whether it is on the screen: after a touch that starts
/// it the finger is on the screen, where it touched and not moved; after a touch that lifts or
/// cancels it, it is not.
pub proof fn lemma_last_touch_decides<P, D>(fingers: Map<u64, Finger<P, D>>, events: Seq<TouchInput<P, D>>, i: int)
    requires
        0 <= i < events.len(),
        forall|j: int| i < j < events.len() ==> (#[trigger] events[j]).id != events[i].id,
    ensures
        events[i].phase == TouchPhase::Started ==> {
            &&& touches_after(fingers, events).contains_key(events[i].id)
            &&& touches_after(fingers, events)[events[i].id] == started_finger(events[i].id, events[i].device_id, events[i].location)
        },
        (events[i].phase == TouchPhase::Ended || events[i].phase == TouchPhase::Cancelled)
            ==> !touches_after(fingers, events).contains_key(events[i].id),
    decreases events.len(),
{
    let init = events.drop_last();
    let id = events[i].id;
    if i == events.len() - 1 {
        assert(events.last() == events[i]);
    } else {
        assert(init[i] == events[i]);
        assert forall|j: int| i < j < init.len() implies (#[trigger] init[j]).id != init[i].id by {
            assert(init[j] == events[j]);
        }
        lemma_last_touch_decides(fingers, init, i);
        assert(events.last() == events[events.len() - 1]);
        assert(events.last().id != id);
    }
}

} // verus!
