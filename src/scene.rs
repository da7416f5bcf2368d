//! The entity/component store and the per-frame render filter.
use crate::asset::Handle;
use vstd::prelude::*;

verus! {

/// A reference point of a layout rectangle.
#[derive(Clone, Copy, Debug, PartialEq, Eq, Structural)]
pub enum Anchor {
    TopLeft,
    TopMiddle,
    TopRight,
    MiddleLeft,
    Middle,
    MiddleRight,
    BottomLeft,
    BottomMiddle,
    BottomRight,
}

/// How a text run is laid out across lines.
#[derive(Clone, Copy, Debug, PartialEq, Eq, Structural)]
pub enum LineMode {
    Single,
    Wrap,
}

/// A four-channel color, each channel in thousandths (0 to 1000).
#[derive(Clone, Copy, Debug, PartialEq, Eq, Structural)]
pub struct Color {
    pub r: u16,
    pub g: u16,
    pub b: u16,
    pub a: u16,
}

/// Layout of an entity: anchor and pivot, offset, and size.
#[derive(Clone, Copy, Debug, PartialEq, Eq, Structural)]
pub struct Transform {
    pub anchor: Anchor,
    pub pivot: Anchor,
    pub x: i32,
    pub y: i32,
    pub z: i32,
    pub width: u32,
    pub height: u32,
}

/// A text payload drawn with a cached font.
#[derive(Clone, Debug, PartialEq, Eq)]
pub struct TextRun {
    pub content: String,
    pub font: Handle,
    pub color: Color,
    pub point_size: u32,
    pub line_mode: LineMode,
    pub align: Anchor,
}

/// Appearance of an entity.
#[derive(Clone, Debug, PartialEq, Eq)]
pub enum Visual {
    SolidFill(Color),
    Text(TextRun),
}

/// The components of one entity: any subset of transform, visual and the
/// suppression marker.
#[derive(Clone, Debug, PartialEq, Eq)]
pub struct Components {
    pub transform: Option<Transform>,
    pub visual: Option<Visual>,
    pub suppressed: bool,
}

/// An opaque entity identifier; identifiers are never reused.
#[derive(Clone, Copy, Debug, PartialEq, Eq, Structural)]
pub struct Entity {
    pub id: u64,
}

/// One entity of the abstract scene.
pub struct EntityRow {
    pub id: u64,
    pub parts: Components,
}

/// The abstract scene: entities in insertion order and the next identifier.
pub struct SceneView {
    pub rows: Seq<EntityRow>,
    pub next_id: nat,
}

/// An entity is drawn iff it has a transform and a visual and no marker.
pub open spec fn eligible(parts: Components) -> bool {
    parts.transform is Some && parts.visual is Some && !parts.suppressed
}

/// Identifiers of the eligible rows, in row order.
pub open spec fn render_order(rows: Seq<EntityRow>) -> Seq<u64>
    decreases rows.len(),
{
    if rows.len() == 0 {
        Seq::empty()
    } else {
        let prev = render_order(rows.drop_last());
        if eligible(rows.last().parts) {
            prev.push(rows.last().id)
        } else {
            prev
        }
    }
}

impl SceneView {
    /// Identifiers increase with insertion order and stay below the next one.
    pub open spec fn wf(self) -> bool {
        &&& forall|i: int, j: int|
            0 <= i < j < self.rows.len() ==> self.rows[i].id < self.rows[j].id
        &&& forall|i: int| 0 <= i < self.rows.len() ==> self.rows[i].id < self.next_id
    }

    pub open spec fn contains(self, id: u64) -> bool {
        exists|i: int| 0 <= i < self.rows.len() && self.rows[i].id == id
    }

    pub open spec fn index_of(self, id: u64) -> int {
        choose|i: int| 0 <= i < self.rows.len() && self.rows[i].id == id
    }

    pub open spec fn lookup(self, id: u64) -> Option<Components> {
        if self.contains(id) {
            Some(self.rows[self.index_of(id)].parts)
        } else {
            None
        }
    }

    pub open spec fn transform_of(self, id: u64) -> Option<Transform> {
        match self.lookup(id) {
            Some(c) => c.transform,
            None => None,
        }
    }

    pub open spec fn visual_of(self, id: u64) -> Option<Visual> {
        match self.lookup(id) {
            Some(c) => c.visual,
            None => None,
        }
    }

    pub open spec fn marked(self, id: u64) -> bool {
        match self.lookup(id) {
            Some(c) => c.suppressed,
            None => false,
        }
    }

    pub open spec fn renderable(self, id: u64) -> bool {
        match self.lookup(id) {
            Some(c) => eligible(c),
            None => false,
        }
    }

    /// The render set of a frame drawn from this scene.
    pub open spec fn render_ids(self) -> Seq<u64> {
        render_order(self.rows)
    }

    pub open spec fn created(self, parts: Components) -> SceneView {
        SceneView {
            rows: self.rows.push(EntityRow { id: self.next_id as u64, parts }),
            next_id: self.next_id + 1,
        }
    }

    pub open spec fn with_marker(self, id: u64, present: bool) -> SceneView {
        if self.contains(id) {
            let row = self.rows[self.index_of(id)];
            SceneView {
                rows: self.rows.update(
                    self.index_of(id),
                    EntityRow {
                        id,
                        parts: Components {
                            transform: row.parts.transform,
                            visual: row.parts.visual,
                            suppressed: present,
                        },
                    },
                ),
                next_id: self.next_id,
            }
        } else {
            self
        }
    }

    pub open spec fn removed(self, id: u64) -> SceneView {
        if self.contains(id) {
            SceneView { rows: self.rows.remove(self.index_of(id)), next_id: self.next_id }
        } else {
            self
        }
    }
}

/// In a well-formed scene each row is the one its identifier names.
pub proof fn lemma_row_index(s: SceneView, i: int)
    requires
        s.wf(),
        0 <= i < s.rows.len(),
    ensures
        s.contains(s.rows[i].id),
        s.index_of(s.rows[i].id) == i,
        s.lookup(s.rows[i].id) == Some(s.rows[i].parts),
{
    let id = s.rows[i].id;
    assert(s.contains(id));
    let k = s.index_of(id);
    assert(s.rows[k].id == id);
    if k < i {
        assert(s.rows[k].id < s.rows[i].id);
    } else if i < k {
        assert(s.rows[i].id < s.rows[k].id);
    }
}

/// An identifier is in the render order iff some row with it is eligible.
pub proof fn lemma_render_order_contains(rows: Seq<EntityRow>, id: u64)
    ensures
        render_order(rows).contains(id) <==> exists|i: int|
            0 <= i < rows.len() && rows[i].id == id && eligible(rows[i].parts),
    decreases rows.len(),
{
    if rows.len() > 0 {
        let pre = rows.drop_last();
        lemma_render_order_contains(pre, id);
        let prev = render_order(pre);
        let last = rows.len() - 1;
        if render_order(rows).contains(id) {
            if eligible(rows[last].parts) && rows[last].id == id {
            } else {
                if eligible(rows[last].parts) {
                    let k = choose|k: int| 0 <= k < prev.push(rows[last].id).len()
                        && prev.push(rows[last].id)[k] == id;
                    assert(k < prev.len());
                    assert(prev.contains(id));
                }
                let i = choose|i: int| 0 <= i < pre.len() && pre[i].id == id && eligible(pre[i].parts);
                assert(rows[i] == pre[i]);
            }
        } else {
            assert forall|i: int| 0 <= i < rows.len() && rows[i].id == id implies !eligible(rows[i].parts) by {
                if i < last {
                    assert(rows[i] == pre[i]);
                    if eligible(rows[i].parts) {
                        assert(prev.contains(id));
                        if eligible(rows[last].parts) {
                            let k = prev.index_of(id);
                            assert(prev.push(rows[last].id)[k] == id);
                        }
                    }
                } else {
                    if eligible(rows[i].parts) {
                        assert(prev.push(rows[last].id)[prev.len() as int] == id);
                    }
                }
            }
        }
    }
}

/// Setting the marker keeps every transform and visual and keeps the scene
/// well formed.
pub proof fn lemma_marker_keeps_components(s: SceneView, id: u64, present: bool)
    requires
        s.wf(),
    ensures
        s.with_marker(id, present).wf(),
        forall|k: u64| #[trigger]
            s.with_marker(id, present).transform_of(k) == s.transform_of(k),
        forall|k: u64| #[trigger] s.with_marker(id, present).visual_of(k) == s.visual_of(k),
        forall|k: u64| k != id ==> #[trigger] s.with_marker(id, present).marked(k) == s.marked(k),
        s.with_marker(id, present).marked(id) == (s.contains(id) && present),
        s.with_marker(id, present).renderable(id) == (s.transform_of(id) is Some
            && s.visual_of(id) is Some && present == false),
{
    let t = s.with_marker(id, present);
    if s.contains(id) {
        let i = s.index_of(id);
        lemma_row_index(s, i);
        assert(t.wf());
        assert forall|k: u64| #[trigger] t.lookup(k) is Some == s.lookup(k) is Some by {
            if s.contains(k) {
                let j = s.index_of(k);
                assert(t.rows[j].id == k);
            }
            if t.contains(k) {
                let j = t.index_of(k);
                assert(s.rows[j].id == k);
            }
        }
        assert forall|k: u64| s.contains(k) implies #[trigger] t.index_of(k) == s.index_of(k) by {
            let j = s.index_of(k);
            lemma_row_index(s, j);
            lemma_row_index(t, j);
        }
        assert forall|k: u64| #[trigger] t.transform_of(k) == s.transform_of(k) by {
            if s.contains(k) {
                assert(t.contains(k));
            }
        }
        assert forall|k: u64| #[trigger] t.visual_of(k) == s.visual_of(k) by {
            if s.contains(k) {
                assert(t.contains(k));
            }
        }
        assert forall|k: u64| k != id implies #[trigger] t.marked(k) == s.marked(k) by {
            if s.contains(k) {
                lemma_row_index(s, s.index_of(k));
                assert(t.rows[s.index_of(k)].id == k);
                assert(t.contains(k));
            }
        }
        assert(t.contains(id));
    }
}

/// Membership in the render set: an entity is drawn in a frame iff it has a
/// transform and a visual and does not carry the suppression marker.
pub proof fn lemma_render_membership(s: SceneView, id: u64)
    requires
        s.wf(),
    ensures
        s.render_ids().contains(id) <==> s.renderable(id),
        s.renderable(id) <==> (s.transform_of(id) is Some && s.visual_of(id) is Some && !s.marked(id)),
{
    lemma_render_order_contains(s.rows, id);
    if s.contains(id) {
        lemma_row_index(s, s.index_of(id));
        if s.render_ids().contains(id) {
            let i = choose|i: int| 0 <= i < s.rows.len() && s.rows[i].id == id && eligible(s.rows[i].parts);
            lemma_row_index(s, i);
        }
    }
}

/// The scene after `n` entities holding `parts` were created one by one.
pub open spec fn created_times(s: SceneView, parts: Components, n: nat) -> SceneView
    decreases n,
{
    if n == 0 {
        s
    } else {
        created_times(s, parts, (n - 1) as nat).created(parts)
    }
}

/// Creating an entity keeps the scene well formed and every earlier entity's
/// components; one that is not eligible leaves the render set as it was.
pub proof fn lemma_create_keeps_existing(s: SceneView, parts: Components)
    requires
        s.wf(),
        s.next_id < u64::MAX,
    ensures
        s.created(parts).wf(),
        s.created(parts).contains(s.next_id as u64),
        s.created(parts).lookup(s.next_id as u64) == Some(parts),
        forall|id: u64| s.contains(id) ==> #[trigger] s.created(parts).lookup(id) == s.lookup(id),
        !eligible(parts) ==> s.created(parts).render_ids() == s.render_ids(),
{
    let t = s.created(parts);
    assert(t.rows.drop_last() =~= s.rows);
    lemma_row_index(t, s.rows.len() as int);
    assert forall|id: u64| s.contains(id) implies #[trigger] t.lookup(id) == s.lookup(id) by {
        let i = s.index_of(id);
        lemma_row_index(s, i);
        assert(t.rows[i] == s.rows[i]);
        lemma_row_index(t, i);
    }
}

/// Creating `n` suppressed entities after others already exist leaves every
/// earlier entity's components and render-set membership unchanged, and the
/// render set itself unchanged.
pub proof fn lemma_marked_creations_keep_scene(s: SceneView, parts: Components, n: nat)
    requires
        s.wf(),
        parts.suppressed,
        s.next_id + n <= u64::MAX,
    ensures
        created_times(s, parts, n).wf(),
        created_times(s, parts, n).rows.len() == s.rows.len() + n,
        created_times(s, parts, n).next_id == s.next_id + n,
        forall|id: u64| s.contains(id) ==> #[trigger] created_times(s, parts, n).lookup(id) == s.lookup(id),
        forall|id: u64| s.contains(id) ==> #[trigger] created_times(s, parts, n).renderable(id) == s.renderable(id),
        created_times(s, parts, n).render_ids() == s.render_ids(),
    decreases n,
{
    if n > 0 {
        let m = (n - 1) as nat;
        lemma_marked_creations_keep_scene(s, parts, m);
        let p = created_times(s, parts, m);
        lemma_create_keeps_existing(p, parts);
        assert forall|id: u64| s.contains(id) implies #[trigger] created_times(s, parts, n).lookup(id) == s.lookup(id) by {
            assert(p.lookup(id) == s.lookup(id));
            assert(p.contains(id));
        }
        assert forall|id: u64| s.contains(id) implies #[trigger] created_times(s, parts, n).renderable(id) == s.renderable(id) by {
            assert(created_times(s, parts, n).lookup(id) == s.lookup(id));
        }
    }
}

/// The scene store: per-kind component storage, one slot per entity, kept
/// in insertion order.
pub struct SceneStore {
    ids: Vec<u64>,
    transforms: Vec<Option<Transform>>,
    visuals: Vec<Option<Visual>>,
    hidden: Vec<bool>,
    next_id: u64,
}

impl View for SceneStore {
    type V = SceneView;

    closed spec fn view(&self) -> SceneView {
        SceneView {
            rows: Seq::new(
                self.ids@.len(),
                |i: int|
                    EntityRow {
                        id: self.ids@[i],
                        parts: Components {
                            transform: self.transforms@[i],
                            visual: self.visuals@[i],
                            suppressed: self.hidden@[i],
                        },
                    },
            ),
            next_id: self.next_id as nat,
        }
    }
}

impl SceneStore {
    pub closed spec fn aligned(&self) -> bool {
        &&& self.transforms@.len() == self.ids@.len()
        &&& self.visuals@.len() == self.ids@.len()
        &&& self.hidden@.len() == self.ids@.len()
    }

    pub open spec fn wf(&self) -> bool {
        self.aligned() && self@.wf()
    }

    pub fn new() -> (r: SceneStore)
        ensures
            r.wf(),
            r@.rows.len() == 0,
            r@.next_id == 0,
    {
        SceneStore {
            ids: Vec::new(),
            transforms: Vec::new(),
            visuals: Vec::new(),
            hidden: Vec::new(),
            next_id: 0,
        }
    }

    /// Number of entities in the store.
    pub fn len(&self) -> (r: usize)
        requires
            self.wf(),
        ensures
            r == self@.rows.len(),
    {
        self.ids.len()
    }

    /// Whether another entity can still receive a fresh identifier.
    pub fn id_available(&self) -> (r: bool)
        ensures
            r == (self@.next_id < u64::MAX),
    {
        self.next_id < u64::MAX
    }

    /// Creates an entity holding exactly `parts`, after all existing ones.
    pub fn create_entity(&mut self, parts: Components) -> (r: Entity)
        requires
            old(self).wf(),
            old(self)@.next_id < u64::MAX,
        ensures
            final(self).wf(),
            final(self)@ == old(self)@.created(parts),
            r.id == old(self)@.next_id,
    {
        let ghost before = self@;
        let id = self.next_id;
        self.ids.push(id);
        self.transforms.push(parts.transform);
        self.visuals.push(parts.visual);
        self.hidden.push(parts.suppressed);
        self.next_id = id + 1;
        assert(self@.rows =~= before.created(parts).rows);
        Entity { id }
    }

    /// Position of `id` in the store.
    fn find(&self, id: u64) -> (r: Option<usize>)
        requires
            self.wf(),
        ensures
            r is None <==> !self@.contains(id),
            r matches Some(i) ==> i == self@.index_of(id) && i < self@.rows.len(),
    {
        let n = self.ids.len();
        let mut i: usize = 0;
        while i < n
            invariant
                self.wf(),
                n == self@.rows.len(),
                0 <= i <= n,
                forall|k: int| 0 <= k < i ==> self@.rows[k].id != id,
            decreases n - i,
        {
            if self.ids[i] == id {
                proof {
                    lemma_row_index(self@, i as int);
                }
                return Some(i);
            }
            i = i + 1;
        }
        None
    }

    pub fn contains(&self, e: Entity) -> (r: bool)
        requires
            self.wf(),
        ensures
            r == self@.contains(e.id),
    {
        self.find(e.id).is_some()
    }

    pub fn get_transform(&self, e: Entity) -> (r: Option<Transform>)
        requires
            self.wf(),
        ensures
            r == self@.transform_of(e.id),
    {
        match self.find(e.id) {
            Some(i) => self.transforms[i],
            None => None,
        }
    }

    pub fn get_visual(&self, e: Entity) -> (r: Option<&Visual>)
        requires
            self.wf(),
        ensures
            r is Some <==> self@.visual_of(e.id) is Some,
            r matches Some(v) ==> self@.visual_of(e.id) == Some(*v),
    {
        match self.find(e.id) {
            Some(i) => self.visuals[i].as_ref(),
            None => None,
        }
    }

    pub fn has_marker(&self, e: Entity) -> (r: bool)
        requires
            self.wf(),
        ensures
            r == self@.marked(e.id),
    {
        match self.find(e.id) {
            Some(i) => self.hidden[i],
            None => false,
        }
    }

    /// Adds (`present`) or removes the suppression marker of `e`, touching no
    /// other component; an unknown entity leaves the store unchanged.
    pub fn set_marker(&mut self, e: Entity, present: bool)
        requires
            old(self).wf(),
        ensures
            final(self).wf(),
            final(self)@ == old(self)@.with_marker(e.id, present),
            forall|id: u64| #[trigger]
                final(self)@.transform_of(id) == old(self)@.transform_of(id),
            forall|id: u64| #[trigger] final(self)@.visual_of(id) == old(self)@.visual_of(id),
            final(self)@.marked(e.id) == (old(self)@.contains(e.id) && present),
            final(self)@.renderable(e.id) == (old(self)@.transform_of(e.id) is Some
                && old(self)@.visual_of(e.id) is Some && !present),
    {
        let ghost before = self@;
        match self.find(e.id) {
            Some(i) => {
                self.hidden.set(i, present);
                assert(self@.rows =~= before.with_marker(e.id, present).rows);
            },
            None => {},
        }
        proof {
            lemma_marker_keeps_components(before, e.id, present);
        }
    }

    /// Deletes `e` and all its components; its identifier is never handed out
    /// again. Returns whether `e` was in the store.
    pub fn remove_entity(&mut self, e: Entity) -> (r: bool)
        requires
            old(self).wf(),
        ensures
            final(self).wf(),
            final(self)@ == old(self)@.removed(e.id),
            r == old(self)@.contains(e.id),
            !final(self)@.contains(e.id),
    {
        let ghost before = self@;
        match self.find(e.id) {
            Some(i) => {
                self.ids.remove(i);
                self.transforms.remove(i);
                self.visuals.remove(i);
                self.hidden.remove(i);
                assert(self@.rows =~= before.removed(e.id).rows);
                assert forall|k: int| 0 <= k < self@.rows.len() implies self@.rows[k].id != e.id by {
                    if k < i {
                        assert(self@.rows[k] == before.rows[k]);
                    } else {
                        assert(self@.rows[k] == before.rows[k + 1]);
                    }
                }
                true
            },
            None => false,
        }
    }

    /// All entities, in insertion order.
    pub fn entities(&self) -> (r: Vec<Entity>)
        requires
            self.wf(),
        ensures
            r@.map_values(|e: Entity| e.id) == self@.rows.map_values(|row: EntityRow| row.id),
    {
        let n = self.ids.len();
        let mut r: Vec<Entity> = Vec::new();
        let mut i: usize = 0;
        while i < n
            invariant
                self.wf(),
                n == self@.rows.len(),
                0 <= i <= n,
                r@.len() == i,
                forall|k: int| 0 <= k < i ==> r@[k].id == self@.rows[k].id,
            decreases n - i,
        {
            r.push(Entity { id: self.ids[i] });
            i = i + 1;
        }
        assert(r@.map_values(|e: Entity| e.id) =~= self@.rows.map_values(|row: EntityRow| row.id));
        r
    }

    /// The render set of this frame: every entity with a transform and a
    /// visual and without the suppression marker, in insertion order. Reads
    /// the store only.
    pub fn render_set(&self) -> (r: Vec<Entity>)
        requires
            self.wf(),
        ensures
            r@.map_values(|e: Entity| e.id) == self@.render_ids(),
    {
        let n = self.ids.len();
        let mut r: Vec<Entity> = Vec::new();
        let mut i: usize = 0;
        while i < n
            invariant
                self.wf(),
                n == self@.rows.len(),
                0 <= i <= n,
                r@.map_values(|e: Entity| e.id) == render_order(self@.rows.subrange(0, i as int)),
            decreases n - i,
        {
            let ghost sub = self@.rows.subrange(0, i + 1);
            assert(sub.drop_last() =~= self@.rows.subrange(0, i as int));
            if self.transforms[i].is_some() && self.visuals[i].is_some() && !self.hidden[i] {
                r.push(Entity { id: self.ids[i] });
                assert(r@.map_values(|e: Entity| e.id) =~= render_order(sub));
            }
            i = i + 1;
        }
        assert(self@.rows.subrange(0, n as int) =~= self@.rows);
        r
    }
}

} // verus!
