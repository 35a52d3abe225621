//! The map: an ordered registry of layers keyed by layer id.
//!
//! Layer ids are unique within a map; registering a layer under an id that is
//! already taken replaces the layer that held it (last write wins) and hands
//! the displaced layer back, so no two live entries ever alias one id.

use vstd::prelude::*;

use crate::layer::Layer;
use crate::tile::MapError;
use crate::tile::Tile;
use crate::tile::TilePos;

verus! {

/// One registered layer together with the id it is registered under.
#[derive(Clone, Debug)]
pub struct LayerEntry {
    pub id: u16,
    pub layer: Layer,
}

/// No two entries of `s` carry the same layer id.
pub open spec fn ids_unique(s: Seq<LayerEntry>) -> bool {
    forall|i: int, j: int|
        0 <= i < j < s.len() ==> (#[trigger] s[i]).id != (#[trigger] s[j]).id
}

/// A sequence with unique ids holds an id at one position only.
proof fn lemma_unique_index(s: Seq<LayerEntry>, i: int, j: int)
    requires
        ids_unique(s),
        0 <= i < s.len(),
        0 <= j < s.len(),
        s[i].id == s[j].id,
    ensures
        i == j,
{
    if i < j {
        assert(s[i].id != s[j].id);
    } else if j < i {
        assert(s[j].id != s[i].id);
    }
}

/// The registry of layers of one scene, tagged with an opaque map id and the
/// handle of the entity that owns it.
#[derive(Clone, Debug)]
pub struct TileMap {
    /// The map's own id.
    pub map_id: u16,
    /// Opaque handle of the external entity the map belongs to.
    pub owner_entity: u64,
    /// The registered layers; ids are unique across entries.
    pub entries: Vec<LayerEntry>,
}

impl TileMap {
    /// The structural invariant: unique layer ids, every layer well-formed.
    pub open spec fn wf(self) -> bool {
        &&& ids_unique(self.entries@)
        &&& forall|i: int|
            0 <= i < self.entries@.len() ==> (#[trigger] self.entries@[i]).layer.wf()
    }

    /// Whether a layer is registered under `id`.
    pub open spec fn spec_has_layer(self, id: u16) -> bool {
        exists|i: int| 0 <= i < self.entries@.len() && (#[trigger] self.entries@[i]).id == id
    }

    /// The position of the entry registered under `id`, when there is one.
    pub open spec fn spec_layer_index(self, id: u16) -> int {
        choose|i: int| 0 <= i < self.entries@.len() && (#[trigger] self.entries@[i]).id == id
    }

    /// The layer registered under `id`, if any.
    pub open spec fn spec_get_layer(self, id: u16) -> Option<Layer> {
        if self.spec_has_layer(id) {
            Some(self.entries@[self.spec_layer_index(id)].layer)
        } else {
            None
        }
    }

    /// Map id and owner handle agree with another map's.
    pub open spec fn same_identity(self, other: TileMap) -> bool {
        self.map_id == other.map_id && self.owner_entity == other.owner_entity
    }

    /// Creates an empty layer registry tagged with an opaque id and the
    /// handle of its owning entity.
    pub fn new(map_id: u16, owner_entity: u64) -> (m: TileMap)
        ensures
            m.wf(),
            m.map_id == map_id,
            m.owner_entity == owner_entity,
            m.entries@.len() == 0,
            forall|id: u16| m.spec_get_layer(id) == Option::<Layer>::None,
    {
        TileMap { map_id, owner_entity, entries: Vec::new() }
    }

    /// Registers `layer` under `layer_id`. When the id is free the layer is
    /// added; when it is taken, the newly registered layer takes the id over
    /// and the displaced layer is handed back (last write wins), so an id
    /// never addresses two layers.
    pub fn add_layer(&mut self, layer_id: u16, layer: Layer) -> (prev: Option<Layer>)
        requires
            old(self).wf(),
            layer.wf(),
        ensures
            final(self).wf(),
            final(self).same_identity(*old(self)),
            final(self).spec_get_layer(layer_id) == Some(layer),
            forall|id: u16|
                id != layer_id ==> final(self).spec_get_layer(id) == old(self).spec_get_layer(id),
            prev == old(self).spec_get_layer(layer_id),
    {
        let n: usize = self.entries.len();
        let mut i: usize = 0;
        while i < n
            invariant
                i <= n,
                n == self.entries@.len(),
                *self == *old(self),
                old(self).wf(),
                layer.wf(),
                forall|j: int| 0 <= j < i ==> (#[trigger] self.entries@[j]).id != layer_id,
            decreases n - i,
        {
            if self.entries[i].id == layer_id {
                let ghost layer_snap = layer;
                let mut entry = LayerEntry { id: layer_id, layer };
                core::mem::swap(&mut self.entries[i], &mut entry);
                proof {
                    let iold = *old(self);
                    lemma_spec_get_after_update(iold, *self, i as int);
                    assert(iold.spec_has_layer(layer_id));
                    lemma_unique_index(
                        iold.entries@,
                        iold.spec_layer_index(layer_id),
                        i as int,
                    );
                    assert forall|k: int|
                        0 <= k < self.entries@.len() implies (#[trigger] self.entries@[k]).layer.wf() by {
                        if k != i as int {
                            assert(self.entries@[k] == iold.entries@[k]);
                        } else {
                            assert(self.entries@[k].layer == layer_snap);
                        }
                    }
                }
                return Some(entry.layer);
            }
            i = i + 1;
        }
        self.entries.push(LayerEntry { id: layer_id, layer });
        proof {
            let iold = *old(self);
            lemma_spec_get_after_push(iold, *self, LayerEntry { id: layer_id, layer });
            if iold.spec_has_layer(layer_id) {
                let k = iold.spec_layer_index(layer_id);
                assert(iold.entries@[k].id == layer_id);
                assert(false);
            }
        }
        None
    }

    /// Looks a layer up by id; absent when nothing is registered under it.
    pub fn get_layer(&self, layer_id: u16) -> (r: Option<&Layer>)
        requires
            self.wf(),
        ensures
            match r {
                Some(l) => self.spec_get_layer(layer_id) == Some(*l),
                None => self.spec_get_layer(layer_id) == Option::<Layer>::None,
            },
    {
        let n: usize = self.entries.len();
        let mut i: usize = 0;
        while i < n
            invariant
                i <= n,
                n == self.entries@.len(),
                self.wf(),
                forall|j: int| 0 <= j < i ==> (#[trigger] self.entries@[j]).id != layer_id,
            decreases n - i,
        {
            if self.entries[i].id == layer_id {
                proof {
                    assert(self.spec_has_layer(layer_id));
                    lemma_unique_index(
                        self.entries@,
                        self.spec_layer_index(layer_id),
                        i as int,
                    );
                }
                return Some(&self.entries[i].layer);
            }
            i = i + 1;
        }
        proof {
            if self.spec_has_layer(layer_id) {
                let k = self.spec_layer_index(layer_id);
                assert(self.entries@[k].id == layer_id);
                assert(false);
            }
        }
        None
    }

    /// Writes a tile through the registry: looks the layer up by id and
    /// delegates to its `set_tile`. Fails with `MissingLayer` when no layer
    /// holds the id, and with `OutOfBounds` (changing nothing) when the
    /// coordinate lies beyond that layer's extent.
    pub fn set_tile(&mut self, layer_id: u16, pos: TilePos, tile: Tile) -> (r: Result<
        (),
        MapError,
    >)
        requires
            old(self).wf(),
        ensures
            final(self).wf(),
            final(self).same_identity(*old(self)),
            !old(self).spec_has_layer(layer_id) ==> r == Result::<(), MapError>::Err(
                MapError::MissingLayer,
            ) && *final(self) == *old(self),
            old(self).spec_has_layer(layer_id) ==> {
                let lo = old(self).spec_get_layer(layer_id).unwrap();
                let ln = final(self).spec_get_layer(layer_id).unwrap();
                &&& final(self).spec_has_layer(layer_id)
                &&& forall|id: u16|
                    id != layer_id ==> final(self).spec_get_layer(id) == old(self).spec_get_layer(
                        id,
                    )
                &&& ln.same_shape(lo)
                &&& lo.spec_in_bounds(pos.x as int, pos.y as int) ==> r == Result::<
                    (),
                    MapError,
                >::Ok(()) && ln@ == lo@.insert((pos.x as int, pos.y as int), tile)
                &&& !lo.spec_in_bounds(pos.x as int, pos.y as int) ==> r == Result::<
                    (),
                    MapError,
                >::Err(MapError::OutOfBounds) && ln == lo
            },
    {
        let n: usize = self.entries.len();
        let mut i: usize = 0;
        while i < n
            invariant
                i <= n,
                n == self.entries@.len(),
                *self == *old(self),
                old(self).wf(),
                forall|j: int| 0 <= j < i ==> (#[trigger] self.entries@[j]).id != layer_id,
            decreases n - i,
        {
            if self.entries[i].id == layer_id {
                let r = self.entries[i].layer.set_tile(pos, tile);
                proof {
                    let iold = *old(self);
                    assert(iold.spec_has_layer(layer_id));
                    lemma_spec_get_after_update(iold, *self, i as int);
                    lemma_unique_index(
                        iold.entries@,
                        iold.spec_layer_index(layer_id),
                        i as int,
                    );
                    lemma_unique_index(
                        self.entries@,
                        self.spec_layer_index(layer_id),
                        i as int,
                    );
                }
                return r;
            }
            i = i + 1;
        }
        proof {
            if self.spec_has_layer(layer_id) {
                let k = self.spec_layer_index(layer_id);
                assert(self.entries@[k].id == layer_id);
                assert(false);
            }
        }
        Err(MapError::MissingLayer)
    }

    /// Reads a tile through the registry: looks the layer up by id and
    /// delegates to its `get_tile`. Fails with `MissingLayer` when no layer
    /// holds the id, and with `OutOfBounds` when the coordinate lies beyond
    /// that layer's extent.
    pub fn get_tile(&self, layer_id: u16, pos: TilePos) -> (r: Result<Tile, MapError>)
        requires
            self.wf(),
        ensures
            !self.spec_has_layer(layer_id) ==> r == Result::<Tile, MapError>::Err(
                MapError::MissingLayer,
            ),
            self.spec_has_layer(layer_id) ==> {
                let l = self.spec_get_layer(layer_id).unwrap();
                &&& l.spec_in_bounds(pos.x as int, pos.y as int) ==> r == Result::<
                    Tile,
                    MapError,
                >::Ok(l@[(pos.x as int, pos.y as int)])
                &&& !l.spec_in_bounds(pos.x as int, pos.y as int) ==> r == Result::<
                    Tile,
                    MapError,
                >::Err(MapError::OutOfBounds)
            },
    {
        match self.get_layer(layer_id) {
            Some(l) => l.get_tile(pos),
            None => Err(MapError::MissingLayer),
        }
    }
}

/// After replacing the entry at `i` by one with the same id — every other
/// entry untouched — every other id still resolves as before, and `i`'s id
/// resolves to the new entry's layer.
proof fn lemma_spec_get_after_update(m1: TileMap, m2: TileMap, i: int)
    requires
        ids_unique(m1.entries@),
        m2.entries@.len() == m1.entries@.len(),
        0 <= i < m1.entries@.len(),
        forall|k: int|
            0 <= k < m1.entries@.len() ==> (#[trigger] m2.entries@[k]).id == m1.entries@[k].id,
        forall|k: int|
            0 <= k < m1.entries@.len() && k != i ==> #[trigger] m2.entries@[k] == m1.entries@[k],
    ensures
        ids_unique(m2.entries@),
        forall|id: u16|
            id != m1.entries@[i].id ==> m2.spec_get_layer(id) == m1.spec_get_layer(id),
        m2.spec_has_layer(m1.entries@[i].id),
        m2.spec_get_layer(m1.entries@[i].id) == Some(m2.entries@[i].layer),
{
    assert forall|a: int, b: int| 0 <= a < b < m2.entries@.len() implies (#[trigger] m2.entries@[a]).id
        != (#[trigger] m2.entries@[b]).id by {
        assert(m1.entries@[a].id != m1.entries@[b].id);
    }
    assert(m2.entries@[i].id == m1.entries@[i].id);
    assert(m2.spec_has_layer(m1.entries@[i].id));
    lemma_unique_index(m2.entries@, m2.spec_layer_index(m1.entries@[i].id), i);
    assert forall|id: u16| id != m1.entries@[i].id implies m2.spec_get_layer(id)
        == m1.spec_get_layer(id) by {
        if m1.spec_has_layer(id) {
            let k = m1.spec_layer_index(id);
            assert(m1.entries@[k].id == id);
            assert(m2.entries@[k].id == id);
            assert(m2.spec_has_layer(id));
            assert(k != i);
            lemma_unique_index(m2.entries@, m2.spec_layer_index(id), k);
            lemma_unique_index(m1.entries@, m1.spec_layer_index(id), k);
        } else if m2.spec_has_layer(id) {
            let k = m2.spec_layer_index(id);
            assert(m2.entries@[k].id == id);
            assert(m1.entries@[k].id == id);
            assert(m1.spec_has_layer(id));
            assert(false);
        }
    }
}

/// After appending an entry whose id no existing entry holds, every other id
/// still resolves as before, and the new id resolves to the appended layer.
proof fn lemma_spec_get_after_push(m1: TileMap, m2: TileMap, e: LayerEntry)
    requires
        ids_unique(m1.entries@),
        forall|k: int| 0 <= k < m1.entries@.len() ==> (#[trigger] m1.entries@[k]).id != e.id,
        m2.entries@ == m1.entries@.push(e),
    ensures
        ids_unique(m2.entries@),
        forall|id: u16|
            id != e.id ==> m2.spec_get_layer(id) == m1.spec_get_layer(id),
        m2.spec_get_layer(e.id) == Some(e.layer),
{
    let n = m1.entries@.len() as int;
    assert forall|a: int, b: int| 0 <= a < b < m2.entries@.len() implies (#[trigger] m2.entries@[a]).id
        != (#[trigger] m2.entries@[b]).id by {
        if b < n {
            assert(m1.entries@[a].id != m1.entries@[b].id);
        } else {
            assert(m2.entries@[b] == e);
            assert(m2.entries@[a] == m1.entries@[a]);
        }
    }
    assert(m2.entries@[n] == e);
    assert(m2.spec_has_layer(e.id));
    lemma_unique_index(m2.entries@, m2.spec_layer_index(e.id), n);
    assert forall|id: u16| id != e.id implies m2.spec_get_layer(id) == m1.spec_get_layer(id) by {
        if m1.spec_has_layer(id) {
            let k = m1.spec_layer_index(id);
            assert(m1.entries@[k].id == id);
            assert(m2.entries@[k].id == id);
            assert(m2.spec_has_layer(id));
            lemma_unique_index(m2.entries@, m2.spec_layer_index(id), k);
            lemma_unique_index(m1.entries@, m1.spec_layer_index(id), k);
        } else if m2.spec_has_layer(id) {
            let k = m2.spec_layer_index(id);
            assert(m2.entries@[k].id == id);
            if k < n {
                assert(m1.entries@[k].id == id);
                assert(m1.spec_has_layer(id));
                assert(false);
            } else {
                assert(m2.entries@[k] == e);
                assert(false);
            }
        }
    }
}

} // verus!
