//! Undoable edits of a terrain: of its layer list, and the record of what
//! a brush did to its heights, holes and layer masks.

use vstd::prelude::*;
use crate::pool::Handle;

verus! {

/// A texture, by its identifier with the host's resource manager.
#[derive(Clone, Copy, Debug, PartialEq, Eq, Structural)]
pub struct TextureResource {
    pub id: u64,
}

/// One layer of a terrain: its material, by its identifier with the host's
/// resource manager, and the name of the material's mask property.
#[derive(Clone, Debug, PartialEq, Eq)]
pub struct Layer {
    pub material: u64,
    pub mask_property_name: String,
}

/// A layer as a terrain holds it: with one mask for each chunk.
#[derive(Clone, Debug, PartialEq, Eq)]
pub struct LayerEntry {
    pub layer: Layer,
    pub masks: Vec<TextureResource>,
}

/// The layers of a terrain, bottom first.
#[derive(Clone, Debug, PartialEq, Eq)]
pub struct Terrain {
    pub layers: Vec<LayerEntry>,
}

impl Terrain {
    pub fn new() -> (r: Self)
        ensures
            r.layers@.len() == 0,
    {
        Terrain { layers: Vec::new() }
    }

    /// Puts `layer` with its masks on top.
    pub fn add_layer(&mut self, layer: Layer, masks: Vec<TextureResource>)
        ensures
            final(self).layers@ == old(self).layers@.push(LayerEntry { layer, masks }),
    {
        self.layers.push(LayerEntry { layer, masks });
    }

    /// Takes the top layer off.
    pub fn pop_layer(&mut self) -> (r: Option<LayerEntry>)
        ensures
            old(self).layers@.len() == 0 ==> r is None && final(self).layers@ == old(self).layers@,
            old(self).layers@.len() > 0 ==> r == Some(old(self).layers@.last()) && final(self).layers@
                == old(self).layers@.drop_last(),
    {
        self.layers.pop()
    }

    /// Takes the layer at `index` out.
    pub fn remove_layer(&mut self, index: usize) -> (r: LayerEntry)
        requires
            index < old(self).layers@.len(),
        ensures
            r == old(self).layers@[index as int],
            final(self).layers@ == old(self).layers@.remove(index as int),
    {
        self.layers.remove(index)
    }

    /// Puts `layer` with its masks in at `index`.
    pub fn insert_layer(&mut self, layer: Layer, masks: Vec<TextureResource>, index: usize)
        requires
            index <= old(self).layers@.len(),
        ensures
            final(self).layers@ == old(self).layers@.insert(
                index as int,
                LayerEntry { layer, masks },
            ),
    {
        self.layers.insert(index, LayerEntry { layer, masks });
    }
}

/// Adds a layer on top of a terrain; undone, takes it off again and keeps
/// it for the next time.
#[derive(Clone, Debug, PartialEq, Eq)]
pub struct AddTerrainLayerCommand {
    pub terrain: Handle,
    pub layer: Option<Layer>,
    pub masks: Vec<TextureResource>,
}

impl AddTerrainLayerCommand {
    /// A command that adds `layer`, without masks, to the terrain that
    /// `terrain_handle` names.
    pub fn new(terrain_handle: Handle, layer: Layer) -> (r: Self)
        ensures
            r.terrain == terrain_handle,
            r.layer == Some(layer),
            r.masks@.len() == 0,
    {
        AddTerrainLayerCommand { terrain: terrain_handle, layer: Some(layer), masks: Vec::new() }
    }

    pub fn name(&self) -> (r: String)
        ensures
            r@ == "Add Terrain Layer"@,
    {
        "Add Terrain Layer".to_owned()
    }

    /// Moves the layer that the command holds onto the terrain.
    pub fn execute(&mut self, terrain: &mut Terrain)
        requires
            old(self).layer is Some,
        ensures
            final(terrain).layers@ == old(terrain).layers@.push(
                LayerEntry { layer: old(self).layer->0, masks: old(self).masks },
            ),
            final(self).terrain == old(self).terrain,
            final(self).layer is None,
            final(self).masks@.len() == 0,
    {
        let layer = self.layer.take().unwrap();
        let mut masks: Vec<TextureResource> = Vec::new();
        core::mem::swap(&mut self.masks, &mut masks);
        terrain.add_layer(layer, masks);
    }

    /// Moves the top layer of the terrain back into the command.
    pub fn revert(&mut self, terrain: &mut Terrain)
        requires
            old(terrain).layers@.len() > 0,
        ensures
            final(terrain).layers@ == old(terrain).layers@.drop_last(),
            final(self).terrain == old(self).terrain,
            final(self).layer == Some(old(terrain).layers@.last().layer),
            final(self).masks == old(terrain).layers@.last().masks,
    {
        let entry = terrain.pop_layer().unwrap();
        self.layer = Some(entry.layer);
        self.masks = entry.masks;
    }
}

/// Takes the layer at an index out of a terrain; undone, puts it back
/// there.
#[derive(Clone, Debug, PartialEq, Eq)]
pub struct DeleteTerrainLayerCommand {
    pub terrain: Handle,
    pub layer: Option<Layer>,
    pub index: usize,
    pub masks: Vec<TextureResource>,
}

impl DeleteTerrainLayerCommand {
    /// A command that deletes layer `index` of the terrain that `terrain`
    /// names.
    pub fn new(terrain: Handle, index: usize) -> (r: Self)
        ensures
            r.terrain == terrain,
            r.index == index,
            r.layer is None,
            r.masks@.len() == 0,
    {
        DeleteTerrainLayerCommand { terrain, layer: None, index, masks: Vec::new() }
    }

    pub fn name(&self) -> (r: String)
        ensures
            r@ == "Delete Terrain Layer"@,
    {
        "Delete Terrain Layer".to_owned()
    }

    /// Moves the layer at the command's index from the terrain into the
    /// command.
    pub fn execute(&mut self, terrain: &mut Terrain)
        requires
            old(self).index < old(terrain).layers@.len(),
        ensures
            final(terrain).layers@ == old(terrain).layers@.remove(old(self).index as int),
            final(self).terrain == old(self).terrain,
            final(self).index == old(self).index,
            final(self).layer == Some(old(terrain).layers@[old(self).index as int].layer),
            final(self).masks == old(terrain).layers@[old(self).index as int].masks,
    {
        let entry = terrain.remove_layer(self.index);
        self.layer = Some(entry.layer);
        self.masks = entry.masks;
    }

    /// Moves the layer that the command holds back into the terrain at the
    /// command's index.
    pub fn revert(&mut self, terrain: &mut Terrain)
        requires
            old(self).layer is Some,
            old(self).index <= old(terrain).layers@.len(),
        ensures
            final(terrain).layers@ == old(terrain).layers@.insert(
                old(self).index as int,
                LayerEntry { layer: old(self).layer->0, masks: old(self).masks },
            ),
            final(self).terrain == old(self).terrain,
            final(self).index == old(self).index,
            final(self).layer is None,
            final(self).masks@.len() == 0,
    {
        let layer = self.layer.take().unwrap();
        let mut masks: Vec<TextureResource> = Vec::new();
        core::mem::swap(&mut self.masks, &mut masks);
        terrain.insert_layer(layer, masks, self.index);
    }
}

/// Records an edit of the heights of a terrain that a brush has already
/// made. The host keeps the heights from before the edit and swaps them
/// with the terrain's whenever the command says so.
#[derive(Clone, Debug, PartialEq, Eq)]
pub struct ModifyTerrainHeightCommand {
    pub terrain: Handle,
    pub skip_first_execute: bool,
}

impl ModifyTerrainHeightCommand {
    /// A command for the terrain that `terrain` names, whose edit is in
    /// place already.
    pub fn new(terrain: Handle) -> (r: Self)
        ensures
            r.terrain == terrain,
            r.skip_first_execute,
    {
        ModifyTerrainHeightCommand { terrain, skip_first_execute: true }
    }

    pub fn name(&self) -> (r: String)
        ensures
            r@ == "Modify Terrain Height"@,
    {
        "Modify Terrain Height".to_owned()
    }

    /// Whether the host is to swap now: not the first time, since the edit
    /// is in place already, and every time after that.
    pub fn execute(&mut self) -> (swap: bool)
        ensures
            swap == !old(self).skip_first_execute,
            !final(self).skip_first_execute,
            final(self).terrain == old(self).terrain,
    {
        if self.skip_first_execute {
            self.skip_first_execute = false;
            return false;
        }
        true
    }

    /// Whether the host is to swap now: always.
    pub fn revert(&self) -> (swap: bool)
        ensures
            swap,
    {
        true
    }
}

/// Records an edit of the holes of a terrain that a brush has already made.
/// The host keeps the hole masks from before the edit and swaps them with
/// the terrain's whenever the command says so.
#[derive(Clone, Debug, PartialEq, Eq)]
pub struct ModifyTerrainHolesCommand {
    pub terrain: Handle,
    pub skip_first_execute: bool,
}

impl ModifyTerrainHolesCommand {
    /// A command for the terrain that `terrain` names, whose edit is in
    /// place already.
    pub fn new(terrain: Handle) -> (r: Self)
        ensures
            r.terrain == terrain,
            r.skip_first_execute,
    {
        ModifyTerrainHolesCommand { terrain, skip_first_execute: true }
    }

    pub fn name(&self) -> (r: String)
        ensures
            r@ == "Modify Terrain Holes"@,
    {
        "Modify Terrain Holes".to_owned()
    }

    /// Whether the host is to swap now: not the first time, since the edit
    /// is in place already, and every time after that.
    pub fn execute(&mut self) -> (swap: bool)
        ensures
            swap == !old(self).skip_first_execute,
            !final(self).skip_first_execute,
            final(self).terrain == old(self).terrain,
    {
        if self.skip_first_execute {
            self.skip_first_execute = false;
            return false;
        }
        true
    }

    /// Whether the host is to swap now: always.
    pub fn revert(&self) -> (swap: bool)
        ensures
            swap,
    {
        true
    }
}

/// Records an edit of the mask of one layer of a terrain that a brush has
/// already made. The host keeps the masks from before the edit and swaps
/// them with the terrain's whenever the command says so.
#[derive(Clone, Debug, PartialEq, Eq)]
pub struct ModifyTerrainLayerMaskCommand {
    pub terrain: Handle,
    pub layer: usize,
    pub skip_first_execute: bool,
}

impl ModifyTerrainLayerMaskCommand {
    /// A command for layer `layer` of the terrain that `terrain` names,
    /// whose edit is in place already.
    pub fn new(terrain: Handle, layer: usize) -> (r: Self)
        ensures
            r.terrain == terrain,
            r.layer == layer,
            r.skip_first_execute,
    {
        ModifyTerrainLayerMaskCommand { terrain, layer, skip_first_execute: true }
    }

    pub fn name(&self) -> (r: String)
        ensures
            r@ == "Modify Terrain Layer Mask"@,
    {
        "Modify Terrain Layer Mask".to_owned()
    }

    /// Whether the host is to swap now: not the first time, since the edit
    /// is in place already, and every time after that.
    pub fn execute(&mut self) -> (swap: bool)
        ensures
            swap == !old(self).skip_first_execute,
            !final(self).skip_first_execute,
            final(self).terrain == old(self).terrain,
            final(self).layer == old(self).layer,
    {
        if self.skip_first_execute {
            self.skip_first_execute = false;
            return false;
        }
        true
    }

    /// Whether the host is to swap now: always.
    pub fn revert(&self) -> (swap: bool)
        ensures
            swap,
    {
        true
    }
}

} // verus!
