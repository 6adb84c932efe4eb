//! The level editor's own state: which engine mode is active, which
//! layer a sprite renders on, the reload marker for editor-owned
//! entities, and the brush the editor paints tiles with.

use crate::level::LevelBlock;
use vstd::prelude::*;

verus! {

/// Marks an entity as rebuilt on a live reload.
#[derive(Clone, Copy, Debug, PartialEq, Eq, Structural)]
pub struct ReloadableComponent;

/// The drawing layer of a scene sprite, back to front.
#[derive(Clone, Copy, Debug, PartialEq, Eq, Structural)]
pub enum SpriteLayer {
    Background,
    Midground,
    Foreground,
    Player,
}

impl SpriteLayer {
    /// The depth offset of this layer: more negative layers draw
    /// further back.
    pub fn z_offset(&self) -> (r: i64)
        ensures
            r == match self {
                SpriteLayer::Background => -100int,
                SpriteLayer::Midground => -50int,
                SpriteLayer::Player => -25int,
                SpriteLayer::Foreground => -10int,
            },
    {
        match self {
            SpriteLayer::Background => -100,
            SpriteLayer::Midground => -50,
            SpriteLayer::Player => -25,
            SpriteLayer::Foreground => -10,
        }
    }
}

/// Whether the engine runs the game or the editor.
#[derive(Clone, Copy, Debug, PartialEq, Eq, Structural)]
pub enum EngineState {
    Game,
    Editor,
}

impl Default for EngineState {
    /// The engine starts in the game.
    fn default() -> (r: EngineState)
        ensures
            r == EngineState::Game,
    {
        EngineState::Game
    }
}

/// The editor's paint state: the tile the next click places.
#[derive(Clone, Copy, Debug, PartialEq, Eq, Structural)]
pub struct LevelEditor {
    pub tile_brush: LevelBlock,
}

impl LevelEditor {
    /// Cycles the brush through the palette: free space, then each wall
    /// material in turn.
    pub fn cycle_brush(&mut self)
        ensures
            final(self).tile_brush == match old(self).tile_brush {
                LevelBlock::Free => LevelBlock::Wall(1),
                LevelBlock::Wall(m) => if m < 3 {
                    LevelBlock::Wall((m + 1) as u8)
                } else {
                    LevelBlock::Free
                },
            },
    {
        self.tile_brush = match self.tile_brush {
            LevelBlock::Free => LevelBlock::Wall(1),
            LevelBlock::Wall(m) => {
                if m < 3 {
                    LevelBlock::Wall(m + 1)
                } else {
                    LevelBlock::Free
                }
            },
        };
    }
}

} // verus!
