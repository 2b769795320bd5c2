//! Hover, pick and drag bookkeeping.
//!
//! `hovered_node` follows the pointer continuously; `picked_node` is
//! frozen for the length of a drag; the drag sub-state remembers the
//! last pointer position, whether the gesture is locked to a node, and
//! the world-space offset captured when the lock was taken.

use vstd::prelude::*;
use crate::fixed::fx_sub;
use crate::vec3::Vec3;

verus! {

/// State of one drag gesture.
#[derive(Clone, Copy, Debug)]
pub struct DragState {
    pub last_mouse_pos: (i64, i64),
    pub node_locked: bool,
    pub drag_offset: Option<Vec3>,
}

/// Hover, pick and drag state of a scene.
#[derive(Clone, Copy, Debug)]
pub struct PickingState {
    /// Currently hovered node, recomputed on every pointer move.
    pub hovered_node: Option<u32>,
    /// Last picked node, frozen while a drag is running.
    pub picked_node: Option<u32>,
    /// The running drag gesture, if any.
    pub drag: Option<DragState>,
}

impl PickingState {
    pub open spec fn spec_new() -> PickingState {
        PickingState { hovered_node: None, picked_node: None, drag: None }
    }

    pub fn new() -> (s: PickingState)
        ensures
            s == PickingState::spec_new(),
    {
        PickingState { hovered_node: None, picked_node: None, drag: None }
    }

    /// Replace the picked node; reports whether it changed.
    pub fn update_picked_node(&mut self, node_id: Option<u32>) -> (changed: bool)
        ensures
            *final(self) == (PickingState { picked_node: node_id, ..*old(self) }),
            changed == (old(self).picked_node != node_id),
    {
        let changed = self.picked_node != node_id;
        self.picked_node = node_id;
        changed
    }

    /// Begin tracking a drag at the given pointer position; the gesture
    /// starts unlocked and without an offset.
    pub fn start_drag(&mut self, mouse_pos: (i64, i64))
        ensures
            *final(self) == (PickingState {
                drag: Some(
                    DragState { last_mouse_pos: mouse_pos, node_locked: false, drag_offset: None },
                ),
                ..*old(self)
            }),
    {
        self.drag = Some(
            DragState { last_mouse_pos: mouse_pos, node_locked: false, drag_offset: None },
        );
    }

    /// Advance the drag to a new pointer position; returns the
    /// (saturating) delta since the last update, or `None` when no drag
    /// is running.
    pub fn update_drag(&mut self, mouse_pos: (i64, i64)) -> (delta: Option<(i64, i64)>)
        ensures
            match old(self).drag {
                Some(d) => {
                    &&& *final(self) == (PickingState {
                        drag: Some(DragState { last_mouse_pos: mouse_pos, ..d }),
                        ..*old(self)
                    })
                    &&& delta == Some(
                        (
                            fx_sub(mouse_pos.0 as int, d.last_mouse_pos.0 as int) as i64,
                            fx_sub(mouse_pos.1 as int, d.last_mouse_pos.1 as int) as i64,
                        ),
                    )
                },
                None => *final(self) == *old(self) && delta is None,
            },
    {
        match self.drag {
            None => None,
            Some(d) => {
                let dx = crate::fixed::sub_fx(mouse_pos.0, d.last_mouse_pos.0);
                let dy = crate::fixed::sub_fx(mouse_pos.1, d.last_mouse_pos.1);
                self.drag = Some(DragState { last_mouse_pos: mouse_pos, ..d });
                Some((dx, dy))
            },
        }
    }

    /// Forget the running drag; the picked node stays as it is.
    pub fn end_drag(&mut self)
        ensures
            *final(self) == (PickingState { drag: None, ..*old(self) }),
    {
        self.drag = None;
    }

    pub fn is_dragging(&self) -> (r: bool)
        ensures
            r == (self.drag is Some),
    {
        self.drag.is_some()
    }

    /// Lock the running drag to a node by storing the world-space
    /// offset captured at drag start. Without a running drag, nothing
    /// changes.
    pub fn lock_node_with_offset(&mut self, offset: Vec3)
        ensures
            match old(self).drag {
                Some(d) => *final(self) == (PickingState {
                    drag: Some(
                        DragState { node_locked: true, drag_offset: Some(offset), ..d },
                    ),
                    ..*old(self)
                }),
                None => *final(self) == *old(self),
            },
    {
        match self.drag {
            Some(d) => {
                self.drag = Some(DragState { node_locked: true, drag_offset: Some(offset), ..d });
            },
            None => {},
        }
    }

    /// Whether the running drag is locked to a node.
    pub open spec fn spec_is_node_locked(self) -> bool {
        match self.drag {
            Some(d) => d.node_locked,
            None => false,
        }
    }

    pub fn is_node_locked(&self) -> (r: bool)
        ensures
            r == self.spec_is_node_locked(),
    {
        match &self.drag {
            Some(d) => d.node_locked,
            None => false,
        }
    }

    /// The offset captured when the drag was locked, if any.
    pub open spec fn spec_drag_offset(self) -> Option<Vec3> {
        match self.drag {
            Some(d) => d.drag_offset,
            None => None,
        }
    }

    pub fn get_drag_offset(&self) -> (r: Option<Vec3>)
        ensures
            r == self.spec_drag_offset(),
    {
        match &self.drag {
            Some(d) => d.drag_offset,
            None => None,
        }
    }

    /// Replace the hovered node (continuously updated, independent of
    /// any drag).
    pub fn update_hovered_node(&mut self, node_id: Option<u32>)
        ensures
            *final(self) == (PickingState { hovered_node: node_id, ..*old(self) }),
    {
        self.hovered_node = node_id;
    }
}

} // verus!
