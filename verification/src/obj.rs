//! The capability set every game object implements, and the duplication
//! capability the engine needs: it keeps a pristine copy of every room's
//! original objects so that non-persistent members can be reset when their
//! room is left.
//!
//! Each executable callback is pinned to a specification-level function of
//! the same object, so that a whole dispatch pass is a mathematical function
//! of the state it starts from: an object may mutate only itself and the
//! shared current-room name, and sees every other object through the
//! snapshots taken before the pass began.

use crate::buffer::FrameBuffer;
use crate::buffer::grid_wf;
use crate::room::Room;
use crate::room::RoomV;
use crate::room::rooms_view;
use vstd::prelude::*;

verus! {

/// The duplication capability: the engine stores pristine and live copies of
/// every object, so every object must be deep-copyable, and the copy must be
/// indistinguishable from the original.
pub trait GameObjectClone: Sized {
    /// An exact duplicate of this object.
    fn clone_box(&self) -> (r: Self)
        ensures
            r == *self,
    ;
}

/// An object with animations, position and behaviours, dispatched by the
/// engine every tick. The `*_model` specification functions give the exact
/// value an object and the current-room name take after each callback; the
/// executable callbacks must return precisely those values, which makes every
/// dispatch pass deterministic and reproducible.
pub trait GameObject: GameObjectClone {
    /// What `obj_type` answers. The default model says nothing, so an
    /// implementation proved against this trait overrides it.
    open spec fn obj_type_model(&self) -> Seq<char> {
        arbitrary()
    }

    /// What `persistant` answers. The default model says nothing.
    open spec fn persistent_model(&self) -> bool {
        arbitrary()
    }

    /// The object and requested room name after `on_key_pressed`.
    open spec fn key_pressed_model(
        &self,
        code: u32,
        global_objs: Seq<Self>,
        rooms: Seq<RoomV<Self>>,
        cur_room: Seq<char>,
    ) -> (Self, Seq<char>) {
        arbitrary()
    }

    /// The object and requested room name after `on_key_released`.
    open spec fn key_released_model(
        &self,
        code: u32,
        global_objs: Seq<Self>,
        rooms: Seq<RoomV<Self>>,
        cur_room: Seq<char>,
    ) -> (Self, Seq<char>) {
        arbitrary()
    }

    /// The object and requested room name after `update`.
    open spec fn update_model(
        &self,
        delta_micros: u64,
        global_objs: Seq<Self>,
        rooms: Seq<RoomV<Self>>,
        cur_room: Seq<char>,
    ) -> (Self, Seq<char>) {
        arbitrary()
    }

    /// The grid this object leaves behind when drawn over a given grid. The
    /// default model says nothing.
    open spec fn draw_model(&self, grid: Seq<char>) -> Seq<char> {
        arbitrary()
    }

    /// A stable tag classifying the object; pure.
    fn obj_type(&self) -> (r: String)
        ensures
            r@ == self.obj_type_model(),
    ;

    /// Whether the object's live state survives its room being left; pure.
    /// A non-persistent object is replaced by its room's original definition
    /// at the same position whenever its room stops being the current one.
    fn persistant(&self) -> (r: bool)
        ensures
            r == self.persistent_model(),
    ;

    /// React to a key press. May mutate only `self`, and may request a room
    /// transition by writing a new name into `cur_room`; the snapshots show
    /// every object as it stood before this dispatch pass began.
    fn on_key_pressed(
        &mut self,
        code: u32,
        global_objs: &Vec<Self>,
        rooms: &Vec<Room<Self>>,
        cur_room: &mut String,
    )
        ensures
            ({
                let m = old(self).key_pressed_model(
                    code,
                    global_objs@,
                    rooms_view(rooms@),
                    old(cur_room)@,
                );
                *final(self) == m.0 && final(cur_room)@ == m.1
            }),
    ;

    /// React to a key release; the mirror of `on_key_pressed`.
    fn on_key_released(
        &mut self,
        code: u32,
        global_objs: &Vec<Self>,
        rooms: &Vec<Room<Self>>,
        cur_room: &mut String,
    )
        ensures
            ({
                let m = old(self).key_released_model(
                    code,
                    global_objs@,
                    rooms_view(rooms@),
                    old(cur_room)@,
                );
                *final(self) == m.0 && final(cur_room)@ == m.1
            }),
    ;

    /// Advance the object by one simulation tick. `delta_micros` is the time
    /// the engine's shared delta clock has accumulated since the last redraw
    /// request, in microseconds.
    fn update(
        &mut self,
        delta_micros: u64,
        global_objs: &Vec<Self>,
        rooms: &Vec<Room<Self>>,
        cur_room: &mut String,
    )
        ensures
            ({
                let m = old(self).update_model(
                    delta_micros,
                    global_objs@,
                    rooms_view(rooms@),
                    old(cur_room)@,
                );
                *final(self) == m.0 && final(cur_room)@ == m.1
            }),
    ;

    /// Draw the object into the frame buffer. Read-only with respect to the
    /// object; earlier objects' cells must be overwritten, never cleared, and
    /// a well-formed grid must stay well-formed, so the reserved sentinel
    /// column is untouchable.
    fn draw(&self, text_buf: &mut FrameBuffer)
        ensures
            final(text_buf)@ == self.draw_model(old(text_buf)@),
            grid_wf(old(text_buf)@) ==> grid_wf(final(text_buf)@),
    ;
}

} // verus!
