//! Build an environment up, then run it: the blueprint builder, the built
//! environment, and the live runtime that dispatches key events and ticks to
//! every active object, reconciles room transitions, paces redraws against
//! the target frame rate and composites the frame buffer.
//!
//! Every dispatch pass follows one pattern: snapshot the global list and the
//! room table, run each object's callback in order (globals first, then the
//! current room's objects), thread the shared current-room name through the
//! calls, and reconcile a requested transition afterwards in a single step.

use crate::buffer::FrameBuffer;
use crate::buffer::blank_grid;
use crate::buffer::grid_wf;
use crate::obj::GameObject;
use crate::obj::GameObjectClone;
use crate::room::lemma_room_index_unique;
use crate::room::Room;
use crate::room::RoomV;
use crate::room::find_room;
use crate::room::has_room;
use crate::room::names_unique;
use crate::room::room_index;
use crate::room::rooms_view;
use vstd::prelude::*;
use vstd::string::StringExecFns;

verus! {

/// One callback of the object contract, with its payload: which call a
/// dispatch pass makes on every active object.
#[derive(Clone, Copy, PartialEq, Eq, Structural, Debug)]
pub enum ObjCall {
    /// `on_key_pressed` with this key code.
    KeyPressed(u32),
    /// `on_key_released` with this key code.
    KeyReleased(u32),
    /// `update` with this many accumulated microseconds.
    Update(u64),
}

/// The object and current-room name one callback leaves behind.
pub open spec fn obj_step<T: GameObject>(
    o: T,
    call: ObjCall,
    globals: Seq<T>,
    rooms: Seq<RoomV<T>>,
    cur_room: Seq<char>,
) -> (T, Seq<char>) {
    match call {
        ObjCall::KeyPressed(code) => o.key_pressed_model(code, globals, rooms, cur_room),
        ObjCall::KeyReleased(code) => o.key_released_model(code, globals, rooms, cur_room),
        ObjCall::Update(delta) => o.update_model(delta, globals, rooms, cur_room),
    }
}

/// One callback dispatched over a whole list, in order: every object mutates
/// only itself against the pass's snapshots, while the current-room name is
/// threaded through the calls, so the last write in dispatch order wins.
pub open spec fn pass_objs<T: GameObject>(
    objs: Seq<T>,
    call: ObjCall,
    globals: Seq<T>,
    rooms: Seq<RoomV<T>>,
    cur_room: Seq<char>,
) -> (Seq<T>, Seq<char>)
    decreases objs.len(),
{
    if objs.len() == 0 {
        (Seq::<T>::empty(), cur_room)
    } else {
        let prev = pass_objs(objs.drop_last(), call, globals, rooms, cur_room);
        let last = obj_step(objs.last(), call, globals, rooms, prev.1);
        (prev.0.push(last.0), last.1)
    }
}

/// A pass returns exactly one object per object dispatched.
pub proof fn lemma_pass_objs_len<T: GameObject>(
    objs: Seq<T>,
    call: ObjCall,
    globals: Seq<T>,
    rooms: Seq<RoomV<T>>,
    cur_room: Seq<char>,
)
    ensures
        pass_objs(objs, call, globals, rooms, cur_room).0.len() == objs.len(),
    decreases objs.len(),
{
    if objs.len() > 0 {
        lemma_pass_objs_len(objs.drop_last(), call, globals, rooms, cur_room);
    }
}

/// The live objects a room keeps when it is being left: persistent members
/// keep the state they ended the pass with, every other member is replaced by
/// the pristine object at the same position of the room's original definition.
pub open spec fn reconcile_room<T: GameObject>(live: Seq<T>, pristine: Seq<T>) -> Seq<T> {
    Seq::new(
        live.len(),
        |i: int|
            if live[i].persistent_model() {
                live[i]
            } else {
                pristine[i]
            },
    )
}

/// Duplicate a whole object list through the objects' own duplication
/// capability.
fn clone_objs<T: GameObjectClone>(objs: &Vec<T>) -> (r: Vec<T>)
    ensures
        r@ == objs@,
{
    let mut out: Vec<T> = Vec::new();
    let mut i: usize = 0;
    while i < objs.len()
        invariant
            i <= objs@.len(),
            out@ =~= objs@.take(i as int),
        decreases objs@.len() - i,
    {
        out.push(objs[i].clone_box());
        i += 1;
    }
    proof {
        assert(objs@.take(objs@.len() as int) =~= objs@);
    }
    out
}

/// Duplicate a whole room table, names and objects alike.
fn clone_rooms<T: GameObjectClone>(rooms: &Vec<Room<T>>) -> (r: Vec<Room<T>>)
    ensures
        rooms_view(r@) == rooms_view(rooms@),
{
    let mut out: Vec<Room<T>> = Vec::new();
    let mut i: usize = 0;
    while i < rooms.len()
        invariant
            i <= rooms@.len(),
            out@.len() == i,
            forall|j: int| 0 <= j < i ==> rooms_view(out@)[j] == rooms_view(rooms@)[j],
        decreases rooms@.len() - i,
    {
        let src = &rooms[i];
        let copy = Room { name: src.name.clone(), objs: clone_objs(&src.objs) };
        proof {
            assert(copy@ =~= rooms_view(rooms@)[i as int]);
        }
        out.push(copy);
        i += 1;
    }
    proof {
        assert(rooms_view(out@) =~= rooms_view(rooms@));
    }
    out
}

/// Dispatch one callback over a whole list, starting from a given
/// current-room name, and hand back the mutated objects and the name the last
/// writer left behind.
fn pass_list<T: GameObject>(
    objs: &Vec<T>,
    call: ObjCall,
    globals: &Vec<T>,
    rooms: &Vec<Room<T>>,
    cur_room: String,
) -> (r: (Vec<T>, String))
    ensures
        r.0@ == pass_objs(objs@, call, globals@, rooms_view(rooms@), cur_room@).0,
        r.1@ == pass_objs(objs@, call, globals@, rooms_view(rooms@), cur_room@).1,
{
    let ghost cur0 = cur_room@;
    let mut cur = cur_room;
    let mut out: Vec<T> = Vec::new();
    let mut i: usize = 0;
    while i < objs.len()
        invariant
            i <= objs@.len(),
            out@ == pass_objs(objs@.take(i as int), call, globals@, rooms_view(rooms@), cur0).0,
            cur@ == pass_objs(objs@.take(i as int), call, globals@, rooms_view(rooms@), cur0).1,
        decreases objs@.len() - i,
    {
        let ghost cur_prev = cur@;
        let mut o = objs[i].clone_box();
        match call {
            ObjCall::KeyPressed(code) => o.on_key_pressed(code, globals, rooms, &mut cur),
            ObjCall::KeyReleased(code) => o.on_key_released(code, globals, rooms, &mut cur),
            ObjCall::Update(delta) => o.update(delta, globals, rooms, &mut cur),
        }
        proof {
            let m = obj_step(objs@[i as int], call, globals@, rooms_view(rooms@), cur_prev);
            assert(o == m.0 && cur@ == m.1);
            assert(objs@.take(i + 1).drop_last() =~= objs@.take(i as int));
            assert(objs@.take(i + 1).last() == objs@[i as int]);
        }
        out.push(o);
        i += 1;
    }
    proof {
        assert(objs@.take(objs@.len() as int) =~= objs@);
    }
    (out, cur)
}

/// Apply the persistence rule positionally; the counterpart of
/// `reconcile_room` on live vectors.
fn reconcile_list<T: GameObject>(live: &Vec<T>, pristine: &Vec<T>) -> (r: Vec<T>)
    requires
        live@.len() == pristine@.len(),
    ensures
        r@ == reconcile_room(live@, pristine@),
{
    let mut out: Vec<T> = Vec::new();
    let mut i: usize = 0;
    while i < live.len()
        invariant
            i <= live@.len(),
            live@.len() == pristine@.len(),
            out@.len() == i,
            forall|j: int| 0 <= j < i ==> out@[j] == reconcile_room(live@, pristine@)[j],
        decreases live@.len() - i,
    {
        if live[i].persistant() {
            out.push(live[i].clone_box());
        } else {
            out.push(pristine[i].clone_box());
        }
        i += 1;
    }
    proof {
        assert(out@ =~= reconcile_room(live@, pristine@));
    }
    out
}

/// The mathematical value of a blueprint: the always-active global objects,
/// the room table, the designated start room and the window title.
#[verifier::ext_equal]
#[verifier::reject_recursive_types(T)]
pub ghost struct BlueprintV<T> {
    pub globals: Seq<T>,
    pub rooms: Seq<RoomV<T>>,
    pub start_room: Seq<char>,
    pub win_title: Seq<char>,
}

/// Why a blueprint cannot be built.
#[derive(Clone, Copy, PartialEq, Eq, Structural, Debug)]
pub enum BuildError {
    /// The designated start room names no room of the table.
    UnknownStartRoom,
}

/// Builder for the game environment. Create rooms with objects and add them
/// here, then build and run. Every method hands back a fresh builder and
/// leaves the receiver untouched; room names stay unique because adding a
/// room under an existing name replaces that room's definition.
pub struct EnvironmentBuilder<T> {
    global_game_objs: Vec<T>,
    rooms: Vec<Room<T>>,
    start_room: String,
    win_title: String,
}

impl<T> View for EnvironmentBuilder<T> {
    type V = BlueprintV<T>;

    closed spec fn view(&self) -> BlueprintV<T> {
        BlueprintV {
            globals: self.global_game_objs@,
            rooms: rooms_view(self.rooms@),
            start_room: self.start_room@,
            win_title: self.win_title@,
        }
    }
}

impl<T> EnvironmentBuilder<T> {
    #[verifier::type_invariant]
    spec fn inv(self) -> bool {
        names_unique(self@.rooms)
    }
}

impl<T: GameObjectClone> EnvironmentBuilder<T> {
    /// A blueprint with no rooms and no globals yet, the default window
    /// title, and this start room.
    pub fn new(start_room: &str) -> (b: Self)
        ensures
            b@.globals == Seq::<T>::empty(),
            b@.rooms == Seq::<RoomV<T>>::empty(),
            b@.start_room == start_room@,
            b@.win_title == "Pseudo-Term Window"@,
    {
        let b = EnvironmentBuilder {
            global_game_objs: Vec::new(),
            rooms: Vec::new(),
            start_room: String::from_str(start_room),
            win_title: String::from_str("Pseudo-Term Window"),
        };
        proof {
            assert(b@.globals =~= Seq::<T>::empty());
            assert(b@.rooms =~= Seq::<RoomV<T>>::empty());
        }
        b
    }

    /// The same blueprint under another window title.
    pub fn set_window_title(&self, win_title: &str) -> (b: Self)
        ensures
            b@.globals == self@.globals,
            b@.rooms == self@.rooms,
            b@.start_room == self@.start_room,
            b@.win_title == win_title@,
    {
        proof {
            use_type_invariant(self);
        }
        EnvironmentBuilder {
            global_game_objs: clone_objs(&self.global_game_objs),
            rooms: clone_rooms(&self.rooms),
            start_room: self.start_room.clone(),
            win_title: String::from_str(win_title),
        }
    }

    /// The same blueprint with one more always-active object, appended after
    /// the existing globals.
    pub fn add_global_obj(&self, obj: T) -> (b: Self)
        ensures
            b@.globals == self@.globals.push(obj),
            b@.rooms == self@.rooms,
            b@.start_room == self@.start_room,
            b@.win_title == self@.win_title,
    {
        proof {
            use_type_invariant(self);
        }
        let mut globals = clone_objs(&self.global_game_objs);
        globals.push(obj);
        EnvironmentBuilder {
            global_game_objs: globals,
            rooms: clone_rooms(&self.rooms),
            start_room: self.start_room.clone(),
            win_title: self.win_title.clone(),
        }
    }

    /// The same blueprint with this room added; a room already carrying the
    /// name is replaced in place, so names stay unique.
    pub fn add_room(&self, name: &str, room: &Vec<T>) -> (b: Self)
        ensures
            b@.globals == self@.globals,
            b@.start_room == self@.start_room,
            b@.win_title == self@.win_title,
            b@.rooms == (if has_room(self@.rooms, name@) {
                self@.rooms.update(
                    room_index(self@.rooms, name@),
                    (RoomV { name: name@, objs: room@ }),
                )
            } else {
                self@.rooms.push((RoomV { name: name@, objs: room@ }))
            }),
    {
        proof {
            use_type_invariant(self);
        }
        let ghost old_rooms = rooms_view(self.rooms@);
        let name_s = String::from_str(name);
        let mut out: Vec<Room<T>> = Vec::new();
        let mut found = false;
        let mut i: usize = 0;
        while i < self.rooms.len()
            invariant
                i <= self.rooms@.len(),
                out@.len() == i,
                old_rooms == rooms_view(self.rooms@),
                names_unique(old_rooms),
                name_s@ == name@,
                found == (exists|k: int| 0 <= k < i && #[trigger] old_rooms[k].name == name@),
                forall|j: int|
                    0 <= j < i ==> #[trigger] rooms_view(out@)[j] == (if old_rooms[j].name
                        == name@ {
                        RoomV { name: name@, objs: room@ }
                    } else {
                        old_rooms[j]
                    }),
            decreases self.rooms@.len() - i,
        {
            let src = &self.rooms[i];
            let is_match = src.name == name_s;
            let copy = if is_match {
                Room { name: name_s.clone(), objs: clone_objs(room) }
            } else {
                Room { name: src.name.clone(), objs: clone_objs(&src.objs) }
            };
            let ghost out_prev = out@;
            let ghost copy_r = copy;
            out.push(copy);
            if is_match {
                found = true;
            }
            proof {
                assert(is_match == (old_rooms[i as int].name == name@));
                assert(out@ == out_prev.push(copy_r));
                assert forall|j: int|
                    0 <= j <= i as int implies #[trigger] rooms_view(out@)[j] == (
                if old_rooms[j].name == name@ {
                    RoomV { name: name@, objs: room@ }
                } else {
                    old_rooms[j]
                }) by {
                    assert(rooms_view(out@)[j] == out@[j]@);
                    if j < i as int {
                        assert(out@[j] == out_prev[j]);
                        assert(rooms_view(out_prev)[j] == out_prev[j]@);
                    } else {
                        assert(out@[j] == copy_r);
                        if is_match {
                            assert(copy_r@ =~= (RoomV { name: name@, objs: room@ }));
                        } else {
                            assert(copy_r@ =~= old_rooms[j]);
                        }
                    }
                }
                if is_match {
                    assert(old_rooms[i as int].name == name@);
                }
            }
            i += 1;
        }
        if !found {
            let ghost out_prev = out@;
            let copy = Room { name: name_s, objs: clone_objs(room) };
            let ghost copy_r = copy;
            out.push(copy);
            proof {
                assert(out@ == out_prev.push(copy_r));
                assert(copy_r@ =~= (RoomV { name: name@, objs: room@ }));
                assert forall|j: int|
                    0 <= j < old_rooms.len() implies #[trigger] old_rooms[j].name != name@ by {
                    if old_rooms[j].name == name@ {
                        assert(exists|k: int|
                            0 <= k < self.rooms@.len() && #[trigger] old_rooms[k].name == name@);
                        assert(false);
                    }
                }
                assert forall|j: int|
                    0 <= j < old_rooms.len() implies #[trigger] rooms_view(out@)[j]
                        == old_rooms[j] by {
                    assert(out@[j] == out_prev[j]);
                    assert(rooms_view(out_prev)[j] == out_prev[j]@);
                    assert(rooms_view(out@)[j] == out@[j]@);
                }
                assert(rooms_view(out@)[old_rooms.len() as int] == copy_r@);
            }
        }
        proof {
            if has_room(old_rooms, name@) {
                let idx = room_index(old_rooms, name@);
                assert(0 <= idx < old_rooms.len() && old_rooms[idx].name == name@);
                assert forall|j: int|
                    0 <= j < old_rooms.len() && j != idx implies old_rooms[j].name != name@ by {
                    if j < idx {
                        assert(old_rooms[j].name != old_rooms[idx].name);
                    } else {
                        assert(old_rooms[idx].name != old_rooms[j].name);
                    }
                }
                assert(found);
                assert(rooms_view(out@) =~= old_rooms.update(
                    idx,
                    RoomV { name: name@, objs: room@ },
                ));
            } else {
                assert(!found);
                assert(rooms_view(out@) =~= old_rooms.push(RoomV { name: name@, objs: room@ }));
            }
        }
        EnvironmentBuilder {
            global_game_objs: clone_objs(&self.global_game_objs),
            rooms: out,
            start_room: self.start_room.clone(),
            win_title: self.win_title.clone(),
        }
    }

    /// Consume the blueprint's value into a runnable environment. Fails
    /// exactly when the designated start room names no room of the table; a
    /// malformed blueprint must be reported at build time, never at tick
    /// time.
    pub fn build(&self) -> (r: Result<Environment<T>, BuildError>)
        ensures
            match r {
                Ok(env) => env@ == self@ && has_room(self@.rooms, self@.start_room),
                Err(e) => e == BuildError::UnknownStartRoom && !has_room(
                    self@.rooms,
                    self@.start_room,
                ),
            },
    {
        proof {
            use_type_invariant(self);
        }
        match find_room(&self.rooms, &self.start_room) {
            None => {
                return Err(BuildError::UnknownStartRoom);
            },
            Some(_) => {
                proof {
                    assert(has_room(rooms_view(self.rooms@), self.start_room@));
                }
            },
        }
        let env = Environment {
            global_game_objs: clone_objs(&self.global_game_objs),
            rooms: clone_rooms(&self.rooms),
            start_room: self.start_room.clone(),
            win_title: self.win_title.clone(),
        };
        proof {
            assert(env@ =~= self@);
        }
        Ok(env)
    }
}

/// A built, immutable blueprint: the source of truth a running engine resets
/// non-persistent objects from. The start room is known to exist and room
/// names are unique.
pub struct Environment<T> {
    global_game_objs: Vec<T>,
    rooms: Vec<Room<T>>,
    start_room: String,
    win_title: String,
}

impl<T> View for Environment<T> {
    type V = BlueprintV<T>;

    closed spec fn view(&self) -> BlueprintV<T> {
        BlueprintV {
            globals: self.global_game_objs@,
            rooms: rooms_view(self.rooms@),
            start_room: self.start_room@,
            win_title: self.win_title@,
        }
    }
}

impl<T> Environment<T> {
    #[verifier::type_invariant]
    spec fn inv(self) -> bool {
        names_unique(self@.rooms) && has_room(self@.rooms, self@.start_room)
    }

    /// The window title the display backend should show.
    pub fn win_title(&self) -> (t: &String)
        ensures
            t@ == self@.win_title,
    {
        &self.win_title
    }

    /// The designated start room.
    pub fn start_room(&self) -> (r: &String)
        ensures
            r@ == self@.start_room,
    {
        &self.start_room
    }
}

impl<T: GameObjectClone> Environment<T> {
    /// Instantiate the blueprint: deep-copy the globals and the room table
    /// into live state, keep the blueprint itself as the pristine definitions
    /// that room transitions reset from, and stand in the start room with an
    /// empty delta clock.
    pub fn start(&self) -> (rt: Runtime<T>)
        ensures
            rt@.globals == self@.globals,
            rt@.rooms == self@.rooms,
            rt@.defs == self@.rooms,
            rt@.cur_room == self@.start_room,
            rt@.accum_micros == 0,
    {
        proof {
            use_type_invariant(self);
        }
        Runtime {
            globals: clone_objs(&self.global_game_objs),
            rooms: clone_rooms(&self.rooms),
            defs: clone_rooms(&self.rooms),
            cur_room: self.start_room.clone(),
            accum_micros: 0,
        }
    }
}

/// The number of simulation ticks and redraws aimed at per second.
pub const FRAME_RATE: u64 = 60;

/// The fixed target frame interval in microseconds: redraw requests come no
/// closer together than this.
pub const TARGET_FRAME_MICROS: u64 = 1000000 / FRAME_RATE;

/// What the scheduler asks of the platform layer at the end of a tick.
#[derive(Clone, Copy, PartialEq, Eq, Structural, Debug)]
pub enum FrameAction {
    /// Enough time has accumulated: request a redraw and reset the shared
    /// delta clock.
    Redraw,
    /// Still below the interval: ask to be woken no later than this many
    /// microseconds from now. Always positive, so the scheduler never
    /// busy-waits.
    WaitMicros(u64),
}

/// Addition on the delta clock; it pegs at the top instead of wrapping.
pub open spec fn sat_add(a: u64, b: u64) -> u64 {
    if a + b > u64::MAX {
        u64::MAX
    } else {
        (a + b) as u64
    }
}

/// The mathematical value of a running engine: the live globals and room
/// table, the pristine definitions, the current room and the shared delta
/// clock in microseconds.
#[verifier::ext_equal]
#[verifier::reject_recursive_types(T)]
pub ghost struct RuntimeV<T> {
    pub globals: Seq<T>,
    pub rooms: Seq<RoomV<T>>,
    pub defs: Seq<RoomV<T>>,
    pub cur_room: Seq<char>,
    pub accum_micros: u64,
}

/// The runtime invariant: room names are unique, the live table has exactly
/// the pristine table's names and per-room object counts, and the current
/// room exists. Object count and order per room are fixed for the engine's
/// lifetime; only object state and the current-room pointer vary.
pub open spec fn world_wf<T>(s: RuntimeV<T>) -> bool {
    &&& names_unique(s.rooms)
    &&& s.defs.len() == s.rooms.len()
    &&& forall|i: int|
        0 <= i < s.rooms.len() ==> (#[trigger] s.defs[i]).name == s.rooms[i].name
            && s.defs[i].objs.len() == s.rooms[i].objs.len()
    &&& has_room(s.rooms, s.cur_room)
}

/// One whole dispatch pass over a state: the callback runs over every global
/// object first, then over every object of the current room, threading the
/// current-room name through; both lists read the same pre-pass snapshots.
/// Yields the mutated globals, the mutated current-room objects, and the room
/// name the pass requests.
pub open spec fn pass_result<T: GameObject>(s: RuntimeV<T>, call: ObjCall) -> (
    Seq<T>,
    Seq<T>,
    Seq<char>,
) {
    let g = pass_objs(s.globals, call, s.globals, s.rooms, s.cur_room);
    let idx = room_index(s.rooms, s.cur_room);
    let r = pass_objs(s.rooms[idx].objs, call, s.globals, s.rooms, g.1);
    (g.0, r.0, r.1)
}

/// A whole engine step: dispatch one callback, then reconcile. If the pass
/// requested an existing other room, the room being left keeps its persistent
/// members and takes every other member back from the pristine definitions,
/// and the current-room pointer moves; the room being entered is left exactly
/// as it stands in the live table. Otherwise the mutated objects are written
/// back unchanged. A request naming no room is ignored: the room table is
/// fixed at build time.
pub open spec fn step<T: GameObject>(s: RuntimeV<T>, call: ObjCall) -> RuntimeV<T> {
    let pr = pass_result(s, call);
    let idx = room_index(s.rooms, s.cur_room);
    if pr.2 != s.cur_room && has_room(s.rooms, pr.2) {
        RuntimeV {
            globals: pr.0,
            rooms: s.rooms.update(
                idx,
                RoomV { name: s.rooms[idx].name, objs: reconcile_room(pr.1, s.defs[idx].objs) },
            ),
            defs: s.defs,
            cur_room: pr.2,
            accum_micros: s.accum_micros,
        }
    } else {
        RuntimeV {
            globals: pr.0,
            rooms: s.rooms.update(idx, RoomV { name: s.rooms[idx].name, objs: pr.1 }),
            defs: s.defs,
            cur_room: s.cur_room,
            accum_micros: s.accum_micros,
        }
    }
}

/// One idle tick: advance the shared delta clock, run the update pass with
/// the accumulated time, reconcile, then decide the frame pacing. At or above
/// the target interval the scheduler requests a redraw and resets the clock;
/// below it, it asks to sleep for exactly the remainder.
pub open spec fn tick_spec<T: GameObject>(s: RuntimeV<T>, advance_micros: u64) -> (
    RuntimeV<T>,
    FrameAction,
) {
    let acc = sat_add(s.accum_micros, advance_micros);
    let armed = RuntimeV {
        globals: s.globals,
        rooms: s.rooms,
        defs: s.defs,
        cur_room: s.cur_room,
        accum_micros: acc,
    };
    let stepped = step(armed, ObjCall::Update(acc));
    if acc >= TARGET_FRAME_MICROS {
        (
            RuntimeV {
                globals: stepped.globals,
                rooms: stepped.rooms,
                defs: stepped.defs,
                cur_room: stepped.cur_room,
                accum_micros: 0,
            },
            FrameAction::Redraw,
        )
    } else {
        (stepped, FrameAction::WaitMicros((TARGET_FRAME_MICROS - acc) as u64))
    }
}

/// Every object of a list drawn over a grid in order: the later an object
/// stands in the list, the later it draws, so its cells win.
pub open spec fn draw_fold<T: GameObject>(objs: Seq<T>, grid: Seq<char>) -> Seq<char>
    decreases objs.len(),
{
    if objs.len() == 0 {
        grid
    } else {
        objs.last().draw_model(draw_fold(objs.drop_last(), grid))
    }
}

/// The frame one redraw composes: starting from the blank grid, every global
/// object draws in order, then every object of the current room.
pub open spec fn compose<T: GameObject>(s: RuntimeV<T>) -> Seq<char> {
    draw_fold(s.rooms[room_index(s.rooms, s.cur_room)].objs, draw_fold(s.globals, blank_grid()))
}

/// The live, running engine: mutable copies of the blueprint's globals and
/// rooms, the pristine definitions, the current room, and the shared delta
/// clock the scheduler paces redraws with.
pub struct Runtime<T> {
    globals: Vec<T>,
    rooms: Vec<Room<T>>,
    defs: Vec<Room<T>>,
    cur_room: String,
    accum_micros: u64,
}

impl<T> View for Runtime<T> {
    type V = RuntimeV<T>;

    closed spec fn view(&self) -> RuntimeV<T> {
        RuntimeV {
            globals: self.globals@,
            rooms: rooms_view(self.rooms@),
            defs: rooms_view(self.defs@),
            cur_room: self.cur_room@,
            accum_micros: self.accum_micros,
        }
    }
}

impl<T> Runtime<T> {
    #[verifier::type_invariant]
    spec fn inv(self) -> bool {
        world_wf(self@)
    }

    /// The name of the currently active room.
    pub fn cur_room(&self) -> (r: &String)
        ensures
            r@ == self@.cur_room,
    {
        &self.cur_room
    }

    /// The live global objects, in dispatch order.
    pub fn global_objs(&self) -> (r: &Vec<T>)
        ensures
            r@ == self@.globals,
    {
        &self.globals
    }

    /// The live objects of the room with this name, or nothing if no room
    /// carries it.
    pub fn room_objs(&self, name: &String) -> (r: Option<&Vec<T>>)
        ensures
            match r {
                Some(v) => has_room(self@.rooms, name@) && v@ == self@.rooms[room_index(
                    self@.rooms,
                    name@,
                )].objs,
                None => !has_room(self@.rooms, name@),
            },
    {
        proof {
            use_type_invariant(&*self);
        }
        match find_room(&self.rooms, name) {
            Some(i) => {
                proof {
                    lemma_room_index_unique(self@.rooms, name@, i as int);
                }
                let room = &self.rooms[i];
                Some(&room.objs)
            },
            None => None,
        }
    }
}

impl<T: GameObject> Runtime<T> {
    /// Dispatch one callback over every active object — the globals first,
    /// then the current room's objects — against snapshots of the state as it
    /// stood before the pass, then reconcile any requested room transition.
    fn run_pass(&mut self, call: ObjCall)
        ensures
            final(self)@ == step(old(self)@, call),
    {
        proof {
            use_type_invariant(&*self);
        }
        let ghost s0 = self@;
        let gsnap = clone_objs(&self.globals);
        let mut rsnap = clone_rooms(&self.rooms);
        let idx_opt = find_room(&self.rooms, &self.cur_room);
        proof {
            if idx_opt.is_none() {
                assert(false);
            }
        }
        let idx = idx_opt.unwrap();
        proof {
            lemma_room_index_unique(s0.rooms, s0.cur_room, idx as int);
        }
        let cur0 = self.cur_room.clone();
        let (g1, cur1) = pass_list(&self.globals, call, &gsnap, &rsnap, cur0);
        let room_ref = &self.rooms[idx];
        let (r1, cur2) = pass_list(&room_ref.objs, call, &gsnap, &rsnap, cur1);
        proof {
            assert(g1@ == pass_result(s0, call).0);
            assert(r1@ == pass_result(s0, call).1);
            assert(cur2@ == pass_result(s0, call).2);
            lemma_pass_objs_len(
                s0.rooms[idx as int].objs,
                call,
                s0.globals,
                s0.rooms,
                pass_objs(s0.globals, call, s0.globals, s0.rooms, s0.cur_room).1,
            );
        }
        let changed = !(cur2 == self.cur_room);
        let dest_opt = find_room(&self.rooms, &cur2);
        let transition = changed && dest_opt.is_some();
        let name_keep = {
            let room = &self.rooms[idx];
            room.name.clone()
        };
        let new_objs = if transition {
            let pristine = &self.defs[idx];
            proof {
                assert(r1@.len() == s0.rooms[idx as int].objs.len());
                assert(pristine.objs@ == s0.defs[idx as int].objs);
                assert(s0.defs[idx as int].objs.len() == s0.rooms[idx as int].objs.len());
            }
            reconcile_list(&r1, &pristine.objs)
        } else {
            r1
        };
        self.globals = g1;
        let new_room = Room { name: name_keep, objs: new_objs };
        let ghost new_room_r = new_room;
        proof {
            assert(new_room_r@.name == s0.rooms[idx as int].name);
            assert(new_room_r@.objs.len() == s0.rooms[idx as int].objs.len());
            let new_rooms = s0.rooms.update(idx as int, new_room_r@);
            assert forall|a: int, b: int|
                0 <= a < b < new_rooms.len() implies #[trigger] new_rooms[a].name
                != #[trigger] new_rooms[b].name by {
                assert(new_rooms[a].name == s0.rooms[a].name);
                assert(new_rooms[b].name == s0.rooms[b].name);
                assert(s0.rooms[a].name != s0.rooms[b].name);
            }
            assert forall|k: int|
                0 <= k < new_rooms.len() implies (#[trigger] s0.defs[k]).name == new_rooms[k].name
                && s0.defs[k].objs.len() == new_rooms[k].objs.len() by {
                assert(s0.defs[k].name == s0.rooms[k].name);
                assert(s0.defs[k].objs.len() == s0.rooms[k].objs.len());
            }
            assert(new_rooms[idx as int].name == s0.cur_room);
            assert(has_room(new_rooms, s0.cur_room));
        }
        rsnap[idx] = new_room;
        proof {
            assert(rooms_view(rsnap@) =~= s0.rooms.update(idx as int, new_room_r@));
        }
        self.rooms = rsnap;
        if transition {
            proof {
                let d = dest_opt.unwrap();
                assert(rooms_view(self.rooms@)[d as int].name == cur2@);
                assert(has_room(rooms_view(self.rooms@), cur2@));
            }
            self.cur_room = cur2;
        }
        proof {
            assert(self@ =~~= step(s0, call));
        }
    }

    /// Deliver a key press to every active object and reconcile afterwards.
    pub fn handle_key_pressed(&mut self, code: u32)
        ensures
            final(self)@ == step(old(self)@, ObjCall::KeyPressed(code)),
    {
        self.run_pass(ObjCall::KeyPressed(code));
    }

    /// Deliver a key release to every active object and reconcile afterwards.
    pub fn handle_key_released(&mut self, code: u32)
        ensures
            final(self)@ == step(old(self)@, ObjCall::KeyReleased(code)),
    {
        self.run_pass(ObjCall::KeyReleased(code));
    }

    /// One idle tick: advance the shared delta clock by the wall-clock
    /// microseconds since the last tick, run the update pass with the
    /// accumulated time, reconcile, and decide whether to request a redraw
    /// now or how long to sleep first. The clock resets only when a redraw is
    /// requested, so updates on skipped-redraw ticks see a growing elapsed
    /// time.
    pub fn tick(&mut self, advance_micros: u64) -> (action: FrameAction)
        ensures
            final(self)@ == tick_spec(old(self)@, advance_micros).0,
            action == tick_spec(old(self)@, advance_micros).1,
    {
        proof {
            use_type_invariant(&*self);
        }
        let ghost s0 = self@;
        let acc = if advance_micros <= u64::MAX - self.accum_micros {
            self.accum_micros + advance_micros
        } else {
            u64::MAX
        };
        self.accum_micros = acc;
        proof {
            assert(acc == sat_add(s0.accum_micros, advance_micros));
            assert(self@ =~~= (RuntimeV {
                globals: s0.globals,
                rooms: s0.rooms,
                defs: s0.defs,
                cur_room: s0.cur_room,
                accum_micros: acc,
            }));
        }
        self.run_pass(ObjCall::Update(acc));
        if acc >= TARGET_FRAME_MICROS {
            proof {
                use_type_invariant(&*self);
            }
            self.accum_micros = 0;
            proof {
                assert(self@ =~~= tick_spec(s0, advance_micros).0);
            }
            FrameAction::Redraw
        } else {
            FrameAction::WaitMicros(TARGET_FRAME_MICROS - acc)
        }
    }

    /// Compose one frame: start from the blank grid and let every global
    /// object draw in order, then every object of the current room, into the
    /// same buffer. Later draw calls overwrite earlier cells; nothing is
    /// cleared in between.
    pub fn compose_frame(&self) -> (fb: FrameBuffer)
        ensures
            fb@ == compose(self@),
            grid_wf(fb@),
    {
        proof {
            use_type_invariant(&*self);
        }
        let ghost s = self@;
        let mut fb = FrameBuffer::blank();
        proof {
            assert(grid_wf(fb@));
        }
        let mut i: usize = 0;
        while i < self.globals.len()
            invariant
                i <= self.globals@.len(),
                s == self@,
                fb@ == draw_fold(self.globals@.take(i as int), blank_grid()),
                grid_wf(fb@),
            decreases self.globals@.len() - i,
        {
            let o = &self.globals[i];
            o.draw(&mut fb);
            proof {
                assert(self.globals@.take(i + 1).drop_last() =~= self.globals@.take(i as int));
                assert(self.globals@.take(i + 1).last() == self.globals@[i as int]);
            }
            i += 1;
        }
        proof {
            assert(self.globals@.take(self.globals@.len() as int) =~= self.globals@);
        }
        let idx_opt = find_room(&self.rooms, &self.cur_room);
        proof {
            if idx_opt.is_none() {
                assert(false);
            }
        }
        let idx = idx_opt.unwrap();
        proof {
            lemma_room_index_unique(s.rooms, s.cur_room, idx as int);
        }
        let room = &self.rooms[idx];
        let ghost base = fb@;
        let mut j: usize = 0;
        while j < room.objs.len()
            invariant
                j <= room.objs@.len(),
                fb@ == draw_fold(room.objs@.take(j as int), base),
                grid_wf(fb@),
            decreases room.objs@.len() - j,
        {
            let o = &room.objs[j];
            o.draw(&mut fb);
            proof {
                assert(room.objs@.take(j + 1).drop_last() =~= room.objs@.take(j as int));
                assert(room.objs@.take(j + 1).last() == room.objs@[j as int]);
            }
            j += 1;
        }
        proof {
            assert(room.objs@.take(room.objs@.len() as int) =~= room.objs@);
            assert(room.objs@ == s.rooms[room_index(s.rooms, s.cur_room)].objs);
        }
        fb
    }
}

/// The frames-per-second counter the run loop keeps beside the window title:
/// one count per presented frame, reported and reset at most once per second.
pub struct FpsCounter {
    frames: u64,
}

impl View for FpsCounter {
    type V = u64;

    closed spec fn view(&self) -> u64 {
        self.frames
    }
}

impl FpsCounter {
    /// A counter that has seen no frame yet.
    pub fn new() -> (c: FpsCounter)
        ensures
            c@ == 0,
    {
        FpsCounter { frames: 0 }
    }

    /// Note one presented frame. Once more than a second has passed since the
    /// title was last refreshed, hand out the frame count of that second and
    /// start counting afresh.
    pub fn note_frame(&mut self, millis_since_title: u64) -> (r: Option<u64>)
        ensures
            ({
                let f = sat_add(old(self)@, 1);
                if millis_since_title > 1000 {
                    r == Some(f) && final(self)@ == 0
                } else {
                    r == None::<u64> && final(self)@ == f
                }
            }),
    {
        let f = if self.frames <= u64::MAX - 1 {
            self.frames + 1
        } else {
            u64::MAX
        };
        if millis_since_title > 1000 {
            self.frames = 0;
            Some(f)
        } else {
            self.frames = f;
            None
        }
    }
}

} // verus!
