//! The engine's general laws, stated and proved once over the specification
//! functions that the public methods' contracts are written in: what a room
//! transition does to the room being left, that rooms only change through
//! requests, that dispatch and drawing are deterministic, and that redraw
//! requests keep the target spacing without busy-waiting.

use crate::env::FrameAction;
use crate::env::ObjCall;
use crate::env::RuntimeV;
use crate::env::TARGET_FRAME_MICROS;
use crate::env::compose;
use crate::env::lemma_pass_objs_len;
use crate::env::pass_objs;
use crate::env::pass_result;
use crate::env::sat_add;
use crate::env::step;
use crate::env::tick_spec;
use crate::env::world_wf;
use crate::obj::GameObject;
use crate::room::RoomV;
use crate::room::has_room;
use crate::room::room_index;
use vstd::prelude::*;

verus! {

/// Whether this dispatch pass requests a transition that the engine will
/// honour: another room's name was left in the current-room slot, and a room
/// of the table carries it.
pub open spec fn transitions<T: GameObject>(s: RuntimeV<T>, call: ObjCall) -> bool {
    let requested = pass_result(s, call).2;
    requested != s.cur_room && has_room(s.rooms, requested)
}

/// A transition resets the non-persistent members of the room being left:
/// whatever mutations the pass made to such an object, the room's stored copy
/// afterwards is the pristine blueprint object at the same position.
pub proof fn lemma_transition_resets_nonpersistent<T: GameObject>(
    s: RuntimeV<T>,
    call: ObjCall,
    i: int,
)
    requires
        world_wf(s),
        transitions(s, call),
        0 <= i < pass_result(s, call).1.len(),
        !pass_result(s, call).1[i].persistent_model(),
    ensures
        step(s, call).rooms[room_index(s.rooms, s.cur_room)].objs[i] == s.defs[room_index(
            s.rooms,
            s.cur_room,
        )].objs[i],
{
}

/// A transition never alters a persistent member of the room being left: the
/// room's stored copy afterwards is exactly the state the object ended the
/// pass with.
pub proof fn lemma_transition_keeps_persistent<T: GameObject>(
    s: RuntimeV<T>,
    call: ObjCall,
    i: int,
)
    requires
        world_wf(s),
        transitions(s, call),
        0 <= i < pass_result(s, call).1.len(),
        pass_result(s, call).1[i].persistent_model(),
    ensures
        step(s, call).rooms[room_index(s.rooms, s.cur_room)].objs[i] == pass_result(s, call).1[i],
{
}

/// A step touches no room but the current one: every other room of the table,
/// the room being entered included, is left exactly as it stands.
pub proof fn lemma_other_rooms_untouched<T: GameObject>(s: RuntimeV<T>, call: ObjCall, j: int)
    requires
        world_wf(s),
        0 <= j < s.rooms.len(),
        j != room_index(s.rooms, s.cur_room),
    ensures
        step(s, call).rooms[j] == s.rooms[j],
{
}

/// A step never changes the shape of the world: the room table keeps exactly
/// its names and per-room object counts — object count and positional
/// identity are fixed for the engine's lifetime — the pristine definitions
/// are never touched, and the state stays well-formed.
pub proof fn lemma_step_preserves_shape<T: GameObject>(s: RuntimeV<T>, call: ObjCall)
    requires
        world_wf(s),
    ensures
        world_wf(step(s, call)),
        step(s, call).defs == s.defs,
        step(s, call).rooms.len() == s.rooms.len(),
        forall|j: int|
            0 <= j < s.rooms.len() ==> (#[trigger] step(s, call).rooms[j]).name == s.rooms[j].name
                && step(s, call).rooms[j].objs.len() == s.rooms[j].objs.len(),
{
    let pr = pass_result(s, call);
    let idx = room_index(s.rooms, s.cur_room);
    lemma_pass_objs_len(
        s.rooms[idx].objs,
        call,
        s.globals,
        s.rooms,
        pass_objs(s.globals, call, s.globals, s.rooms, s.cur_room).1,
    );
    let after = step(s, call);
    assert forall|j: int|
        0 <= j < s.rooms.len() implies (#[trigger] after.rooms[j]).name == s.rooms[j].name
        && after.rooms[j].objs.len() == s.rooms[j].objs.len() by {
        if j != idx {
            assert(after.rooms[j] == s.rooms[j]);
        }
    }
    assert forall|a: int, b: int|
        0 <= a < b < after.rooms.len() implies #[trigger] after.rooms[a].name
        != #[trigger] after.rooms[b].name by {
        assert(after.rooms[a].name == s.rooms[a].name);
        assert(after.rooms[b].name == s.rooms[b].name);
        assert(s.rooms[a].name != s.rooms[b].name);
    }
    assert forall|k: int|
        0 <= k < after.rooms.len() implies (#[trigger] after.defs[k]).name == after.rooms[k].name
        && after.defs[k].objs.len() == after.rooms[k].objs.len() by {
        assert(s.defs[k].name == s.rooms[k].name);
        assert(s.defs[k].objs.len() == s.rooms[k].objs.len());
    }
    if transitions(s, call) {
        let k = room_index(s.rooms, pr.2);
        assert(s.rooms[k].name == pr.2);
        assert(after.rooms[k].name == pr.2);
        assert(has_room(after.rooms, after.cur_room));
    } else {
        assert(after.rooms[idx].name == s.cur_room);
        assert(has_room(after.rooms, after.cur_room));
    }
}

/// A sequence of idle ticks, each advancing the wall clock by the
/// corresponding number of microseconds.
pub open spec fn run_ticks<T: GameObject>(s: RuntimeV<T>, advances: Seq<u64>) -> RuntimeV<T>
    decreases advances.len(),
{
    if advances.len() == 0 {
        s
    } else {
        run_ticks(tick_spec(s, advances[0]).0, advances.drop_first())
    }
}

/// An update pass whose objects never request a transition hands the
/// current-room name through unchanged.
proof fn lemma_pass_keeps_cur<T: GameObject>(
    objs: Seq<T>,
    delta: u64,
    globals: Seq<T>,
    rooms: Seq<RoomV<T>>,
    cur_room: Seq<char>,
)
    requires
        forall|o: T, d: u64, g: Seq<T>, r: Seq<RoomV<T>>, c: Seq<char>|
            (#[trigger] o.update_model(d, g, r, c)).1 == c,
    ensures
        pass_objs(objs, ObjCall::Update(delta), globals, rooms, cur_room).1 == cur_room,
    decreases objs.len(),
{
    if objs.len() > 0 {
        lemma_pass_keeps_cur(objs.drop_last(), delta, globals, rooms, cur_room);
    }
}

/// With zero key events and zero room-change requests, the active room name
/// is invariant over any sequence of idle ticks.
pub proof fn lemma_ticks_keep_room<T: GameObject>(s: RuntimeV<T>, advances: Seq<u64>)
    requires
        forall|o: T, d: u64, g: Seq<T>, r: Seq<RoomV<T>>, c: Seq<char>|
            (#[trigger] o.update_model(d, g, r, c)).1 == c,
    ensures
        run_ticks(s, advances).cur_room == s.cur_room,
    decreases advances.len(),
{
    if advances.len() > 0 {
        let acc = sat_add(s.accum_micros, advances[0]);
        let armed = RuntimeV {
            globals: s.globals,
            rooms: s.rooms,
            defs: s.defs,
            cur_room: s.cur_room,
            accum_micros: acc,
        };
        lemma_pass_keeps_cur(armed.globals, acc, armed.globals, armed.rooms, armed.cur_room);
        let g = pass_objs(armed.globals, ObjCall::Update(acc), armed.globals, armed.rooms, armed.cur_room);
        let idx = room_index(armed.rooms, armed.cur_room);
        lemma_pass_keeps_cur(armed.rooms[idx].objs, acc, armed.globals, armed.rooms, g.1);
        lemma_ticks_keep_room(tick_spec(s, advances[0]).0, advances.drop_first());
    }
}

/// Drawing is idempotent because it is a pure function of the object states:
/// two frames composed from the same globals, room table and current room are
/// identical, whatever else (the delta clock, the pristine definitions)
/// differs, and the buffer contributes nothing because every redraw starts
/// from the blank grid.
pub proof fn lemma_draw_idempotent<T: GameObject>(s1: RuntimeV<T>, s2: RuntimeV<T>)
    requires
        s1.globals == s2.globals,
        s1.rooms == s2.rooms,
        s1.cur_room == s2.cur_room,
    ensures
        compose(s1) == compose(s2),
{
}

/// A sequence of dispatched callbacks: key events and update passes in the
/// order the platform layer delivered them.
pub open spec fn run_calls<T: GameObject>(s: RuntimeV<T>, calls: Seq<ObjCall>) -> RuntimeV<T>
    decreases calls.len(),
{
    if calls.len() == 0 {
        s
    } else {
        run_calls(step(s, calls[0]), calls.drop_first())
    }
}

/// Dispatch order is deterministic: from equal states, equal event streams
/// end in equal states — repeated runs reproduce the same final object
/// states.
pub proof fn lemma_dispatch_deterministic<T: GameObject>(
    s1: RuntimeV<T>,
    s2: RuntimeV<T>,
    calls1: Seq<ObjCall>,
    calls2: Seq<ObjCall>,
)
    requires
        s1 == s2,
        calls1 == calls2,
    ensures
        run_calls(s1, calls1) == run_calls(s2, calls2),
{
}

/// The wall-clock microseconds a sequence of ticks spans.
pub open spec fn advances_sum(advances: Seq<u64>) -> int
    decreases advances.len(),
{
    if advances.len() == 0 {
        0
    } else {
        advances_sum(advances.drop_last()) + advances.last()
    }
}

/// The delta clock after a sequence of ticks none of which redrew: it only
/// ever accumulates.
pub open spec fn accum_after(start: u64, advances: Seq<u64>) -> u64
    decreases advances.len(),
{
    if advances.len() == 0 {
        start
    } else {
        accum_after(sat_add(start, advances[0]), advances.drop_first())
    }
}

proof fn lemma_sum_front(advances: Seq<u64>)
    requires
        advances.len() > 0,
    ensures
        advances_sum(advances) == advances[0] + advances_sum(advances.drop_first()),
    decreases advances.len(),
{
    if advances.len() == 1 {
        assert(advances.drop_first() =~= Seq::<u64>::empty());
        assert(advances.drop_last() =~= Seq::<u64>::empty());
    } else {
        lemma_sum_front(advances.drop_last());
        assert(advances.drop_last().drop_first() =~= advances.drop_first().drop_last());
        assert(advances.drop_last()[0] == advances[0]);
        assert(advances.drop_first().last() == advances.last());
    }
}

/// The pegged clock never exceeds the true elapsed time.
proof fn lemma_accum_le_sum(start: u64, advances: Seq<u64>)
    ensures
        accum_after(start, advances) <= start + advances_sum(advances),
    decreases advances.len(),
{
    if advances.len() > 0 {
        lemma_sum_front(advances);
        lemma_accum_le_sum(sat_add(start, advances[0]), advances.drop_first());
    }
}

/// While no tick redraws, the engine's delta clock is exactly the accumulated
/// clock of the advances.
proof fn lemma_run_ticks_accum<T: GameObject>(s: RuntimeV<T>, advances: Seq<u64>)
    requires
        forall|i: int|
            0 <= i < advances.len() ==> !((#[trigger] tick_spec(
                run_ticks(s, advances.take(i)),
                advances[i],
            )).1 is Redraw),
    ensures
        run_ticks(s, advances).accum_micros == accum_after(s.accum_micros, advances),
    decreases advances.len(),
{
    if advances.len() > 0 {
        assert(advances.take(0) =~= Seq::<u64>::empty());
        assert(!(tick_spec(run_ticks(s, advances.take(0)), advances[0]).1 is Redraw));
        let s1 = tick_spec(s, advances[0]).0;
        assert(s1.accum_micros == sat_add(s.accum_micros, advances[0]));
        let rest = advances.drop_first();
        assert forall|i: int|
            0 <= i < rest.len() implies !((#[trigger] tick_spec(
            run_ticks(s1, rest.take(i)),
            rest[i],
        )).1 is Redraw) by {
            assert(advances.take(i + 1)[0] == advances[0]);
            assert(advances.take(i + 1).drop_first() =~= rest.take(i));
            assert(run_ticks(s, advances.take(i + 1)) == run_ticks(s1, rest.take(i)));
            assert(advances[i + 1] == rest[i]);
            assert(!(tick_spec(run_ticks(s, advances.take(i + 1)), advances[i + 1]).1 is Redraw));
        }
        lemma_run_ticks_accum(s1, rest);
    }
}

/// Frame pacing: starting just after a redraw (the delta clock at zero), if a
/// sequence of idle ticks ends in a redraw request and none before it redrew,
/// the wall-clock time those ticks span is at least the target frame
/// interval. Redraw requests are therefore never spaced closer than the
/// computed interval.
pub proof fn lemma_frame_pacing<T: GameObject>(s: RuntimeV<T>, advances: Seq<u64>)
    requires
        s.accum_micros == 0,
        advances.len() > 0,
        forall|i: int|
            0 <= i < advances.len() - 1 ==> !((#[trigger] tick_spec(
                run_ticks(s, advances.take(i)),
                advances[i],
            )).1 is Redraw),
        tick_spec(run_ticks(s, advances.take(advances.len() - 1)), advances.last()).1 is Redraw,
    ensures
        advances_sum(advances) >= TARGET_FRAME_MICROS,
{
    let prefix = advances.drop_last();
    assert forall|i: int|
        0 <= i < prefix.len() implies !((#[trigger] tick_spec(
        run_ticks(s, prefix.take(i)),
        prefix[i],
    )).1 is Redraw) by {
        assert(prefix.take(i) =~= advances.take(i));
        assert(prefix[i] == advances[i]);
    }
    lemma_run_ticks_accum(s, prefix);
    lemma_accum_le_sum(0, prefix);
    assert(advances.take(advances.len() - 1) =~= prefix);
    let before = run_ticks(s, prefix).accum_micros;
    let acc = sat_add(before, advances.last());
    assert(acc >= TARGET_FRAME_MICROS);
    assert(advances_sum(advances) == advances_sum(prefix) + advances.last());
}

/// The scheduler never busy-waits: a tick below the target interval always
/// asks to sleep for exactly the positive remainder, and a tick redraws
/// exactly when the accumulated clock has reached the interval.
pub proof fn lemma_no_busy_wait<T: GameObject>(s: RuntimeV<T>, advance_micros: u64)
    ensures
        match tick_spec(s, advance_micros).1 {
            FrameAction::Redraw => sat_add(s.accum_micros, advance_micros)
                >= TARGET_FRAME_MICROS,
            FrameAction::WaitMicros(d) => d > 0 && sat_add(s.accum_micros, advance_micros) + d
                == TARGET_FRAME_MICROS,
        },
{
}

} // verus!
