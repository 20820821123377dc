//! Room transitions, the persistence rule, and dispatch order, driven by an
//! object that requests a transition when its trigger key is pressed.

use pseudo_term::buffer::FrameBuffer;
use pseudo_term::env::EnvironmentBuilder;
use pseudo_term::obj::GameObject;
use pseudo_term::obj::GameObjectClone;
use pseudo_term::room::Room;

/// On its trigger key being pressed, requests a transition into its target
/// room and counts the press; on the trigger being released, only counts.
#[derive(Clone, Debug, PartialEq)]
struct Switcher {
    trigger: u32,
    target: String,
    persistent: bool,
    count: u64,
}

impl Switcher {
    fn new(trigger: u32, target: &str, persistent: bool) -> Switcher {
        Switcher { trigger, target: target.to_string(), persistent, count: 0 }
    }
}

impl GameObjectClone for Switcher {
    fn clone_box(&self) -> Switcher {
        self.clone()
    }
}

impl GameObject for Switcher {
    fn obj_type(&self) -> String {
        "switcher".to_string()
    }

    fn persistant(&self) -> bool {
        self.persistent
    }

    fn on_key_pressed(
        &mut self,
        code: u32,
        _global_objs: &Vec<Switcher>,
        _rooms: &Vec<Room<Switcher>>,
        cur_room: &mut String,
    ) {
        if code == self.trigger {
            *cur_room = self.target.clone();
            self.count += 1;
        }
    }

    fn on_key_released(
        &mut self,
        code: u32,
        _global_objs: &Vec<Switcher>,
        _rooms: &Vec<Room<Switcher>>,
        _cur_room: &mut String,
    ) {
        if code == self.trigger {
            self.count += 1;
        }
    }

    fn update(
        &mut self,
        _delta_micros: u64,
        _global_objs: &Vec<Switcher>,
        _rooms: &Vec<Room<Switcher>>,
        _cur_room: &mut String,
    ) {
    }

    fn draw(&self, _text_buf: &mut FrameBuffer) {}
}

const KEY_N: u32 = 33;

#[test]
fn transition_resets_nonpersistent_object_of_left_room() {
    let env = EnvironmentBuilder::new("A")
        .add_room("A", &vec![Switcher::new(KEY_N, "B", false)])
        .add_room("B", &Vec::new())
        .build()
        .expect("start room exists");
    let mut rt = env.start();
    rt.handle_key_pressed(KEY_N);
    assert_eq!(rt.cur_room().as_str(), "B");
    // the object mutated itself to count 1, but leaving "A" reset it
    let objs = rt.room_objs(&"A".to_string()).unwrap();
    assert_eq!(objs[0].count, 0);
}

#[test]
fn transition_keeps_persistent_object_of_left_room() {
    let env = EnvironmentBuilder::new("A")
        .add_room("A", &vec![Switcher::new(KEY_N, "B", true)])
        .add_room("B", &Vec::new())
        .build()
        .expect("start room exists");
    let mut rt = env.start();
    rt.handle_key_pressed(KEY_N);
    assert_eq!(rt.cur_room().as_str(), "B");
    let objs = rt.room_objs(&"A".to_string()).unwrap();
    assert_eq!(objs[0].count, 1);
}

#[test]
fn request_for_unknown_room_is_ignored() {
    let env = EnvironmentBuilder::new("A")
        .add_room("A", &vec![Switcher::new(KEY_N, "nowhere", false)])
        .build()
        .expect("start room exists");
    let mut rt = env.start();
    rt.handle_key_pressed(KEY_N);
    // no transition: the room table is fixed at build time
    assert_eq!(rt.cur_room().as_str(), "A");
    // and without a transition nothing is reset
    let objs = rt.room_objs(&"A".to_string()).unwrap();
    assert_eq!(objs[0].count, 1);
}

#[test]
fn last_transition_request_in_dispatch_order_wins() {
    let env = EnvironmentBuilder::new("A")
        .add_room(
            "A",
            &vec![Switcher::new(KEY_N, "B", false), Switcher::new(KEY_N, "C", false)],
        )
        .add_room("B", &Vec::new())
        .add_room("C", &Vec::new())
        .build()
        .expect("start room exists");
    let mut rt = env.start();
    rt.handle_key_pressed(KEY_N);
    assert_eq!(rt.cur_room().as_str(), "C");
}

#[test]
fn globals_dispatch_before_room_objects() {
    let env = EnvironmentBuilder::new("A")
        .add_global_obj(Switcher::new(KEY_N, "B", true))
        .add_room("A", &vec![Switcher::new(KEY_N, "C", false)])
        .add_room("B", &Vec::new())
        .add_room("C", &Vec::new())
        .build()
        .expect("start room exists");
    let mut rt = env.start();
    rt.handle_key_pressed(KEY_N);
    // the room object writes after the global, so its request wins
    assert_eq!(rt.cur_room().as_str(), "C");
    // the global object mutated itself and is never reset
    assert_eq!(rt.global_objs()[0].count, 1);
}

#[test]
fn entered_room_is_not_reset_and_reset_happens_on_leaving() {
    let env = EnvironmentBuilder::new("A")
        .add_room("A", &vec![Switcher::new(KEY_N, "B", true)])
        .add_room("B", &vec![Switcher::new(KEY_N + 1, "A", false)])
        .build()
        .expect("start room exists");
    let mut rt = env.start();
    // into B; B's object keeps whatever state it had (still 0)
    rt.handle_key_pressed(KEY_N);
    assert_eq!(rt.cur_room().as_str(), "B");
    assert_eq!(rt.room_objs(&"B".to_string()).unwrap()[0].count, 0);
    // back to A; B's non-persistent object mutated to 1, then was reset
    rt.handle_key_pressed(KEY_N + 1);
    assert_eq!(rt.cur_room().as_str(), "A");
    assert_eq!(rt.room_objs(&"B".to_string()).unwrap()[0].count, 0);
    // A's persistent object still carries its first press
    assert_eq!(rt.room_objs(&"A".to_string()).unwrap()[0].count, 1);
}

#[test]
fn key_release_is_dispatched_without_transition() {
    let env = EnvironmentBuilder::new("A")
        .add_room("A", &vec![Switcher::new(KEY_N, "B", false)])
        .add_room("B", &Vec::new())
        .build()
        .expect("start room exists");
    let mut rt = env.start();
    rt.handle_key_released(KEY_N);
    assert_eq!(rt.cur_room().as_str(), "A");
    assert_eq!(rt.room_objs(&"A".to_string()).unwrap()[0].count, 1);
}

#[test]
fn unrecognized_key_is_a_no_op() {
    let env = EnvironmentBuilder::new("A")
        .add_room("A", &vec![Switcher::new(KEY_N, "B", false)])
        .add_room("B", &Vec::new())
        .build()
        .expect("start room exists");
    let mut rt = env.start();
    rt.handle_key_pressed(KEY_N + 7);
    assert_eq!(rt.cur_room().as_str(), "A");
    assert_eq!(rt.room_objs(&"A".to_string()).unwrap()[0].count, 0);
}
