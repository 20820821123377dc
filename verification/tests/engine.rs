//! Engine behaviour through the public API, driven by a small counting
//! object.

use pseudo_term::buffer::FrameBuffer;
use pseudo_term::env::EnvironmentBuilder;
use pseudo_term::env::FrameAction;
use pseudo_term::env::TARGET_FRAME_MICROS;
use pseudo_term::obj::GameObject;
use pseudo_term::obj::GameObjectClone;
use pseudo_term::room::Room;

/// An object that counts its `update` calls and remembers the last delta it
/// was handed; never requests a transition.
#[derive(Clone, Debug, PartialEq)]
struct Counter {
    count: u64,
    last_delta: u64,
}

impl Counter {
    fn new() -> Counter {
        Counter { count: 0, last_delta: 0 }
    }
}

impl GameObjectClone for Counter {
    fn clone_box(&self) -> Counter {
        self.clone()
    }
}

impl GameObject for Counter {
    fn obj_type(&self) -> String {
        "counter".to_string()
    }

    fn persistant(&self) -> bool {
        false
    }

    fn on_key_pressed(
        &mut self,
        _code: u32,
        _global_objs: &Vec<Counter>,
        _rooms: &Vec<Room<Counter>>,
        _cur_room: &mut String,
    ) {
    }

    fn on_key_released(
        &mut self,
        _code: u32,
        _global_objs: &Vec<Counter>,
        _rooms: &Vec<Room<Counter>>,
        _cur_room: &mut String,
    ) {
    }

    fn update(
        &mut self,
        delta_micros: u64,
        _global_objs: &Vec<Counter>,
        _rooms: &Vec<Room<Counter>>,
        _cur_room: &mut String,
    ) {
        self.count += 1;
        self.last_delta = delta_micros;
    }

    fn draw(&self, _text_buf: &mut FrameBuffer) {}
}

/// An object that records, from the pass snapshots, the update count its
/// partner (the other object of the room "main") had before the pass began.
#[derive(Clone, Debug, PartialEq)]
struct SnapReader {
    slot: usize,
    count: u64,
    partner_seen: u64,
}

impl GameObjectClone for SnapReader {
    fn clone_box(&self) -> SnapReader {
        self.clone()
    }
}

impl GameObject for SnapReader {
    fn obj_type(&self) -> String {
        "snap_reader".to_string()
    }

    fn persistant(&self) -> bool {
        false
    }

    fn on_key_pressed(
        &mut self,
        _code: u32,
        _global_objs: &Vec<SnapReader>,
        _rooms: &Vec<Room<SnapReader>>,
        _cur_room: &mut String,
    ) {
    }

    fn on_key_released(
        &mut self,
        _code: u32,
        _global_objs: &Vec<SnapReader>,
        _rooms: &Vec<Room<SnapReader>>,
        _cur_room: &mut String,
    ) {
    }

    fn update(
        &mut self,
        _delta_micros: u64,
        _global_objs: &Vec<SnapReader>,
        rooms: &Vec<Room<SnapReader>>,
        _cur_room: &mut String,
    ) {
        for room in rooms.iter() {
            if room.name == "main" {
                let partner = 1 - self.slot;
                self.partner_seen = room.objs[partner].count;
            }
        }
        self.count += 1;
    }

    fn draw(&self, _text_buf: &mut FrameBuffer) {}
}

#[test]
fn counter_reaches_ten_after_ten_ticks() {
    let env = EnvironmentBuilder::new("main")
        .add_room("main", &vec![Counter::new()])
        .build()
        .expect("start room exists");
    let mut rt = env.start();
    for _ in 0..10 {
        rt.tick(1);
    }
    let main_name = "main".to_string();
    let objs = rt.room_objs(&main_name).expect("room exists");
    assert_eq!(objs[0].count, 10);
}

#[test]
fn room_name_invariant_without_requests() {
    let env = EnvironmentBuilder::new("main")
        .add_room("main", &vec![Counter::new()])
        .add_room("other", &vec![Counter::new()])
        .build()
        .expect("start room exists");
    let mut rt = env.start();
    for _ in 0..25 {
        rt.tick(3);
        assert_eq!(rt.cur_room().as_str(), "main");
    }
}

#[test]
fn update_delta_grows_until_redraw_then_resets() {
    let env = EnvironmentBuilder::new("main")
        .add_room("main", &vec![Counter::new()])
        .build()
        .expect("start room exists");
    let mut rt = env.start();
    let main_name = "main".to_string();

    assert_eq!(rt.tick(1000), FrameAction::WaitMicros(TARGET_FRAME_MICROS - 1000));
    assert_eq!(rt.room_objs(&main_name).unwrap()[0].last_delta, 1000);

    // the shared delta clock keeps accumulating while no redraw fires
    assert_eq!(rt.tick(15000), FrameAction::WaitMicros(TARGET_FRAME_MICROS - 16000));
    assert_eq!(rt.room_objs(&main_name).unwrap()[0].last_delta, 16000);

    // crossing the interval requests a redraw and resets the clock
    assert_eq!(rt.tick(700), FrameAction::Redraw);
    assert_eq!(rt.room_objs(&main_name).unwrap()[0].last_delta, 16700);

    assert_eq!(rt.tick(5), FrameAction::WaitMicros(TARGET_FRAME_MICROS - 5));
    assert_eq!(rt.room_objs(&main_name).unwrap()[0].last_delta, 5);
}

#[test]
fn redraws_spaced_at_least_one_interval() {
    let env = EnvironmentBuilder::new("main")
        .add_room("main", &vec![Counter::new()])
        .build()
        .expect("start room exists");
    let mut rt = env.start();
    let mut since_redraw: u64 = 0;
    let mut redraws: u32 = 0;
    for _ in 0..1000 {
        let advance: u64 = 997;
        match rt.tick(advance) {
            FrameAction::Redraw => {
                since_redraw += advance;
                assert!(since_redraw >= TARGET_FRAME_MICROS);
                since_redraw = 0;
                redraws += 1;
            },
            FrameAction::WaitMicros(d) => {
                since_redraw += advance;
                assert!(d > 0);
                assert_eq!(since_redraw + d, TARGET_FRAME_MICROS);
            },
        }
    }
    assert!(redraws > 0);
}

#[test]
fn repeated_runs_reproduce_final_states() {
    let builder = EnvironmentBuilder::new("main")
        .add_room("main", &vec![Counter::new(), Counter::new()])
        .add_global_obj(Counter::new());
    let env1 = builder.build().expect("start room exists");
    let env2 = builder.build().expect("start room exists");
    let mut rt1 = env1.start();
    let mut rt2 = env2.start();
    let main_name = "main".to_string();
    for i in 0..50u32 {
        rt1.tick(400 + (i as u64 % 7) * 991);
        rt2.tick(400 + (i as u64 % 7) * 991);
        rt1.handle_key_pressed(i % 3);
        rt2.handle_key_pressed(i % 3);
    }
    assert_eq!(rt1.cur_room(), rt2.cur_room());
    assert_eq!(rt1.global_objs(), rt2.global_objs());
    assert_eq!(rt1.room_objs(&main_name).unwrap(), rt2.room_objs(&main_name).unwrap());
}

#[test]
fn objects_read_snapshots_not_live_siblings() {
    let a = SnapReader { slot: 0, count: 0, partner_seen: 99 };
    let b = SnapReader { slot: 1, count: 0, partner_seen: 99 };
    let env = EnvironmentBuilder::new("main")
        .add_room("main", &vec![a, b])
        .build()
        .expect("start room exists");
    let mut rt = env.start();
    let main_name = "main".to_string();

    rt.tick(1);
    {
        let objs = rt.room_objs(&main_name).unwrap();
        // both ran once, and each saw the other's pre-pass count
        assert_eq!(objs[0].count, 1);
        assert_eq!(objs[1].count, 1);
        assert_eq!(objs[0].partner_seen, 0);
        assert_eq!(objs[1].partner_seen, 0);
    }
    rt.tick(1);
    {
        let objs = rt.room_objs(&main_name).unwrap();
        assert_eq!(objs[0].partner_seen, 1);
        assert_eq!(objs[1].partner_seen, 1);
    }
}
