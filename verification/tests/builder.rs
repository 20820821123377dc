//! The blueprint builder, build-time validation, and the FPS counter.

use pseudo_term::buffer::FrameBuffer;
use pseudo_term::env::BuildError;
use pseudo_term::env::EnvironmentBuilder;
use pseudo_term::env::FpsCounter;
use pseudo_term::obj::GameObject;
use pseudo_term::obj::GameObjectClone;
use pseudo_term::room::Room;

/// The simplest possible object: inert under every callback.
#[derive(Clone, Debug, PartialEq)]
struct Inert {
    id: u32,
}

impl GameObjectClone for Inert {
    fn clone_box(&self) -> Inert {
        self.clone()
    }
}

impl GameObject for Inert {
    fn obj_type(&self) -> String {
        "inert".to_string()
    }

    fn persistant(&self) -> bool {
        false
    }

    fn on_key_pressed(
        &mut self,
        _code: u32,
        _global_objs: &Vec<Inert>,
        _rooms: &Vec<Room<Inert>>,
        _cur_room: &mut String,
    ) {
    }

    fn on_key_released(
        &mut self,
        _code: u32,
        _global_objs: &Vec<Inert>,
        _rooms: &Vec<Room<Inert>>,
        _cur_room: &mut String,
    ) {
    }

    fn update(
        &mut self,
        _delta_micros: u64,
        _global_objs: &Vec<Inert>,
        _rooms: &Vec<Room<Inert>>,
        _cur_room: &mut String,
    ) {
    }

    fn draw(&self, _text_buf: &mut FrameBuffer) {}
}

#[test]
fn build_fails_on_unknown_start_room() {
    let builder = EnvironmentBuilder::<Inert>::new("missing");
    match builder.build() {
        Err(BuildError::UnknownStartRoom) => {},
        Ok(_) => panic!("a blueprint without its start room must not build"),
    }
}

#[test]
fn build_succeeds_when_start_room_exists() {
    let env = EnvironmentBuilder::new("lobby")
        .add_room("lobby", &vec![Inert { id: 1 }])
        .build()
        .expect("start room exists");
    assert_eq!(env.start_room().as_str(), "lobby");
    let rt = env.start();
    assert_eq!(rt.cur_room().as_str(), "lobby");
}

#[test]
fn default_window_title_and_override() {
    let builder = EnvironmentBuilder::new("main").add_room("main", &Vec::<Inert>::new());
    let env = builder.build().expect("start room exists");
    assert_eq!(env.win_title().as_str(), "Pseudo-Term Window");

    let titled = builder.set_window_title("My Game").build().expect("start room exists");
    assert_eq!(titled.win_title().as_str(), "My Game");
}

#[test]
fn builder_methods_leave_the_receiver_untouched() {
    let base = EnvironmentBuilder::new("main").add_room("main", &Vec::<Inert>::new());
    let extended = base.add_global_obj(Inert { id: 7 });
    let env_base = base.build().expect("start room exists");
    let env_ext = extended.build().expect("start room exists");
    assert_eq!(env_base.start().global_objs().len(), 0);
    assert_eq!(env_ext.start().global_objs().len(), 1);
}

#[test]
fn adding_a_room_under_an_existing_name_replaces_it() {
    let env = EnvironmentBuilder::new("main")
        .add_room("main", &vec![Inert { id: 1 }])
        .add_room("main", &vec![Inert { id: 2 }, Inert { id: 3 }])
        .build()
        .expect("start room exists");
    let rt = env.start();
    let objs = rt.room_objs(&"main".to_string()).expect("room exists");
    assert_eq!(objs.len(), 2);
    assert_eq!(objs[0].id, 2);
    assert_eq!(objs[1].id, 3);
}

#[test]
fn room_lookup_fails_for_unknown_name() {
    let env = EnvironmentBuilder::new("main")
        .add_room("main", &Vec::<Inert>::new())
        .build()
        .expect("start room exists");
    let rt = env.start();
    assert!(rt.room_objs(&"else".to_string()).is_none());
}

#[test]
fn fps_counter_reports_at_most_once_per_second() {
    let mut fps = FpsCounter::new();
    assert_eq!(fps.note_frame(0), None);
    assert_eq!(fps.note_frame(400), None);
    assert_eq!(fps.note_frame(999), None);
    assert_eq!(fps.note_frame(1000), None);
    // more than a second since the title was refreshed: report and restart
    assert_eq!(fps.note_frame(1001), Some(5));
    assert_eq!(fps.note_frame(500), None);
    assert_eq!(fps.note_frame(1200), Some(2));
}
