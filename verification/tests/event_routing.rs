//! The manager's event and coordinate pipeline, end to end.

use ui_overlay::events::Event;
use ui_overlay::events::MouseButton;
use ui_overlay::ui::Button;
use ui_overlay::ui::Callback;
use ui_overlay::ui::Widget;
use ui_overlay::world::Camera;
use ui_overlay::world::Entity;
use ui_overlay::world::Transform;
use ui_overlay::world::World;
use ui_overlay::Frac;
use ui_overlay::ScreenPos;
use ui_overlay::UiManager;
use ui_overlay::Vec2;

fn fr(num: i64, den: i64) -> Frac {
    Frac::new(num, den)
}

fn v2(xn: i64, xd: i64, yn: i64, yd: i64) -> Vec2 {
    Vec2 { x: fr(xn, xd), y: fr(yn, yd) }
}

fn camera_entity() -> Entity {
    let mut e = Entity::new();
    e.camera = Some(Camera { active: true, dimensions: v2(1, 1, 1, 1), view: 7 });
    e.transform = Some(Transform { active: true, position: v2(0, 1, 0, 1), scale: v2(1, 1, 1, 1) });
    e
}

fn button_entity(anchor: Vec2, dims: Vec2) -> Entity {
    let mut e = Entity::new();
    e.screen_pos = Some(ScreenPos { active: true, position: anchor, scale: v2(1, 1, 1, 1) });
    e.transform = Some(Transform { active: true, position: v2(0, 1, 0, 1), scale: v2(1, 1, 1, 1) });
    e.widget = Some(Widget::Button(Button { dims, active: true }));
    e.callback = Some(Callback { value: None });
    e
}

fn press() -> Event {
    Event::PointerButton { button: MouseButton::Left, pressed: true }
}

#[test]
fn round_trip_press_sets_callback() {
    let mut w = World::new();
    w.push(camera_entity());
    let e1 = w.push(button_entity(v2(1, 2, 1, 2), v2(1, 5, 1, 5)));
    let mut m = UiManager::default();
    m.update(&Event::WindowResized { width: 800, height: 600 }, &mut w).unwrap();
    m.update(&Event::PointerMoved { x: fr(400, 1), y: fr(300, 1) }, &mut w).unwrap();
    m.update(&press(), &mut w).unwrap();
    let got = w.entities[e1].callback.unwrap().value.unwrap();
    assert_eq!(got, Vec2 { x: Frac { num: 400, den: 800 }, y: Frac { num: 300, den: 600 } });
    assert!(got.x.eq_value(&fr(1, 2)));
    assert!(got.y.eq_value(&fr(1, 2)));
    // a press at pixel (0,0) misses and leaves the previous value in place
    m.update(&Event::PointerMoved { x: fr(0, 1), y: fr(0, 1) }, &mut w).unwrap();
    m.update(&press(), &mut w).unwrap();
    let kept = w.entities[e1].callback.unwrap().value.unwrap();
    assert_eq!(kept, Vec2 { x: Frac { num: 400, den: 800 }, y: Frac { num: 300, den: 600 } });
}

#[test]
fn last_hitting_press_wins() {
    let mut w = World::new();
    w.push(camera_entity());
    let e1 = w.push(button_entity(v2(1, 2, 1, 2), v2(1, 5, 1, 5)));
    let mut m = UiManager::default();
    m.update(&Event::WindowResized { width: 800, height: 600 }, &mut w).unwrap();
    m.update(&Event::PointerMoved { x: fr(400, 1), y: fr(300, 1) }, &mut w).unwrap();
    m.update(&press(), &mut w).unwrap();
    m.update(&Event::PointerMoved { x: fr(401, 1), y: fr(300, 1) }, &mut w).unwrap();
    m.update(&press(), &mut w).unwrap();
    let got = w.entities[e1].callback.unwrap().value.unwrap();
    assert_eq!(got, Vec2 { x: Frac { num: 401, den: 800 }, y: Frac { num: 300, den: 600 } });
}

#[test]
fn manager_state_machine_follows_events() {
    let mut w = World::new();
    let mut m = UiManager::default();
    assert_eq!(m.window_dims, (0, 0));
    m.update(&Event::WindowResized { width: 1024, height: 768 }, &mut w).unwrap();
    assert_eq!(m.window_dims, (1024, 768));
    m.update(&Event::PointerMoved { x: fr(5, 1), y: fr(6, 1) }, &mut w).unwrap();
    assert_eq!(m.mouse_pos, v2(5, 1, 6, 1));
    assert_eq!(m.window_dims, (1024, 768));
    m.update(&Event::Other, &mut w).unwrap();
    m.update(&Event::DrawTick, &mut w).unwrap();
    m.update(&press(), &mut w).unwrap();
    assert_eq!(m.window_dims, (1024, 768));
    assert_eq!(m.mouse_pos, v2(5, 1, 6, 1));
}

#[test]
fn no_active_camera_means_no_position_updates() {
    let mut w = World::new();
    let mut cam = camera_entity();
    cam.camera = Some(Camera { active: false, dimensions: v2(1, 1, 1, 1), view: 7 });
    w.push(cam);
    let e1 = w.push(button_entity(v2(1, 2, 1, 2), v2(1, 5, 1, 5)));
    let before = w.entities[e1].transform.unwrap();
    let mut m = UiManager::default();
    m.update(&Event::WindowResized { width: 800, height: 600 }, &mut w).unwrap();
    m.update(&Event::PointerMoved { x: fr(400, 1), y: fr(300, 1) }, &mut w).unwrap();
    m.update(&press(), &mut w).unwrap();
    assert_eq!(w.entities[e1].transform.unwrap(), before);
    assert_eq!(w.entities[e1].callback.unwrap().value, None);
}

#[test]
fn pass_projects_anchor_into_transform() {
    let mut w = World::new();
    w.push(camera_entity());
    let e1 = w.push(button_entity(v2(1, 2, 1, 2), v2(1, 5, 1, 5)));
    let mut m = UiManager::default();
    m.update(&Event::Other, &mut w).unwrap();
    let t = w.entities[e1].transform.unwrap();
    // 0/1 + (1/2) / (1/1) over a common denominator
    assert_eq!(t.position.x, Frac { num: 1, den: 2 });
    assert_eq!(t.position.y, Frac { num: 1, den: 2 });
}

#[test]
fn screen_to_world_pos_is_exact() {
    let cam = Camera { active: true, dimensions: v2(800, 1, 600, 1), view: 0 };
    let t = Transform { active: true, position: v2(1, 3, 0, 1), scale: v2(1, 1, 1, 1) };
    let sp = ScreenPos { active: true, position: v2(1, 7, 1, 2), scale: v2(1, 1, 1, 1) };
    let p = UiManager::screen_to_world_pos(&cam, &t, &sp).unwrap();
    // 1/3 + (1/7)/800 = ((1*7)*800 + (1*1)*3) / ((3*7)*800)
    assert_eq!(p.x, Frac { num: 5603, den: 16800 });
    // 0/1 + (1/2)/600 = ((0*2)*600 + (1*1)*1) / ((1*2)*600)
    assert_eq!(p.y, Frac { num: 1, den: 1200 });
}

#[test]
fn inactive_widget_never_fires() {
    let mut w = World::new();
    w.push(camera_entity());
    let mut ent = button_entity(v2(1, 2, 1, 2), v2(1, 5, 1, 5));
    ent.widget = Some(Widget::Button(Button { dims: v2(1, 5, 1, 5), active: false }));
    let e1 = w.push(ent);
    let mut m = UiManager::default();
    m.update(&Event::WindowResized { width: 800, height: 600 }, &mut w).unwrap();
    m.update(&Event::PointerMoved { x: fr(400, 1), y: fr(300, 1) }, &mut w).unwrap();
    m.update(&press(), &mut w).unwrap();
    assert_eq!(w.entities[e1].callback.unwrap().value, None);
}

#[test]
fn missing_callback_is_not_an_error() {
    let mut w = World::new();
    w.push(camera_entity());
    let mut ent = button_entity(v2(1, 2, 1, 2), v2(1, 5, 1, 5));
    ent.callback = None;
    let e1 = w.push(ent);
    let mut m = UiManager::default();
    m.update(&Event::WindowResized { width: 800, height: 600 }, &mut w).unwrap();
    m.update(&Event::PointerMoved { x: fr(400, 1), y: fr(300, 1) }, &mut w).unwrap();
    assert!(m.update(&press(), &mut w).is_ok());
    assert_eq!(w.entities[e1].callback, None);
}

#[test]
fn zero_window_dimensions_never_hit() {
    let mut w = World::new();
    w.push(camera_entity());
    let e1 = w.push(button_entity(v2(1, 2, 1, 2), v2(1, 5, 1, 5)));
    let mut m = UiManager::default();
    // no resize has arrived: window is (0, 0)
    m.update(&Event::PointerMoved { x: fr(0, 1), y: fr(0, 1) }, &mut w).unwrap();
    m.update(&press(), &mut w).unwrap();
    assert_eq!(w.entities[e1].callback.unwrap().value, None);
}

#[test]
fn other_press_kinds_are_ignored() {
    let mut w = World::new();
    w.push(camera_entity());
    let e1 = w.push(button_entity(v2(1, 2, 1, 2), v2(1, 5, 1, 5)));
    let mut m = UiManager::default();
    m.update(&Event::WindowResized { width: 800, height: 600 }, &mut w).unwrap();
    m.update(&Event::PointerMoved { x: fr(400, 1), y: fr(300, 1) }, &mut w).unwrap();
    m.update(&Event::PointerButton { button: MouseButton::Right, pressed: true }, &mut w).unwrap();
    m.update(&Event::PointerButton { button: MouseButton::Left, pressed: false }, &mut w).unwrap();
    assert_eq!(w.entities[e1].callback.unwrap().value, None);
}
