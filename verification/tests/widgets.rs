//! The widget capability interface and the callback mailbox.

use ui_overlay::events::Event;
use ui_overlay::events::MouseButton;
use ui_overlay::ui::Button;
use ui_overlay::ui::Callback;
use ui_overlay::ui::UiError;
use ui_overlay::ui::Update;
use ui_overlay::ui::Widget;
use ui_overlay::world::Entity;
use ui_overlay::world::World;
use ui_overlay::Frac;
use ui_overlay::ScreenPos;
use ui_overlay::Ui;
use ui_overlay::UiManager;
use ui_overlay::Vec2;

fn fr(num: i64, den: i64) -> Frac {
    Frac::new(num, den)
}

fn v2(xn: i64, xd: i64, yn: i64, yd: i64) -> Vec2 {
    Vec2 { x: fr(xn, xd), y: fr(yn, yd) }
}

#[test]
fn button_handler_captures_frame_state() {
    let mut m = UiManager::default();
    let mut w = World::new();
    m.update(&Event::WindowResized { width: 640, height: 480 }, &mut w).unwrap();
    m.update(&Event::PointerMoved { x: fr(10, 1), y: fr(20, 1) }, &mut w).unwrap();
    let mut b = Button { dims: v2(1, 4, 1, 4), active: true };
    let u = b.ui(&m).unwrap();
    assert_eq!(u.dims, v2(1, 4, 1, 4));
    assert_eq!(u.window_dims, (640, 480));
    assert_eq!(u.mouse_pos, v2(10, 1, 20, 1));
    assert!(b.active());
}

#[test]
fn widget_dispatch_matches_button() {
    let m = UiManager::default();
    let wdg = Widget::Button(Button { dims: v2(1, 4, 1, 4), active: false });
    assert!(!wdg.active());
    let u = wdg.produce_handler(&m);
    assert_eq!(u.dims, v2(1, 4, 1, 4));
}

#[test]
fn apply_without_anchor_discards_the_result() {
    let mut w = World::new();
    let mut ent = Entity::new();
    ent.callback = Some(Callback { value: None });
    w.push(ent);
    let u = Update { dims: v2(1, 1, 1, 1), window_dims: (100, 100), mouse_pos: v2(50, 1, 50, 1) };
    let ev = Event::PointerButton { button: MouseButton::Left, pressed: true };
    assert!(u.apply(0, &ev, &mut w).is_ok());
    assert_eq!(w.entities[0].callback.unwrap().value, None);
}

#[test]
fn apply_hit_writes_the_normalized_pointer() {
    let mut w = World::new();
    let mut ent = Entity::new();
    ent.screen_pos = Some(ScreenPos { active: true, position: v2(1, 2, 1, 2), scale: v2(1, 1, 1, 1) });
    ent.callback = Some(Callback { value: None });
    w.push(ent);
    let u = Update { dims: v2(1, 2, 1, 2), window_dims: (100, 100), mouse_pos: v2(50, 1, 50, 1) };
    let ev = Event::PointerButton { button: MouseButton::Left, pressed: true };
    u.apply(0, &ev, &mut w).unwrap();
    assert_eq!(
        w.entities[0].callback.unwrap().value,
        Some(Vec2 { x: Frac { num: 50, den: 100 }, y: Frac { num: 50, den: 100 } }),
    );
}

#[test]
fn callback_mailbox_sets_and_takes() {
    let mut c: Callback<u32> = Callback::new();
    assert_eq!(c.value, None);
    c.set(4);
    assert_eq!(c.value, Some(4));
    c.set(9);
    assert_eq!(c.value, Some(9));
    let got = c.take();
    assert_eq!(got, Some(9));
    assert_eq!(c.value, None);
}

struct FailingWidget;

impl Ui for FailingWidget {
    fn ui(&mut self, _manager: &UiManager) -> Result<Update, UiError> {
        Err(UiError::Widget)
    }

    fn active(&mut self) -> bool {
        true
    }
}

#[test]
fn a_user_widget_may_fail_to_produce_a_handler() {
    let mut fw = FailingWidget;
    let m = UiManager::default();
    assert_eq!(fw.ui(&m), Err(UiError::Widget));
    assert!(fw.active());
}
