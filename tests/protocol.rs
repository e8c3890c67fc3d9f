use protocol::{
    Action, Applied, Bind, Container, Control, Decimal, Delta, Id, Kind, Layout, List, ListItem,
    Model, Page, Panel, Props, Reaction, Scene, Screen, Tab, Value,
};

fn decimal(negative: bool, digits: Vec<u8>, scale: i64) -> Value {
    Value::from_decimal(Decimal::from_parts(negative, digits, scale).unwrap())
}

fn counter_scene() -> Scene {
    Scene::FullScreen(Layout::Row(vec![
        Layout::Control(Control::Button(Id::new("go"))),
        Layout::Bind(Bind::Dynamic(Id::new("counter"))),
    ]))
}

#[test]
fn overlay_id_of_scene_is_none() {
    assert_eq!(Reaction::Scene(Scene::Spinner).overlay_id(), None);
    assert_eq!(Reaction::Scene(counter_scene()).overlay_id(), None);
}

#[test]
fn overlay_id_of_delta_is_its_id() {
    let delta = Delta { id: Id::new("counter"), value: Value::from_u8(1) };
    assert_eq!(Reaction::Delta(delta).overlay_id(), Some(Id::new("counter")));
}

#[test]
fn nothing_renders_empty() {
    assert_eq!(Value::Nothing.to_text(), "");
    assert_eq!(Value::default().to_text(), "");
}

#[test]
fn text_renders_as_itself() {
    assert_eq!(Value::from_text("abc").to_text(), "abc");
}

#[test]
fn decimal_keeps_trailing_precision() {
    assert_eq!(decimal(false, vec![2, 5, 0], 2).to_text(), "2.50");
    assert_eq!(decimal(false, vec![2, 5], 1).to_text(), "2.5");
    assert_eq!(decimal(true, vec![1, 2, 3], 2).to_text(), "-1.23");
}

#[test]
fn integers_render_in_full() {
    assert_eq!(Value::from_u8(1).to_text(), "1");
    assert_eq!(Value::from_i64(-42).to_text(), "-42");
    assert_eq!(Value::from_u64(u64::MAX).to_text(), "18446744073709551615");
    assert_eq!(Value::from_i8(0).to_text(), "0");
}

#[test]
fn integer_and_decimal_of_same_number_are_equal() {
    assert_eq!(Value::from_u8(5), decimal(false, vec![5, 0], 1));
    assert_eq!(Value::from_i64(5), Value::from_u16(5));
    assert_eq!(decimal(false, vec![2, 5, 0], 2), decimal(false, vec![2, 5], 1));
}

#[test]
fn different_numbers_or_kinds_differ() {
    assert_ne!(decimal(false, vec![2, 5], 1), decimal(false, vec![2, 6], 1));
    assert_ne!(Value::from_i32(-5), Value::from_u32(5));
    assert_ne!(Value::Nothing, Value::from_text(""));
    assert_ne!(Value::from_text("5"), Value::from_u8(5));
}

#[test]
fn negative_zero_equals_zero() {
    assert_eq!(decimal(true, vec![0], 3), Value::from_i16(0));
}

#[test]
fn from_parts_rejects_a_digit_of_ten() {
    assert!(Decimal::from_parts(false, vec![1, 10], 0).is_none());
    assert!(Decimal::from_parts(false, vec![], 0).is_some());
}

#[test]
fn decimal_parts_read_back() {
    let d = Decimal::from_integer(-120);
    assert!(d.is_negative());
    assert_eq!(d.digits(), &vec![1, 2, 0]);
    assert_eq!(d.scale(), 0);
}

#[test]
fn default_identifier_is_fixed_sentinel() {
    assert_eq!(Id::default(), Id::default());
    assert_eq!(Id::default().as_str(), "");
    assert_ne!(Id::default(), Id::new("<default>"));
    assert_ne!(Id::default(), Id::new("go"));
    assert_ne!(Id::default(), Id::new("a"));
}

#[test]
fn conversions_into_layout_only_wrap() {
    assert_eq!(
        Layout::from(Bind::Dynamic(Id::new("x"))),
        Layout::Bind(Bind::Dynamic(Id::new("x")))
    );
    assert_eq!(
        Layout::from(Control::Button(Id::new("go"))),
        Layout::Control(Control::Button(Id::new("go")))
    );
    assert_eq!(
        Layout::from(Container::Blank),
        Layout::Container(Box::new(Container::Blank))
    );
}

#[test]
fn delta_from_pair() {
    let delta = Delta::from((Id::new("counter"), Value::from_u8(3)));
    assert_eq!(delta.id, Id::new("counter"));
    assert_eq!(delta.value, Value::from_u8(3));
}

#[test]
fn spinner_scene_replaces_tree() {
    let mut screen = Screen::new();
    assert_eq!(screen.apply(Reaction::Scene(counter_scene())), Applied::Replaced);
    assert_eq!(screen.apply(Reaction::Scene(Scene::Spinner)), Applied::Replaced);
    assert_eq!(screen.scene(), &Scene::Spinner);
    assert_eq!(screen.shown(&Id::new("counter")), Value::Nothing);
}

#[test]
fn full_screen_scene_shows_empty_until_delta() {
    let mut screen = Screen::new();
    assert_eq!(screen.apply(Reaction::Scene(counter_scene())), Applied::Replaced);
    assert_eq!(screen.scene(), &counter_scene());
    assert_eq!(screen.shown(&Id::new("counter")), Value::Nothing);
    assert_eq!(screen.shown_text(&Id::new("counter")), "");
}

#[test]
fn click_emits_action_with_button_id() {
    let scene = counter_scene();
    let id = match &scene {
        Scene::FullScreen(Layout::Row(items)) => match &items[0] {
            Layout::Control(Control::Button(id)) => id.clone(),
            _ => panic!("no button"),
        },
        _ => panic!("no row"),
    };
    let action = Action { id, kind: Kind::Click };
    assert_eq!(action, Action { id: Id::new("go"), kind: Kind::Click });
}

#[test]
fn delta_updates_bound_value_only() {
    let mut screen = Screen::new();
    screen.apply(Reaction::Scene(counter_scene()));
    let delta = Delta { id: Id::new("counter"), value: Value::from_u8(1) };
    assert_eq!(screen.apply(Reaction::Delta(delta)), Applied::Patched);
    assert_eq!(screen.shown_text(&Id::new("counter")), "1");
    assert_eq!(screen.scene(), &counter_scene());
    let second = Delta { id: Id::new("counter"), value: Value::from_u8(2) };
    assert_eq!(screen.apply(Reaction::Delta(second)), Applied::Patched);
    assert_eq!(screen.shown_text(&Id::new("counter")), "2");
}

#[test]
fn dangling_delta_is_dropped() {
    let mut screen = Screen::new();
    screen.apply(Reaction::Scene(counter_scene()));
    let delta = Delta { id: Id::new("missing"), value: Value::from_u8(1) };
    assert_eq!(screen.apply(Reaction::Delta(delta)), Applied::Dangling);
    assert_eq!(screen.scene(), &counter_scene());
    assert_eq!(screen.shown(&Id::new("missing")), Value::Nothing);
    assert_eq!(screen.shown(&Id::new("counter")), Value::Nothing);
}

#[test]
fn delta_on_button_id_is_dangling() {
    let mut screen = Screen::new();
    screen.apply(Reaction::Scene(counter_scene()));
    let delta = Delta { id: Id::new("go"), value: Value::from_u8(1) };
    assert_eq!(screen.apply(Reaction::Delta(delta)), Applied::Dangling);
}

#[test]
fn fixed_bind_is_not_a_target() {
    let mut screen = Screen::new();
    let scene = Scene::FullScreen(Layout::Bind(Bind::Fixed(Value::from_text("counter"))));
    screen.apply(Reaction::Scene(scene));
    let delta = Delta { id: Id::new("counter"), value: Value::from_u8(1) };
    assert_eq!(screen.apply(Reaction::Delta(delta)), Applied::Dangling);
}

#[test]
fn nested_binds_are_found() {
    let tab_body = Layout::Column(vec![Layout::Welcome, Layout::List(List {
        items: vec![ListItem {
            title: Value::from_text("t"),
            description: Value::Nothing,
            bind: Bind::Dynamic(Id::new("deep")),
        }],
    })]);
    let tabs = Container::Tabs(vec![Tab { title: Value::from_text("one"), body: Layout::Blank }, Tab {
        title: Value::from_text("two"),
        body: tab_body,
    }]);
    let panel = Container::Panel(Panel {
        title: None,
        body: Layout::Bind(Bind::Dynamic(Id::new("inner"))),
    });
    let page = Page {
        title: Value::from_text("Dash"),
        subtitle: Value::Nothing,
        body: Layout::Row(vec![Layout::from(tabs), Layout::from(panel)]),
    };
    let mut screen = Screen::new();
    screen.apply(Reaction::Scene(Scene::Dashboard(page)));
    let deep = Delta { id: Id::new("deep"), value: Value::from_text("x") };
    assert_eq!(screen.apply(Reaction::Delta(deep)), Applied::Patched);
    let inner = Delta { id: Id::new("inner"), value: Value::from_text("y") };
    assert_eq!(screen.apply(Reaction::Delta(inner)), Applied::Patched);
    assert_eq!(screen.shown_text(&Id::new("deep")), "x");
    assert_eq!(screen.shown_text(&Id::new("inner")), "y");
}

#[test]
fn spinner_drops_earlier_deltas() {
    let mut screen = Screen::new();
    screen.apply(Reaction::Scene(counter_scene()));
    screen.apply(Reaction::Delta(Delta { id: Id::new("counter"), value: Value::from_u8(7) }));
    screen.apply(Reaction::Scene(counter_scene()));
    assert_eq!(screen.shown(&Id::new("counter")), Value::Nothing);
}

#[test]
fn page_model_shows_spinner_then_page() {
    let mut model = Model::default();
    assert!(model.main_view().is_none());
    let page = Page { title: Value::from_text("T"), subtitle: Value::Nothing, body: Layout::Welcome };
    model.recompose(Props { page: Some(page) });
    let shown = model.main_view().unwrap();
    assert_eq!(shown.title, Value::from_text("T"));
    model.recompose(Props::default());
    assert!(model.main_view().is_none());
}

#[test]
fn values_order_by_kind_then_payload() {
    assert!(Value::Nothing < Value::from_text(""));
    assert!(Value::from_text("zzz") < Value::from_u8(0));
    assert!(Value::from_text("abc") < Value::from_text("abd"));
    assert!(Value::from_text("ab") < Value::from_text("abc"));
    assert!(decimal(false, vec![2, 5], 1) < decimal(false, vec![2, 6], 1));
    assert!(Value::from_i32(-7) < Value::from_u8(0));
    assert!(decimal(true, vec![1, 0, 0], 2) < decimal(true, vec![9, 9], 2));
}

#[test]
fn equal_decimals_order_equal() {
    assert_eq!(
        Value::from_u8(5).partial_cmp(&decimal(false, vec![5, 0, 0], 2)),
        Some(std::cmp::Ordering::Equal)
    );
}

#[test]
fn identifiers_order_by_text() {
    assert!(Id::new("a") < Id::new("b"));
    assert!(Id::new("") < Id::new("a"));
    assert!(Id::new("go") > Id::new("counter"));
}

#[test]
fn equal_decimals_with_wide_scale_gap_are_equal() {
    let small = decimal(false, vec![7, 9, 2, 2, 8, 1, 6, 2, 5, 1, 6, 7, 7, 8, 6, 7, 8, 7, 9], 0);
    let mut digits = vec![7, 9, 2, 2, 8, 1, 6, 2, 5, 1, 6, 7, 7, 8, 6, 7, 8, 7, 9];
    digits.extend(vec![0; 10]);
    let wide = decimal(false, digits, 10);
    assert_eq!(small, wide);
}

#[test]
fn integer_digits_are_canonical() {
    assert_eq!(Decimal::from_integer(0).digits(), &vec![0]);
    assert_eq!(Decimal::from_integer(7).digits(), &vec![7]);
    let min = Decimal::from_integer(i128::MIN);
    assert!(min.is_negative());
    assert_eq!(min.digits().len(), 39);
    assert_eq!(min.digits()[0], 1);
    assert_eq!(Value::from_decimal(min).to_text(), "-170141183460469231731687303715884105728");
}

#[test]
fn clones_equal_their_originals() {
    assert_eq!(counter_scene().clone(), counter_scene());
    let panel = Layout::from(Container::Panel(Panel {
        title: Some(Value::from_text("p")),
        body: Layout::Column(vec![Layout::Welcome, Layout::Bind(Bind::Fixed(Value::from_u8(2)))]),
    }));
    assert_eq!(panel.clone(), panel);
    let reaction = Reaction::Delta(Delta { id: Id::new("c"), value: Value::from_i64(-3) });
    assert_eq!(reaction.clone(), reaction);
}

#[test]
fn one_with_many_trailing_zeros_equals_one() {
    let mut digits = vec![1];
    digits.extend(vec![0; 5000]);
    let long_one = decimal(false, digits, 5000);
    assert_eq!(long_one, Value::from_u8(1));
    assert_eq!(Value::from_u8(1).partial_cmp(&long_one), Some(std::cmp::Ordering::Equal));
    assert_eq!(long_one.partial_cmp(&Value::from_u8(1)), Some(std::cmp::Ordering::Equal));
}

#[test]
fn decimals_order_across_scales_and_signs() {
    assert!(decimal(false, vec![9, 9, 9], 3) < Value::from_u8(1));
    assert!(decimal(false, vec![1, 0, 0, 1], 3) > Value::from_u8(1));
    assert!(decimal(true, vec![1, 0, 0, 1], 3) < Value::from_i8(-1));
    assert!(decimal(true, vec![9, 9, 9], 3) > Value::from_i8(-1));
    assert!(decimal(false, vec![0, 0, 1, 2], 0) == Value::from_u8(12));
    assert!(decimal(false, vec![1], -3) == Value::from_u16(1000));
    assert_eq!(decimal(true, vec![], 7), decimal(false, vec![0, 0], -4));
    assert!(decimal(true, vec![5], 0) < decimal(false, vec![0], 0));
}
