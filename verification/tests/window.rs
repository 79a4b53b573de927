use javelin::control::{complete_reload, Action, Command};
use javelin::offsets::OffsetTable;
use javelin::window::{focused_window, is_leaf, Window, WindowProperties};

fn window(app_id: Option<&str>, properties: Option<WindowProperties>) -> Window {
    Window {
        x: 100,
        y: 200,
        width: 800,
        height: 600,
        app_id: app_id.map(str::to_string),
        properties,
    }
}

fn properties(instance: Option<&str>, class: Option<&str>, title: Option<&str>) -> WindowProperties {
    WindowProperties {
        title: title.map(str::to_string),
        instance: instance.map(str::to_string),
        class: class.map(str::to_string),
    }
}

fn table(entries: &[(&str, (i32, i32))]) -> OffsetTable {
    let mut table = OffsetTable::new();
    for (identity, offset) in entries {
        table.insert(identity.to_string(), *offset);
    }
    table
}

#[test]
fn application_identifier_comes_first() {
    let w = window(Some("code"), Some(properties(Some("i"), Some("c"), Some("t"))));
    assert_eq!(w.identity(), "code");
}

#[test]
fn instance_comes_before_class_and_title() {
    let w = window(None, Some(properties(Some("i"), Some("c"), Some("t"))));
    assert_eq!(w.identity(), "i");
}

#[test]
fn class_comes_before_title() {
    let w = window(None, Some(properties(None, Some("c"), Some("t"))));
    assert_eq!(w.identity(), "c");
}

#[test]
fn title_is_the_last_resort() {
    let w = window(None, Some(properties(None, None, Some("t"))));
    assert_eq!(w.identity(), "t");
}

#[test]
fn window_without_any_name_is_called_none() {
    assert_eq!(window(None, None).identity(), "none");
    assert_eq!(window(None, Some(properties(None, None, None))).identity(), "none");
}

#[test]
fn properties_name_themselves_by_the_first_of_three() {
    assert_eq!(properties(Some("i"), Some("c"), Some("t")).identity(), Some(&"i".to_string()));
    assert_eq!(properties(None, Some("c"), Some("t")).identity(), Some(&"c".to_string()));
    assert_eq!(properties(None, None, Some("t")).identity(), Some(&"t".to_string()));
    assert_eq!(properties(None, None, None).identity(), None);
}

#[test]
fn known_identity_shifts_the_reload_point() {
    let w = window(Some("code"), None);
    let offsets = table(&[("code", (10, -5))]);
    assert_eq!(w.reload_target((400, 300), &offsets), (100 + 400 + 10, 200 + 300 - 5));
}

#[test]
fn unknown_identity_leaves_the_reload_point_alone() {
    let w = window(Some("firefox"), None);
    let offsets = table(&[("code", (10, -5))]);
    assert_eq!(w.reload_target((400, 300), &offsets), (500, 500));
}

#[test]
fn offset_is_looked_up_under_the_resolved_identity() {
    let offsets = table(&[("code", (10, -5)), ("none", (1, 1)), ("Code", (7, 7))]);
    let by_class = window(None, Some(properties(None, Some("Code"), Some("code"))));
    assert_eq!(by_class.reload_target((0, 0), &offsets), (107, 207));
    let nameless = window(None, None);
    assert_eq!(nameless.reload_target((0, 0), &offsets), (101, 201));
}

#[test]
fn reload_point_does_not_wrap_around() {
    let w = Window { x: i32::MAX, y: i32::MIN, width: 0, height: 0, app_id: None, properties: None };
    let offsets = table(&[("none", (i32::MAX, i32::MIN))]);
    assert_eq!(
        w.reload_target((i32::MAX, i32::MIN), &offsets),
        (3 * i32::MAX as i64, 3 * i32::MIN as i64)
    );
}

#[test]
fn reload_is_finished_with_a_refresh_and_the_position() {
    let w = window(Some("code"), None);
    let offsets = table(&[("code", (10, -5))]);
    assert_eq!(
        complete_reload(&w, (400, 300), &offsets),
        vec![Action::Refresh, Action::Send(Command::MoveCursorTo(510, 495))]
    );
}

#[test]
fn leaf_has_no_children() {
    assert!(is_leaf(0));
    assert!(!is_leaf(1));
    assert!(!is_leaf(usize::MAX));
}

fn rect(x: i32, y: i32, width: i32, height: i32) -> String {
    format!("{{\"x\":{x},\"y\":{y},\"width\":{width},\"height\":{height}}}")
}

fn node(id: i64, geometry: &str, focus: &[i64], identity: &str, nodes: &[String], floating: &[String]) -> String {
    let focus: Vec<String> = focus.iter().map(|id| id.to_string()).collect();
    format!(
        "{{\"id\":{id},\"name\":null,\"type\":\"con\",\"border\":\"none\",\
         \"current_border_width\":0,\"layout\":\"splith\",\"orientation\":\"none\",\
         \"percent\":null,\"rect\":{geometry},\"window_rect\":{geometry},\
         \"deco_rect\":{geometry},\"geometry\":{geometry},\"urgent\":false,\
         \"focused\":false,\"focus\":[{}],\"nodes\":[{}],\"floating_nodes\":[{}],\
         \"sticky\":false{identity}}}",
        focus.join(","),
        nodes.join(","),
        floating.join(","),
    )
}

fn tree(text: &str) -> swayipc::Node {
    serde_json::from_str(text).unwrap()
}

#[test]
fn focus_order_leads_to_the_focused_leaf() {
    let left = node(2, &rect(0, 0, 500, 900), &[], ",\"app_id\":\"left\"", &[], &[]);
    let right = node(3, &rect(500, 0, 700, 900), &[], ",\"app_id\":\"code\"", &[], &[]);
    let root = node(1, &rect(0, 0, 1200, 900), &[3, 2], "", &[left, right], &[]);
    let found = focused_window(tree(&root)).unwrap();
    assert_eq!(
        found,
        Window { x: 500, y: 0, width: 700, height: 900, app_id: Some("code".to_string()), properties: None }
    );
}

#[test]
fn focused_leaf_may_lie_deep_in_the_tree() {
    let a = node(5, &rect(0, 0, 10, 10), &[], ",\"app_id\":\"a\"", &[], &[]);
    let b = node(6, &rect(10, 20, 30, 40), &[], ",\"app_id\":\"b\"", &[], &[]);
    let inner = node(4, &rect(0, 0, 40, 60), &[6, 5], "", &[a, b], &[]);
    let other = node(3, &rect(40, 0, 40, 60), &[], ",\"app_id\":\"other\"", &[], &[]);
    let workspace = node(2, &rect(0, 0, 80, 60), &[4, 3], "", &[other, inner], &[]);
    let root = node(1, &rect(0, 0, 80, 60), &[2], "", &[workspace], &[]);
    let found = focused_window(tree(&root)).unwrap();
    assert_eq!((found.x, found.y, found.width, found.height), (10, 20, 30, 40));
    assert_eq!(found.identity(), "b");
}

#[test]
fn focused_leaf_may_float() {
    let tiled = node(2, &rect(0, 0, 10, 10), &[], ",\"app_id\":\"tiled\"", &[], &[]);
    let floating = node(3, &rect(5, 5, 20, 20), &[], ",\"app_id\":\"floating\"", &[], &[]);
    let root = node(1, &rect(0, 0, 100, 100), &[3, 2], "", &[tiled], &[floating]);
    let found = focused_window(tree(&root)).unwrap();
    assert_eq!(found.identity(), "floating");
}

#[test]
fn window_properties_are_read_from_the_leaf() {
    let identity = ",\"window_properties\":{\"title\":\"t\",\"instance\":\"i\",\"class\":\"c\",\
                    \"window_role\":null,\"window_type\":null,\"transient_for\":null}";
    let leaf = node(2, &rect(1, 2, 3, 4), &[], identity, &[], &[]);
    let root = node(1, &rect(0, 0, 100, 100), &[2], "", &[leaf], &[]);
    let found = focused_window(tree(&root)).unwrap();
    assert_eq!(found.app_id, None);
    assert_eq!(found.properties, Some(properties(Some("i"), Some("c"), Some("t"))));
    assert_eq!(found.identity(), "i");
}

#[test]
fn tree_without_children_is_its_own_leaf() {
    let root = node(1, &rect(3, 4, 5, 6), &[], "", &[], &[]);
    let found = focused_window(tree(&root)).unwrap();
    assert_eq!((found.x, found.y, found.width, found.height), (3, 4, 5, 6));
    assert_eq!(found.identity(), "none");
}

#[test]
fn focus_order_that_leads_nowhere_gives_no_window() {
    let child = node(2, &rect(0, 0, 10, 10), &[], "", &[], &[]);
    let empty_focus = node(1, &rect(0, 0, 10, 10), &[], "", &[child.clone()], &[]);
    assert_eq!(focused_window(tree(&empty_focus)), None);
    let stale_focus = node(1, &rect(0, 0, 10, 10), &[9], "", &[child], &[]);
    assert_eq!(focused_window(tree(&stale_focus)), None);
}
