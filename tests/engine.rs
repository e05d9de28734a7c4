use lancy_zones::commands::{
    add_zone_cmd, assign_cmd, create_config_cmd, get_monitor_by_name,
    get_monitor_of_assigned_config, remove_config_cmd, remove_zone_cmd, unassing_cmd, CommandError,
};
use lancy_zones::config::{get_config_path, initial_config, validate_config, DEFAULT_OPACITY, Config, ConfigError, Monitor, MonitorConfig, Zone};
use lancy_zones::layout::{flatten_zones, order_by_area};
use lancy_zones::overlay::{Overlay, OverlayCommand, OverlayEvent, Phase};
use lancy_zones::render::{draw_zones, FillRect, Shade};
use lancy_zones::resolver::resolve;

fn zone(name: &str, x: i16, y: i16, width: i16, height: i16) -> Zone {
    Zone { name: name.to_string(), x, y, width, height }
}

fn layout(name: &str, zones: Vec<Zone>) -> MonitorConfig {
    MonitorConfig { name: name.to_string(), zones }
}

fn monitor(name: &str, x: i16, y: i16, width: u16, height: u16, config: Option<MonitorConfig>) -> Monitor {
    Monitor { name: name.to_string(), config, x, y, width, height }
}

fn config_of(monitors: Vec<Monitor>) -> Config {
    Config { monitors, monitor_configs: Vec::new(), opacity: u32::MAX / 2, line_thickness: 3 }
}

fn halves() -> MonitorConfig {
    layout("halves", vec![zone("Left", 0, 0, 960, 1080), zone("Right", 960, 0, 960, 1080)])
}

fn moved(window: u32, x: i16, y: i16, held: bool) -> OverlayEvent {
    OverlayEvent::WindowMoved { window, cursor_x: x, cursor_y: y, modifier_held: held }
}

fn name_at(o: &Overlay, i: Option<usize>) -> Option<String> {
    i.map(|i| o.zones[i].name.clone())
}

// ---- geometry ----

#[test]
fn is_inside_includes_edges() {
    let z = zone("A", 10, 20, 100, 50);
    assert!(z.is_inside(10, 20));
    assert!(z.is_inside(110, 70));
    assert!(z.is_inside(60, 45));
    assert!(!z.is_inside(9, 20));
    assert!(!z.is_inside(111, 20));
    assert!(!z.is_inside(10, 71));
    assert!(!z.is_inside(10, 19));
}

#[test]
fn background_zone_contains_nothing() {
    let z = zone("", 0, 0, 100, 100);
    assert!(!z.is_inside(50, 50));
    assert!(!z.is_inside(0, 0));
}

#[test]
fn center_point_truncates() {
    assert_eq!(zone("A", 0, 0, 960, 1080).get_center_point(), (480, 540));
    assert_eq!(zone("A", 5, 7, 3, 5).get_center_point(), (6, 9));
    assert_eq!(zone("A", 0, 0, -3, -5).get_center_point(), (-1, -2));
    assert_eq!(zone("A", 32767, 32767, 32767, 32767).get_center_point(), (49150, 49150));
}

#[test]
fn squared_distance_exact() {
    let z = zone("Left", 0, 0, 960, 1080);
    assert_eq!(z.get_sqr_dist_to(500, 500), 20 * 20 + 40 * 40);
    assert_eq!(z.get_sqr_dist_to(480, 540), 0);
    let far = zone("Far", -32768, -32768, 0, 0);
    assert_eq!(far.get_sqr_dist_to(32767, 32767), 2 * 65535u64 * 65535u64);
}

#[test]
fn area_exact() {
    assert_eq!(zone("A", 0, 0, 960, 1080).get_area(), 1_036_800);
    assert_eq!(zone("A", 0, 0, 32767, 32767).get_area(), 32767 * 32767);
    assert_eq!(zone("A", 3, 4, 0, 10).get_area(), 0);
}

#[test]
fn monitor_coords_and_local_space() {
    let m = monitor("DP-1", 1920, 0, 1920, 1080, None);
    assert!(m.coords_inside(1920, 0));
    assert!(m.coords_inside(3840, 1080));
    assert!(!m.coords_inside(1919, 10));
    assert_eq!(m.to_local_space(2000, 30), (80, 30));
    assert_eq!(m.to_local_space(-32768, 0), (-34688, 0));
}

// ---- resolver ----

#[test]
fn resolve_picks_nearest_center() {
    let zones = vec![zone("Left", 0, 0, 960, 1080), zone("Right", 960, 0, 960, 1080)];
    assert_eq!(resolve(&zones, 500, 500), Some(0));
    assert_eq!(resolve(&zones, 1500, 500), Some(1));
}

#[test]
fn resolve_on_shared_edge_prefers_nearer_center() {
    let zones = vec![zone("Left", 0, 0, 960, 1080), zone("Narrow", 960, 0, 100, 1080)];
    // (960, 540) lies on both; Narrow's center (1010, 540) is nearer than Left's (480, 540).
    assert_eq!(resolve(&zones, 960, 540), Some(1));
}

#[test]
fn resolve_unique_nearest_independent_of_order() {
    let a = zone("A", 0, 0, 100, 100);
    let b = zone("B", 45, 40, 20, 20);
    let c = zone("C", 0, 0, 300, 300);
    let orders = vec![
        vec![a.clone(), b.clone(), c.clone()],
        vec![c.clone(), a.clone(), b.clone()],
        vec![b.clone(), c.clone(), a.clone()],
        vec![c.clone(), b.clone(), a.clone()],
    ];
    for zs in orders {
        let i = resolve(&zs, 56, 50).unwrap();
        assert_eq!(zs[i].name, "B");
    }
}

#[test]
fn resolve_equal_distance_prefers_smaller_area() {
    // Same center (500, 500), different sizes.
    let big = zone("Big", 0, 0, 1000, 1000);
    let small = zone("Small", 400, 400, 200, 200);
    assert_eq!(resolve(&vec![big.clone(), small.clone()], 500, 500), Some(1));
    assert_eq!(resolve(&vec![small, big], 500, 500), Some(0));
}

#[test]
fn resolve_full_tie_takes_first() {
    let zones = vec![zone("One", 0, 0, 100, 100), zone("Two", 0, 0, 100, 100)];
    assert_eq!(resolve(&zones, 10, 10), Some(0));
}

#[test]
fn resolve_outside_every_zone() {
    let zones = vec![zone("Left", 0, 0, 960, 1080), zone("Right", 960, 0, 960, 1080)];
    assert_eq!(resolve(&zones, 2000, 500), None);
    assert_eq!(resolve(&zones, -1, 0), None);
    assert_eq!(resolve(&Vec::new(), 0, 0), None);
}

#[test]
fn resolve_skips_background() {
    let zones = vec![zone("", 0, 0, 1920, 1080), zone("Left", 0, 0, 960, 1080)];
    assert_eq!(resolve(&zones, 1500, 500), None);
    assert_eq!(resolve(&zones, 100, 100), Some(1));
}

#[test]
fn resolve_is_deterministic() {
    let zones = vec![zone("A", 0, 0, 100, 100), zone("B", 50, 50, 100, 100)];
    let first = resolve(&zones, 75, 75);
    for _ in 0..5 {
        assert_eq!(resolve(&zones, 75, 75), first);
    }
}

// ---- validation and layout ----

#[test]
fn zone_past_monitor_width_is_refused() {
    let bad = layout("wide", vec![zone("Ok", 0, 0, 100, 100), zone("Wide", 1000, 0, 1000, 1080)]);
    let cfg = config_of(vec![monitor("HDMI-1", 0, 0, 1920, 1080, Some(bad))]);
    match validate_config(&cfg) {
        Err(ConfigError::ZoneOutOfBounds { zone, monitor }) => {
            assert_eq!(zone, "Wide");
            assert_eq!(monitor, "HDMI-1");
        }
        other => panic!("unexpected {:?}", other),
    }
    match Overlay::new(&cfg) {
        Err(ConfigError::ZoneOutOfBounds { zone, monitor }) => {
            assert_eq!(zone, "Wide");
            assert_eq!(monitor, "HDMI-1");
        }
        other => panic!("unexpected {:?}", other.map(|o| o.zones.len())),
    }
}

#[test]
fn zone_exactly_filling_monitor_is_accepted() {
    let cfg = config_of(vec![monitor("M", 0, 0, 1920, 1080, Some(layout("full", vec![zone("All", 0, 0, 1920, 1080)])))]);
    assert!(validate_config(&cfg).is_ok());
}

#[test]
fn negative_zone_origin_is_refused() {
    let cfg = config_of(vec![monitor("M", 0, 0, 1920, 1080, Some(layout("l", vec![zone("Neg", -1, 0, 10, 10)])))]);
    assert!(matches!(validate_config(&cfg), Err(ConfigError::ZoneOutOfBounds { .. })));
}

#[test]
fn zone_past_monitor_height_is_refused() {
    let cfg = config_of(vec![monitor("M", 0, 0, 1920, 1080, Some(layout("l", vec![zone("Tall", 0, 100, 10, 981)])))]);
    assert!(matches!(validate_config(&cfg), Err(ConfigError::ZoneOutOfBounds { .. })));
}

#[test]
fn empty_zone_is_refused() {
    let cfg = config_of(vec![monitor("M", 0, 0, 1920, 1080, Some(layout("l", vec![zone("Flat", 0, 0, 10, 0)])))]);
    match validate_config(&cfg) {
        Err(ConfigError::EmptyZone { zone, monitor }) => {
            assert_eq!(zone, "Flat");
            assert_eq!(monitor, "M");
        }
        other => panic!("unexpected {:?}", other),
    }
}

#[test]
fn monitor_outside_desktop_is_refused() {
    let cfg = config_of(vec![monitor("Huge", 0, 0, 40000, 1080, None)]);
    match validate_config(&cfg) {
        Err(ConfigError::OutsideDesktop { monitor }) => assert_eq!(monitor, "Huge"),
        other => panic!("unexpected {:?}", other),
    }
    let cfg = config_of(vec![monitor("Far", 30000, 0, 3000, 1080, None)]);
    assert!(matches!(validate_config(&cfg), Err(ConfigError::OutsideDesktop { .. })));
}

#[test]
fn unassigned_monitor_is_valid() {
    let cfg = config_of(vec![monitor("M", -1920, 0, 1920, 1080, None)]);
    assert!(validate_config(&cfg).is_ok());
    assert!(validate_config(&config_of(Vec::new())).is_ok());
}

#[test]
fn flatten_moves_zones_to_desktop_coordinates() {
    let monitors = vec![
        monitor("A", 0, 0, 1920, 1080, Some(halves())),
        monitor("B", 1920, 100, 1280, 1024, Some(layout("one", vec![zone("Top", 10, 20, 300, 400)]))),
        monitor("C", -800, 0, 800, 600, None),
    ];
    let flat = flatten_zones(&monitors);
    let got: Vec<(String, i16, i16, i16, i16)> =
        flat.iter().map(|z| (z.name.clone(), z.x, z.y, z.width, z.height)).collect();
    assert_eq!(
        got,
        vec![
            ("".to_string(), 0, 0, 1920, 1080),
            ("Left".to_string(), 0, 0, 960, 1080),
            ("Right".to_string(), 960, 0, 960, 1080),
            ("".to_string(), 1920, 100, 1280, 1024),
            ("Top".to_string(), 1930, 120, 300, 400),
            ("".to_string(), -800, 0, 800, 600),
        ]
    );
}

#[test]
fn order_by_area_largest_first_and_stable() {
    let zones = vec![
        zone("s1", 0, 0, 10, 10),
        zone("big", 0, 0, 100, 100),
        zone("s2", 5, 5, 10, 10),
        zone("mid", 0, 0, 50, 50),
        zone("s3", 9, 9, 5, 20),
    ];
    let names: Vec<String> = order_by_area(&zones).iter().map(|z| z.name.clone()).collect();
    assert_eq!(names, vec!["big", "mid", "s1", "s2", "s3"]);
    assert!(order_by_area(&Vec::new()).is_empty());
}

#[test]
fn overlay_new_orders_zones_and_starts_idle() {
    let cfg = config_of(vec![monitor(
        "M",
        0,
        0,
        1920,
        1080,
        Some(layout("nested", vec![zone("Small", 400, 400, 200, 200), zone("Big", 0, 0, 1920, 1080)])),
    )]);
    let o = Overlay::new(&cfg).unwrap();
    let names: Vec<String> = o.zones.iter().map(|z| z.name.clone()).collect();
    assert_eq!(names, vec!["", "Big", "Small"]);
    assert_eq!(o.phase, Phase::Idle);
    assert_eq!(o.drag_target, None);
    assert_eq!(o.active_zone, None);
    assert_eq!(o.line_thickness, 3);
}

// ---- state machine ----

fn session(l: MonitorConfig) -> Overlay {
    Overlay::new(&config_of(vec![monitor("M", 0, 0, 1920, 1080, Some(l))])).unwrap()
}

#[test]
fn drag_into_left_half_and_snap() {
    let mut o = session(halves());
    let cmds = o.handle_event(moved(42, 500, 500, true));
    assert_eq!(o.phase, Phase::Armed);
    assert_eq!(name_at(&o, o.active_zone).as_deref(), Some("Left"));
    assert_eq!(cmds, vec![OverlayCommand::Show, OverlayCommand::Redraw { active: o.active_zone }]);
    let cmds = o.handle_event(OverlayEvent::PrimaryButtonReleased { modifier_held: true });
    assert_eq!(
        cmds,
        vec![
            OverlayCommand::MoveResize { window: 42, x: 0, y: 0, width: 960, height: 1080 },
            OverlayCommand::Hide,
        ]
    );
    assert_eq!(o.phase, Phase::Idle);
    assert_eq!(o.drag_target, None);
    assert_eq!(o.active_zone, None);
}

#[test]
fn nested_zone_tie_goes_to_smaller() {
    let mut o = session(layout("nested", vec![zone("Big", 0, 0, 1000, 1000), zone("Small", 400, 400, 200, 200)]));
    o.handle_event(moved(7, 500, 500, true));
    assert_eq!(name_at(&o, o.active_zone).as_deref(), Some("Small"));
    let cmds = o.handle_event(OverlayEvent::PrimaryButtonReleased { modifier_held: true });
    assert_eq!(cmds[0], OverlayCommand::MoveResize { window: 7, x: 400, y: 400, width: 200, height: 200 });
}

#[test]
fn distance_alone_picks_nested_zone() {
    let mut o = session(layout("nested", vec![zone("Big", 0, 0, 1920, 1080), zone("Small", 400, 400, 200, 200)]));
    o.handle_event(moved(7, 500, 500, true));
    assert_eq!(name_at(&o, o.active_zone).as_deref(), Some("Small"));
}

#[test]
fn outside_all_zones_no_snap() {
    let mut o = session(layout("corner", vec![zone("Corner", 0, 0, 100, 100)]));
    let cmds = o.handle_event(moved(9, 1000, 1000, true));
    assert_eq!(o.active_zone, None);
    assert_eq!(cmds, vec![OverlayCommand::Show, OverlayCommand::Redraw { active: None }]);
    let cmds = o.handle_event(OverlayEvent::PrimaryButtonReleased { modifier_held: true });
    assert_eq!(cmds, vec![OverlayCommand::Hide]);
    assert_eq!(o.phase, Phase::Idle);
}

#[test]
fn modifier_release_cancels_with_active_zone() {
    let mut o = session(halves());
    o.handle_event(moved(1, 500, 500, true));
    assert!(o.active_zone.is_some());
    let cmds = o.handle_event(OverlayEvent::ModifierReleased);
    assert_eq!(cmds, vec![OverlayCommand::Hide]);
    assert_eq!(o.phase, Phase::Idle);
    assert_eq!(o.active_zone, None);
    assert_eq!(o.drag_target, None);
}

#[test]
fn modifier_release_cancels_without_active_zone() {
    let mut o = session(halves());
    o.handle_event(moved(1, 3000, 500, true));
    assert_eq!(o.active_zone, None);
    assert_eq!(o.handle_event(OverlayEvent::ModifierReleased), vec![OverlayCommand::Hide]);
    assert_eq!(o.phase, Phase::Idle);
}

#[test]
fn move_without_modifier_while_armed_cancels() {
    let mut o = session(halves());
    o.handle_event(moved(1, 500, 500, true));
    assert_eq!(o.handle_event(moved(1, 600, 500, false)), vec![OverlayCommand::Hide]);
    assert_eq!(o.phase, Phase::Idle);
    // A release afterwards does nothing.
    assert!(o.handle_event(OverlayEvent::PrimaryButtonReleased { modifier_held: true }).is_empty());
}

#[test]
fn idle_ignores_events_without_modifier() {
    let mut o = session(halves());
    assert!(o.handle_event(moved(1, 500, 500, false)).is_empty());
    assert!(o.handle_event(OverlayEvent::ModifierReleased).is_empty());
    assert!(o.handle_event(OverlayEvent::PrimaryButtonReleased { modifier_held: true }).is_empty());
    assert_eq!(o.phase, Phase::Idle);
}

#[test]
fn armed_move_rehovers_without_show() {
    let mut o = session(halves());
    o.handle_event(moved(5, 500, 500, true));
    let cmds = o.handle_event(moved(5, 1500, 500, true));
    assert_eq!(name_at(&o, o.active_zone).as_deref(), Some("Right"));
    assert_eq!(cmds, vec![OverlayCommand::Redraw { active: o.active_zone }]);
}

#[test]
fn release_without_modifier_does_not_snap() {
    let mut o = session(halves());
    o.handle_event(moved(5, 500, 500, true));
    let cmds = o.handle_event(OverlayEvent::PrimaryButtonReleased { modifier_held: false });
    assert_eq!(cmds, vec![OverlayCommand::Hide]);
    assert_eq!(o.phase, Phase::Idle);
}

#[test]
fn snap_targets_latest_moved_window_once() {
    let mut o = session(halves());
    o.handle_event(moved(5, 500, 500, true));
    o.handle_event(moved(6, 1500, 600, true));
    let cmds = o.handle_event(OverlayEvent::PrimaryButtonReleased { modifier_held: true });
    assert_eq!(
        cmds,
        vec![
            OverlayCommand::MoveResize { window: 6, x: 960, y: 0, width: 960, height: 1080 },
            OverlayCommand::Hide,
        ]
    );
    let again = o.handle_event(OverlayEvent::PrimaryButtonReleased { modifier_held: true });
    assert!(again.is_empty());
}

#[test]
fn shown_exactly_while_armed() {
    let mut o = session(halves());
    let mut shown = false;
    let events = vec![
        moved(1, 10, 10, true),
        moved(1, 1500, 10, true),
        OverlayEvent::ModifierReleased,
        moved(2, 10, 10, false),
        moved(2, 10, 10, true),
        OverlayEvent::PrimaryButtonReleased { modifier_held: true },
        OverlayEvent::PrimaryButtonReleased { modifier_held: true },
    ];
    for e in events {
        for c in o.handle_event(e) {
            match c {
                OverlayCommand::Show => shown = true,
                OverlayCommand::Hide => shown = false,
                _ => {}
            }
        }
        assert_eq!(shown, o.phase == Phase::Armed);
    }
}

// ---- rendering ----

#[test]
fn draw_zones_frames_each_zone_and_highlights_active() {
    let zones = vec![zone("A", 10, 20, 100, 50)];
    let fills = draw_zones(&zones, Some(0), 3);
    let r = |shade, x, y, width, height| FillRect { shade, x, y, width, height };
    assert_eq!(
        fills,
        vec![
            r(Shade::Dark, 10, 20, 100, 50),
            r(Shade::Light, 10, 20, 100, 3),
            r(Shade::Light, 10, 20, 3, 50),
            r(Shade::Light, 107, 20, 3, 50),
            r(Shade::Light, 10, 67, 100, 3),
            r(Shade::Light, 10, 20, 100, 50),
        ]
    );
    assert_eq!(draw_zones(&zones, None, 3).len(), 5);
    assert!(draw_zones(&Vec::new(), None, 3).is_empty());
}

#[test]
fn redraw_twice_paints_the_same() {
    let zones = vec![zone("", 0, 0, 40, 30), zone("A", 2, 2, 20, 20), zone("B", 10, 5, 25, 20)];
    let paint = |canvas: &mut Vec<Vec<Shade>>, fills: &Vec<FillRect>| {
        for f in fills {
            for py in f.y.max(0)..(f.y + f.height).min(30) {
                for px in f.x.max(0)..(f.x + f.width).min(40) {
                    canvas[py as usize][px as usize] = f.shade;
                }
            }
        }
    };
    for active in [None, Some(1), Some(2)] {
        let fills = draw_zones(&zones, active, 2);
        let mut once = vec![vec![Shade::Light; 40]; 30];
        paint(&mut once, &fills);
        let mut twice = once.clone();
        paint(&mut twice, &draw_zones(&zones, active, 2));
        assert_eq!(once, twice);
    }
}

// ---- configuration edits ----

fn edit_config() -> Config {
    Config {
        monitors: vec![
            monitor("DP-1", 0, 0, 1920, 1080, Some(halves())),
            monitor("DP-2", 1920, 0, 1920, 1080, None),
        ],
        monitor_configs: vec![halves(), layout("empty", Vec::new())],
        opacity: 7,
        line_thickness: 2,
    }
}

#[test]
fn config_path_is_fixed() {
    assert_eq!(get_config_path(), "~/.config/lancy-zones/config.json");
}

#[test]
fn lookups_find_first_by_name() {
    let mut cfg = edit_config();
    assert_eq!(cfg.config_position("empty"), Some(1));
    assert_eq!(cfg.config_position("nope"), None);
    assert_eq!(cfg.get_monitor_config("halves").unwrap().zones.len(), 2);
    assert!(cfg.get_monitor_config("nope").is_none());
    assert_eq!(
        get_monitor_of_assigned_config(&mut cfg, "halves").map(|m| m.name.clone()),
        Some("DP-1".to_string())
    );
    assert!(get_monitor_of_assigned_config(&mut cfg, "empty").is_none());
    get_monitor_of_assigned_config(&mut cfg, "halves").unwrap().config = None;
    assert!(cfg.monitors[0].config.is_none());
    assert!(get_monitor_of_assigned_config(&mut cfg, "halves").is_none());
    assert_eq!(get_monitor_by_name(&cfg.monitors, "DP-2").unwrap().x, 1920);
    assert!(get_monitor_by_name(&cfg.monitors, "DP-3").is_none());
}

#[test]
fn get_monitor_config_mut_edits_in_place() {
    let mut cfg = edit_config();
    cfg.get_monitor_config_mut("empty").unwrap().add_zone(zone("Z", 0, 0, 1, 1));
    assert_eq!(cfg.monitor_configs[1].zones.len(), 1);
    assert!(cfg.get_monitor_config_mut("nope").is_none());
}

#[test]
fn monitor_config_add_and_remove_zone() {
    let mut l = halves();
    l.add_zone(zone("Left", 5, 5, 5, 5));
    assert_eq!(l.zones.len(), 3);
    assert!(l.remove_zone("Left"));
    let names: Vec<String> = l.zones.iter().map(|z| z.name.clone()).collect();
    assert_eq!(names, vec!["Right", "Left"]);
    assert!(!l.remove_zone("Missing"));
    assert_eq!(l.zones.len(), 2);
}

#[test]
fn create_config_adds_empty_layout() {
    let mut cfg = edit_config();
    assert_eq!(create_config_cmd(&mut cfg, "thirds"), Ok(()));
    assert_eq!(cfg.monitor_configs.len(), 3);
    assert_eq!(cfg.monitor_configs[2].name, "thirds");
    assert!(cfg.monitor_configs[2].zones.is_empty());
    assert_eq!(create_config_cmd(&mut cfg, "thirds"), Err(CommandError::ConfigExists));
    assert_eq!(cfg.monitor_configs.len(), 3);
}

#[test]
fn remove_config_unassigns_monitor() {
    let mut cfg = edit_config();
    assert_eq!(remove_config_cmd(&mut cfg, "halves"), Ok(()));
    assert_eq!(cfg.monitor_configs.len(), 1);
    assert_eq!(cfg.monitor_configs[0].name, "empty");
    assert!(cfg.monitors[0].config.is_none());
    assert_eq!(remove_config_cmd(&mut cfg, "halves"), Err(CommandError::NoSuchConfig));
}

#[test]
fn add_zone_updates_layout_and_monitor_copy() {
    let mut cfg = edit_config();
    assert_eq!(add_zone_cmd(&mut cfg, "halves", "Top", 0, 0, 1920, 100), Ok(()));
    assert_eq!(cfg.monitor_configs[0].zones.len(), 3);
    assert_eq!(cfg.monitor_configs[0].zones[2].name, "Top");
    assert_eq!(cfg.monitors[0].config.as_ref().unwrap().zones.len(), 3);
    assert_eq!(add_zone_cmd(&mut cfg, "nope", "X", 0, 0, 1, 1), Err(CommandError::NoSuchConfig));
}

#[test]
fn remove_zone_updates_layout_and_monitor_copy() {
    let mut cfg = edit_config();
    assert_eq!(remove_zone_cmd(&mut cfg, "halves", "Left"), Ok(()));
    assert_eq!(cfg.monitor_configs[0].zones.len(), 1);
    assert_eq!(cfg.monitor_configs[0].zones[0].name, "Right");
    assert_eq!(cfg.monitors[0].config.as_ref().unwrap().zones.len(), 1);
    assert_eq!(remove_zone_cmd(&mut cfg, "halves", "Left"), Err(CommandError::NoSuchZone));
    assert_eq!(remove_zone_cmd(&mut cfg, "nope", "Left"), Err(CommandError::NoSuchConfig));
}

#[test]
fn assign_and_unassign() {
    let mut cfg = edit_config();
    assert_eq!(assign_cmd(&mut cfg, "DP-2", "halves"), Ok(()));
    assert_eq!(cfg.monitors[1].config.as_ref().unwrap().name, "halves");
    assert_eq!(assign_cmd(&mut cfg, "DP-9", "halves"), Err(CommandError::NoSuchMonitor));
    assert_eq!(assign_cmd(&mut cfg, "DP-2", "nope"), Err(CommandError::NoSuchConfig));
    assert_eq!(unassing_cmd(&mut cfg, "DP-2"), Ok(()));
    assert!(cfg.monitors[1].config.is_none());
    assert_eq!(unassing_cmd(&mut cfg, "DP-9"), Err(CommandError::NoSuchMonitor));
}

#[test]
fn initial_config_gives_each_monitor_its_own_layout() {
    let cfg = initial_config(vec![monitor("DP-1", 0, 0, 1920, 1080, None), monitor("DP-2", 1920, 0, 1280, 1024, None)]);
    assert_eq!(cfg.monitors.len(), 2);
    assert_eq!(cfg.monitor_configs.len(), 2);
    for (m, name) in cfg.monitors.iter().zip(["DP-1", "DP-2"]) {
        assert_eq!(m.name, name);
        let l = m.config.as_ref().unwrap();
        assert_eq!(l.name, name);
        assert!(l.zones.is_empty());
    }
    assert_eq!(cfg.monitor_configs[1].name, "DP-2");
    assert_eq!(cfg.monitors[1].x, 1920);
    assert_eq!(cfg.opacity, DEFAULT_OPACITY);
    assert_eq!(cfg.line_thickness, 3);
}

#[test]
fn first_fault_is_reported() {
    let l = layout("l", vec![zone("Fine", 0, 0, 10, 10), zone("Outside", 0, 0, 5000, 10), zone("Flat", 0, 0, 0, 10)]);
    let cfg = config_of(vec![monitor("Good", 0, 0, 100, 100, None), monitor("Bad", 100, 0, 1920, 1080, Some(l))]);
    match validate_config(&cfg) {
        Err(ConfigError::ZoneOutOfBounds { zone, monitor }) => {
            assert_eq!(zone, "Outside");
            assert_eq!(monitor, "Bad");
        }
        other => panic!("unexpected {:?}", other),
    }
    let l = layout("l", vec![zone("Flat", 0, 0, 0, 10), zone("Outside", 0, 0, 5000, 10)]);
    let cfg = config_of(vec![monitor("Huge", -20000, 0, 40000, 1080, Some(l.clone())), monitor("M", 0, 0, 10, 10, Some(l))]);
    match validate_config(&cfg) {
        Err(ConfigError::OutsideDesktop { monitor }) => assert_eq!(monitor, "Huge"),
        other => panic!("unexpected {:?}", other),
    }
}
