//! Editing the configuration: creating and removing layouts, adding and
//! removing zones, assigning layouts to monitors. A monitor holds its own
//! copy of its layout; editing a layout refreshes the copy held by the first
//! monitor it is assigned to.

use vstd::prelude::*;

use crate::config::{
    zone_views, first_layout_named, first_zone_named, layout_views, monitor_views, no_layout_named, Config,
    ConfigView, Monitor, MonitorConfig, MonitorConfigView, MonitorView, Zone, ZoneView,
};

verus! {

/// Why an edit of the configuration was refused.
#[derive(Clone, Copy, Debug, PartialEq, Eq, Structural)]
pub enum CommandError {
    /// A layout of that name exists already.
    ConfigExists,
    /// No layout has that name.
    NoSuchConfig,
    /// No monitor has that name.
    NoSuchMonitor,
    /// The layout has no zone of that name.
    NoSuchZone,
}

/// Monitor `i` is the first of `ms` named `name`.
pub open spec fn first_monitor_named(ms: Seq<MonitorView>, name: Seq<char>, i: int) -> bool {
    &&& 0 <= i < ms.len()
    &&& ms[i].name == name
    &&& forall|j: int| 0 <= j < i ==> ms[j].name != name
}

/// No monitor of `ms` is named `name`.
pub open spec fn no_monitor_named(ms: Seq<MonitorView>, name: Seq<char>) -> bool {
    forall|j: int| 0 <= j < ms.len() ==> ms[j].name != name
}

/// Monitor `m` is assigned a layout named `cfg_name`.
pub open spec fn assigned(m: MonitorView, cfg_name: Seq<char>) -> bool {
    m.config matches Some(c) && c.name == cfg_name
}

/// Monitor `i` is the first of `ms` assigned a layout named `cfg_name`.
pub open spec fn first_assigned(ms: Seq<MonitorView>, cfg_name: Seq<char>, i: int) -> bool {
    &&& 0 <= i < ms.len()
    &&& assigned(ms[i], cfg_name)
    &&& forall|j: int| 0 <= j < i ==> !assigned(ms[j], cfg_name)
}

/// `ms` with the layout of its first monitor assigned `cfg_name` replaced by
/// `c`; unchanged when no monitor is assigned it.
pub open spec fn refresh_assigned(
    ms: Seq<MonitorView>,
    cfg_name: Seq<char>,
    c: Option<MonitorConfigView>,
) -> Seq<MonitorView> {
    if exists|i: int| first_assigned(ms, cfg_name, i) {
        let i = choose|i: int| first_assigned(ms, cfg_name, i);
        ms.update(i, MonitorView { config: c, ..ms[i] })
    } else {
        ms
    }
}

proof fn lemma_first_assigned_unique(ms: Seq<MonitorView>, cfg_name: Seq<char>, i: int, j: int)
    requires
        first_assigned(ms, cfg_name, i),
        first_assigned(ms, cfg_name, j),
    ensures
        i == j,
{
}

/// The position of the first monitor named `monitor_name`.
fn monitor_position(monitors: &Vec<Monitor>, monitor_name: &str) -> (r: Option<usize>)
    ensures
        match r {
            Some(i) => first_monitor_named(monitor_views(monitors@), monitor_name@, i as int),
            None => no_monitor_named(monitor_views(monitors@), monitor_name@),
        },
{
    let ghost ms = monitor_views(monitors@);
    let name = monitor_name.to_owned();
    let mut i: usize = 0;
    while i < monitors.len()
        invariant
            i <= monitors.len(),
            ms == monitor_views(monitors@),
            name@ == monitor_name@,
            forall|j: int| 0 <= j < i ==> ms[j].name != monitor_name@,
        decreases monitors.len() - i,
    {
        if monitors[i].name == name {
            return Some(i);
        }
        i += 1;
    }
    None
}

/// A copy of the first monitor named `monitor_name`.
pub fn get_monitor_by_name(monitors: &Vec<Monitor>, monitor_name: &str) -> (r: Option<Monitor>)
    ensures
        match r {
            Some(m) => exists|i: int|
                first_monitor_named(monitor_views(monitors@), monitor_name@, i) && m@
                    == monitors@[i]@,
            None => no_monitor_named(monitor_views(monitors@), monitor_name@),
        },
{
    match monitor_position(monitors, monitor_name) {
        Some(i) => Some(monitors[i].duplicate()),
        None => None,
    }
}

/// The position of the first monitor assigned the layout named `config_name`.
fn assigned_position(config: &Config, config_name: &str) -> (r: Option<usize>)
    ensures
        match r {
            Some(i) => first_assigned(config@.monitors, config_name@, i as int),
            None => forall|j: int|
                0 <= j < config@.monitors.len() ==> !assigned(config@.monitors[j], config_name@),
        },
{
    let ghost ms = config@.monitors;
    let name = config_name.to_owned();
    let mut i: usize = 0;
    while i < config.monitors.len()
        invariant
            i <= config.monitors.len(),
            ms == config@.monitors,
            name@ == config_name@,
            forall|j: int| 0 <= j < i ==> !assigned(ms[j], config_name@),
        decreases config.monitors.len() - i,
    {
        assert(ms[i as int] == config.monitors@[i as int]@);
        if let Some(c) = &config.monitors[i].config {
            if c.name == name {
                return Some(i);
            }
        }
        i += 1;
    }
    None
}

/// The first monitor assigned the layout named `config_name`, to be changed
/// in place.
pub fn get_monitor_of_assigned_config<'a>(config: &'a mut Config, config_name: &str) -> (r: Option<
    &'a mut Monitor,
>)
    ensures
        match r {
            Some(m) => exists|i: int|
                {
                    &&& first_assigned(old(config)@.monitors, config_name@, i)
                    &&& *m == old(config).monitors@[i]
                    &&& final(config).monitors@ == old(config).monitors@.update(i, *final(m))
                    &&& final(config).monitor_configs == old(config).monitor_configs
                    &&& final(config).opacity == old(config).opacity
                    &&& final(config).line_thickness == old(config).line_thickness
                },
            None => {
                &&& forall|j: int|
                    0 <= j < old(config)@.monitors.len() ==> !assigned(
                        old(config)@.monitors[j],
                        config_name@,
                    )
                &&& *final(config) == *old(config)
            },
        },
{
    match assigned_position(config, config_name) {
        Some(i) => Some(&mut config.monitors[i]),
        None => None,
    }
}

/// The view of an optional layout.
pub open spec fn option_view(c: Option<MonitorConfig>) -> Option<MonitorConfigView> {
    match c {
        Some(c) => Some(c@),
        None => None,
    }
}

/// Sets the layout held by the first monitor assigned `config_name` to
/// `layout`, if there is such a monitor.
fn refresh_monitor_copy(config: &mut Config, config_name: &str, layout: Option<MonitorConfig>)
    ensures
        final(config)@ == (ConfigView {
            monitors: refresh_assigned(old(config)@.monitors, config_name@, option_view(layout)),
            ..old(config)@
        }),
{
    let ghost lv = option_view(layout);
    let ghost old_ms = config@.monitors;
    let ghost old_monitors = config.monitors@;
    match get_monitor_of_assigned_config(config, config_name) {
        Some(m) => {
            m.config = layout;
        },
        None => {},
    }
    proof {
        if exists|k: int| first_assigned(old_ms, config_name@, k) {
            let k = choose|k: int| first_assigned(old_ms, config_name@, k);
            let i = choose|i: int|
                first_assigned(old_ms, config_name@, i) && config.monitors@ == old_monitors.update(
                    i,
                    config.monitors@[i],
                );
            lemma_first_assigned_unique(old_ms, config_name@, i, k);
            assert(monitor_views(config.monitors@) =~= old_ms.update(
                i,
                MonitorView { config: lv, ..old_ms[i] },
            ));
        }
    }
}

/// Adds an empty layout named `config_name`; refused if one exists already.
pub fn create_config_cmd(config: &mut Config, config_name: &str) -> (r: Result<(), CommandError>)
    ensures
        r is Ok <==> no_layout_named(old(config).monitor_configs@, config_name@),
        r matches Err(e) ==> e == CommandError::ConfigExists && final(config)@ == old(config)@,
        r is Ok ==> final(config)@ == (ConfigView {
            monitor_configs: old(config)@.monitor_configs.push(
                MonitorConfigView { name: config_name@, zones: Seq::empty() },
            ),
            ..old(config)@
        }),
{
    match config.config_position(config_name) {
        Some(_) => Err(CommandError::ConfigExists),
        None => {
            let ghost before = config@;
            let layout = MonitorConfig { name: config_name.to_owned(), zones: Vec::new() };
            assert(layout@.zones =~= Seq::empty());
            config.monitor_configs.push(layout);
            assert(config@.monitor_configs =~= before.monitor_configs.push(
                MonitorConfigView { name: config_name@, zones: Seq::empty() },
            ));
            Ok(())
        },
    }
}

/// Removes the first layout named `config_name`, and unassigns it from the
/// first monitor it is assigned to.
pub fn remove_config_cmd(config: &mut Config, config_name: &str) -> (r: Result<(), CommandError>)
    ensures
        r is Ok <==> !no_layout_named(old(config).monitor_configs@, config_name@),
        r matches Err(e) ==> e == CommandError::NoSuchConfig && final(config)@ == old(config)@,
        r is Ok ==> exists|i: int|
            first_layout_named(old(config).monitor_configs@, config_name@, i) && final(config)@
                == (ConfigView {
                monitors: refresh_assigned(old(config)@.monitors, config_name@, None),
                monitor_configs: old(config)@.monitor_configs.remove(i),
                ..old(config)@
            }),
{
    match config.config_position(config_name) {
        None => Err(CommandError::NoSuchConfig),
        Some(i) => {
            refresh_monitor_copy(config, config_name, None);
            let ghost before = config@;
            assert(layout_views(config.monitor_configs@).len() == config.monitor_configs.len());
            config.monitor_configs.remove(i);
            assert(config@.monitor_configs =~= before.monitor_configs.remove(i as int));
            Ok(())
        },
    }
}

/// Appends a zone to the first layout named `config_name`, and refreshes the
/// copy of that layout held by the first monitor it is assigned to.
pub fn add_zone_cmd(
    config: &mut Config,
    config_name: &str,
    zone_name: &str,
    x: i16,
    y: i16,
    width: i16,
    height: i16,
) -> (r: Result<(), CommandError>)
    ensures
        r is Ok <==> !no_layout_named(old(config).monitor_configs@, config_name@),
        r matches Err(e) ==> e == CommandError::NoSuchConfig && final(config)@ == old(config)@,
        r is Ok ==> exists|i: int|
            first_layout_named(old(config).monitor_configs@, config_name@, i) && ({
                let c = old(config)@.monitor_configs[i];
                let c2 = MonitorConfigView {
                    zones: c.zones.push(
                        ZoneView {
                            name: zone_name@,
                            x: x as int,
                            y: y as int,
                            width: width as int,
                            height: height as int,
                        },
                    ),
                    ..c
                };
                final(config)@ == (ConfigView {
                    monitors: refresh_assigned(old(config)@.monitors, config_name@, Some(c2)),
                    monitor_configs: old(config)@.monitor_configs.update(i, c2),
                    ..old(config)@
                })
            }),
{
    let zone = Zone { name: zone_name.to_owned(), x, y, width, height };
    let i = match config.config_position(config_name) {
        None => return Err(CommandError::NoSuchConfig),
        Some(i) => i,
    };
    let ghost before = config@;
    let ghost old_layout = config.monitor_configs@[i as int];
    let ghost zv = zone@;
    config.monitor_configs[i].add_zone(zone);
    let layout = config.monitor_configs[i].duplicate();
    assert(layout@.zones =~= old_layout@.zones.push(zv));
    assert(config@.monitor_configs =~= before.monitor_configs.update(i as int, layout@));
    refresh_monitor_copy(config, config_name, Some(layout));
    Ok(())
}

/// Removes the first zone named `zone_name` from the first layout named
/// `config_name`, and refreshes the copy of that layout held by the first
/// monitor it is assigned to.
pub fn remove_zone_cmd(config: &mut Config, config_name: &str, zone_name: &str) -> (r: Result<
    (),
    CommandError,
>)
    ensures
        match r {
            Err(CommandError::NoSuchConfig) => no_layout_named(
                old(config).monitor_configs@,
                config_name@,
            ),
            Err(CommandError::NoSuchZone) => exists|i: int|
                first_layout_named(old(config).monitor_configs@, config_name@, i) && !exists|
                    j: int,
                | first_zone_named(old(config).monitor_configs@[i].zones@, zone_name@, j),
            Err(_) => false,
            Ok(()) => exists|i: int, j: int|
                first_layout_named(old(config).monitor_configs@, config_name@, i)
                    && first_zone_named(old(config).monitor_configs@[i].zones@, zone_name@, j)
                    && ({
                    let c = old(config)@.monitor_configs[i];
                    let c2 = MonitorConfigView { zones: c.zones.remove(j), ..c };
                    final(config)@ == (ConfigView {
                        monitors: refresh_assigned(old(config)@.monitors, config_name@, Some(c2)),
                        monitor_configs: old(config)@.monitor_configs.update(i, c2),
                        ..old(config)@
                    })
                }),
        },
        r is Err ==> final(config)@ == old(config)@,
{
    let i = match config.config_position(config_name) {
        None => return Err(CommandError::NoSuchConfig),
        Some(i) => i,
    };
    let ghost before = config@;
    let ghost old_layout = config.monitor_configs@[i as int];
    if !config.monitor_configs[i].remove_zone(zone_name) {
        assert(config@.monitor_configs =~= before.monitor_configs);
        return Err(CommandError::NoSuchZone);
    }
    let layout = config.monitor_configs[i].duplicate();
    assert(config@.monitor_configs =~= before.monitor_configs.update(i as int, layout@));
    proof {
        let j = choose|j: int|
            first_zone_named(old_layout.zones@, zone_name@, j) && layout.zones@
                == old_layout.zones@.remove(j);
        assert(zone_views(layout.zones@) =~= old_layout@.zones.remove(j));
    }
    refresh_monitor_copy(config, config_name, Some(layout));
    Ok(())
}

/// Assigns a copy of the first layout named `config_name` to the first
/// monitor named `monitor_name`.
pub fn assign_cmd(config: &mut Config, monitor_name: &str, config_name: &str) -> (r: Result<
    (),
    CommandError,
>)
    ensures
        match r {
            Err(CommandError::NoSuchConfig) => no_layout_named(
                old(config).monitor_configs@,
                config_name@,
            ),
            Err(CommandError::NoSuchMonitor) => !no_layout_named(
                old(config).monitor_configs@,
                config_name@,
            ) && no_monitor_named(old(config)@.monitors, monitor_name@),
            Err(_) => false,
            Ok(()) => exists|i: int, m: int|
                first_layout_named(old(config).monitor_configs@, config_name@, i)
                    && first_monitor_named(old(config)@.monitors, monitor_name@, m)
                    && final(config)@ == (ConfigView {
                    monitors: old(config)@.monitors.update(
                        m,
                        MonitorView {
                            config: Some(old(config)@.monitor_configs[i]),
                            ..old(config)@.monitors[m]
                        },
                    ),
                    ..old(config)@
                }),
        },
        r is Err ==> final(config)@ == old(config)@,
{
    let layout = match config.get_monitor_config(config_name) {
        None => return Err(CommandError::NoSuchConfig),
        Some(c) => c.duplicate(),
    };
    let m = match monitor_position(&config.monitors, monitor_name) {
        None => return Err(CommandError::NoSuchMonitor),
        Some(m) => m,
    };
    let ghost before = config@;
    let ghost lv = layout@;
    config.monitors[m].config = Some(layout);
    assert(config@.monitors =~= before.monitors.update(
        m as int,
        MonitorView { config: Some(lv), ..before.monitors[m as int] },
    ));
    Ok(())
}

/// Removes the layout assigned to the first monitor named `monitor_name`.
pub fn unassing_cmd(config: &mut Config, monitor_name: &str) -> (r: Result<(), CommandError>)
    ensures
        r is Ok <==> !no_monitor_named(old(config)@.monitors, monitor_name@),
        r matches Err(e) ==> e == CommandError::NoSuchMonitor && final(config)@ == old(config)@,
        r is Ok ==> exists|m: int|
            first_monitor_named(old(config)@.monitors, monitor_name@, m) && final(config)@
                == (ConfigView {
                monitors: old(config)@.monitors.update(
                    m,
                    MonitorView { config: None, ..old(config)@.monitors[m] },
                ),
                ..old(config)@
            }),
{
    let m = match monitor_position(&config.monitors, monitor_name) {
        None => return Err(CommandError::NoSuchMonitor),
        Some(m) => m,
    };
    let ghost before = config@;
    config.monitors[m].config = None;
    assert(config@.monitors =~= before.monitors.update(
        m as int,
        MonitorView { config: None, ..before.monitors[m as int] },
    ));
    Ok(())
}

} // verus!
