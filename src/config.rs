//! The configuration data model: zones, monitor layouts, monitors.

use vstd::prelude::*;

verus! {

/// A named rectangle of a layout, in coordinates relative to its monitor's
/// origin (or, once placed, in desktop coordinates). A zone whose name is
/// empty is a background rectangle: drawn, but never selectable.
#[derive(Clone, Debug)]
pub struct Zone {
    pub name: String,
    pub x: i16,
    pub y: i16,
    pub width: i16,
    pub height: i16,
}

/// The mathematical value of a [`Zone`].
pub struct ZoneView {
    pub name: Seq<char>,
    pub x: int,
    pub y: int,
    pub width: int,
    pub height: int,
}

impl View for Zone {
    type V = ZoneView;

    open spec fn view(&self) -> ZoneView {
        ZoneView {
            name: self.name@,
            x: self.x as int,
            y: self.y as int,
            width: self.width as int,
            height: self.height as int,
        }
    }
}

/// The views of a sequence of zones, one for one.
pub open spec fn zone_views(zones: Seq<Zone>) -> Seq<ZoneView> {
    zones.map_values(|z: Zone| z@)
}

/// A named zone layout, which monitors can be assigned.
#[derive(Clone, Debug)]
pub struct MonitorConfig {
    pub name: String,
    pub zones: Vec<Zone>,
}

/// The mathematical value of a [`MonitorConfig`].
pub struct MonitorConfigView {
    pub name: Seq<char>,
    pub zones: Seq<ZoneView>,
}

impl View for MonitorConfig {
    type V = MonitorConfigView;

    open spec fn view(&self) -> MonitorConfigView {
        MonitorConfigView { name: self.name@, zones: zone_views(self.zones@) }
    }
}

/// The views of a sequence of layouts, one for one.
pub open spec fn layout_views(cfgs: Seq<MonitorConfig>) -> Seq<MonitorConfigView> {
    cfgs.map_values(|c: MonitorConfig| c@)
}

/// A monitor: its hardware name, its place on the desktop, its size, and the
/// layout assigned to it, if any.
#[derive(Clone, Debug)]
pub struct Monitor {
    pub name: String,
    pub config: Option<MonitorConfig>,
    pub x: i16,
    pub y: i16,
    pub width: u16,
    pub height: u16,
}

/// The mathematical value of a [`Monitor`].
pub struct MonitorView {
    pub name: Seq<char>,
    pub config: Option<MonitorConfigView>,
    pub x: int,
    pub y: int,
    pub width: int,
    pub height: int,
}

impl View for Monitor {
    type V = MonitorView;

    open spec fn view(&self) -> MonitorView {
        MonitorView {
            name: self.name@,
            config: match self.config {
                Some(c) => Some(c@),
                None => None,
            },
            x: self.x as int,
            y: self.y as int,
            width: self.width as int,
            height: self.height as int,
        }
    }
}

/// The views of a sequence of monitors, one for one.
pub open spec fn monitor_views(monitors: Seq<Monitor>) -> Seq<MonitorView> {
    monitors.map_values(|m: Monitor| m@)
}

/// The whole configuration: the monitors, the known layouts, the overlay's
/// opacity (0 is transparent, `u32::MAX` opaque) and the width in pixels of
/// zone borders.
#[derive(Clone, Debug)]
pub struct Config {
    pub monitors: Vec<Monitor>,
    pub monitor_configs: Vec<MonitorConfig>,
    pub opacity: u32,
    pub line_thickness: u16,
}

/// The mathematical value of a [`Config`].
pub struct ConfigView {
    pub monitors: Seq<MonitorView>,
    pub monitor_configs: Seq<MonitorConfigView>,
    pub opacity: nat,
    pub line_thickness: nat,
}

impl View for Config {
    type V = ConfigView;

    open spec fn view(&self) -> ConfigView {
        ConfigView {
            monitors: monitor_views(self.monitors@),
            monitor_configs: layout_views(self.monitor_configs@),
            opacity: self.opacity as nat,
            line_thickness: self.line_thickness as nat,
        }
    }
}

/// Where the configuration file lives.
pub fn get_config_path() -> (r: String)
    ensures
        r@ == "~/.config/lancy-zones/config.json"@,
{
    "~/.config/lancy-zones/config.json".to_owned()
}

impl Zone {
    /// A copy of this zone.
    pub fn duplicate(&self) -> (r: Zone)
        ensures
            r == *self,
    {
        Zone { name: self.name.clone(), x: self.x, y: self.y, width: self.width, height: self.height }
    }
}

impl MonitorConfig {
    /// A copy of this layout.
    pub fn duplicate(&self) -> (r: MonitorConfig)
        ensures
            r.name == self.name,
            r.zones@ == self.zones@,
            r@ == self@,
    {
        let mut zones: Vec<Zone> = Vec::new();
        let mut i: usize = 0;
        while i < self.zones.len()
            invariant
                i <= self.zones.len(),
                zones@ == self.zones@.subrange(0, i as int),
            decreases self.zones.len() - i,
        {
            zones.push(self.zones[i].duplicate());
            i += 1;
        }
        assert(zones@ =~= self.zones@);
        MonitorConfig { name: self.name.clone(), zones }
    }

    /// Appends `zone` to this layout.
    pub fn add_zone(&mut self, zone: Zone)
        ensures
            final(self).name == old(self).name,
            final(self).zones@ == old(self).zones@.push(zone),
    {
        self.zones.push(zone);
    }

    /// Removes the first zone named `zone_name`; tells whether there was one.
    pub fn remove_zone(&mut self, zone_name: &str) -> (removed: bool)
        ensures
            final(self).name == old(self).name,
            removed <==> exists|i: int| first_zone_named(old(self).zones@, zone_name@, i),
            removed ==> exists|i: int|
                first_zone_named(old(self).zones@, zone_name@, i) && final(self).zones@ == old(
                    self,
                ).zones@.remove(i),
            !removed ==> final(self).zones@ == old(self).zones@,
    {
        let name = zone_name.to_owned();
        let mut i: usize = 0;
        while i < self.zones.len()
            invariant
                i <= self.zones.len(),
                name@ == zone_name@,
                *self == *old(self),
                forall|j: int| 0 <= j < i ==> self.zones@[j].name@ != zone_name@,
            decreases self.zones.len() - i,
        {
            if self.zones[i].name == name {
                assert(first_zone_named(old(self).zones@, zone_name@, i as int));
                self.zones.remove(i);
                return true;
            }
            i += 1;
        }
        false
    }
}

impl Monitor {
    /// A copy of this monitor.
    pub fn duplicate(&self) -> (r: Monitor)
        ensures
            r@ == self@,
    {
        let config = match &self.config {
            Some(c) => Some(c.duplicate()),
            None => None,
        };
        Monitor {
            name: self.name.clone(),
            config,
            x: self.x,
            y: self.y,
            width: self.width,
            height: self.height,
        }
    }
}

/// Zone `i` is the first of `zones` named `name`.
pub open spec fn first_zone_named(zones: Seq<Zone>, name: Seq<char>, i: int) -> bool {
    &&& 0 <= i < zones.len()
    &&& zones[i].name@ == name
    &&& forall|j: int| 0 <= j < i ==> zones[j].name@ != name
}

/// Layout `i` is the first of `cfgs` named `name`.
pub open spec fn first_layout_named(cfgs: Seq<MonitorConfig>, name: Seq<char>, i: int) -> bool {
    &&& 0 <= i < cfgs.len()
    &&& cfgs[i].name@ == name
    &&& forall|j: int| 0 <= j < i ==> cfgs[j].name@ != name
}

/// No layout of `cfgs` is named `name`.
pub open spec fn no_layout_named(cfgs: Seq<MonitorConfig>, name: Seq<char>) -> bool {
    forall|j: int| 0 <= j < cfgs.len() ==> cfgs[j].name@ != name
}

impl Config {
    /// The position of the first layout named `mc_name`.
    pub fn config_position(&self, mc_name: &str) -> (r: Option<usize>)
        ensures
            match r {
                Some(i) => first_layout_named(self.monitor_configs@, mc_name@, i as int),
                None => no_layout_named(self.monitor_configs@, mc_name@),
            },
    {
        let name = mc_name.to_owned();
        let mut i: usize = 0;
        while i < self.monitor_configs.len()
            invariant
                i <= self.monitor_configs.len(),
                name@ == mc_name@,
                forall|j: int| 0 <= j < i ==> self.monitor_configs@[j].name@ != mc_name@,
            decreases self.monitor_configs.len() - i,
        {
            if self.monitor_configs[i].name == name {
                return Some(i);
            }
            i += 1;
        }
        None
    }

    /// The first layout named `mc_name`.
    pub fn get_monitor_config(&self, mc_name: &str) -> (r: Option<&MonitorConfig>)
        ensures
            match r {
                Some(c) => exists|i: int|
                    first_layout_named(self.monitor_configs@, mc_name@, i) && *c
                        == self.monitor_configs@[i],
                None => no_layout_named(self.monitor_configs@, mc_name@),
            },
    {
        match self.config_position(mc_name) {
            Some(i) => Some(&self.monitor_configs[i]),
            None => None,
        }
    }

    /// The first layout named `mc_name`, to be changed in place.
    pub fn get_monitor_config_mut(&mut self, mc_name: &str) -> (r: Option<&mut MonitorConfig>)
        ensures
            match r {
                Some(c) => exists|i: int|
                    {
                        &&& first_layout_named(old(self).monitor_configs@, mc_name@, i)
                        &&& *c == old(self).monitor_configs@[i]
                        &&& final(self).monitor_configs@ == old(self).monitor_configs@.update(
                            i,
                            *final(c),
                        )
                        &&& final(self).monitors == old(self).monitors
                        &&& final(self).opacity == old(self).opacity
                        &&& final(self).line_thickness == old(self).line_thickness
                    },
                None => {
                    &&& no_layout_named(old(self).monitor_configs@, mc_name@)
                    &&& *final(self) == *old(self)
                },
            },
    {
        match self.config_position(mc_name) {
            Some(i) => Some(&mut self.monitor_configs[i]),
            None => None,
        }
    }
}

/// The opacity of a fresh configuration: half transparent.
pub const DEFAULT_OPACITY: u32 = 0x8000_0000;

/// The border width of a fresh configuration, in pixels.
pub const DEFAULT_LINE_THICKNESS: u16 = 3;

/// The empty layout named after monitor `m`, which a fresh configuration
/// assigns to it.
pub open spec fn own_layout(m: MonitorView) -> MonitorConfigView {
    MonitorConfigView { name: m.name, zones: Seq::empty() }
}

/// A fresh configuration for `monitors`: each monitor gets an empty layout
/// of its own name, assigned to it; default opacity and border width.
pub fn initial_config(monitors: Vec<Monitor>) -> (r: Config)
    ensures
        r@.monitors.len() == monitors.len(),
        r@.monitor_configs.len() == monitors.len(),
        forall|i: int|
            0 <= i < monitors.len() ==> {
                let m = monitors@[i]@;
                &&& #[trigger] r@.monitors[i] == MonitorView { config: Some(own_layout(m)), ..m }
                &&& r@.monitor_configs[i] == own_layout(m)
            },
        r.opacity == DEFAULT_OPACITY,
        r.line_thickness == DEFAULT_LINE_THICKNESS,
{
    let mut out: Vec<Monitor> = Vec::new();
    let mut layouts: Vec<MonitorConfig> = Vec::new();
    let mut i: usize = 0;
    while i < monitors.len()
        invariant
            i <= monitors.len(),
            out.len() == i,
            layouts.len() == i,
            forall|k: int|
                0 <= k < i ==> {
                    let m = monitors@[k]@;
                    &&& #[trigger] out@[k]@ == MonitorView { config: Some(own_layout(m)), ..m }
                    &&& layouts@[k]@ == own_layout(m)
                },
        decreases monitors.len() - i,
    {
        let m = &monitors[i];
        let layout = MonitorConfig { name: m.name.clone(), zones: Vec::new() };
        assert(layout@.zones =~= Seq::empty());
        layouts.push(layout.duplicate());
        out.push(
            Monitor {
                name: m.name.clone(),
                config: Some(layout),
                x: m.x,
                y: m.y,
                width: m.width,
                height: m.height,
            },
        );
        i += 1;
    }
    Config {
        monitors: out,
        monitor_configs: layouts,
        opacity: DEFAULT_OPACITY,
        line_thickness: DEFAULT_LINE_THICKNESS,
    }
}

/// Why a configuration cannot be used.
#[derive(Clone, Debug)]
pub enum ConfigError {
    /// The monitor reaches past the 16-bit desktop coordinate range.
    OutsideDesktop { monitor: String },
    /// The zone has no area: its width or its height is not positive.
    EmptyZone { zone: String, monitor: String },
    /// The zone starts before its monitor's origin or ends past its far edge.
    ZoneOutOfBounds { zone: String, monitor: String },
}

/// The monitor, its size and its far edges fit the desktop coordinate range.
pub open spec fn fits_desktop(m: MonitorView) -> bool {
    &&& m.width <= 0x7fff
    &&& m.height <= 0x7fff
    &&& m.x + m.width <= 0x7fff
    &&& m.y + m.height <= 0x7fff
}

/// The zone has a positive width and height.
pub open spec fn has_area(z: ZoneView) -> bool {
    z.width > 0 && z.height > 0
}

/// The zone lies within a monitor of the size of `m`.
pub open spec fn within_monitor(z: ZoneView, m: MonitorView) -> bool {
    &&& z.x >= 0
    &&& z.y >= 0
    &&& z.x + z.width <= m.width
    &&& z.y + z.height <= m.height
}

/// The zone is acceptable on monitor `m`.
pub open spec fn zone_valid(z: ZoneView, m: MonitorView) -> bool {
    has_area(z) && within_monitor(z, m)
}

/// The monitor fits the desktop and every zone of its layout is acceptable.
pub open spec fn monitor_valid(m: MonitorView) -> bool {
    &&& fits_desktop(m)
    &&& m.config matches Some(c) ==> forall|j: int|
        0 <= j < c.zones.len() ==> #[trigger] zone_valid(c.zones[j], m)
}

/// Every monitor of the configuration is acceptable.
pub open spec fn config_valid(c: ConfigView) -> bool {
    forall|i: int| 0 <= i < c.monitors.len() ==> #[trigger] monitor_valid(c.monitors[i])
}

/// Zone `j` of the layout assigned to `m`.
pub open spec fn zone_of(m: MonitorView, j: int) -> ZoneView {
    m.config->0.zones[j]
}

/// Zone `j` is the first zone of `m`'s layout that is not acceptable.
pub open spec fn first_bad_zone(m: MonitorView, j: int) -> bool {
    &&& m.config matches Some(c) && 0 <= j < c.zones.len()
    &&& !zone_valid(zone_of(m, j), m)
    &&& forall|k: int| 0 <= k < j ==> zone_valid(#[trigger] zone_of(m, k), m)
}

/// Monitor `i` is the first of `ms` that is not acceptable.
pub open spec fn first_bad_monitor(ms: Seq<MonitorView>, i: int) -> bool {
    &&& 0 <= i < ms.len()
    &&& !monitor_valid(ms[i])
    &&& forall|k: int| 0 <= k < i ==> #[trigger] monitor_valid(ms[k])
}

/// `e` is the error for monitor `m`: a monitor past the desktop range is
/// reported as such; otherwise the first bad zone of its layout is, as empty
/// if it has no area, else as out of bounds.
pub open spec fn monitor_error(m: MonitorView, e: ConfigError) -> bool {
    match e {
        ConfigError::OutsideDesktop { monitor } => !fits_desktop(m) && monitor@ == m.name,
        ConfigError::EmptyZone { zone, monitor } => {
            &&& fits_desktop(m)
            &&& monitor@ == m.name
            &&& exists|j: int|
                first_bad_zone(m, j) && !has_area(zone_of(m, j)) && zone@ == zone_of(m, j).name
        },
        ConfigError::ZoneOutOfBounds { zone, monitor } => {
            &&& fits_desktop(m)
            &&& monitor@ == m.name
            &&& exists|j: int|
                first_bad_zone(m, j) && has_area(zone_of(m, j)) && !within_monitor(zone_of(m, j), m)
                    && zone@ == zone_of(m, j).name
        },
    }
}

/// `e` is the error for configuration `c`: that of its first monitor that
/// is not acceptable.
pub open spec fn config_error(c: ConfigView, e: ConfigError) -> bool {
    exists|i: int| first_bad_monitor(c.monitors, i) && monitor_error(c.monitors[i], e)
}

fn validate_monitor(m: &Monitor) -> (r: Result<(), ConfigError>)
    ensures
        r is Ok <==> monitor_valid(m@),
        r matches Err(e) ==> monitor_error(m@, e),
{
    if !(m.width <= 0x7fff && m.height <= 0x7fff && m.x as i32 + m.width as i32 <= 0x7fff
        && m.y as i32 + m.height as i32 <= 0x7fff) {
        return Err(ConfigError::OutsideDesktop { monitor: m.name.clone() });
    }
    if let Some(c) = &m.config {
        let mut j: usize = 0;
        while j < c.zones.len()
            invariant
                j <= c.zones.len(),
                m@.config == Some(c@),
                fits_desktop(m@),
                forall|k: int| 0 <= k < j ==> zone_valid(#[trigger] zone_of(m@, k), m@),
            decreases c.zones.len() - j,
        {
            let z = &c.zones[j];
            assert(zone_of(m@, j as int) == z@);
            if !(z.width > 0 && z.height > 0) {
                assert(first_bad_zone(m@, j as int));
                return Err(ConfigError::EmptyZone { zone: z.name.clone(), monitor: m.name.clone() });
            }
            if !(z.x >= 0 && z.y >= 0 && z.x as i32 + z.width as i32 <= m.width as i32 && z.y as i32
                + z.height as i32 <= m.height as i32) {
                assert(first_bad_zone(m@, j as int));
                return Err(
                    ConfigError::ZoneOutOfBounds { zone: z.name.clone(), monitor: m.name.clone() },
                );
            }
            j += 1;
        }
        assert forall|k: int| 0 <= k < c@.zones.len() implies #[trigger] zone_valid(
            c@.zones[k],
            m@,
        ) by {
            assert(zone_of(m@, k) == c@.zones[k]);
        }
    }
    Ok(())
}

/// Validates the configuration before a session starts: every monitor must
/// fit the desktop coordinate range, and every zone of an assigned layout
/// must have an area and lie within its monitor. The error names the first
/// offending monitor and, where it is a zone's fault, the zone.
pub fn validate_config(config: &Config) -> (r: Result<(), ConfigError>)
    ensures
        r is Ok <==> config_valid(config@),
        r matches Err(e) ==> config_error(config@, e),
{
    let ghost ms = config@.monitors;
    let mut i: usize = 0;
    while i < config.monitors.len()
        invariant
            i <= config.monitors.len(),
            ms == config@.monitors,
            forall|k: int| 0 <= k < i ==> #[trigger] monitor_valid(ms[k]),
        decreases config.monitors.len() - i,
    {
        assert(ms[i as int] == config.monitors@[i as int]@);
        match validate_monitor(&config.monitors[i]) {
            Ok(()) => {},
            Err(e) => {
                assert(first_bad_monitor(ms, i as int));
                return Err(e);
            },
        }
        i += 1;
    }
    Ok(())
}

} // verus!
