//! The drag / hover / snap state machine. The caller feeds it one event at a
//! time and carries out the commands it returns, in order.

use vstd::prelude::*;

use crate::config::{
    config_valid, config_error, monitor_valid, monitor_views, validate_config, zone_views,
    Config, ConfigError, Monitor, Zone,
};
use crate::layout::{flatten, flatten_zones, is_draw_order, order_by_area};
use crate::resolver::{active_zone, index_of, resolve};

verus! {

/// Whether a drag is being tracked. Snapping is not a phase of its own: it
/// happens while leaving `Armed`.
#[derive(Clone, Copy, Debug, PartialEq, Eq, Structural)]
pub enum Phase {
    /// No drag with the modifier held; the overlay is hidden.
    Idle,
    /// A window is being dragged with the modifier held; the overlay is shown.
    Armed,
}

/// What the window system reports. The modifier state is the live one,
/// polled when the event is handled.
#[derive(Clone, Copy, Debug, PartialEq, Eq, Structural)]
pub enum OverlayEvent {
    /// `window` moved; the pointer is at `(cursor_x, cursor_y)`.
    WindowMoved { window: u32, cursor_x: i16, cursor_y: i16, modifier_held: bool },
    /// The snapping modifier key was released.
    ModifierReleased,
    /// The primary pointer button was released.
    PrimaryButtonReleased { modifier_held: bool },
}

/// What the window system is asked to do.
#[derive(Clone, Copy, Debug, PartialEq, Eq, Structural)]
pub enum OverlayCommand {
    /// Show the overlay surfaces.
    Show,
    /// Hide the overlay surfaces.
    Hide,
    /// Redraw the overlay, highlighting zone `active` (an index into the
    /// session's zones), or none.
    Redraw { active: Option<usize> },
    /// Move and resize `window` to the given desktop rectangle.
    MoveResize { window: u32, x: i16, y: i16, width: i16, height: i16 },
}

/// A session: the zones of all monitors in desktop coordinates (in drawing
/// order), the border width, and the state of the current drag.
#[derive(Clone, Debug)]
pub struct Overlay {
    pub zones: Vec<Zone>,
    pub line_thickness: u16,
    pub phase: Phase,
    /// The window being dragged, while `Armed`.
    pub drag_target: Option<u32>,
    /// The zone under the cursor, while `Armed`.
    pub active_zone: Option<usize>,
}

/// The outcome of one event: the next state and the commands to carry out.
pub struct Transition {
    pub phase: Phase,
    pub drag_target: Option<u32>,
    pub active_zone: Option<usize>,
    pub commands: Seq<OverlayCommand>,
}

/// An optional integer index as an optional `usize`.
pub open spec fn to_index(a: Option<int>) -> Option<usize> {
    match a {
        Some(i) => Some(i as usize),
        None => None,
    }
}

/// Leaving `Armed` without snapping.
pub open spec fn cancelled() -> Transition {
    Transition { phase: Phase::Idle, drag_target: None, active_zone: None, commands: seq![OverlayCommand::Hide] }
}

/// The command that drops `drag_target` into zone `active`, if both are
/// known and the modifier is still held.
pub open spec fn snap_commands(
    zones: Seq<Zone>,
    drag_target: Option<u32>,
    active: Option<usize>,
    modifier_held: bool,
) -> Seq<OverlayCommand> {
    match (drag_target, active) {
        (Some(w), Some(i)) => if modifier_held && i < zones.len() {
            seq![OverlayCommand::MoveResize {
                window: w,
                x: zones[i as int].x,
                y: zones[i as int].y,
                width: zones[i as int].width,
                height: zones[i as int].height,
            }]
        } else {
            Seq::empty()
        },
        _ => Seq::empty(),
    }
}

/// The transition of the state machine over `zones` from the given state on
/// `event`.
pub open spec fn step(
    zones: Seq<Zone>,
    phase: Phase,
    drag_target: Option<u32>,
    active: Option<usize>,
    event: OverlayEvent,
) -> Transition {
    let unchanged = Transition { phase, drag_target, active_zone: active, commands: Seq::empty() };
    match event {
        OverlayEvent::WindowMoved { window, cursor_x, cursor_y, modifier_held } => {
            if modifier_held {
                let a = to_index(active_zone(zone_views(zones), cursor_x as int, cursor_y as int));
                let redraw = seq![OverlayCommand::Redraw { active: a }];
                Transition {
                    phase: Phase::Armed,
                    drag_target: Some(window),
                    active_zone: a,
                    commands: if phase == Phase::Idle {
                        seq![OverlayCommand::Show] + redraw
                    } else {
                        redraw
                    },
                }
            } else if phase == Phase::Armed {
                cancelled()
            } else {
                unchanged
            }
        },
        OverlayEvent::ModifierReleased => if phase == Phase::Armed {
            cancelled()
        } else {
            unchanged
        },
        OverlayEvent::PrimaryButtonReleased { modifier_held } => if phase == Phase::Armed {
            Transition {
                phase: Phase::Idle,
                drag_target: None,
                active_zone: None,
                commands: snap_commands(zones, drag_target, active, modifier_held) + seq![
                    OverlayCommand::Hide,
                ],
            }
        } else {
            unchanged
        },
    }
}

impl Overlay {
    /// The state is consistent: idle means no target and no active zone,
    /// armed means a target, and an active zone is one of the zones.
    pub open spec fn wf(&self) -> bool {
        &&& self.phase == Phase::Idle ==> self.drag_target is None && self.active_zone is None
        &&& self.phase == Phase::Armed ==> self.drag_target is Some
        &&& self.active_zone matches Some(i) ==> i < self.zones.len()
    }

    /// The transition that `event` causes from the current state.
    pub open spec fn next(&self, event: OverlayEvent) -> Transition {
        step(self.zones@, self.phase, self.drag_target, self.active_zone, event)
    }

    /// Starts a session on `config`: validates it, then lays out the zones of
    /// all monitors in desktop coordinates, largest first.
    pub fn new(config: &Config) -> (r: Result<Overlay, ConfigError>)
        ensures
            r is Ok <==> config_valid(config@),
            r matches Err(e) ==> config_error(config@, e),
            r matches Ok(o) ==> {
                &&& o.wf()
                &&& o.phase == Phase::Idle
                &&& o.line_thickness == config.line_thickness
                &&& exists|flat: Seq<Zone>|
                    zone_views(flat) == flatten(config@.monitors) && is_draw_order(
                        flat,
                        #[trigger] o.zones@,
                    )
            },
    {
        match validate_config(config) {
            Err(e) => Err(e),
            Ok(()) => {
                assert forall|i: int| 0 <= i < config.monitors.len() implies #[trigger] monitor_valid(
                    config.monitors@[i]@,
                ) by {
                    assert(config@.monitors[i] == config.monitors@[i]@);
                }
                let flat = flatten_zones(&config.monitors);
                proof {
                    lemma_flatten_sizes(config.monitors@);
                    assert forall|k: int| 0 <= k < flat.len() implies #[trigger] flat@[k].width
                        >= 0 && flat@[k].height >= 0 by {
                        let f = flatten(monitor_views(config.monitors@));
                        assert(zone_views(flat@)[k] == flat@[k]@);
                        assert(f[k] == flat@[k]@);
                        assert(f[k].width >= 0 && f[k].height >= 0);
                    }
                }
                let zones = order_by_area(&flat);
                Ok(
                    Overlay {
                        zones,
                        line_thickness: config.line_thickness,
                        phase: Phase::Idle,
                        drag_target: None,
                        active_zone: None,
                    },
                )
            },
        }
    }

    /// Handles one event: moves to the next state and returns the commands
    /// for the window system, in the order they are to be carried out.
    pub fn handle_event(&mut self, event: OverlayEvent) -> (commands: Vec<OverlayCommand>)
        requires
            old(self).wf(),
        ensures
            final(self).wf(),
            final(self).zones == old(self).zones,
            final(self).line_thickness == old(self).line_thickness,
            old(self).next(event) == (Transition {
                phase: final(self).phase,
                drag_target: final(self).drag_target,
                active_zone: final(self).active_zone,
                commands: commands@,
            }),
    {
        let mut commands: Vec<OverlayCommand> = Vec::new();
        match event {
            OverlayEvent::WindowMoved { window, cursor_x, cursor_y, modifier_held } => {
                if modifier_held {
                    if self.phase == Phase::Idle {
                        commands.push(OverlayCommand::Show);
                    }
                    let a = resolve(&self.zones, cursor_x, cursor_y);
                    proof {
                        crate::resolver::lemma_active_iff_candidate(
                            zone_views(self.zones@),
                            cursor_x as int,
                            cursor_y as int,
                        );
                    }
                    self.phase = Phase::Armed;
                    self.drag_target = Some(window);
                    self.active_zone = a;
                    commands.push(OverlayCommand::Redraw { active: a });
                } else if self.phase == Phase::Armed {
                    self.cancel(&mut commands);
                }
            },
            OverlayEvent::ModifierReleased => {
                if self.phase == Phase::Armed {
                    self.cancel(&mut commands);
                }
            },
            OverlayEvent::PrimaryButtonReleased { modifier_held } => {
                if self.phase == Phase::Armed {
                    if modifier_held {
                        if let (Some(w), Some(i)) = (self.drag_target, self.active_zone) {
                            let z = &self.zones[i];
                            commands.push(
                                OverlayCommand::MoveResize {
                                    window: w,
                                    x: z.x,
                                    y: z.y,
                                    width: z.width,
                                    height: z.height,
                                },
                            );
                        }
                    }
                    self.cancel(&mut commands);
                }
            },
        }
        proof {
            let t = old(self).next(event);
            assert(commands@ =~= t.commands);
        }
        commands
    }

    fn cancel(&mut self, commands: &mut Vec<OverlayCommand>)
        ensures
            final(self).phase == Phase::Idle,
            final(self).drag_target is None,
            final(self).active_zone is None,
            final(self).zones == old(self).zones,
            final(self).line_thickness == old(self).line_thickness,
            final(commands)@ == old(commands)@.push(OverlayCommand::Hide),
    {
        self.phase = Phase::Idle;
        self.drag_target = None;
        self.active_zone = None;
        commands.push(OverlayCommand::Hide);
    }
}

/// From `Armed`, releasing the modifier always ends the drag: back to `Idle`,
/// the overlay hidden, no window moved, whatever zone was active.
pub proof fn modifier_release_cancels(
    zones: Seq<Zone>,
    drag_target: Option<u32>,
    active: Option<usize>,
)
    ensures
        ({
            let t = step(zones, Phase::Armed, drag_target, active, OverlayEvent::ModifierReleased);
            &&& t.phase == Phase::Idle
            &&& t.drag_target is None
            &&& t.active_zone is None
            &&& t.commands == seq![OverlayCommand::Hide]
            &&& forall|k: int| 0 <= k < t.commands.len() ==> !(t.commands[k] is MoveResize)
        }),
{
}

/// Whether the overlay is shown after carrying out `commands`, starting
/// from `shown`: the last `Show` or `Hide` decides.
pub open spec fn shown_after(shown: bool, commands: Seq<OverlayCommand>) -> bool
    decreases commands.len(),
{
    if commands.len() == 0 {
        shown
    } else {
        match commands.last() {
            OverlayCommand::Show => true,
            OverlayCommand::Hide => false,
            _ => shown_after(shown, commands.drop_last()),
        }
    }
}

/// The overlay is shown exactly while the machine is `Armed`: if that holds
/// before an event, it holds after carrying out the event's commands.
pub proof fn shown_iff_armed(
    zones: Seq<Zone>,
    phase: Phase,
    drag_target: Option<u32>,
    active: Option<usize>,
    event: OverlayEvent,
)
    ensures
        ({
            let t = step(zones, phase, drag_target, active, event);
            shown_after(phase == Phase::Armed, t.commands) == (t.phase == Phase::Armed)
        }),
{
    let t = step(zones, phase, drag_target, active, event);
    if t.phase == Phase::Idle && t.commands.len() > 0 {
        assert(t.commands.last() == OverlayCommand::Hide);
    } else if t.phase == Phase::Armed && phase == Phase::Idle {
        assert(t.commands.last() is Redraw);
        assert(t.commands.drop_last() =~= seq![OverlayCommand::Show]);
        assert(t.commands.drop_last().last() == OverlayCommand::Show);
        assert(shown_after(false, t.commands.drop_last()));
        assert(shown_after(false, t.commands) == shown_after(false, t.commands.drop_last()));
    } else if t.phase == Phase::Armed && t.commands.len() > 0 {
        assert(t.commands.last() is Redraw);
        assert(t.commands.drop_last() =~= Seq::<OverlayCommand>::empty());
        assert(shown_after(true, t.commands) == shown_after(true, t.commands.drop_last()));
    }
}

/// A window is moved only when the primary button is released while `Armed`
/// with the modifier held. That ends the drag, and it moves one window once.
pub proof fn snap_only_on_release(
    zones: Seq<Zone>,
    phase: Phase,
    drag_target: Option<u32>,
    active: Option<usize>,
    event: OverlayEvent,
    k: int,
)
    requires
        0 <= k < step(zones, phase, drag_target, active, event).commands.len(),
        step(zones, phase, drag_target, active, event).commands[k] is MoveResize,
    ensures
        phase == Phase::Armed,
        event matches OverlayEvent::PrimaryButtonReleased { modifier_held } && modifier_held,
        step(zones, phase, drag_target, active, event).phase == Phase::Idle,
        forall|j: int|
            0 <= j < step(zones, phase, drag_target, active, event).commands.len() && j != k
                ==> !(step(zones, phase, drag_target, active, event).commands[j] is MoveResize),
{
}

proof fn lemma_flatten_sizes(monitors: Seq<Monitor>)
    requires
        forall|i: int| 0 <= i < monitors.len() ==> #[trigger] monitor_valid(monitors[i]@),
    ensures
        forall|k: int|
            0 <= k < flatten(monitor_views(monitors)).len() ==> #[trigger] flatten(
                monitor_views(monitors),
            )[k].width >= 0 && flatten(monitor_views(monitors))[k].height >= 0,
    decreases monitors.len(),
{
    let ms = monitor_views(monitors);
    if monitors.len() > 0 {
        let rest = monitors.drop_last();
        assert(monitor_views(rest) =~= ms.drop_last());
        assert forall|i: int| 0 <= i < rest.len() implies #[trigger] monitor_valid(rest[i]@) by {
            assert(rest[i] == monitors[i]);
        }
        lemma_flatten_sizes(rest);
        let m = monitors.last();
        assert(ms.last() == m@);
        assert(monitor_valid(monitors[monitors.len() - 1]@));
        let mz = crate::layout::monitor_zones(m@);
        assert forall|k: int| 0 <= k < mz.len() implies #[trigger] mz[k].width >= 0 && mz[k].height
            >= 0 by {
            if k > 0 {
                let c = m@.config->0;
                assert(crate::config::zone_valid(c.zones[k - 1], m@));
            }
        }
        let f = flatten(ms);
        let fr = flatten(ms.drop_last());
        assert forall|k: int| 0 <= k < f.len() implies #[trigger] f[k].width >= 0 && f[k].height
            >= 0 by {
            if k < fr.len() {
                assert(f[k] == fr[k]);
            } else {
                assert(f[k] == mz[k - fr.len()]);
            }
        }
    }
}

} // verus!
