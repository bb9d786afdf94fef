//! Probing one connector: what is read of it, step by step, and the display that
//! comes of it.

use crate::error::{Error, ErrorKind, Failure};
use crate::helper;
use crate::readback::{ActiveFramebuffer, ProbeDisplay};
use crate::sysfs;
use crate::sysfs::{ConnectedMode, ConnectorStep};
use crate::text;
use vstd::prelude::*;

verus! {

/// What is being read of a connector.
#[derive(Debug)]
pub enum ProbePhase {
    Status,
    Modes,
    /// The names in the directory of the device's nodes.
    RenderNodes { mode: ConnectedMode },
    /// Whether the card can be opened.
    Access { mode: ConnectedMode, render_node: Option<String> },
    /// What the card says of the framebuffer that is shown.
    Active { mode: ConnectedMode, render_node: Option<String> },
}

/// A connector that is being probed.
#[derive(Debug)]
pub struct DisplayProbe {
    pub connector_path: String,
    pub name: String,
    pub phase: ProbePhase,
}

/// What was read.
#[derive(Debug)]
pub enum ProbeEvent {
    Status(Result<String, Error>),
    Modes(Result<String, Error>),
    /// The names, missing where the directory could not be read.
    RenderNodes(Option<Vec<Option<String>>>),
    /// The error that opening the card gave, if it gave one.
    Access(Option<String>),
    /// What is shown, if that could be told.
    Active(Option<ActiveFramebuffer>),
}

/// What to read next, or what came of the probe.
#[derive(Debug)]
pub enum ProbeAction {
    ReadStatus,
    ReadModes,
    /// List this directory.
    ListRenderNodes(String),
    /// Open the card's device file.
    OpenCard(String),
    /// Ask the card what it shows.
    InspectCard(String),
    Done(Result<Option<ProbeDisplay>, Error>),
}

/// The event is one that is waited for.
pub open spec fn is_awaited(phase: ProbePhase, event: ProbeEvent) -> bool {
    match event {
        ProbeEvent::Status(_) => phase is Status,
        ProbeEvent::Modes(_) => phase is Modes,
        ProbeEvent::RenderNodes(_) => phase is RenderNodes,
        ProbeEvent::Access(_) => phase is Access,
        ProbeEvent::Active(_) => phase is Active,
    }
}

/// The node is the one picked from the names, if those could be read.
pub open spec fn is_picked(names: Option<Vec<Option<String>>>, node: Option<String>) -> bool {
    match names {
        Some(names) => sysfs::is_first_render_node(names@, node),
        None => node is None,
    }
}

/// The display of a probe whose readings are complete.
pub open spec fn display_of(
    probe: DisplayProbe,
    mode: ConnectedMode,
    render_node: Option<String>,
    access: Option<String>,
    active: Option<ActiveFramebuffer>,
) -> ProbeDisplay {
    helper::display_with(probe.connector_path, probe.name, mode, render_node, access, active)
}

impl DisplayProbe {
    pub open spec fn wf(self) -> bool {
        sysfs::is_connector_entry(self.name@)
    }

    pub open spec fn same_entry(self, other: DisplayProbe) -> bool {
        self.connector_path == other.connector_path && self.name == other.name
    }

    /// The probe begins with the status of a connector.
    pub open spec fn is_begun(
        begun: Option<DisplayProbe>,
        connector_path: String,
        name: Option<String>,
    ) -> bool {
        match begun {
            Some(probe) => {
                &&& probe.wf()
                &&& probe.connector_path == connector_path
                &&& name == Some(probe.name)
                &&& probe.phase is Status
            },
            None => !(name matches Some(name) && sysfs::is_connector_entry(name@)),
        }
    }

    /// Begins to probe an entry; one that is no connector is passed over. The name
    /// is missing where it is not text.
    pub fn begin(connector_path: String, name: Option<String>) -> (begun: Option<DisplayProbe>)
        ensures
            DisplayProbe::is_begun(begun, connector_path, name),
    {
        match name {
            Some(name) => match sysfs::begin_entry(Some(name.as_str())) {
                ConnectorStep::ReadStatus => Some(
                    DisplayProbe { connector_path, name, phase: ProbePhase::Status },
                ),
                _ => None,
            },
            None => None,
        }
    }

    /// The probe goes on with `next` after that reading.
    pub open spec fn goes_on(self, event: ProbeEvent, next: (Option<DisplayProbe>, ProbeAction)) -> bool {
        &&& (next.0 is None) == (next.1 is Done)
        &&& next.0 matches Some(probe) ==> probe.wf() && probe.same_entry(self)
        &&& match event {
            ProbeEvent::Status(Ok(status)) => if sysfs::is_connected(status@) {
                next.0 matches Some(probe) && probe.phase is Modes && next.1 is ReadModes
            } else {
                next.1 == ProbeAction::Done(Ok(None))
            },
            ProbeEvent::Status(Err(err)) => next.1 == ProbeAction::Done(Err(err)),
            ProbeEvent::Modes(Ok(modes)) => match text::first_line(modes@) {
                Some(line) => match sysfs::mode_size(line) {
                    Some((width, height)) => {
                        &&& next.0 matches Some(probe)
                        &&& probe.phase matches ProbePhase::RenderNodes { mode }
                        &&& mode.card_path@ == "/dev/dri/"@ + sysfs::card_of(self.name@)
                        &&& mode.width == width
                        &&& mode.height == height
                        &&& next.1 matches ProbeAction::ListRenderNodes(dir)
                        &&& dir@ == "/sys/class/drm/"@ + sysfs::card_of(self.name@)
                            + "/device/drm"@
                    },
                    None => next.1 == ProbeAction::Done(Ok(None)),
                },
                None => next.1 matches ProbeAction::Done(Err(err)) && err@ == Failure::of(
                    ErrorKind::Other,
                    "missing drm mode"@,
                ),
            },
            ProbeEvent::Modes(Err(err)) => next.1 == ProbeAction::Done(Err(err)),
            ProbeEvent::RenderNodes(names) => {
                &&& self.phase matches ProbePhase::RenderNodes { mode: known }
                &&& next.0 matches Some(probe)
                &&& probe.phase matches ProbePhase::Access { mode, render_node }
                &&& mode == known
                &&& is_picked(names, render_node)
                &&& next.1 matches ProbeAction::OpenCard(path)
                &&& path@ == mode.card_path@
            },
            ProbeEvent::Access(access) => {
                &&& self.phase matches ProbePhase::Access { mode, render_node }
                &&& if access is None {
                    &&& next.0 matches Some(probe)
                    &&& probe.phase == (ProbePhase::Active { mode, render_node })
                    &&& next.1 matches ProbeAction::InspectCard(path)
                    &&& path@ == mode.card_path@
                } else {
                    next.1 == ProbeAction::Done(
                        Ok(Some(display_of(self, mode, render_node, access, None))),
                    )
                }
            },
            ProbeEvent::Active(active) => {
                &&& self.phase matches ProbePhase::Active { mode, render_node }
                &&& next.1 == ProbeAction::Done(
                    Ok(Some(display_of(self, mode, render_node, None, active))),
                )
            },
        }
    }

    /// Goes on with what was read. A connector that is not connected or has no mode
    /// that can be told ends the probe without a display; a failure to read its
    /// status or modes ends it with that failure. What is shown is only asked of a
    /// card that can be opened.
    pub fn next(self, event: ProbeEvent) -> (next: (Option<DisplayProbe>, ProbeAction))
        requires
            self.wf(),
            is_awaited(self.phase, event),
        ensures
            self.goes_on(event, next),
    {
        let DisplayProbe { connector_path, name, phase } = self;
        match event {
            ProbeEvent::Status(status) => match sysfs::take_status(status) {
                ConnectorStep::ReadModes => (
                    Some(DisplayProbe { connector_path, name, phase: ProbePhase::Modes }),
                    ProbeAction::ReadModes,
                ),
                ConnectorStep::Fail(err) => (None, ProbeAction::Done(Err(err))),
                _ => (None, ProbeAction::Done(Ok(None))),
            },
            ProbeEvent::Modes(modes) => {
                match sysfs::take_modes(name.as_str(), modes, ErrorKind::Other) {
                    ConnectorStep::Found(mode) => {
                        let dir = sysfs::render_node_dir(sysfs::card_name(name.as_str()));
                        (
                            Some(
                                DisplayProbe {
                                    connector_path,
                                    name,
                                    phase: ProbePhase::RenderNodes { mode },
                                },
                            ),
                            ProbeAction::ListRenderNodes(dir),
                        )
                    },
                    ConnectorStep::Fail(err) => (None, ProbeAction::Done(Err(err))),
                    _ => (None, ProbeAction::Done(Ok(None))),
                }
            },
            ProbeEvent::RenderNodes(names) => {
                let render_node = match &names {
                    Some(names) => sysfs::pick_render_node(names),
                    None => None,
                };
                match phase {
                    ProbePhase::RenderNodes { mode } => {
                        let path = mode.card_path.clone();
                        (
                            Some(
                                DisplayProbe {
                                    connector_path,
                                    name,
                                    phase: ProbePhase::Access { mode, render_node },
                                },
                            ),
                            ProbeAction::OpenCard(path),
                        )
                    },
                    _ => (None, ProbeAction::Done(Ok(None))),
                }
            },
            ProbeEvent::Access(access) => match phase {
                ProbePhase::Access { mode, render_node } => if access.is_none() {
                    let path = mode.card_path.clone();
                    (
                        Some(
                            DisplayProbe {
                                connector_path,
                                name,
                                phase: ProbePhase::Active { mode, render_node },
                            },
                        ),
                        ProbeAction::InspectCard(path),
                    )
                } else {
                    let display = helper::probed_display(
                        connector_path,
                        name,
                        mode,
                        render_node,
                        access,
                        None,
                    );
                    (None, ProbeAction::Done(Ok(Some(display))))
                },
                _ => (None, ProbeAction::Done(Ok(None))),
            },
            ProbeEvent::Active(active) => match phase {
                ProbePhase::Active { mode, render_node } => {
                    let display = helper::probed_display(
                        connector_path,
                        name,
                        mode,
                        render_node,
                        None,
                        active,
                    );
                    (None, ProbeAction::Done(Ok(Some(display))))
                },
                _ => (None, ProbeAction::Done(Ok(None))),
            },
        }
    }
}

/// A connector gives no display exactly if it is not connected or its first mode is
/// none; a file that cannot be read, or holds no mode, is a failure.
pub proof fn law_what_gives_no_display(
    probe: DisplayProbe,
    event: ProbeEvent,
    next: (Option<DisplayProbe>, ProbeAction),
    err: Error,
)
    requires
        probe.goes_on(event, next),
    ensures
        next.1 == ProbeAction::Done(Ok(None)) <==> {
            ||| event matches ProbeEvent::Status(Ok(status)) && !sysfs::is_connected(status@)
            ||| event matches ProbeEvent::Modes(Ok(modes)) && text::first_line(
                modes@,
            ) matches Some(mode) && sysfs::mode_size(mode) is None
        },
        event == ProbeEvent::Status(Err(err)) || event == ProbeEvent::Modes(Err(err)) ==> next.1
            == ProbeAction::Done(Err(err)),
        event matches ProbeEvent::Modes(Ok(modes)) ==> (text::first_line(modes@) is None <==> (
        next.1 matches ProbeAction::Done(Err(err)))),
        next.0 is None <==> next.1 is Done,
        next.0 matches Some(after) ==> after.connector_path == probe.connector_path && after.name
            == probe.name,
{
}

/// A card is asked what it shows exactly if it can be opened, and in every case the
/// connector gives a display, with the mode and the render node that were found.
pub proof fn law_only_an_open_card_is_asked(
    probe: DisplayProbe,
    access: Option<String>,
    next: (Option<DisplayProbe>, ProbeAction),
)
    requires
        probe.phase is Access,
        probe.goes_on(ProbeEvent::Access(access), next),
    ensures
        ({
            let mode = probe.phase->Access_mode;
            let render_node = probe.phase->Access_render_node;
            &&& access is None ==> next.0 == Some(
                DisplayProbe { phase: ProbePhase::Active { mode, render_node }, ..probe },
            ) && (next.1 matches ProbeAction::InspectCard(path) && path@ == mode.card_path@)
            &&& access is Some ==> (next.1 matches ProbeAction::Done(Ok(Some(display)))
                && !display.can_open && display.open_error == access && display.width == mode.width
                && display.height == mode.height && display.render_node == render_node
                && display.name == probe.name && display.card_path == mode.card_path
                && display.connector_path == probe.connector_path)
        }),
{
}

/// What an open card says of what it shows makes the display; what it cannot say is
/// taken from the mode.
pub proof fn law_display_of_an_open_card(
    probe: DisplayProbe,
    active: Option<ActiveFramebuffer>,
    next: (Option<DisplayProbe>, ProbeAction),
)
    requires
        probe.phase is Active,
        probe.goes_on(ProbeEvent::Active(active), next),
    ensures
        next.1 matches ProbeAction::Done(Ok(Some(display))) && {
            let mode = probe.phase->Active_mode;
            &&& display.can_open
            &&& display.name == probe.name
            &&& display.connector_path == probe.connector_path
            &&& display.card_path == mode.card_path
            &&& display.render_node == probe.phase->Active_render_node
            &&& active matches Some(shown) ==> display.width == shown.width && display.height
                == shown.height && display.is_linear == shown.is_linear && display.modifier_known
                && display.x == Some(shown.x) && display.y == Some(shown.y)
            &&& active is None ==> display.width == mode.width && display.height == mode.height
                && display.is_linear && !display.modifier_known && display.x is None
                && display.y is None
        },
{
}

/// The first mode that is filled in gives the display its size and its card; the nodes
/// of that very card's device are listed, and a listing that fails leaves the display
/// without a render node.
pub proof fn law_mode_and_node_are_of_one_card(
    probe: DisplayProbe,
    event: ProbeEvent,
    next: (Option<DisplayProbe>, ProbeAction),
)
    requires
        is_awaited(probe.phase, event),
        probe.goes_on(event, next),
    ensures
        next.1 is ListRenderNodes ==> {
            &&& event matches ProbeEvent::Modes(Ok(modes))
            &&& next.0 matches Some(after)
            &&& after.phase matches ProbePhase::RenderNodes { mode }
            &&& text::first_line(modes@) matches Some(line)
            &&& sysfs::mode_size(line) == Some((mode.width, mode.height))
            &&& mode.card_path@ == "/dev/dri/"@ + sysfs::card_of(probe.name@)
            &&& next.1->ListRenderNodes_0@ == "/sys/class/drm/"@ + sysfs::card_of(probe.name@)
                + "/device/drm"@
        },
        next.1 == ProbeAction::ReadModes <==> (event matches ProbeEvent::Status(Ok(status))
            && sysfs::is_connected(status@)),
        next.1 is OpenCard <==> event is RenderNodes,
        next.1 matches ProbeAction::OpenCard(path) ==> {
            &&& next.0 matches Some(after)
            &&& after.phase matches ProbePhase::Access { mode, render_node }
            &&& probe.phase == (ProbePhase::RenderNodes { mode })
            &&& path@ == mode.card_path@
            &&& event == ProbeEvent::RenderNodes(None) ==> render_node is None
            &&& event matches ProbeEvent::RenderNodes(Some(names)) ==> sysfs::is_first_render_node(
                names@,
                render_node,
            )
        },
{
}

/// Every entry that is called as connectors are is probed, and no other, beginning with
/// its status.
pub proof fn law_every_connector_is_probed(
    begun: Option<DisplayProbe>,
    connector_path: String,
    name: Option<String>,
)
    requires
        DisplayProbe::is_begun(begun, connector_path, name),
    ensures
        begun is Some <==> (name matches Some(name) && text::occurs_at(name@, "card"@, 0)
            && name@.contains('-')),
        begun matches Some(probe) ==> probe.connector_path == connector_path && name == Some(
            probe.name,
        ) && probe.phase is Status,
{
}

} // verus!
