//! The way from a display's name to the framebuffers that it shows, asked of its
//! card step by step.

use crate::error::{Error, ErrorKind, Failure};
use crate::scanout;
use crate::scanout::{ConnectorInfo, LegacyPlane, PlaneProperty, Resolution};
use vstd::prelude::*;

verus! {

/// What is being asked of the card.
#[derive(Clone, Copy, PartialEq, Eq, Debug, Structural)]
pub enum RoutePhase {
    Connectors,
    Encoder,
    Crtc { crtc: u32 },
    Planes { crtc: u32, crtc_framebuffer: Option<u32> },
    LegacyPlanes { crtc: u32, crtc_framebuffer: Option<u32> },
}

/// The CRTC that feeds an encoder, and those that could.
#[derive(Debug)]
pub struct EncoderInfo {
    pub crtc: Option<u32>,
    pub possible_crtcs: Vec<u32>,
}

/// What the card answered.
#[derive(Debug)]
pub enum RouteEvent {
    Connectors(Result<Vec<Result<ConnectorInfo, Error>>, Error>),
    Encoder(Result<EncoderInfo, Error>),
    /// The CRTC's own framebuffer.
    Crtc(Result<Option<u32>, Error>),
    /// The properties of the planes; none where the planes cannot be listed.
    Planes(Vec<Result<Vec<PlaneProperty>, Error>>),
    LegacyPlanes(Result<Vec<Result<LegacyPlane, Error>>, Error>),
}

/// What to ask next, or where the way ends.
#[derive(Debug)]
pub enum RouteAction {
    ReadConnectors,
    ReadEncoder(u32),
    ReadCrtc(u32),
    ReadPlanes,
    /// Ask the older way of the planes of this CRTC.
    ReadLegacyPlanes(u32),
    Done(Result<Vec<u32>, Error>),
}

/// The way to the framebuffers of a display of that size.
#[derive(Debug)]
pub struct Route {
    pub connector_name: String,
    pub min_width: usize,
    pub min_height: usize,
    pub phase: RoutePhase,
}

/// The event is one that is waited for.
pub open spec fn is_awaited(phase: RoutePhase, event: RouteEvent) -> bool {
    match event {
        RouteEvent::Connectors(_) => phase is Connectors,
        RouteEvent::Encoder(_) => phase is Encoder,
        RouteEvent::Crtc(_) => phase is Crtc,
        RouteEvent::Planes(_) => phase is Planes,
        RouteEvent::LegacyPlanes(_) => phase is LegacyPlanes,
    }
}

/// How far the way is from its end.
pub open spec fn steps_left(phase: RoutePhase) -> int {
    match phase {
        RoutePhase::Connectors => 5,
        RoutePhase::Encoder => 4,
        RoutePhase::Crtc { .. } => 3,
        RoutePhase::Planes { .. } => 2,
        RoutePhase::LegacyPlanes { .. } => 1,
    }
}

/// The action ends the way with that failure.
pub open spec fn fails_with(action: RouteAction, failure: Failure) -> bool {
    action matches RouteAction::Done(Err(err)) && err@ == failure
}

impl Route {
    pub open spec fn moved(self, before: Route, phase: RoutePhase) -> bool {
        self == (Route { phase, ..before })
    }

    /// The way begins at the connector that the display is named after.
    pub open spec fn is_begun(
        begun: Result<Route, Error>,
        display_name: Seq<char>,
        min_width: usize,
        min_height: usize,
    ) -> bool {
        match begun {
            Ok(route) => {
                &&& scanout::connector_part(display_name) == Some(route.connector_name@)
                &&& route.min_width == min_width
                &&& route.min_height == min_height
                &&& route.phase == RoutePhase::Connectors
            },
            Err(err) => scanout::connector_part(display_name) is None && err@ == Failure::of(
                ErrorKind::Other,
                "invalid display name"@,
            ),
        }
    }

    /// Begins at a display's name.
    pub fn begin(display_name: &str, min_width: usize, min_height: usize) -> (begun: Result<
        Route,
        Error,
    >)
        ensures
            Route::is_begun(begun, display_name@, min_width, min_height),
    {
        match scanout::connector_name(display_name) {
            Ok(name) => Ok(
                Route {
                    connector_name: name.to_owned(),
                    min_width,
                    min_height,
                    phase: RoutePhase::Connectors,
                },
            ),
            Err(err) => Err(err),
        }
    }

    /// The way goes on with `action` after that answer.
    pub open spec fn goes_on(self, after: Route, event: RouteEvent, action: RouteAction) -> bool {
        &&& !(action is Done) ==> steps_left(after.phase) < steps_left(self.phase)
        &&& action matches RouteAction::Done(Ok(found)) ==> found@.len() > 0
        &&& action is Done ==> after == self
        &&& match event {
            RouteEvent::Connectors(Ok(connectors)) => match action {
                RouteAction::ReadEncoder(encoder) => {
                    &&& after.moved(self, RoutePhase::Encoder)
                    &&& exists|i: int|
                        0 <= i < connectors@.len() && scanout::is_active(
                            #[trigger] connectors@[i],
                            self.connector_name@,
                        ) && leads_to(connectors@[i], encoder) && forall|j: int|
                            0 <= j < i ==> !scanout::is_active(
                                #[trigger] connectors@[j],
                                self.connector_name@,
                            )
                },
                _ => {
                    ||| fails_with(
                        action,
                        scanout::connector_not_found(self.connector_name@),
                    ) && forall|i: int|
                        0 <= i < connectors@.len() ==> !scanout::is_active(
                            #[trigger] connectors@[i],
                            self.connector_name@,
                        )
                    ||| fails_with(
                        action,
                        Failure::of(ErrorKind::Other, "connector has no active encoder"@),
                    ) && exists|i: int|
                        0 <= i < connectors@.len() && scanout::is_active(
                            #[trigger] connectors@[i],
                            self.connector_name@,
                        ) && leads_nowhere(connectors@[i]) && forall|j: int|
                            0 <= j < i ==> !scanout::is_active(
                                #[trigger] connectors@[j],
                                self.connector_name@,
                            )
                },
            },
            RouteEvent::Connectors(Err(err)) => action == RouteAction::Done(Err(err)),
            RouteEvent::Encoder(Ok(encoder)) => match action {
                RouteAction::ReadCrtc(crtc) => {
                    &&& after.moved(self, RoutePhase::Crtc { crtc })
                    &&& encoder.crtc == Some(crtc) || (encoder.crtc is None
                        && encoder.possible_crtcs@.len() > 0 && crtc
                        == encoder.possible_crtcs@[0])
                },
                _ => encoder.crtc is None && encoder.possible_crtcs@.len() == 0 && fails_with(
                    action,
                    Failure::of(ErrorKind::Other, "encoder has no active CRTC"@),
                ),
            },
            RouteEvent::Encoder(Err(err)) => action == RouteAction::Done(Err(err)),
            RouteEvent::Crtc(Ok(crtc_framebuffer)) => {
                &&& self.phase matches RoutePhase::Crtc { crtc }
                &&& after.moved(
                    self,
                    RoutePhase::Planes { crtc, crtc_framebuffer },
                )
                &&& action == RouteAction::ReadPlanes
            },
            RouteEvent::Crtc(Err(err)) => action == RouteAction::Done(Err(err)),
            RouteEvent::Planes(planes) => {
                &&& self.phase matches RoutePhase::Planes { crtc, crtc_framebuffer }
                &&& if scanout::typed(planes@, crtc).len() > 0 {
                    action matches RouteAction::Done(Ok(found)) && found@ == scanout::typed(
                        planes@,
                        crtc,
                    )
                } else {
                    &&& after.moved(
                        self,
                        RoutePhase::LegacyPlanes { crtc, crtc_framebuffer },
                    )
                    &&& action == RouteAction::ReadLegacyPlanes(crtc)
                }
            },
            RouteEvent::LegacyPlanes(Ok(older)) => {
                &&& self.phase matches RoutePhase::LegacyPlanes { crtc, crtc_framebuffer }
                &&& {
                    let found = scanout::legacy(
                        older@,
                        crtc,
                        crtc_framebuffer,
                        self.min_width,
                        self.min_height,
                    );
                    if found.len() > 0 {
                        action matches RouteAction::Done(Ok(list)) && list@ == found
                    } else {
                        fails_with(action, scanout::no_framebuffer())
                    }
                }
            },
            RouteEvent::LegacyPlanes(Err(err)) => action == RouteAction::Done(Err(err)),
        }
    }

    /// Goes on with what the card answered. Every answer brings the way nearer to
    /// its end, and a way that does not fail ends at one framebuffer or more.
    pub fn next(&mut self, event: RouteEvent) -> (action: RouteAction)
        requires
            is_awaited(old(self).phase, event),
        ensures
            old(self).goes_on(*final(self), event, action),
    {
        match event {
            RouteEvent::Connectors(connectors) => {
                let connectors = match connectors {
                    Ok(connectors) => connectors,
                    Err(err) => {
                        return RouteAction::Done(Err(err));
                    },
                };
                let connector = match scanout::resolve_connector(
                    self.connector_name.as_str(),
                    connectors,
                ) {
                    Ok(connector) => connector,
                    Err(err) => {
                        return RouteAction::Done(Err(err));
                    },
                };
                match scanout::pick_encoder(&connector) {
                    Ok(encoder) => {
                        self.phase = RoutePhase::Encoder;
                        RouteAction::ReadEncoder(encoder)
                    },
                    Err(err) => RouteAction::Done(Err(err)),
                }
            },
            RouteEvent::Encoder(encoder) => {
                let encoder = match encoder {
                    Ok(encoder) => encoder,
                    Err(err) => {
                        return RouteAction::Done(Err(err));
                    },
                };
                match scanout::pick_crtc(encoder.crtc, &encoder.possible_crtcs) {
                    Ok(crtc) => {
                        self.phase = RoutePhase::Crtc { crtc };
                        RouteAction::ReadCrtc(crtc)
                    },
                    Err(err) => RouteAction::Done(Err(err)),
                }
            },
            RouteEvent::Crtc(framebuffer) => {
                let crtc_framebuffer = match framebuffer {
                    Ok(framebuffer) => framebuffer,
                    Err(err) => {
                        return RouteAction::Done(Err(err));
                    },
                };
                if let RoutePhase::Crtc { crtc } = self.phase {
                    self.phase = RoutePhase::Planes { crtc, crtc_framebuffer };
                }
                RouteAction::ReadPlanes
            },
            RouteEvent::Planes(planes) => {
                let (crtc, crtc_framebuffer): (u32, Option<u32>) = match self.phase {
                    RoutePhase::Planes { crtc, crtc_framebuffer } => (crtc, crtc_framebuffer),
                    _ => (0, None),
                };
                match scanout::resolve_framebuffers(
                    crtc,
                    crtc_framebuffer,
                    &planes,
                    None,
                    self.min_width,
                    self.min_height,
                ) {
                    Ok(Resolution::Found(found)) => RouteAction::Done(Ok(found)),
                    Ok(Resolution::NeedsLegacyPlanes) => {
                        self.phase = RoutePhase::LegacyPlanes { crtc, crtc_framebuffer };
                        RouteAction::ReadLegacyPlanes(crtc)
                    },
                    Err(err) => RouteAction::Done(Err(err)),
                }
            },
            RouteEvent::LegacyPlanes(older) => {
                let (crtc, crtc_framebuffer): (u32, Option<u32>) = match self.phase {
                    RoutePhase::LegacyPlanes { crtc, crtc_framebuffer } => (crtc, crtc_framebuffer),
                    _ => (0, None),
                };
                let planes: Vec<Result<Vec<PlaneProperty>, Error>> = Vec::new();
                assert(scanout::typed(planes@, crtc).len() == 0);
                match scanout::resolve_framebuffers(
                    crtc,
                    crtc_framebuffer,
                    &planes,
                    Some(older),
                    self.min_width,
                    self.min_height,
                ) {
                    Ok(Resolution::Found(found)) => RouteAction::Done(Ok(found)),
                    Ok(Resolution::NeedsLegacyPlanes) => RouteAction::ReadLegacyPlanes(crtc),
                    Err(err) => RouteAction::Done(Err(err)),
                }
            },
        }
    }
}

/// The connector's encoder: the one that drives it, or else the first that could.
pub open spec fn leads_to(connector: Result<ConnectorInfo, Error>, encoder: u32) -> bool {
    connector matches Ok(connector) && (connector.current_encoder == Some(encoder) || (
    connector.current_encoder is None && connector.encoders@.len() > 0 && encoder
        == connector.encoders@[0]))
}

pub open spec fn leads_nowhere(connector: Result<ConnectorInfo, Error>) -> bool {
    connector matches Ok(connector) && connector.current_encoder is None
        && connector.encoders@.len() == 0
}

/// The way goes on to the encoder of the first connector that is connected and called
/// by the name: the encoder that drives it or, if none does, the first that could.
pub proof fn law_first_connector_of_the_name_counts(
    before: Route,
    after: Route,
    connectors: Vec<Result<ConnectorInfo, Error>>,
    action: RouteAction,
    i: int,
)
    requires
        before.goes_on(after, RouteEvent::Connectors(Ok(connectors)), action),
        0 <= i < connectors@.len(),
        scanout::is_active(connectors@[i], before.connector_name@),
        forall|j: int|
            0 <= j < i ==> !scanout::is_active(
                #[trigger] connectors@[j],
                before.connector_name@,
            ),
    ensures
        connectors@[i] matches Ok(connector) && match connector.current_encoder {
            Some(encoder) => action == RouteAction::ReadEncoder(encoder),
            None => if connector.encoders@.len() > 0 {
                action == RouteAction::ReadEncoder(connector.encoders@[0])
            } else {
                action matches RouteAction::Done(Err(err)) && err@ == Failure::of(
                    ErrorKind::Other,
                    "connector has no active encoder"@,
                )
            },
        },
        action is ReadEncoder ==> after == (Route { phase: RoutePhase::Encoder, ..before }),
{
    assert forall|k: int|
        0 <= k < connectors@.len() && scanout::is_active(
            #[trigger] connectors@[k],
            before.connector_name@,
        ) && (forall|j: int|
            0 <= j < k ==> !scanout::is_active(
                #[trigger] connectors@[j],
                before.connector_name@,
            )) implies k == i by {
        if k < i {
            assert(!scanout::is_active(connectors@[k], before.connector_name@));
        }
        if i < k {
            assert(!scanout::is_active(connectors@[i], before.connector_name@));
        }
    }
    assert(scanout::is_active(connectors@[i], before.connector_name@));
}

/// Without a connector of the name the way ends, and says so.
pub proof fn law_missing_connector_ends_the_way(
    before: Route,
    after: Route,
    connectors: Vec<Result<ConnectorInfo, Error>>,
    action: RouteAction,
)
    requires
        before.goes_on(after, RouteEvent::Connectors(Ok(connectors)), action),
        forall|i: int|
            0 <= i < connectors@.len() ==> !scanout::is_active(
                #[trigger] connectors@[i],
                before.connector_name@,
            ),
    ensures
        action matches RouteAction::Done(Err(err)) && err@ == Failure::of(
            ErrorKind::Other,
            "active connector '"@ + before.connector_name@ + "' not found"@,
        ),
{
}

/// The way goes on to the CRTC that feeds the encoder or, if none does, to the first
/// that could; without any it ends.
pub proof fn law_encoder_leads_to_its_crtc(
    before: Route,
    after: Route,
    encoder: EncoderInfo,
    action: RouteAction,
)
    requires
        before.goes_on(after, RouteEvent::Encoder(Ok(encoder)), action),
    ensures
        encoder.crtc matches Some(crtc) ==> action == RouteAction::ReadCrtc(crtc) && after == (
        Route { phase: RoutePhase::Crtc { crtc }, ..before }),
        encoder.crtc is None && encoder.possible_crtcs@.len() > 0 ==> action
            == RouteAction::ReadCrtc(encoder.possible_crtcs@[0]) && after == (Route {
            phase: RoutePhase::Crtc { crtc: encoder.possible_crtcs@[0] },
            ..before
        }),
        encoder.crtc is None && encoder.possible_crtcs@.len() == 0 ==> (
        action matches RouteAction::Done(Err(err)) && err@ == Failure::of(
            ErrorKind::Other,
            "encoder has no active CRTC"@,
        )),
{
}

/// What the planes show by their properties is the end of the way if it is anything;
/// only if it is nothing is the older way asked, of the same CRTC and with the CRTC's
/// own framebuffer kept in mind.
pub proof fn law_older_way_is_the_last(
    before: Route,
    after: Route,
    event: RouteEvent,
    action: RouteAction,
    crtc: u32,
    crtc_framebuffer: Option<u32>,
)
    requires
        before.goes_on(after, event, action),
    ensures
        event is Crtc && before.phase == (RoutePhase::Crtc { crtc }) && event == RouteEvent::Crtc(
            Ok(crtc_framebuffer),
        ) ==> action == RouteAction::ReadPlanes && after == (Route {
            phase: RoutePhase::Planes { crtc, crtc_framebuffer },
            ..before
        }),
        before.phase == (RoutePhase::Planes { crtc, crtc_framebuffer }) ==> (
        event matches RouteEvent::Planes(planes) ==> {
            let shown = scanout::typed(planes@, crtc);
            &&& shown.len() > 0 ==> (action matches RouteAction::Done(Ok(found)) && found@ == shown)
            &&& shown.len() == 0 ==> action == RouteAction::ReadLegacyPlanes(crtc) && after == (
            Route { phase: RoutePhase::LegacyPlanes { crtc, crtc_framebuffer }, ..before })
        }),
        before.phase == (RoutePhase::LegacyPlanes { crtc, crtc_framebuffer }) ==> (
        event matches RouteEvent::LegacyPlanes(Ok(older)) ==> {
            let shown = scanout::legacy(
                older@,
                crtc,
                crtc_framebuffer,
                before.min_width,
                before.min_height,
            );
            &&& shown.len() > 0 ==> (action matches RouteAction::Done(Ok(found)) && found@ == shown)
            &&& shown.len() == 0 ==> (action matches RouteAction::Done(Err(err)) && err@
                == Failure::of(ErrorKind::Other, "crtc has no active framebuffer"@))
        }),
        action is ReadLegacyPlanes ==> event is Planes,
        action matches RouteAction::Done(Ok(found)) ==> found@.len() > 0,
{
}

/// What a card fails to answer ends the way with that failure.
pub proof fn law_card_failure_ends_the_way(
    before: Route,
    after: Route,
    event: RouteEvent,
    action: RouteAction,
    err: Error,
)
    requires
        before.goes_on(after, event, action),
        event == RouteEvent::Connectors(Err(err)) || event == RouteEvent::Encoder(Err(err))
            || event == RouteEvent::Crtc(Err(err)) || event == RouteEvent::LegacyPlanes(Err(err)),
    ensures
        action == RouteAction::Done(Err(err)),
        after == before,
{
}

/// The way begins for every name with a hyphen in it, at the connector that is named
/// behind the first one, and for no other name.
pub proof fn law_way_begins_at_the_connector(
    begun: Result<Route, Error>,
    card: Seq<char>,
    connector: Seq<char>,
    min_width: usize,
    min_height: usize,
)
    requires
        !card.contains('-'),
        Route::is_begun(begun, card.push('-') + connector, min_width, min_height),
    ensures
        begun matches Ok(route) && route.connector_name@ == connector && route.min_width
            == min_width && route.min_height == min_height && route.phase == RoutePhase::Connectors,
{
    scanout::law_connector_stands_behind_the_card(card, connector);
}

/// A name without a hyphen names no connector.
pub proof fn law_no_way_without_a_connector(
    begun: Result<Route, Error>,
    display_name: Seq<char>,
    min_width: usize,
    min_height: usize,
)
    requires
        !display_name.contains('-'),
        Route::is_begun(begun, display_name, min_width, min_height),
    ensures
        begun matches Err(err) && err@ == Failure::of(ErrorKind::Other, "invalid display name"@),
{
    scanout::law_connector_stands_behind_the_card(display_name, Seq::empty());
}

} // verus!
