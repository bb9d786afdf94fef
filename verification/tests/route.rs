use scrap::error::Error;
use scrap::route::{EncoderInfo, Route, RouteAction, RouteEvent};
use scrap::scanout::{ConnectorInfo, ConnectorState, LegacyPlane, PlaneProperty};

fn connector(current_encoder: Option<u32>, encoders: Vec<u32>) -> Result<ConnectorInfo, Error> {
    Ok(ConnectorInfo {
        interface: 10,
        interface_id: 1,
        state: ConnectorState::Connected,
        current_encoder,
        encoders,
    })
}

fn begin() -> Route {
    Route::begin("card0-DP-1", 800, 600).unwrap()
}

fn done(action: RouteAction) -> Result<Vec<u32>, Error> {
    match action {
        RouteAction::Done(result) => result,
        other => panic!("{other:?}"),
    }
}

fn at_planes() -> Route {
    let mut route = begin();
    let action = route.next(RouteEvent::Connectors(Ok(vec![connector(Some(5), vec![])])));
    assert!(matches!(action, RouteAction::ReadEncoder(5)));
    let encoder = EncoderInfo { crtc: None, possible_crtcs: vec![41, 42] };
    assert!(matches!(route.next(RouteEvent::Encoder(Ok(encoder))), RouteAction::ReadCrtc(41)));
    assert!(matches!(route.next(RouteEvent::Crtc(Ok(Some(9)))), RouteAction::ReadPlanes));
    route
}

fn property(name: &str, value: u64) -> PlaneProperty {
    PlaneProperty { name: Some(name.to_string()), value }
}

#[test]
fn properties_end_the_way() {
    let mut route = at_planes();
    let planes = vec![Ok(vec![property("CRTC_ID", 41), property("FB_ID", 7), property("type", 1)])];
    assert_eq!(done(route.next(RouteEvent::Planes(planes))).unwrap(), vec![7]);
}

#[test]
fn older_queries_end_the_way_else() {
    let mut route = at_planes();
    assert!(matches!(route.next(RouteEvent::Planes(vec![])), RouteAction::ReadLegacyPlanes(41)));
    let plane = LegacyPlane { crtc: Some(41), framebuffer: Some(3), size: Some((800, 600)), plane_type: None };
    let action = route.next(RouteEvent::LegacyPlanes(Ok(vec![Ok(plane)])));
    assert_eq!(done(action).unwrap(), vec![3, 9]);
    let mut route = at_planes();
    route.next(RouteEvent::Planes(vec![]));
    let action = route.next(RouteEvent::LegacyPlanes(Err(Error::other("p"))));
    assert_eq!(done(action).unwrap_err().message, "p");
}

#[test]
fn the_way_may_fail_at_each_step() {
    assert_eq!(Route::begin("card0", 1, 1).unwrap_err().message, "invalid display name");
    let action = begin().next(RouteEvent::Connectors(Err(Error::other("c"))));
    assert_eq!(done(action).unwrap_err().message, "c");
    let action = begin().next(RouteEvent::Connectors(Ok(vec![])));
    assert_eq!(done(action).unwrap_err().message, "active connector 'DP-1' not found");
    let action = begin().next(RouteEvent::Connectors(Ok(vec![connector(None, vec![])])));
    assert_eq!(done(action).unwrap_err().message, "connector has no active encoder");
    let at_encoder = || {
        let mut route = begin();
        route.next(RouteEvent::Connectors(Ok(vec![connector(None, vec![6])])));
        route
    };
    assert_eq!(done(at_encoder().next(RouteEvent::Encoder(Err(Error::other("e"))))).unwrap_err().message, "e");
    let none = EncoderInfo { crtc: None, possible_crtcs: vec![] };
    let action = at_encoder().next(RouteEvent::Encoder(Ok(none)));
    assert_eq!(done(action).unwrap_err().message, "encoder has no active CRTC");
    let mut route = at_encoder();
    route.next(RouteEvent::Encoder(Ok(EncoderInfo { crtc: Some(1), possible_crtcs: vec![] })));
    assert_eq!(done(route.next(RouteEvent::Crtc(Err(Error::other("g"))))).unwrap_err().message, "g");
}

#[test]
fn a_crtc_that_shows_nothing_fails() {
    let mut route = begin();
    route.next(RouteEvent::Connectors(Ok(vec![connector(Some(5), vec![])])));
    route.next(RouteEvent::Encoder(Ok(EncoderInfo { crtc: Some(1), possible_crtcs: vec![] })));
    route.next(RouteEvent::Crtc(Ok(None)));
    route.next(RouteEvent::Planes(vec![]));
    let action = route.next(RouteEvent::LegacyPlanes(Ok(vec![])));
    assert_eq!(done(action).unwrap_err().message, "crtc has no active framebuffer");
}
