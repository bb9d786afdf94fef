use scrap::error::{Error, ErrorKind};
use scrap::scanout::{
    connector_name, find_title, first_framebuffer, framebuffer_on, join_title, pick_crtc,
    pick_encoder, resolve_connector, resolve_framebuffers, plane_type, typed_framebuffers, ConnectorInfo,
    ConnectorState, LegacyPlane, PlaneProperty, Resolution,
};

fn connector(interface: u32, id: u32, state: ConnectorState) -> Result<ConnectorInfo, Error> {
    Ok(ConnectorInfo {
        interface,
        interface_id: id,
        state,
        current_encoder: None,
        encoders: vec![],
    })
}

fn plane(props: &[(&str, u64)]) -> Result<Vec<PlaneProperty>, Error> {
    Ok(props
        .iter()
        .map(|(name, value)| PlaneProperty { name: Some(name.to_string()), value: *value })
        .collect())
}

fn failure() -> Error {
    Error::other("unreadable")
}

fn found(resolution: Resolution) -> Vec<u32> {
    match resolution {
        Resolution::Found(found) => found,
        Resolution::NeedsLegacyPlanes => panic!("legacy planes needed"),
    }
}

#[test]
fn connector_titles_are_those_of_the_drm() {
    // DisplayPort is connector type 10, HDMI-A type 11, eDP type 14.
    for (interface, title) in [(10, "DP-3"), (11, "HDMI-A-3"), (14, "eDP-3"), (0, "Unknown-3")] {
        let info = connector(interface, 3, ConnectorState::Connected).unwrap();
        assert_eq!(info.title(), title);
    }
    assert_eq!(join_title("DVI-I", 12), "DVI-I-12");
}

#[test]
fn connector_name_is_behind_the_first_hyphen() {
    assert_eq!(connector_name("card0-HDMI-A-1").unwrap(), "HDMI-A-1");
    let err = connector_name("card0").unwrap_err();
    assert_eq!((err.kind, err.message.as_str()), (ErrorKind::Other, "invalid display name"));
}

#[test]
fn resolves_first_active_connector() {
    let mut second = connector(10, 1, ConnectorState::Connected).unwrap();
    second.current_encoder = Some(7);
    let all = vec![
        Err(failure()),
        connector(10, 1, ConnectorState::Disconnected),
        connector(11, 1, ConnectorState::Connected),
        Ok(second),
        connector(10, 1, ConnectorState::Connected),
    ];
    assert_eq!(resolve_connector("DP-1", all).unwrap().current_encoder, Some(7));
    let err = resolve_connector("DP-1", vec![connector(10, 1, ConnectorState::Unknown)]).unwrap_err();
    assert_eq!(err.message, "active connector 'DP-1' not found");
    assert_eq!(err.kind, ErrorKind::Other);
    let titles = vec![None, Some("a".to_string()), Some("b".to_string()), Some("b".to_string())];
    assert_eq!(find_title("b", &titles), Some(2));
    assert_eq!(find_title("c", &titles), None);
}

#[test]
fn picks_current_encoder_and_crtc_first() {
    let mut info = connector(10, 1, ConnectorState::Connected).unwrap();
    assert_eq!(pick_encoder(&info).unwrap_err().message, "connector has no active encoder");
    info.encoders = vec![5, 6];
    assert_eq!(pick_encoder(&info).unwrap(), 5);
    info.current_encoder = Some(9);
    assert_eq!(pick_encoder(&info).unwrap(), 9);
    assert_eq!(pick_crtc(Some(3), &vec![1]).unwrap(), 3);
    assert_eq!(pick_crtc(None, &vec![1, 2]).unwrap(), 1);
    assert_eq!(pick_crtc(None, &vec![]).unwrap_err().message, "encoder has no active CRTC");
}

#[test]
fn properties_put_the_desktop_first() {
    let planes = vec![
        plane(&[("type", 0), ("CRTC_ID", 41), ("FB_ID", 100)]),
        plane(&[("type", 2), ("CRTC_ID", 41), ("FB_ID", 101)]),
        Err(failure()),
        plane(&[("type", 1), ("CRTC_ID", 42), ("FB_ID", 102)]),
        plane(&[("CRTC_ID", 41), ("FB_ID", 103)]),
        plane(&[("type", 1), ("CRTC_ID", 41), ("FB_ID", 104)]),
        plane(&[("type", 1), ("CRTC_ID", 41), ("FB_ID", 0)]),
        plane(&[("type", 1), ("CRTC_ID", 41)]),
        plane(&[("type", 1), ("FB_ID", 105)]),
        plane(&[("type", 0), ("CRTC_ID", 41), ("FB_ID", 104)]),
    ];
    assert_eq!(typed_framebuffers(&planes, 41), vec![104, 100, 103]);
    assert_eq!(typed_framebuffers(&planes, 43), Vec::<u32>::new());
}

#[test]
fn the_last_property_of_a_name_counts() {
    let planes = vec![plane(&[
        ("FB_ID", 1),
        ("CRTC_ID", 9),
        ("CRTC_ID", 41),
        ("FB_ID", (7 << 32) | 2),
    ])];
    assert_eq!(typed_framebuffers(&planes, 41), vec![2]);
    let unnamed = vec![Ok(vec![PlaneProperty { name: None, value: 41 }])];
    assert_eq!(typed_framebuffers(&unnamed, 41), Vec::<u32>::new());
}

fn legacy(crtc: u32, framebuffer: u32, size: (u32, u32)) -> Result<LegacyPlane, Error> {
    Ok(LegacyPlane { crtc: Some(crtc), framebuffer: Some(framebuffer), size: Some(size), plane_type: None })
}

#[test]
fn properties_win_over_older_queries() {
    let planes = vec![plane(&[("type", 1), ("CRTC_ID", 41), ("FB_ID", 100)])];
    let older = Some(Ok(vec![legacy(41, 7, (1920, 1080))]));
    let resolved = resolve_framebuffers(41, Some(8), &planes, older, 1, 1).unwrap();
    assert_eq!(found(resolved), vec![100]);
}

#[test]
fn asks_for_older_queries_only_where_needed() {
    let resolved = resolve_framebuffers(41, Some(8), &vec![], None, 1, 1).unwrap();
    assert!(matches!(resolved, Resolution::NeedsLegacyPlanes));
}

#[test]
fn older_queries_are_ranked_by_coverage_and_area() {
    let older = vec![
        legacy(41, 1, (64, 64)),
        legacy(41, 2, (1920, 1080)),
        Err(failure()),
        legacy(42, 3, (4000, 4000)),
        legacy(41, 4, (3840, 2160)),
        legacy(41, 5, (8000, 100)),
        legacy(41, 2, (1920, 1080)),
        Ok(LegacyPlane { crtc: Some(41), framebuffer: Some(6), size: None, plane_type: None }),
        Ok(LegacyPlane { crtc: Some(41), framebuffer: None, size: Some((1, 1)), plane_type: None }),
        Ok(LegacyPlane { crtc: None, framebuffer: Some(9), size: Some((1, 1)), plane_type: None }),
    ];
    let resolved = resolve_framebuffers(41, Some(10), &vec![], Some(Ok(older)), 1920, 1080).unwrap();
    assert_eq!(found(resolved), vec![4, 2, 5, 1, 10]);
}

#[test]
fn equal_candidates_keep_their_order() {
    let older = vec![legacy(1, 30, (10, 20)), legacy(1, 20, (20, 10)), legacy(1, 10, (10, 20))];
    let resolved = resolve_framebuffers(1, Some(20), &vec![], Some(Ok(older)), 0, 0).unwrap();
    assert_eq!(found(resolved), vec![30, 20, 10]);
}

#[test]
fn the_crtc_itself_may_name_the_framebuffer() {
    let resolved = resolve_framebuffers(1, Some(5), &vec![], Some(Ok(vec![])), 9, 9).unwrap();
    assert_eq!(found(resolved), vec![5]);
}

#[test]
fn largest_sizes_have_an_area() {
    let older = vec![legacy(1, 1, (u32::MAX, 1)), legacy(1, 2, (u32::MAX, u32::MAX))];
    let resolved = resolve_framebuffers(1, None, &vec![], Some(Ok(older)), 0, 0).unwrap();
    assert_eq!(found(resolved), vec![2, 1]);
}

#[test]
fn nothing_shown_is_an_error() {
    let err = resolve_framebuffers(1, None, &vec![], Some(Ok(vec![])), 0, 0).unwrap_err();
    assert_eq!(err.message, "crtc has no active framebuffer");
    let err = resolve_framebuffers(1, Some(4), &vec![], Some(Err(failure())), 0, 0).unwrap_err();
    assert_eq!(err.message, "unreadable");
    assert_eq!(first_framebuffer(&vec![3, 4]).unwrap(), 3);
    assert_eq!(first_framebuffer(&vec![]).unwrap_err().message, "crtc has no active framebuffer");
}

#[test]
fn reads_sizes_of_planes_on_the_crtc_alone() {
    assert_eq!(framebuffer_on(1, Some(1), Some(5)), Some(5));
    assert_eq!(framebuffer_on(1, Some(2), Some(5)), None);
    assert_eq!(framebuffer_on(1, None, Some(5)), None);
    assert_eq!(framebuffer_on(1, Some(1), None), None);
}

fn cursor(crtc: u32, framebuffer: u32, size: (u32, u32)) -> Result<LegacyPlane, Error> {
    Ok(LegacyPlane {
        crtc: Some(crtc),
        framebuffer: Some(framebuffer),
        size: Some(size),
        plane_type: Some(2),
    })
}

#[test]
fn the_cursor_is_not_captured_the_older_way() {
    let properties = plane(&[("type", 2), ("CRTC_ID", 41), ("FB_ID", 7)]);
    assert_eq!(plane_type(properties.as_ref().unwrap()), Some(2));
    let planes = vec![properties];
    let older = Some(Ok(vec![cursor(41, 7, (64, 64))]));
    let err = resolve_framebuffers(41, None, &planes, older, 1920, 1080).unwrap_err();
    assert_eq!(err.message, "crtc has no active framebuffer");
    let older = Some(Ok(vec![cursor(41, 7, (64, 64))]));
    let resolved = resolve_framebuffers(41, Some(8), &planes, older, 1920, 1080).unwrap();
    assert_eq!(found(resolved), vec![8]);
    let older = Some(Ok(vec![cursor(41, 7, (64, 64)), legacy(41, 9, (64, 64))]));
    let resolved = resolve_framebuffers(41, Some(8), &planes, older, 1920, 1080).unwrap();
    assert_eq!(found(resolved), vec![9, 8]);
}

#[test]
fn the_kind_of_a_plane_is_its_last_type() {
    assert_eq!(plane_type(&plane(&[("type", 2), ("FB_ID", 1), ("type", 0)]).unwrap()), Some(0));
    assert_eq!(plane_type(&plane(&[("FB_ID", 2)]).unwrap()), None);
}
