//! Which framebuffers a connector shows: the way from a connector over its
//! encoder and CRTC to the planes that the CRTC scans out.

use crate::error::{Error, ErrorKind, Failure};
use crate::order;
use crate::order::Ranked;
use crate::text;
use drm::control::connector::Interface;
use drm::control::framebuffer;
use vstd::prelude::*;

verus! {

#[derive(Clone, Copy, PartialEq, Eq, Debug, Structural)]
pub enum ConnectorState {
    Connected,
    Disconnected,
    Unknown,
}

/// What a DRM device says of one connector.
#[derive(Debug)]
pub struct ConnectorInfo {
    pub interface: u32,
    pub interface_id: u32,
    pub state: ConnectorState,
    pub current_encoder: Option<u32>,
    pub encoders: Vec<u32>,
}

/// The name of a connector type.
pub uninterp spec fn interface_text(interface: u32) -> Seq<char>;

/// The name that `Interface::as_str` gives to the connector type that
/// `Interface::from` makes of its number.
#[verifier::external_body]
fn interface_name(interface: u32) -> (name: &'static str)
    ensures
        name@ == interface_text(interface),
{
    Interface::from(interface).as_str()
}

/// A connector's name: its type and its number among the connectors of that
/// type.
pub open spec fn connector_title(connector: ConnectorInfo) -> Seq<char> {
    interface_text(connector.interface) + "-"@ + text::decimal(connector.interface_id as nat)
}

/// The name from a connector type's name and a number.
pub fn join_title(interface: &str, interface_id: u32) -> (title: String)
    ensures
        title@ == interface@ + "-"@ + text::decimal(interface_id as nat),
{
    let id = text::write_decimal(interface_id as u64);
    text::join3(interface, "-", id.as_str())
}

impl ConnectorInfo {
    pub fn title(&self) -> (title: String)
        ensures
            title@ == connector_title(*self),
    {
        join_title(interface_name(self.interface), self.interface_id)
    }
}

/// The part of a display's name behind the first hyphen names its connector.
pub open spec fn connector_part(display_name: Seq<char>) -> Option<Seq<char>> {
    match text::split_first(display_name, '-') {
        Some((_, name)) => Some(name),
        None => None,
    }
}

pub fn connector_name(display_name: &str) -> (name: Result<&str, Error>)
    ensures
        match name {
            Ok(name) => connector_part(display_name@) == Some(name@),
            Err(err) => connector_part(display_name@) is None && err@ == Failure::of(
                ErrorKind::Other,
                "invalid display name"@,
            ),
        },
{
    match text::split_once(display_name, '-') {
        Some((_, name)) => Ok(name),
        None => Err(Error::other("invalid display name")),
    }
}

/// A connector that could be read, is connected and has that name.
pub open spec fn is_active(connector: Result<ConnectorInfo, Error>, name: Seq<char>) -> bool {
    match connector {
        Ok(connector) => connector.state == ConnectorState::Connected && connector_title(connector)
            == name,
        Err(_) => false,
    }
}

pub open spec fn connector_not_found(name: Seq<char>) -> Failure {
    Failure::of(ErrorKind::Other, "active connector '"@ + name + "' not found"@)
}

/// The place of the first of the names that is the wanted one; the name of a
/// connector that is not active is missing.
pub fn find_title(wanted: &str, titles: &Vec<Option<String>>) -> (found: Option<usize>)
    ensures
        match found {
            Some(i) => i < titles@.len() && is_title(titles@[i as int], wanted@) && forall|j: int|
                0 <= j < i ==> !is_title(#[trigger] titles@[j], wanted@),
            None => forall|i: int|
                0 <= i < titles@.len() ==> !is_title(#[trigger] titles@[i], wanted@),
        },
{
    for i in 0..titles.len()
        invariant
            forall|j: int| 0 <= j < i ==> !is_title(#[trigger] titles@[j], wanted@),
    {
        if let Some(title) = &titles[i] {
            if text::equals(title.as_str(), wanted) {
                assert(is_title(titles@[i as int], wanted@));
                return Some(i);
            }
        }
    }
    None
}

pub open spec fn is_title(title: Option<String>, wanted: Seq<char>) -> bool {
    title matches Some(title) && title@ == wanted
}

/// The connector is the first active one of that name.
pub open spec fn is_connector_of(
    found: Result<ConnectorInfo, Error>,
    name: Seq<char>,
    connectors: Seq<Result<ConnectorInfo, Error>>,
) -> bool {
    match found {
        Ok(connector) => exists|i: int|
            0 <= i < connectors.len() && is_active(
                #[trigger] connectors[i],
                name,
            ) && connectors[i] == Ok::<ConnectorInfo, Error>(connector) && forall|j: int|
                0 <= j < i ==> !is_active(#[trigger] connectors[j], name),
        Err(err) => err@ == connector_not_found(name) && forall|i: int|
            0 <= i < connectors.len() ==> !is_active(
                #[trigger] connectors[i],
                name,
            ),
    }
}

/// Finds the first active connector of that name.
pub fn resolve_connector(
    connector_name: &str,
    connectors: Vec<Result<ConnectorInfo, Error>>,
) -> (found: Result<ConnectorInfo, Error>)
    ensures
        is_connector_of(found, connector_name@, connectors@),
{
    let mut titles: Vec<Option<String>> = Vec::new();
    for i in 0..connectors.len()
        invariant
            titles@.len() == i,
            forall|j: int|
                0 <= j < i ==> is_title(#[trigger] titles@[j], connector_name@) == is_active(
                    connectors@[j],
                    connector_name@,
                ),
    {
        let title = match &connectors[i] {
            Ok(connector) => if connector.state == ConnectorState::Connected {
                Some(connector.title())
            } else {
                None
            },
            Err(_) => None,
        };
        titles.push(title);
    }
    let found = find_title(connector_name, &titles);
    assert forall|j: int| 0 <= j < connectors@.len() implies is_active(
        #[trigger] connectors@[j],
        connector_name@,
    ) == is_title(titles@[j], connector_name@) by {
        assert(is_title(titles@[j], connector_name@) == is_active(
            connectors@[j],
            connector_name@,
        ));
    }
    if let Some(i) = found {
        let mut connectors_read = connectors;
        let connector = connectors_read.remove(i);
        assert(is_active(connectors@[i as int], connector_name@));
        if let Ok(connector) = connector {
            return Ok(connector);
        }
    }
    let message = text::join3("active connector '", connector_name, "' not found");
    Err(Error::with_message(ErrorKind::Other, message))
}

/// The encoder of a connector.
pub open spec fn is_encoder_of(encoder: Result<u32, Error>, connector: ConnectorInfo) -> bool {
    match encoder {
        Ok(encoder) => connector.current_encoder == Some(encoder) || (
        connector.current_encoder is None && connector.encoders@.len() > 0 && encoder
            == connector.encoders@[0]),
        Err(err) => connector.current_encoder is None && connector.encoders@.len() == 0 && err@
            == Failure::of(ErrorKind::Other, "connector has no active encoder"@),
    }
}

/// The encoder that drives a connector, or else the first that could.
pub fn pick_encoder(connector: &ConnectorInfo) -> (encoder: Result<u32, Error>)
    ensures
        is_encoder_of(encoder, *connector),
{
    if let Some(encoder) = connector.current_encoder {
        Ok(encoder)
    } else if connector.encoders.len() > 0 {
        Ok(connector.encoders[0])
    } else {
        Err(Error::other("connector has no active encoder"))
    }
}

/// The CRTC of an encoder.
pub open spec fn is_crtc_of(crtc: Result<u32, Error>, current: Option<u32>, possible: Seq<u32>) -> bool {
    match crtc {
        Ok(crtc) => current == Some(crtc) || (current is None && possible.len() > 0 && crtc
            == possible[0]),
        Err(err) => current is None && possible.len() == 0 && err@ == Failure::of(
            ErrorKind::Other,
            "encoder has no active CRTC"@,
        ),
    }
}

/// The CRTC that feeds an encoder, or else the first that could.
pub fn pick_crtc(current: Option<u32>, possible: &Vec<u32>) -> (crtc: Result<u32, Error>)
    ensures
        is_crtc_of(crtc, current, possible@),
{
    if let Some(crtc) = current {
        Ok(crtc)
    } else if possible.len() > 0 {
        Ok(possible[0])
    } else {
        Err(Error::other("encoder has no active CRTC"))
    }
}

/// The kinds of planes, by the value of a plane's `type` property.
pub const PLANE_TYPE_OVERLAY: u64 = 0;

pub const PLANE_TYPE_PRIMARY: u64 = 1;

pub const PLANE_TYPE_CURSOR: u64 = 2;

/// A property of a plane; the name is missing where it could not be read.
#[derive(Debug)]
pub struct PlaneProperty {
    pub name: Option<String>,
    pub value: u64,
}

pub open spec fn has_name(property: PlaneProperty, name: Seq<char>) -> bool {
    property.name matches Some(n) && n@ == name
}

/// The value of the last property of that name.
pub open spec fn property_value(properties: Seq<PlaneProperty>, name: Seq<char>) -> Option<u64>
    decreases properties.len(),
{
    if properties.len() == 0 {
        None
    } else if has_name(properties.last(), name) {
        Some(properties.last().value)
    } else {
        property_value(properties.drop_last(), name)
    }
}

/// A framebuffer with the kind of the plane that shows it.
#[derive(Clone, Copy, PartialEq, Eq, Debug, Structural)]
pub struct TypedFramebuffer {
    pub plane_type: u64,
    pub framebuffer: u32,
}

impl Ranked for TypedFramebuffer {
    open spec fn precedes(&self, other: &Self) -> bool {
        self.plane_type == PLANE_TYPE_PRIMARY && other.plane_type != PLANE_TYPE_PRIMARY
    }

    proof fn asymmetric(a: &Self, b: &Self) {
    }

    proof fn negatively_transitive(a: &Self, b: &Self, c: &Self) {
    }

    fn ranks_before(&self, other: &Self) -> (less: bool) {
        self.plane_type == PLANE_TYPE_PRIMARY && other.plane_type != PLANE_TYPE_PRIMARY
    }
}

/// What a plane shows on `crtc`, if its properties say that it shows anything
/// there; the cursor's plane shows nothing of the desktop.
pub open spec fn shown_by(properties: Seq<PlaneProperty>, crtc: u32) -> Option<TypedFramebuffer> {
    let plane_type = match property_value(properties, "type"@) {
        Some(plane_type) => plane_type,
        None => PLANE_TYPE_OVERLAY,
    };
    match (property_value(properties, "CRTC_ID"@), property_value(properties, "FB_ID"@)) {
        (Some(on), Some(bound)) => if on as u32 == crtc && bound as u32 != 0 && plane_type
            != PLANE_TYPE_CURSOR {
            Some(TypedFramebuffer { plane_type, framebuffer: bound as u32 })
        } else {
            None
        },
        _ => None,
    }
}

/// What `pick` finds in those that could be read, in their order.
pub open spec fn picked<P, T>(
    read: Seq<Result<P, Error>>,
    pick: spec_fn(P) -> Option<T>,
) -> Seq<T>
    decreases read.len(),
{
    if read.len() == 0 {
        Seq::empty()
    } else {
        let head = picked(read.drop_last(), pick);
        match read.last() {
            Ok(one) => match pick(one) {
                Some(found) => head.push(found),
                None => head,
            },
            Err(_) => head,
        }
    }
}

/// What the planes whose properties could be read show on `crtc`.
pub open spec fn shown_by_all(
    planes: Seq<Result<Vec<PlaneProperty>, Error>>,
    crtc: u32,
) -> Seq<TypedFramebuffer> {
    picked(planes, |properties: Vec<PlaneProperty>| shown_by(properties@, crtc))
}

/// `s` without what already occurred before.
pub open spec fn distinct(s: Seq<u32>) -> Seq<u32>
    decreases s.len(),
{
    if s.len() == 0 {
        s
    } else {
        let head = distinct(s.drop_last());
        if head.contains(s.last()) {
            head
        } else {
            head.push(s.last())
        }
    }
}

pub open spec fn handles(s: Seq<TypedFramebuffer>) -> Seq<u32> {
    s.map_values(|shown: TypedFramebuffer| shown.framebuffer)
}

/// The framebuffers that the planes' properties bind to `crtc`: the desktop's
/// plane first, overlays behind it, none twice.
pub open spec fn typed(planes: Seq<Result<Vec<PlaneProperty>, Error>>, crtc: u32) -> Seq<u32> {
    distinct(handles(order::sorted(shown_by_all(planes, crtc))))
}

fn is_named(property: &PlaneProperty, name: &str) -> (named: bool)
    ensures
        named == has_name(*property, name@),
{
    match &property.name {
        Some(n) => text::equals(n.as_str(), name),
        None => false,
    }
}

/// `control::from_u32` makes a framebuffer's handle of every number but zero.
#[verifier::external_body]
fn framebuffer_handle(raw: u32) -> (handle: Option<u32>)
    ensures
        handle == (if raw == 0 {
            None
        } else {
            Some(raw)
        }),
{
    drm::control::from_u32::<framebuffer::Handle>(raw).map(u32::from)
}

fn find_shown(properties: &Vec<PlaneProperty>, crtc: u32) -> (shown: Option<TypedFramebuffer>)
    ensures
        shown == shown_by(properties@, crtc),
{
    let mut plane_type: Option<u64> = None;
    let mut on: Option<u32> = None;
    let mut bound: Option<u32> = None;
    proof {
        reveal_strlit("type");
        reveal_strlit("CRTC_ID");
        reveal_strlit("FB_ID");
        assert("type"@.len() == 4 && "CRTC_ID"@.len() == 7 && "FB_ID"@.len() == 5);
    }
    for i in 0..properties.len()
        invariant
            "type"@.len() == 4 && "CRTC_ID"@.len() == 7 && "FB_ID"@.len() == 5,
            plane_type == property_value(properties@.take(i as int), "type"@),
            match property_value(properties@.take(i as int), "CRTC_ID"@) {
                Some(value) => on == Some(value as u32),
                None => on is None,
            },
            match property_value(properties@.take(i as int), "FB_ID"@) {
                Some(value) => bound == Some(value as u32),
                None => bound is None,
            },
    {
        assert(properties@.take(i + 1).drop_last() =~= properties@.take(i as int));
        let property = &properties[i];
        if is_named(property, "type") {
            plane_type = Some(property.value);
        } else if is_named(property, "CRTC_ID") {
            on = Some(property.value as u32);
        } else if is_named(property, "FB_ID") {
            bound = Some(property.value as u32);
        }
    }
    assert(properties@.take(properties@.len() as int) =~= properties@);
    match on {
        Some(on) => if on != crtc {
            return None;
        },
        None => {
            return None;
        },
    }
    let framebuffer: u32 = match bound {
        Some(bound) => match framebuffer_handle(bound) {
            Some(framebuffer) => framebuffer,
            None => {
                return None;
            },
        },
        None => {
            return None;
        },
    };
    let plane_type: u64 = plane_type.unwrap_or(PLANE_TYPE_OVERLAY);
    if plane_type == PLANE_TYPE_CURSOR {
        return None;
    }
    Some(TypedFramebuffer { plane_type, framebuffer })
}

fn push_unique_framebuffer(framebuffers: &mut Vec<u32>, framebuffer: u32)
    ensures
        final(framebuffers)@ == (if old(framebuffers)@.contains(framebuffer) {
            old(framebuffers)@
        } else {
            old(framebuffers)@.push(framebuffer)
        }),
{
    for i in 0..framebuffers.len()
        invariant
            framebuffers@ == old(framebuffers)@,
            forall|j: int| 0 <= j < i ==> framebuffers@[j] != framebuffer,
    {
        if framebuffers[i] == framebuffer {
            assert(framebuffers@[i as int] == framebuffer);
            return;
        }
    }
    framebuffers.push(framebuffer);
}

/// The framebuffers that the planes' properties bind to `crtc`.
pub fn typed_framebuffers(planes: &Vec<Result<Vec<PlaneProperty>, Error>>, crtc: u32) -> (found: Vec<
    u32,
>)
    ensures
        found@ == typed(planes@, crtc),
{
    let mut shown: Vec<TypedFramebuffer> = Vec::new();
    for i in 0..planes.len()
        invariant
            shown@ == shown_by_all(planes@.take(i as int), crtc),
    {
        assert(planes@.take(i + 1).drop_last() =~= planes@.take(i as int));
        if let Ok(properties) = &planes[i] {
            if let Some(framebuffer) = find_shown(properties, crtc) {
                shown.push(framebuffer);
            }
        }
    }
    assert(planes@.take(planes@.len() as int) =~= planes@);
    let ranked = order::sort(shown);
    let mut found: Vec<u32> = Vec::new();
    for i in 0..ranked.len()
        invariant
            found@ == distinct(handles(ranked@.take(i as int))),
    {
        assert(handles(ranked@.take(i + 1)).drop_last() =~= handles(ranked@.take(i as int)));
        push_unique_framebuffer(&mut found, ranked[i].framebuffer);
    }
    assert(ranked@.take(ranked@.len() as int) =~= ranked@);
    found
}

/// What the older plane query says of a plane: its CRTC, its framebuffer and
/// the framebuffer's size, as far as it could be read. The query does not tell
/// the kind of the plane; its properties do, where they can be read.
#[derive(Clone, Copy, Debug)]
pub struct LegacyPlane {
    pub crtc: Option<u32>,
    pub framebuffer: Option<u32>,
    pub size: Option<(u32, u32)>,
    pub plane_type: Option<u64>,
}

/// The kind of a plane, if its properties tell.
pub fn plane_type(properties: &Vec<PlaneProperty>) -> (plane_type: Option<u64>)
    ensures
        plane_type == property_value(properties@, "type"@),
{
    let mut plane_type: Option<u64> = None;
    for i in 0..properties.len()
        invariant
            plane_type == property_value(properties@.take(i as int), "type"@),
    {
        assert(properties@.take(i + 1).drop_last() =~= properties@.take(i as int));
        if is_named(&properties[i], "type") {
            plane_type = Some(properties[i].value);
        }
    }
    assert(properties@.take(properties@.len() as int) =~= properties@);
    plane_type
}

/// The framebuffer that a plane shows on a CRTC.
pub open spec fn is_shown_on(
    wanted: Option<u32>,
    crtc: u32,
    plane_crtc: Option<u32>,
    framebuffer: Option<u32>,
) -> bool {
    wanted == (if plane_crtc == Some(crtc) {
        framebuffer
    } else {
        None
    })
}

/// The framebuffer whose size is worth reading: that of a plane on `crtc`.
pub fn framebuffer_on(crtc: u32, plane_crtc: Option<u32>, framebuffer: Option<u32>) -> (wanted:
    Option<u32>)
    ensures
        is_shown_on(wanted, crtc, plane_crtc, framebuffer),
{
    match plane_crtc {
        Some(on) => if on == crtc {
            framebuffer
        } else {
            None
        },
        None => None,
    }
}

/// A framebuffer with what it is ranked by: whether it covers the display's
/// mode, and its area.
#[derive(Clone, Copy, PartialEq, Eq, Debug, Structural)]
pub struct Candidate {
    pub covers_mode: bool,
    pub area: u64,
    pub framebuffer: u32,
}

impl Ranked for Candidate {
    open spec fn precedes(&self, other: &Self) -> bool {
        ||| self.covers_mode && !other.covers_mode
        ||| self.covers_mode == other.covers_mode && self.area > other.area
    }

    proof fn asymmetric(a: &Self, b: &Self) {
    }

    proof fn negatively_transitive(a: &Self, b: &Self, c: &Self) {
    }

    fn ranks_before(&self, other: &Self) -> (less: bool) {
        (self.covers_mode && !other.covers_mode) || (self.covers_mode == other.covers_mode
            && self.area > other.area)
    }
}

/// What a plane shows on `crtc`, if the older query says that it shows anything
/// there; the cursor's plane shows nothing of the desktop.
pub open spec fn candidate_of(
    plane: LegacyPlane,
    crtc: u32,
    min_width: usize,
    min_height: usize,
) -> Option<Candidate> {
    match (plane.framebuffer, plane.size) {
        (Some(framebuffer), Some((width, height))) => if plane.crtc == Some(crtc)
            && plane.plane_type != Some(PLANE_TYPE_CURSOR) {
            Some(
                Candidate {
                    covers_mode: width >= min_width && height >= min_height,
                    area: (width * height) as u64,
                    framebuffer,
                },
            )
        } else {
            None
        },
        _ => None,
    }
}

/// What the planes that could be read show on `crtc`.
pub open spec fn candidates(
    planes: Seq<Result<LegacyPlane, Error>>,
    crtc: u32,
    min_width: usize,
    min_height: usize,
) -> Seq<Candidate> {
    picked(planes, |plane: LegacyPlane| candidate_of(plane, crtc, min_width, min_height))
}

pub open spec fn candidate_handles(s: Seq<Candidate>) -> Seq<u32> {
    s.map_values(|candidate: Candidate| candidate.framebuffer)
}

/// The framebuffers that the older queries bind to `crtc` by planes that are not
/// known to be the cursor's, by how well they cover the mode, and the CRTC's own
/// framebuffer behind them, none twice.
pub open spec fn legacy(
    planes: Seq<Result<LegacyPlane, Error>>,
    crtc: u32,
    crtc_framebuffer: Option<u32>,
    min_width: usize,
    min_height: usize,
) -> Seq<u32> {
    let ranked = candidate_handles(order::sorted(candidates(planes, crtc, min_width, min_height)));
    match crtc_framebuffer {
        Some(framebuffer) => distinct(ranked.push(framebuffer)),
        None => distinct(ranked),
    }
}

fn find_candidate(plane: &LegacyPlane, crtc: u32, min_width: usize, min_height: usize) -> (found:
    Option<Candidate>)
    ensures
        found == candidate_of(*plane, crtc, min_width, min_height),
{
    if let Some(plane_type) = plane.plane_type {
        if plane_type == PLANE_TYPE_CURSOR {
            return None;
        }
    }
    match framebuffer_on(crtc, plane.crtc, plane.framebuffer) {
        Some(framebuffer) => match plane.size {
            Some((width, height)) => {
                proof {
                    assert(width * height <= 0xffff_ffff * 0xffff_ffff) by (nonlinear_arith)
                        requires
                            width <= 0xffff_ffff,
                            height <= 0xffff_ffff,
                    ;
                    assert(0 <= width * height) by (nonlinear_arith)
                        requires
                            width >= 0,
                            height >= 0,
                    ;
                }
                Some(
                    Candidate {
                        covers_mode: width as usize >= min_width && height as usize >= min_height,
                        area: width as u64 * height as u64,
                        framebuffer,
                    },
                )
            },
            None => None,
        },
        None => None,
    }
}

fn legacy_framebuffers(
    planes: &Vec<Result<LegacyPlane, Error>>,
    crtc: u32,
    crtc_framebuffer: Option<u32>,
    min_width: usize,
    min_height: usize,
) -> (found: Vec<u32>)
    ensures
        found@ == legacy(planes@, crtc, crtc_framebuffer, min_width, min_height),
{
    let mut shown: Vec<Candidate> = Vec::new();
    for i in 0..planes.len()
        invariant
            shown@ == candidates(planes@.take(i as int), crtc, min_width, min_height),
    {
        assert(planes@.take(i + 1).drop_last() =~= planes@.take(i as int));
        if let Ok(plane) = &planes[i] {
            if let Some(candidate) = find_candidate(plane, crtc, min_width, min_height) {
                shown.push(candidate);
            }
        }
    }
    assert(planes@.take(planes@.len() as int) =~= planes@);
    let ranked = order::sort(shown);
    let mut found: Vec<u32> = Vec::new();
    for i in 0..ranked.len()
        invariant
            found@ == distinct(candidate_handles(ranked@.take(i as int))),
    {
        assert(candidate_handles(ranked@.take(i + 1)).drop_last() =~= candidate_handles(
            ranked@.take(i as int),
        ));
        push_unique_framebuffer(&mut found, ranked[i].framebuffer);
    }
    assert(ranked@.take(ranked@.len() as int) =~= ranked@);
    if let Some(framebuffer) = crtc_framebuffer {
        let ghost handles = candidate_handles(ranked@);
        assert(handles.push(framebuffer).drop_last() =~= handles);
        push_unique_framebuffer(&mut found, framebuffer);
    }
    found
}

/// The outcome of looking for a CRTC's framebuffers.
#[derive(Debug)]
pub enum Resolution {
    /// These are the framebuffers, the most promising one first.
    Found(Vec<u32>),
    /// The properties show nothing: the older queries are needed.
    NeedsLegacyPlanes,
}

pub open spec fn no_framebuffer() -> Failure {
    Failure::of(ErrorKind::Other, "crtc has no active framebuffer"@)
}

/// What is shown on a CRTC, as far as it can be told.
pub open spec fn is_resolved(
    resolved: Result<Resolution, Error>,
    crtc: u32,
    crtc_framebuffer: Option<u32>,
    planes: Seq<Result<Vec<PlaneProperty>, Error>>,
    legacy_planes: Option<Result<Vec<Result<LegacyPlane, Error>>, Error>>,
    min_width: usize,
    min_height: usize,
) -> bool {
    match resolved {
        Ok(Resolution::Found(found)) => if typed(planes, crtc).len() > 0 {
            found@ == typed(planes, crtc)
        } else {
            &&& found@.len() > 0
            &&& legacy_planes matches Some(Ok(older))
            &&& found@ == legacy(older@, crtc, crtc_framebuffer, min_width, min_height)
        },
        Ok(Resolution::NeedsLegacyPlanes) => typed(planes, crtc).len() == 0
            && legacy_planes is None,
        Err(err) => typed(planes, crtc).len() == 0 && match legacy_planes {
            Some(Ok(older)) => err@ == no_framebuffer() && legacy(
                older@,
                crtc,
                crtc_framebuffer,
                min_width,
                min_height,
            ).len() == 0,
            Some(Err(failure)) => err == failure,
            None => false,
        },
    }
}

/// Finds the framebuffers that `crtc` scans out. A plane's properties decide;
/// compositors that drive planes atomically leave the older fields at zero. Only
/// where no plane but the cursor's is bound by its properties to the CRTC with a
/// framebuffer do the older queries and the CRTC's own framebuffer count. Either
/// way no plane that is known to be the cursor's counts.
pub fn resolve_framebuffers(
    crtc: u32,
    crtc_framebuffer: Option<u32>,
    planes: &Vec<Result<Vec<PlaneProperty>, Error>>,
    legacy_planes: Option<Result<Vec<Result<LegacyPlane, Error>>, Error>>,
    min_width: usize,
    min_height: usize,
) -> (resolved: Result<Resolution, Error>)
    ensures
        is_resolved(
            resolved,
            crtc,
            crtc_framebuffer,
            planes@,
            legacy_planes,
            min_width,
            min_height,
        ),
{
    let found = typed_framebuffers(planes, crtc);
    if found.len() > 0 {
        return Ok(Resolution::Found(found));
    }
    match legacy_planes {
        None => Ok(Resolution::NeedsLegacyPlanes),
        Some(Err(err)) => Err(err),
        Some(Ok(older)) => {
            let found = legacy_framebuffers(
                &older,
                crtc,
                crtc_framebuffer,
                min_width,
                min_height,
            );
            if found.len() == 0 {
                return Err(Error::other("crtc has no active framebuffer"));
            }
            Ok(Resolution::Found(found))
        },
    }
}

/// The most promising of a CRTC's framebuffers.
pub fn first_framebuffer(framebuffers: &Vec<u32>) -> (first: Result<u32, Error>)
    ensures
        match first {
            Ok(first) => framebuffers@.len() > 0 && first == framebuffers@[0],
            Err(err) => framebuffers@.len() == 0 && err@ == no_framebuffer(),
        },
{
    if framebuffers.len() == 0 {
        return Err(Error::other("crtc has no active framebuffer"));
    }
    Ok(framebuffers[0])
}

proof fn lemma_distinct(s: Seq<u32>)
    ensures
        distinct(s).no_duplicates(),
        forall|x: u32|
            #![trigger distinct(s).contains(x)]
            #![trigger s.contains(x)]
            distinct(s).contains(x) <==> s.contains(x),
        s.len() > 0 ==> distinct(s).len() > 0 && distinct(s)[0] == s[0],
    decreases s.len(),
{
    if s.len() > 0 {
        let head = s.drop_last();
        lemma_distinct(head);
        assert forall|x: u32|
            #![trigger distinct(s).contains(x)]
            #![trigger s.contains(x)]
            distinct(s).contains(x) <==> s.contains(x) by {
            if s.contains(x) {
                let i = choose|i: int| 0 <= i < s.len() && s[i] == x;
                if i < head.len() {
                    assert(head[i] == x);
                    assert(head.contains(x));
                    let k = choose|k: int| 0 <= k < distinct(head).len() && distinct(head)[k] == x;
                    assert(distinct(s)[k] == x);
                } else if !distinct(head).contains(x) {
                    assert(distinct(s)[distinct(head).len() as int] == x);
                }
            }
            if distinct(s).contains(x) {
                let k = choose|k: int| 0 <= k < distinct(s).len() && distinct(s)[k] == x;
                if k < distinct(head).len() {
                    assert(distinct(head)[k] == x);
                    assert(distinct(head).contains(x));
                    let i = choose|i: int| 0 <= i < head.len() && head[i] == x;
                    assert(s[i] == x);
                } else {
                    assert(s[s.len() - 1] == x);
                }
            }
        }
        if head.len() == 0 {
            assert(distinct(s) =~= seq![s.last()]);
        }
    }
}

/// `pick` finds `x` in one of those that could be read.
spec fn is_picked<P, T>(read: Seq<Result<P, Error>>, pick: spec_fn(P) -> Option<T>, x: T) -> bool {
    exists|i: int|
        0 <= i < read.len() && (#[trigger] read[i] matches Ok(one) && pick(one) == Some(x))
}

proof fn lemma_picked<P, T>(read: Seq<Result<P, Error>>, pick: spec_fn(P) -> Option<T>, x: T)
    ensures
        picked(read, pick).contains(x) <==> is_picked(read, pick, x),
    decreases read.len(),
{
    if read.len() > 0 {
        let head = read.drop_last();
        let found = picked(head, pick);
        let all = picked(read, pick);
        lemma_picked(head, pick, x);
        if all.contains(x) {
            let k = choose|k: int| 0 <= k < all.len() && all[k] == x;
            if k < found.len() {
                assert(found[k] == x);
                assert(found.contains(x));
                let i = choose|i: int|
                    0 <= i < head.len() && (#[trigger] head[i] matches Ok(one) && pick(one)
                        == Some(x));
                assert(read[i] == head[i]);
            } else {
                assert(read[read.len() - 1] == read.last());
            }
        }
        if is_picked(read, pick, x) {
            let i = choose|i: int|
                0 <= i < read.len() && (#[trigger] read[i] matches Ok(one) && pick(one) == Some(
                    x,
                ));
            if i < head.len() {
                assert(head[i] == read[i]);
                assert(is_picked(head, pick, x));
                let k = choose|k: int| 0 <= k < found.len() && found[k] == x;
                assert(all[k] == x);
            } else {
                assert(all[found.len() as int] == x);
            }
        }
    }
}

proof fn lemma_shown(planes: Seq<Result<Vec<PlaneProperty>, Error>>, crtc: u32)
    ensures
        forall|x: TypedFramebuffer| #[trigger]
            shown_by_all(planes, crtc).contains(x) <==> exists|i: int|
                0 <= i < planes.len() && (#[trigger] planes[i] matches Ok(properties) && shown_by(
                    properties@,
                    crtc,
                ) == Some(x)),
{
    assert forall|x: TypedFramebuffer| #[trigger]
        shown_by_all(planes, crtc).contains(x) <==> exists|i: int|
            0 <= i < planes.len() && (#[trigger] planes[i] matches Ok(properties) && shown_by(
                properties@,
                crtc,
            ) == Some(x)) by {
        lemma_picked(planes, |properties: Vec<PlaneProperty>| shown_by(properties@, crtc), x);
    }
}

proof fn lemma_sorted_contains<T: Ranked>(s: Seq<T>, x: T)
    ensures
        order::sorted(s).contains(x) <==> s.contains(x),
{
    broadcast use vstd::seq_lib::group_to_multiset_ensures;

    order::law_sorted_keeps_items(s);
    assert(order::sorted(s).contains(x) <==> order::sorted(s).to_multiset().count(x) > 0);
    assert(s.contains(x) <==> s.to_multiset().count(x) > 0);
}

/// No framebuffer is named twice, whichever way the framebuffers were found.
pub proof fn law_framebuffers_are_distinct(
    planes: Seq<Result<Vec<PlaneProperty>, Error>>,
    older: Seq<Result<LegacyPlane, Error>>,
    crtc: u32,
    crtc_framebuffer: Option<u32>,
    min_width: usize,
    min_height: usize,
)
    ensures
        typed(planes, crtc).no_duplicates(),
        legacy(older, crtc, crtc_framebuffer, min_width, min_height).no_duplicates(),
{
    lemma_distinct(handles(order::sorted(shown_by_all(planes, crtc))));
    let ranked = candidate_handles(
        order::sorted(candidates(older, crtc, min_width, min_height)),
    );
    lemma_distinct(ranked);
    if let Some(framebuffer) = crtc_framebuffer {
        lemma_distinct(ranked.push(framebuffer));
    }
}

/// Exactly those framebuffers are found by properties that a plane other than
/// the cursor's shows on the CRTC.
pub proof fn law_typed_framebuffers_are_shown(
    planes: Seq<Result<Vec<PlaneProperty>, Error>>,
    crtc: u32,
    framebuffer: u32,
)
    ensures
        typed(planes, crtc).contains(framebuffer) <==> exists|i: int|
            0 <= i < planes.len() && (#[trigger] planes[i] matches Ok(properties) && shown_by(
                properties@,
                crtc,
            ) matches Some(shown) && shown.framebuffer == framebuffer && shown.plane_type
                != PLANE_TYPE_CURSOR),
{
    let shown = shown_by_all(planes, crtc);
    let ranked = order::sorted(shown);
    lemma_distinct(handles(ranked));
    lemma_shown(planes, crtc);
    if typed(planes, crtc).contains(framebuffer) {
        assert(handles(ranked).contains(framebuffer));
        let k = choose|k: int| 0 <= k < ranked.len() && handles(ranked)[k] == framebuffer;
        lemma_sorted_contains(shown, ranked[k]);
        assert(ranked.contains(ranked[k]));
    }
    if exists|i: int|
        0 <= i < planes.len() && (#[trigger] planes[i] matches Ok(properties) && shown_by(
            properties@,
            crtc,
        ) matches Some(s) && s.framebuffer == framebuffer && s.plane_type != PLANE_TYPE_CURSOR) {
        let i = choose|i: int|
            0 <= i < planes.len() && (#[trigger] planes[i] matches Ok(properties) && shown_by(
                properties@,
                crtc,
            ) matches Some(s) && s.framebuffer == framebuffer && s.plane_type
                != PLANE_TYPE_CURSOR);
        let x = shown_by(planes[i]->Ok_0@, crtc).unwrap();
        assert(shown.contains(x));
        lemma_sorted_contains(shown, x);
        let k = choose|k: int| 0 <= k < ranked.len() && ranked[k] == x;
        assert(handles(ranked)[k] == framebuffer);
    }
}

/// Where the desktop's plane shows a framebuffer on the CRTC, such a framebuffer
/// comes first.
pub proof fn law_desktop_comes_first(
    planes: Seq<Result<Vec<PlaneProperty>, Error>>,
    crtc: u32,
    i: int,
)
    requires
        0 <= i < planes.len(),
        planes[i] matches Ok(properties) && shown_by(properties@, crtc) matches Some(shown)
            && shown.plane_type == PLANE_TYPE_PRIMARY,
    ensures
        typed(planes, crtc).len() > 0,
        on_desktop(planes, crtc, typed(planes, crtc)[0]),
{
    let shown = shown_by_all(planes, crtc);
    let ranked = order::sorted(shown);
    let x = shown_by(planes[i]->Ok_0@, crtc).unwrap();
    lemma_shown(planes, crtc);
    assert(shown.contains(x));
    lemma_sorted_contains(shown, x);
    let at = choose|at: int| 0 <= at < ranked.len() && ranked[at] == x;
    order::law_sorted_in_order(shown);
    lemma_distinct(handles(ranked));
    assert(!ranked[at].precedes(&ranked[0])) by {
        if at > 0 {
            assert(!ranked[at].precedes(&ranked[0]));
        }
    }
    lemma_sorted_contains(shown, ranked[0]);
    assert(ranked.contains(ranked[0]));
    assert(handles(ranked)[0] == ranked[0].framebuffer);
    assert(ranked[0] == TypedFramebuffer {
        plane_type: PLANE_TYPE_PRIMARY,
        framebuffer: typed(planes, crtc)[0],
    });
}

/// A plane of the desktop shows the framebuffer on the CRTC.
pub open spec fn on_desktop(
    planes: Seq<Result<Vec<PlaneProperty>, Error>>,
    crtc: u32,
    framebuffer: u32,
) -> bool {
    exists|k: int|
        0 <= k < planes.len() && (#[trigger] planes[k] matches Ok(properties) && shown_by(
            properties@,
            crtc,
        ) == Some(TypedFramebuffer { plane_type: PLANE_TYPE_PRIMARY, framebuffer }))
}

proof fn lemma_distinct_prefix(s: Seq<u32>, n: int)
    requires
        0 <= n <= s.len(),
    ensures
        distinct(s.take(n)).len() <= distinct(s).len(),
        distinct(s).take(distinct(s.take(n)).len() as int) == distinct(s.take(n)),
    decreases s.len() - n,
{
    if n < s.len() {
        lemma_distinct_prefix(s, n + 1);
        assert(s.take(n + 1).drop_last() =~= s.take(n));
        let shorter = distinct(s.take(n));
        let longer = distinct(s.take(n + 1));
        assert(longer.take(shorter.len() as int) =~= shorter);
        assert(distinct(s).take(shorter.len() as int) =~= distinct(s).take(
            longer.len() as int,
        ).take(shorter.len() as int));
    } else {
        assert(s.take(n) =~= s);
        assert(distinct(s).take(distinct(s).len() as int) =~= distinct(s));
    }
}

/// Every framebuffer that a plane of the desktop shows comes before every one
/// that only overlays show.
pub proof fn law_desktop_comes_before_overlays(
    planes: Seq<Result<Vec<PlaneProperty>, Error>>,
    crtc: u32,
    i: int,
    j: int,
)
    requires
        0 <= i < j < typed(planes, crtc).len(),
        on_desktop(planes, crtc, typed(planes, crtc)[j]),
    ensures
        on_desktop(planes, crtc, typed(planes, crtc)[i]),
{
    let shown = shown_by_all(planes, crtc);
    let ranked = order::sorted(shown);
    let found = distinct(handles(ranked));
    order::law_sorted_in_order(shown);
    lemma_shown(planes, crtc);
    let x = TypedFramebuffer { plane_type: PLANE_TYPE_PRIMARY, framebuffer: found[j] };
    assert(shown.contains(x));
    lemma_sorted_contains(shown, x);
    let at = choose|at: int| 0 <= at < ranked.len() && ranked[at] == x;
    let first = lemma_first_occurrence(handles(ranked), i, j);
    assert(handles(ranked)[at] == found[j]);
    assert(!ranked[at].precedes(&ranked[first]));
    assert(ranked[first] == TypedFramebuffer {
        plane_type: PLANE_TYPE_PRIMARY,
        framebuffer: found[i],
    });
    lemma_sorted_contains(shown, ranked[first]);
    assert(ranked.contains(ranked[first]));
    assert(shown.contains(ranked[first]));
}

proof fn lemma_candidates(
    planes: Seq<Result<LegacyPlane, Error>>,
    crtc: u32,
    min_width: usize,
    min_height: usize,
)
    ensures
        forall|x: Candidate| #[trigger]
            candidates(planes, crtc, min_width, min_height).contains(x) <==> exists|i: int|
                0 <= i < planes.len() && (#[trigger] planes[i] matches Ok(plane) && candidate_of(
                    plane,
                    crtc,
                    min_width,
                    min_height,
                ) == Some(x)),
{
    assert forall|x: Candidate| #[trigger]
        candidates(planes, crtc, min_width, min_height).contains(x) <==> exists|i: int|
            0 <= i < planes.len() && (#[trigger] planes[i] matches Ok(plane) && candidate_of(
                plane,
                crtc,
                min_width,
                min_height,
            ) == Some(x)) by {
        lemma_picked(
            planes,
            |plane: LegacyPlane| candidate_of(plane, crtc, min_width, min_height),
            x,
        );
    }
}

/// Where the older queries show framebuffers on the CRTC, the first is one that
/// no other beats: it covers the mode if any does, and among those that are alike
/// in this it is the largest.
pub proof fn law_best_legacy_framebuffer_comes_first(
    planes: Seq<Result<LegacyPlane, Error>>,
    crtc: u32,
    crtc_framebuffer: Option<u32>,
    min_width: usize,
    min_height: usize,
    i: int,
)
    requires
        0 <= i < planes.len(),
        planes[i] matches Ok(plane) && candidate_of(plane, crtc, min_width, min_height) is Some,
    ensures
        legacy(planes, crtc, crtc_framebuffer, min_width, min_height).len() > 0,
        exists|k: int|
            0 <= k < planes.len() && (#[trigger] planes[k] matches Ok(plane) && candidate_of(
                plane,
                crtc,
                min_width,
                min_height,
            ) matches Some(best) && best.framebuffer == legacy(
                planes,
                crtc,
                crtc_framebuffer,
                min_width,
                min_height,
            )[0] && !candidate_of(
                planes[i]->Ok_0,
                crtc,
                min_width,
                min_height,
            ).unwrap().precedes(&best)),
{
    let shown = candidates(planes, crtc, min_width, min_height);
    let ranked = order::sorted(shown);
    let x = candidate_of(planes[i]->Ok_0, crtc, min_width, min_height).unwrap();
    lemma_candidates(planes, crtc, min_width, min_height);
    assert(shown.contains(x));
    lemma_sorted_contains(shown, x);
    let at = choose|at: int| 0 <= at < ranked.len() && ranked[at] == x;
    order::law_sorted_in_order(shown);
    lemma_distinct(candidate_handles(ranked));
    if let Some(framebuffer) = crtc_framebuffer {
        lemma_distinct(candidate_handles(ranked).push(framebuffer));
    }
    assert(!ranked[at].precedes(&ranked[0])) by {
        if at > 0 {
            assert(!ranked[at].precedes(&ranked[0]));
        }
    }
    lemma_sorted_contains(shown, ranked[0]);
    assert(ranked.contains(ranked[0]));
    assert(candidate_handles(ranked)[0] == ranked[0].framebuffer);
}

/// Of two values without repetition, the former occurs before every occurrence of
/// the latter.
proof fn lemma_first_occurrence(s: Seq<u32>, i: int, j: int) -> (first: int)
    requires
        0 <= i < j < distinct(s).len(),
    ensures
        0 <= first < s.len(),
        s[first] == distinct(s)[i],
        forall|q: int| 0 <= q < s.len() && #[trigger] s[q] == distinct(s)[j] ==> first < q,
{
    let found = distinct(s);
    lemma_distinct(s);
    assert(found.contains(found[i]));
    s.index_of_first_ensures(found[i]);
    let first = s.index_of_first(found[i]).unwrap();
    let head = s.take(first);
    let upto = s.take(first + 1);
    lemma_distinct(head);
    lemma_distinct(upto);
    lemma_distinct_prefix(s, first + 1);
    assert(upto.drop_last() =~= head);
    assert(!head.contains(found[i]));
    let n = distinct(head).len() as int;
    assert(distinct(upto)[n] == found[i]);
    assert(found.take(distinct(upto).len() as int)[n] == found[n]);
    assert(n == i);
    assert forall|q: int| 0 <= q < s.len() && #[trigger] s[q] == found[j] implies first < q by {
        if q <= first {
            assert(upto[q] == found[j]);
            assert(upto.contains(found[j]));
            assert(distinct(upto).contains(found[j]));
            let k = choose|k: int| 0 <= k < distinct(upto).len() && distinct(upto)[k] == found[j];
            assert(found.take(distinct(upto).len() as int)[k] == found[k]);
            assert(k == j);
        }
    }
    first
}

/// The plane at `k` shows the framebuffer with that rank.
pub open spec fn offers(
    planes: Seq<Result<LegacyPlane, Error>>,
    crtc: u32,
    min_width: usize,
    min_height: usize,
    k: int,
    candidate: Candidate,
) -> bool {
    &&& 0 <= k < planes.len()
    &&& planes[k] matches Ok(plane) && candidate_of(plane, crtc, min_width, min_height) == Some(
        candidate,
    )
}

/// The older way ranks framebuffers by whether they cover the mode, and those
/// that are alike in this by area: one that comes before another is shown by a
/// plane with a rank that no rank of the other beats.
pub proof fn law_legacy_framebuffers_are_ranked(
    planes: Seq<Result<LegacyPlane, Error>>,
    crtc: u32,
    crtc_framebuffer: Option<u32>,
    min_width: usize,
    min_height: usize,
    i: int,
    j: int,
)
    requires
        0 <= i < j < legacy(planes, crtc, crtc_framebuffer, min_width, min_height).len(),
    ensures
        exists|k: int, best: Candidate| #[trigger]
            offers(planes, crtc, min_width, min_height, k, best) && best.framebuffer == legacy(
                planes,
                crtc,
                crtc_framebuffer,
                min_width,
                min_height,
            )[i] && forall|m: int, other: Candidate| #[trigger]
                offers(planes, crtc, min_width, min_height, m, other) && other.framebuffer
                    == legacy(planes, crtc, crtc_framebuffer, min_width, min_height)[j]
                    ==> !other.precedes(&best),
{
    let shown = candidates(planes, crtc, min_width, min_height);
    let ranked = order::sorted(shown);
    let handles = candidate_handles(ranked);
    let all = match crtc_framebuffer {
        Some(framebuffer) => handles.push(framebuffer),
        None => handles,
    };
    let found = distinct(all);
    order::law_sorted_in_order(shown);
    lemma_candidates(planes, crtc, min_width, min_height);
    lemma_distinct(all);
    let first = lemma_first_occurrence(all, i, j);
    assert(all.contains(found[j]));
    let q = choose|q: int| 0 <= q < all.len() && all[q] == found[j];
    assert(first < q);
    assert(first < ranked.len());
    let best = ranked[first];
    assert(all[first] == handles[first]);
    lemma_sorted_contains(shown, best);
    assert(ranked.contains(best));
    assert(shown.contains(best));
    let k = choose|k: int|
        0 <= k < planes.len() && (#[trigger] planes[k] matches Ok(plane) && candidate_of(
            plane,
            crtc,
            min_width,
            min_height,
        ) == Some(best));
    assert(offers(planes, crtc, min_width, min_height, k, best));
    assert forall|m: int, other: Candidate| #[trigger]
        offers(planes, crtc, min_width, min_height, m, other) && other.framebuffer
            == found[j] implies !other.precedes(&best) by {
        assert(planes[m] is Ok);
        assert(shown.contains(other));
        lemma_sorted_contains(shown, other);
        let at = choose|at: int| 0 <= at < ranked.len() && ranked[at] == other;
        assert(all[at] == found[j]);
        assert(!ranked[at].precedes(&ranked[first]));
    }
}

/// The older way offers the CRTC's own framebuffer, and besides it exactly those that
/// a plane which is not known to be the cursor's shows on the CRTC with a size that
/// could be read. What only the cursor's plane shows is not captured.
pub proof fn law_legacy_framebuffers_are_shown(
    planes: Seq<Result<LegacyPlane, Error>>,
    crtc: u32,
    crtc_framebuffer: Option<u32>,
    min_width: usize,
    min_height: usize,
    framebuffer: u32,
)
    ensures
        legacy(planes, crtc, crtc_framebuffer, min_width, min_height).contains(framebuffer) <==> {
            ||| crtc_framebuffer == Some(framebuffer)
            ||| exists|i: int|
                0 <= i < planes.len() && (#[trigger] planes[i] matches Ok(plane) && plane.crtc
                    == Some(crtc) && plane.framebuffer == Some(framebuffer) && plane.size is Some
                    && plane.plane_type != Some(PLANE_TYPE_CURSOR))
        },
{
    let shown = candidates(planes, crtc, min_width, min_height);
    let ranked = order::sorted(shown);
    let handles = candidate_handles(ranked);
    let all = match crtc_framebuffer {
        Some(own) => handles.push(own),
        None => handles,
    };
    lemma_distinct(all);
    lemma_candidates(planes, crtc, min_width, min_height);
    if all.contains(framebuffer) && crtc_framebuffer != Some(framebuffer) {
        let k = choose|k: int| 0 <= k < all.len() && all[k] == framebuffer;
        assert(k < ranked.len());
        assert(all[k] == handles[k]);
        lemma_sorted_contains(shown, ranked[k]);
        assert(ranked.contains(ranked[k]));
        assert(shown.contains(ranked[k]));
    }
    if crtc_framebuffer == Some(framebuffer) {
        assert(all[handles.len() as int] == framebuffer);
    }
    if exists|i: int|
        0 <= i < planes.len() && (#[trigger] planes[i] matches Ok(plane) && plane.crtc == Some(crtc)
            && plane.framebuffer == Some(framebuffer) && plane.size is Some && plane.plane_type
            != Some(PLANE_TYPE_CURSOR)) {
        let i = choose|i: int|
            0 <= i < planes.len() && (#[trigger] planes[i] matches Ok(plane) && plane.crtc == Some(
                crtc,
            ) && plane.framebuffer == Some(framebuffer) && plane.size is Some && plane.plane_type
                != Some(PLANE_TYPE_CURSOR));
        let x = candidate_of(planes[i]->Ok_0, crtc, min_width, min_height).unwrap();
        assert(shown.contains(x));
        lemma_sorted_contains(shown, x);
        let k = choose|k: int| 0 <= k < ranked.len() && ranked[k] == x;
        assert(handles[k] == framebuffer);
        assert(all[k] == framebuffer);
    }
}

/// The older way always offers the CRTC's own framebuffer.
pub proof fn law_crtc_framebuffer_is_offered(
    planes: Seq<Result<LegacyPlane, Error>>,
    crtc: u32,
    framebuffer: u32,
    min_width: usize,
    min_height: usize,
)
    ensures
        legacy(planes, crtc, Some(framebuffer), min_width, min_height).contains(framebuffer),
{
    law_legacy_framebuffers_are_shown(
        planes,
        crtc,
        Some(framebuffer),
        min_width,
        min_height,
        framebuffer,
    );
}

/// The property at `at` is the last one of that name.
pub open spec fn is_last_named(properties: Seq<PlaneProperty>, at: int, name: Seq<char>) -> bool {
    &&& 0 <= at < properties.len()
    &&& properties[at].name matches Some(own) && own@ == name
    &&& forall|later: int|
        at < later < properties.len() ==> !((#[trigger] properties[later]).name matches Some(own)
            && own@ == name)
}

proof fn lemma_property_value(properties: Seq<PlaneProperty>, name: Seq<char>)
    ensures
        forall|at: int| #[trigger]
            is_last_named(properties, at, name) ==> property_value(properties, name) == Some(
                properties[at].value,
            ),
        property_value(properties, name) is Some ==> exists|at: int| #[trigger]
            is_last_named(properties, at, name),
    decreases properties.len(),
{
    if properties.len() > 0 {
        let head = properties.drop_last();
        let end = properties.len() - 1;
        lemma_property_value(head, name);
        if has_name(properties.last(), name) {
            assert(is_last_named(properties, end, name));
            assert forall|at: int| #[trigger] is_last_named(properties, at, name) implies at
                == end by {
                if at < end {
                    assert(properties[end].name is Some);
                }
            }
        } else {
            assert forall|at: int| #[trigger]
                is_last_named(properties, at, name) implies property_value(properties, name)
                == Some(properties[at].value) by {
                assert(at != end);
                assert(is_last_named(head, at, name)) by {
                    assert forall|later: int| at < later < head.len() implies !((
                    #[trigger] head[later]).name matches Some(own) && own@ == name) by {
                        assert(properties[later] == head[later]);
                    }
                }
            }
            if property_value(properties, name) is Some {
                let at = choose|at: int| #[trigger] is_last_named(head, at, name);
                assert forall|later: int| at < later < properties.len() implies !((
                #[trigger] properties[later]).name matches Some(own) && own@ == name) by {
                    if later < end {
                        assert(properties[later] == head[later]);
                    }
                }
                assert(is_last_named(properties, at, name));
            }
        }
    }
}

/// Each property of a plane is read by its name, wherever it stands; of several of
/// one name the last counts. A plane shows a framebuffer on a CRTC exactly if its
/// `CRTC_ID` is the CRTC, its `FB_ID` is the framebuffer and is not zero, and its
/// `type` is not the cursor's, each number cut to its low bits.
pub proof fn law_properties_are_read_by_name(
    properties: Seq<PlaneProperty>,
    crtc: u32,
    shown: TypedFramebuffer,
)
    ensures
        shown_by(properties, crtc) == Some(shown) <==> {
            &&& exists|on: int| #[trigger]
                is_last_named(properties, on, "CRTC_ID"@) && properties[on].value as u32 == crtc
            &&& exists|bound: int| #[trigger]
                is_last_named(properties, bound, "FB_ID"@) && properties[bound].value as u32
                    == shown.framebuffer
            &&& shown.framebuffer != 0
            &&& shown.plane_type != 2
            &&& if exists|kind: int| #[trigger] is_last_named(properties, kind, "type"@) {
                exists|kind: int| #[trigger]
                    is_last_named(properties, kind, "type"@) && properties[kind].value
                        == shown.plane_type
            } else {
                shown.plane_type == 0
            }
        },
{
    lemma_property_value(properties, "CRTC_ID"@);
    lemma_property_value(properties, "FB_ID"@);
    lemma_property_value(properties, "type"@);
}

/// What a plane shows does not depend on the order of its properties: where each
/// name occurs once, one of them is `CRTC_ID` with the CRTC, one `FB_ID` with a
/// framebuffer, and none is a `type` that is the cursor's, the framebuffer is found.
pub proof fn law_plane_shows_whatever_the_order(
    planes: Seq<Result<Vec<PlaneProperty>, Error>>,
    crtc: u32,
    plane: int,
    on: int,
    bound: int,
)
    requires
        0 <= plane < planes.len(),
        planes[plane] matches Ok(properties) && {
            &&& forall|i: int, j: int|
                0 <= i < j < properties@.len() && (#[trigger] properties@[i]).name is Some && (
                #[trigger] properties@[j]).name is Some ==> properties@[i].name.unwrap()@
                    != properties@[j].name.unwrap()@
            &&& 0 <= on < properties@.len()
            &&& properties@[on].name matches Some(name) && name@ == "CRTC_ID"@
            &&& properties@[on].value as u32 == crtc
            &&& 0 <= bound < properties@.len()
            &&& properties@[bound].name matches Some(name) && name@ == "FB_ID"@
            &&& properties@[bound].value as u32 != 0
            &&& forall|i: int|
                0 <= i < properties@.len() ==> !((#[trigger] properties@[i]).name matches Some(name)
                    && name@ == "type"@ && properties@[i].value == 2)
        },
    ensures
        typed(planes, crtc).contains(planes[plane]->Ok_0@[bound].value as u32),
{
    let properties = planes[plane]->Ok_0@;
    let framebuffer = properties[bound].value as u32;
    assert(is_last_named(properties, on, "CRTC_ID"@));
    assert(is_last_named(properties, bound, "FB_ID"@));
    lemma_property_value(properties, "CRTC_ID"@);
    lemma_property_value(properties, "FB_ID"@);
    lemma_property_value(properties, "type"@);
    let plane_type = match property_value(properties, "type"@) {
        Some(plane_type) => plane_type,
        None => 0,
    };
    if property_value(properties, "type"@) is Some {
        let kind = choose|kind: int| #[trigger] is_last_named(properties, kind, "type"@);
        assert(properties[kind].value == plane_type);
    }
    let shown = TypedFramebuffer { plane_type, framebuffer };
    law_properties_are_read_by_name(properties, crtc, shown);
    assert(shown_by(properties, crtc) == Some(shown));
    law_typed_framebuffers_are_shown(planes, crtc, framebuffer);
}

/// These properties bind the framebuffer to the CRTC, and not as a cursor.
pub open spec fn bind(properties: Seq<PlaneProperty>, crtc: u32, framebuffer: u32) -> bool {
    &&& framebuffer != 0
    &&& exists|on: int| #[trigger]
        is_last_named(properties, on, "CRTC_ID"@) && properties[on].value as u32 == crtc
    &&& exists|bound: int| #[trigger]
        is_last_named(properties, bound, "FB_ID"@) && properties[bound].value as u32 == framebuffer
    &&& forall|kind: int| #[trigger]
        is_last_named(properties, kind, "type"@) ==> properties[kind].value != 2
}

/// A framebuffer is found by properties exactly if some plane's properties bind it to
/// the CRTC, whatever the other planes do.
pub proof fn law_typed_framebuffers_are_bound(
    planes: Seq<Result<Vec<PlaneProperty>, Error>>,
    crtc: u32,
    framebuffer: u32,
)
    ensures
        typed(planes, crtc).contains(framebuffer) <==> exists|plane: int|
            0 <= plane < planes.len() && (#[trigger] planes[plane] matches Ok(properties) && bind(
                properties@,
                crtc,
                framebuffer,
            )),
{
    law_typed_framebuffers_are_shown(planes, crtc, framebuffer);
    assert forall|plane: int| 0 <= plane < planes.len() implies (#[trigger] planes[plane] matches Ok(
        properties,
    ) ==> (bind(properties@, crtc, framebuffer) <==> (shown_by(properties@, crtc) matches Some(
        shown,
    ) && shown.framebuffer == framebuffer))) by {
        if let Ok(read) = planes[plane] {
            let properties = read@;
            lemma_property_value(properties, "CRTC_ID"@);
            lemma_property_value(properties, "FB_ID"@);
            lemma_property_value(properties, "type"@);
            let plane_type = match property_value(properties, "type"@) {
                Some(plane_type) => plane_type,
                None => 0,
            };
            law_properties_are_read_by_name(
                properties,
                crtc,
                TypedFramebuffer { plane_type, framebuffer },
            );
        }
    }
}

proof fn lemma_desktop_first(shown: Seq<TypedFramebuffer>)
    ensures
        order::sorted(shown) == shown.filter(|s: TypedFramebuffer| s.plane_type == 1)
            + shown.filter(|s: TypedFramebuffer| s.plane_type != 1),
    decreases shown.len(),
{
    let desktop = |s: TypedFramebuffer| s.plane_type == 1;
    let other = |s: TypedFramebuffer| s.plane_type != 1;
    reveal(Seq::filter);
    if shown.len() > 0 {
        let head = shown.drop_last();
        let x = shown.last();
        lemma_desktop_first(head);
        let first = head.filter(desktop);
        let rest = head.filter(other);
        assert(forall|i: int| 0 <= i < first.len() ==> desktop(#[trigger] first[i])) by {
            lemma_filtered(head, desktop);
        }
        assert(forall|i: int| 0 <= i < rest.len() ==> other(#[trigger] rest[i])) by {
            lemma_filtered(head, other);
        }
        if x.plane_type == 1 {
            order::lemma_placed_at(first + rest, x, first.len() as int);
            assert((first + rest).insert(first.len() as int, x) =~= first.push(x) + rest);
        } else {
            let all = first + rest;
            order::lemma_placed_at(all, x, all.len() as int);
            assert(all.insert(all.len() as int, x) =~= first + rest.push(x));
        }
        assert(shown =~= head.push(x));
    }
}

proof fn lemma_filtered(s: Seq<TypedFramebuffer>, keep: spec_fn(TypedFramebuffer) -> bool)
    ensures
        forall|i: int| 0 <= i < s.filter(keep).len() ==> keep(#[trigger] s.filter(keep)[i]),
    decreases s.len(),
{
    reveal(Seq::filter);
    if s.len() > 0 {
        lemma_filtered(s.drop_last(), keep);
    }
}

/// The framebuffers that planes show come in the order of the planes, but those of
/// the desktop's planes before all others; what occurred before is left out.
pub proof fn law_planes_keep_their_order(
    planes: Seq<Result<Vec<PlaneProperty>, Error>>,
    crtc: u32,
)
    ensures
        ({
            let shown = shown_by_all(planes, crtc);
            let desktop = shown.filter(|s: TypedFramebuffer| s.plane_type == 1);
            let others = shown.filter(|s: TypedFramebuffer| s.plane_type != 1);
            typed(planes, crtc) == distinct(
                (desktop + others).map_values(|s: TypedFramebuffer| s.framebuffer),
            )
        }),
{
    lemma_desktop_first(shown_by_all(planes, crtc));
}

/// Leaving out what occurred before leaves every value once, and the values in the
/// order in which they first occur.
pub proof fn law_distinct_keeps_first_occurrences(s: Seq<u32>, i: int, j: int)
    ensures
        distinct(s).no_duplicates(),
        forall|x: u32| distinct(s).contains(x) <==> #[trigger] s.contains(x),
        0 <= i < j < distinct(s).len() ==> exists|first: int|
            0 <= first < s.len() && #[trigger] s[first] == distinct(s)[i] && forall|other: int|
                0 <= other < s.len() && #[trigger] s[other] == distinct(s)[j] ==> first < other,
{
    lemma_distinct(s);
    if 0 <= i < j < distinct(s).len() {
        let first = lemma_first_occurrence(s, i, j);
        assert(s[first] == distinct(s)[i]);
    }
}

/// What is found in two parts of what was read is what is found in the one and behind
/// it what is found in the other; one that could be read gives what is found in it,
/// one that could not gives nothing.
pub proof fn law_findings_follow_each_other<P, T>(
    one: Seq<Result<P, Error>>,
    other: Seq<Result<P, Error>>,
    pick: spec_fn(P) -> Option<T>,
    p: P,
    err: Error,
)
    ensures
        picked(one + other, pick) == picked(one, pick) + picked(other, pick),
        picked(seq![Ok::<P, Error>(p)], pick) == (match pick(p) {
            Some(found) => seq![found],
            None => Seq::empty(),
        }),
        picked(seq![Err::<P, Error>(err)], pick) == Seq::<T>::empty(),
    decreases other.len(),
{
    reveal_with_fuel(picked, 2);
    if other.len() > 0 {
        law_findings_follow_each_other(one, other.drop_last(), pick, p, err);
        assert((one + other).drop_last() =~= one + other.drop_last());
        assert(picked(one + other, pick) =~= picked(one, pick) + picked(other, pick));
    } else {
        assert(one + other =~= one);
        assert(picked(one, pick) + picked(other, pick) =~= picked(one, pick));
    }
    assert(seq![Ok::<P, Error>(p)].drop_last() =~= Seq::empty());
    assert(seq![Err::<P, Error>(err)].drop_last() =~= Seq::empty());
}

/// Plane `plane`, which is no cursor, shows the framebuffer, of that size, on the CRTC.
pub open spec fn shows_sized(
    planes: Seq<Result<LegacyPlane, Error>>,
    crtc: u32,
    plane: int,
    framebuffer: u32,
    width: u32,
    height: u32,
) -> bool {
    0 <= plane < planes.len() && (planes[plane] matches Ok(read) && read.crtc == Some(crtc)
        && read.framebuffer == Some(framebuffer) && read.plane_type != Some(2u64) && read.size
        == Some((width, height)))
}

/// The older way puts framebuffers that cover the mode before those that do not, and
/// of those that are alike in this the larger before the smaller: where one comes
/// before another, some plane shows it with a size that no size with which planes show
/// the other beats.
pub proof fn law_legacy_framebuffers_are_ranked_by_size(
    planes: Seq<Result<LegacyPlane, Error>>,
    crtc: u32,
    crtc_framebuffer: Option<u32>,
    min_width: usize,
    min_height: usize,
    i: int,
    j: int,
)
    requires
        0 <= i < j < legacy(planes, crtc, crtc_framebuffer, min_width, min_height).len(),
    ensures
        ({
            let found = legacy(planes, crtc, crtc_framebuffer, min_width, min_height);
            exists|k: int, width: u32, height: u32| #[trigger]
                shows_sized(planes, crtc, k, found[i], width, height) && forall|
                    m: int,
                    w: u32,
                    h: u32,
                | #[trigger]
                    shows_sized(planes, crtc, m, found[j], w, h) ==> {
                        let covers = width >= min_width && height >= min_height;
                        let other_covers = w >= min_width && h >= min_height;
                        &&& other_covers ==> covers
                        &&& other_covers == covers ==> w * h <= width * height
                    }
        }),
{
    law_legacy_framebuffers_are_ranked(
        planes,
        crtc,
        crtc_framebuffer,
        min_width,
        min_height,
        i,
        j,
    );
    let found = legacy(planes, crtc, crtc_framebuffer, min_width, min_height);
    let (k, best): (int, Candidate) = choose|k: int, best: Candidate| #[trigger]
        offers(planes, crtc, min_width, min_height, k, best) && best.framebuffer == found[i]
            && forall|m: int, other: Candidate| #[trigger]
            offers(planes, crtc, min_width, min_height, m, other) && other.framebuffer == found[j]
                ==> !other.precedes(&best);
    let (width, height) = planes[k]->Ok_0.size.unwrap();
    lemma_area(width, height);
    assert forall|m: int, w: u32, h: u32| #[trigger]
        shows_sized(planes, crtc, m, found[j], w, h) implies {
        let covers = width >= min_width && height >= min_height;
        let other_covers = w >= min_width && h >= min_height;
        &&& other_covers ==> covers
        &&& other_covers == covers ==> w * h <= width * height
    } by {
        let candidate = candidate_of(planes[m]->Ok_0, crtc, min_width, min_height).unwrap();
        lemma_area(w, h);
        assert(offers(planes, crtc, min_width, min_height, m, candidate));
        assert(!candidate.precedes(&best));
    }
    assert(shows_sized(planes, crtc, k, found[i], width, height));
}

proof fn lemma_area(width: u32, height: u32)
    ensures
        (width * height) as u64 == width * height,
{
    assert(0 <= width * height <= 0xffff_ffff * 0xffff_ffff) by (nonlinear_arith)
        requires
            0 <= width <= 0xffff_ffff,
            0 <= height <= 0xffff_ffff,
    ;
}

/// The older way hands out what planes show in the order of the planes where the sizes
/// do not decide: with areas of one size that all cover the mode or all do not, the
/// framebuffers come as the planes do, and the CRTC's own one behind them.
pub proof fn law_equal_sizes_keep_the_order(
    planes: Seq<Result<LegacyPlane, Error>>,
    crtc: u32,
    crtc_framebuffer: Option<u32>,
    min_width: usize,
    min_height: usize,
    area: int,
    covers: bool,
)
    requires
        forall|i: int|
            0 <= i < planes.len() ==> (#[trigger] planes[i] matches Ok(plane) ==> (
            plane.size matches Some((width, height)) ==> width * height == area && covers == (width
                >= min_width && height >= min_height))),
    ensures
        ({
            let shown = picked(
                planes,
                |plane: LegacyPlane|
                    if plane.crtc == Some(crtc) && plane.plane_type != Some(2u64)
                        && plane.size is Some {
                        plane.framebuffer
                    } else {
                        None
                    },
            );
            legacy(planes, crtc, crtc_framebuffer, min_width, min_height) == distinct(
                match crtc_framebuffer {
                    Some(own) => shown.push(own),
                    None => shown,
                },
            )
        }),
{
    let ranked = candidates(planes, crtc, min_width, min_height);
    lemma_equal_candidates(planes, crtc, min_width, min_height, area, covers);
    lemma_sorted_alike(ranked);
}

proof fn lemma_equal_candidates(
    planes: Seq<Result<LegacyPlane, Error>>,
    crtc: u32,
    min_width: usize,
    min_height: usize,
    area: int,
    covers: bool,
)
    requires
        forall|i: int|
            0 <= i < planes.len() ==> (#[trigger] planes[i] matches Ok(plane) ==> (
            plane.size matches Some((width, height)) ==> width * height == area && covers == (width
                >= min_width && height >= min_height))),
    ensures
        candidate_handles(candidates(planes, crtc, min_width, min_height)) == picked(
            planes,
            |plane: LegacyPlane|
                if plane.crtc == Some(crtc) && plane.plane_type != Some(2u64)
                    && plane.size is Some {
                    plane.framebuffer
                } else {
                    None
                },
        ),
        forall|i: int|
            0 <= i < candidates(planes, crtc, min_width, min_height).len() ==> (
            #[trigger] candidates(planes, crtc, min_width, min_height)[i]).covers_mode == covers
                && candidates(planes, crtc, min_width, min_height)[i].area == area as u64,
    decreases planes.len(),
{
    let pick = |plane: LegacyPlane|
        if plane.crtc == Some(crtc) && plane.plane_type != Some(2u64) && plane.size is Some {
            plane.framebuffer
        } else {
            None
        };
    let all = candidates(planes, crtc, min_width, min_height);
    if planes.len() > 0 {
        let head = planes.drop_last();
        assert forall|i: int| 0 <= i < head.len() implies (#[trigger] head[i] matches Ok(plane) ==> (
        plane.size matches Some((width, height)) ==> width * height == area && covers == (width
            >= min_width && height >= min_height))) by {
            assert(head[i] == planes[i]);
        }
        lemma_equal_candidates(head, crtc, min_width, min_height, area, covers);
        let before = candidates(head, crtc, min_width, min_height);
        assert(planes[planes.len() - 1] == planes.last());
        assert(candidate_handles(all) =~= picked(planes, pick));
        assert forall|i: int| 0 <= i < all.len() implies (#[trigger] all[i]).covers_mode == covers
            && all[i].area == area as u64 by {
            if i < before.len() {
                assert(all[i] == before[i]);
            }
        }
    } else {
        assert(candidate_handles(all) =~= picked(planes, pick));
    }
}

proof fn lemma_sorted_alike(s: Seq<Candidate>)
    requires
        forall|i: int, j: int|
            0 <= i < s.len() && 0 <= j < s.len() ==> (#[trigger] s[i]).covers_mode == (
            #[trigger] s[j]).covers_mode && s[i].area == s[j].area,
    ensures
        order::sorted(s) == s,
    decreases s.len(),
{
    if s.len() > 0 {
        let head = s.drop_last();
        lemma_sorted_alike(head);
        if head.len() > 0 {
            assert(!s[s.len() - 1].precedes(&s[s.len() - 2]));
        }
        assert(head.push(s.last()) =~= s);
    }
}

/// The name of a display's connector is what stands behind the first hyphen of the
/// display's name; without a hyphen there is none.
pub proof fn law_connector_stands_behind_the_card(card: Seq<char>, connector: Seq<char>)
    requires
        !card.contains('-'),
    ensures
        connector_part(card.push('-') + connector) == Some(connector),
        connector_part(card) is None,
{
    text::law_split_gives_the_parts(card, connector, '-');
}

/// A connector is the one that is looked for exactly if it could be read, is connected,
/// and is called by its type and number as the name says.
pub proof fn law_active_connector(connector: Result<ConnectorInfo, Error>, name: Seq<char>)
    ensures
        is_active(connector, name) <==> (connector matches Ok(info) && info.state
            == ConnectorState::Connected && interface_text(info.interface) + seq!['-']
            + text::decimal(info.interface_id as nat) == name),
{
    reveal_strlit("-");
    if let Ok(info) = connector {
        assert("-"@ =~= seq!['-']);
    }
}

/// What planes show by their properties is the answer if it is anything, whatever the
/// older way says; only without it is the older way asked, and counts.
pub proof fn law_properties_go_before_the_older_way(
    resolved: Result<Resolution, Error>,
    crtc: u32,
    crtc_framebuffer: Option<u32>,
    planes: Seq<Result<Vec<PlaneProperty>, Error>>,
    legacy_planes: Option<Result<Vec<Result<LegacyPlane, Error>>, Error>>,
    min_width: usize,
    min_height: usize,
    err: Error,
)
    requires
        is_resolved(
            resolved,
            crtc,
            crtc_framebuffer,
            planes,
            legacy_planes,
            min_width,
            min_height,
        ),
    ensures
        typed(planes, crtc).len() > 0 ==> (resolved matches Ok(Resolution::Found(found)) && found@
            == typed(planes, crtc)),
        typed(planes, crtc).len() == 0 && legacy_planes is None ==> (resolved matches Ok(
            Resolution::NeedsLegacyPlanes,
        )),
        typed(planes, crtc).len() == 0 && legacy_planes == Some(
            Err::<Vec<Result<LegacyPlane, Error>>, Error>(err),
        ) ==> resolved == Err::<Resolution, Error>(err),
        legacy_planes matches Some(Ok(older)) ==> (typed(planes, crtc).len() == 0 ==> {
            let shown = legacy(older@, crtc, crtc_framebuffer, min_width, min_height);
            &&& shown.len() > 0 ==> (resolved matches Ok(Resolution::Found(found)) && found@
                == shown)
            &&& shown.len() == 0 ==> (resolved matches Err(err) && err@ == Failure::of(
                ErrorKind::Other,
                "crtc has no active framebuffer"@,
            ))
        }),
{
}

/// Of several connected connectors of the name the first counts; there is none exactly
/// if none is connected and called so.
pub proof fn law_first_connector_counts(
    found: Result<ConnectorInfo, Error>,
    name: Seq<char>,
    connectors: Seq<Result<ConnectorInfo, Error>>,
    i: int,
)
    requires
        is_connector_of(found, name, connectors),
        0 <= i < connectors.len(),
        connectors[i] matches Ok(connector) && connector.state == ConnectorState::Connected
            && interface_text(connector.interface) + "-"@ + text::decimal(
            connector.interface_id as nat,
        ) == name,
    ensures
        found is Ok,
        exists|k: int| 0 <= k <= i && #[trigger] connectors[k] == found,
{
    assert(is_active(connectors[i], name));
}

/// A name is the wanted one if it is there and spelled alike, letter for letter.
pub proof fn law_titles_are_compared_letter_by_letter(title: String, wanted: Seq<char>)
    ensures
        !is_title(None, wanted),
        is_title(Some(title), wanted) <==> title@.len() == wanted.len() && forall|i: int|
            0 <= i < wanted.len() ==> #[trigger] title@[i] == wanted[i],
{
    if title@.len() == wanted.len() && forall|i: int|
        0 <= i < wanted.len() ==> #[trigger] title@[i] == wanted[i] {
        assert(title@ =~= wanted);
    }
}

/// The encoder that drives a connector counts, and else the first that could; the same
/// holds of the CRTC that feeds an encoder. What counts is known as soon as there is
/// one.
pub proof fn law_what_is_in_use_counts_first(
    connector: ConnectorInfo,
    encoder: Result<u32, Error>,
    current: Option<u32>,
    possible: Seq<u32>,
    crtc: Result<u32, Error>,
)
    requires
        is_encoder_of(encoder, connector),
        is_crtc_of(crtc, current, possible),
    ensures
        connector.current_encoder matches Some(own) ==> encoder == Ok::<u32, Error>(own),
        connector.current_encoder is None && connector.encoders@.len() > 0 ==> encoder == Ok::<
            u32,
            Error,
        >(connector.encoders@[0]),
        connector.current_encoder is None && connector.encoders@.len() == 0 ==> encoder is Err,
        current matches Some(own) ==> crtc == Ok::<u32, Error>(own),
        current is None && possible.len() > 0 ==> crtc == Ok::<u32, Error>(possible[0]),
        current is None && possible.len() == 0 ==> crtc is Err,
{
}

/// A plane shows its framebuffer on the CRTC that it stands on, and nothing on any
/// other.
pub proof fn law_plane_shows_on_its_crtc(
    wanted: Option<u32>,
    crtc: u32,
    plane_crtc: Option<u32>,
    framebuffer: Option<u32>,
)
    requires
        is_shown_on(wanted, crtc, plane_crtc, framebuffer),
    ensures
        wanted is Some ==> plane_crtc == Some(crtc) && wanted == framebuffer,
        plane_crtc == Some(crtc) ==> wanted == framebuffer,
{
}

/// Each plane counts for itself and in its place: what planes show is what the first of
/// them show and behind it what the others do, and a plane that could not be read shows
/// nothing.
pub proof fn law_each_plane_shows_for_itself(
    one: Seq<Result<Vec<PlaneProperty>, Error>>,
    plane: Result<Vec<PlaneProperty>, Error>,
    other: Seq<Result<Vec<PlaneProperty>, Error>>,
    crtc: u32,
)
    ensures
        shown_by_all(one + seq![plane] + other, crtc) == shown_by_all(one, crtc) + (match plane {
            Ok(properties) => match shown_by(properties@, crtc) {
                Some(shown) => seq![shown],
                None => Seq::empty(),
            },
            Err(_) => Seq::empty(),
        }) + shown_by_all(other, crtc),
        shown_by_all(Seq::empty(), crtc) == Seq::<TypedFramebuffer>::empty(),
{
    lemma_shown_by_all(one + seq![plane], other, crtc);
    lemma_shown_by_all(one, seq![plane], crtc);
    reveal_with_fuel(picked, 2);
    assert(seq![plane].drop_last() =~= Seq::empty());
    assert(shown_by_all(seq![plane], crtc) =~= match plane {
        Ok(properties) => match shown_by(properties@, crtc) {
            Some(shown) => seq![shown],
            None => Seq::empty(),
        },
        Err(_) => Seq::empty(),
    });
}

proof fn lemma_shown_by_all(
    one: Seq<Result<Vec<PlaneProperty>, Error>>,
    other: Seq<Result<Vec<PlaneProperty>, Error>>,
    crtc: u32,
)
    ensures
        shown_by_all(one + other, crtc) == shown_by_all(one, crtc) + shown_by_all(other, crtc),
    decreases other.len(),
{
    if other.len() > 0 {
        lemma_shown_by_all(one, other.drop_last(), crtc);
        assert((one + other).drop_last() =~= one + other.drop_last());
        assert(shown_by_all(one + other, crtc) =~= shown_by_all(one, crtc) + shown_by_all(
            other,
            crtc,
        ));
    } else {
        assert(one + other =~= one);
        assert(shown_by_all(one, crtc) + shown_by_all(other, crtc) =~= shown_by_all(one, crtc));
    }
}

} // verus!
