//! Displays that are captured straight from the kernel's mode setting.

use crate::error::{Error, ErrorKind, Failure};
use crate::order;
use crate::order::{Ranked, Turned};
use crate::sysfs::ConnectedMode;
use crate::text;
use vstd::prelude::*;

verus! {

/// A display as a helper reports it.
#[derive(Debug)]
pub struct HelperDisplay {
    pub card_path: String,
    pub connector_path: String,
    pub name: String,
    pub width: usize,
    pub height: usize,
    pub online: bool,
    pub can_open: bool,
}

#[derive(Debug)]
pub struct Display {
    pub card_path: String,
    pub connector_path: String,
    pub name: String,
    pub origin: (i32, i32),
    pub width: usize,
    pub height: usize,
    pub online: bool,
    pub primary: bool,
    pub accessible: bool,
}

impl Clone for Display {
    fn clone(&self) -> (copy: Display)
        ensures
            copy == *self,
    {
        Display {
            card_path: self.card_path.clone(),
            connector_path: self.connector_path.clone(),
            name: self.name.clone(),
            origin: self.origin,
            width: self.width,
            height: self.height,
            online: self.online,
            primary: self.primary,
            accessible: self.accessible,
        }
    }
}

impl Ranked for Display {
    /// Displays are ranked by name.
    open spec fn precedes(&self, other: &Self) -> bool {
        text::before(self.name@, other.name@)
    }

    proof fn asymmetric(a: &Self, b: &Self) {
        text::lemma_before_negatively_transitive(a.name@, b.name@, a.name@);
    }

    proof fn negatively_transitive(a: &Self, b: &Self, c: &Self) {
        text::lemma_before_negatively_transitive(a.name@, b.name@, c.name@);
    }

    fn ranks_before(&self, other: &Self) -> (less: bool) {
        text::sorts_before(self.name.as_str(), other.name.as_str())
    }
}

/// Where the displays come from.
#[derive(Debug)]
pub enum DisplaySource {
    /// A helper found them.
    Helper(Vec<HelperDisplay>),
    /// No helper answered: the entries of the local listing, as far as it and they
    /// could be read.
    Local(Result<Vec<Result<Option<Display>, Error>>, Error>),
}

/// What follows the question to a helper for displays.
#[derive(Debug)]
pub enum SourceStep {
    Use(DisplaySource),
    /// No helper answered: the entries of the local listing are to be read.
    ListLocally,
}

/// What follows the question to a helper for displays.
pub open spec fn is_step_after_probe(step: SourceStep, probed: Result<Vec<HelperDisplay>, Error>) -> bool {
    step == (match probed {
        Ok(found) => SourceStep::Use(DisplaySource::Helper(found)),
        Err(_) => SourceStep::ListLocally,
    })
}

/// Takes the displays that a helper found, if one answered.
pub fn take_probed(probed: Result<Vec<HelperDisplay>, Error>) -> (step: SourceStep)
    ensures
        is_step_after_probe(step, probed),
{
    match probed {
        Ok(found) => SourceStep::Use(DisplaySource::Helper(found)),
        Err(_) => SourceStep::ListLocally,
    }
}

pub open spec fn of_helper(found: HelperDisplay) -> Display {
    Display {
        card_path: found.card_path,
        connector_path: found.connector_path,
        name: found.name,
        origin: (0, 0),
        width: found.width,
        height: found.height,
        online: found.online,
        primary: false,
        accessible: found.can_open,
    }
}

impl Turned<Display> for HelperDisplay {
    open spec fn turned(self) -> Display {
        of_helper(self)
    }

    fn turn(self) -> (display: Display) {
        Display::from_helper_display(self)
    }
}

/// The entries that are displays, in their order.
pub open spec fn displays_among(entries: Seq<Result<Option<Display>, Error>>) -> Seq<Display>
    decreases entries.len(),
{
    if entries.len() == 0 {
        Seq::empty()
    } else {
        let head = displays_among(entries.drop_last());
        match entries.last() {
            Ok(Some(display)) => head.push(display),
            _ => head,
        }
    }
}

/// The displays of a source, in its order; none where the listing failed.
pub open spec fn listed(source: DisplaySource) -> Seq<Display> {
    match source {
        DisplaySource::Helper(found) => found@.map_values(|d: HelperDisplay| of_helper(d)),
        DisplaySource::Local(Ok(entries)) => displays_among(entries@),
        DisplaySource::Local(Err(_)) => Seq::empty(),
    }
}

/// `sum`, or the nearest number that an `i32` holds.
pub open spec fn saturated(sum: int) -> i32 {
    if sum > i32::MAX {
        i32::MAX
    } else if sum < i32::MIN {
        i32::MIN
    } else {
        sum as i32
    }
}

/// Where the display `n` starts when displays stand side by side.
pub open spec fn start_of(displays: Seq<Display>, n: int) -> i32
    decreases n,
{
    if n <= 0 {
        0
    } else {
        saturated(start_of(displays, n - 1) + (displays[n - 1].width as i32))
    }
}

/// Displays side by side, the first one primary.
pub open spec fn side_by_side(displays: Seq<Display>) -> Seq<Display> {
    Seq::new(
        displays.len(),
        |i: int|
            Display { origin: (start_of(displays, i), 0), primary: i == 0, ..displays[i] },
    )
}

/// Displays by name, side by side, the first one primary.
pub open spec fn arranged(displays: Seq<Display>) -> Seq<Display> {
    side_by_side(order::sorted(displays))
}

fn saturating_add(a: i32, b: i32) -> (sum: i32)
    ensures
        sum == saturated(a + b),
{
    let sum: i64 = a as i64 + b as i64;
    if sum > i32::MAX as i64 {
        i32::MAX
    } else if sum < i32::MIN as i64 {
        i32::MIN
    } else {
        sum as i32
    }
}

impl Display {
    pub fn from_helper_display(display: HelperDisplay) -> (made: Display)
        ensures
            made == of_helper(display),
    {
        Display {
            card_path: display.card_path,
            connector_path: display.connector_path,
            name: display.name,
            origin: (0, 0),
            width: display.width,
            height: display.height,
            online: display.online,
            primary: false,
            accessible: display.can_open,
        }
    }

    /// The display is that of the connector.
    pub open spec fn is_of_connector(
        made: Display,
        connector_path: String,
        name: String,
        mode: ConnectedMode,
        accessible: bool,
    ) -> bool {
        made == (Display {
            card_path: mode.card_path,
            connector_path,
            name,
            origin: (0, 0),
            width: mode.width,
            height: mode.height,
            online: true,
            primary: false,
            accessible,
        })
    }

    /// The display of a connector whose entry was read; `accessible` tells whether
    /// its card can be opened.
    pub fn from_connector_path(
        connector_path: String,
        name: String,
        mode: ConnectedMode,
        accessible: bool,
    ) -> (made: Display)
        ensures
            Display::is_of_connector(made, connector_path, name, mode, accessible),
    {
        Display {
            card_path: mode.card_path,
            connector_path,
            name,
            origin: (0, 0),
            width: mode.width,
            height: mode.height,
            online: true,
            primary: false,
            accessible,
        }
    }

    /// These are all displays of the source.
    pub open spec fn is_all(all: Result<Vec<Display>, Error>, source: DisplaySource) -> bool {
        match all {
            Ok(all) => !(source matches DisplaySource::Local(Err(_))) && all@ == arranged(
                listed(source),
            ),
            Err(err) => source matches DisplaySource::Local(Err(failure)) && err == failure,
        }
    }

    /// All displays of a source, by name and side by side.
    pub fn all(source: DisplaySource) -> (all: Result<Vec<Display>, Error>)
        ensures
            Display::is_all(all, source),
    {
        let mut entries: Vec<Display> = Vec::new();
        match source {
            DisplaySource::Helper(found) => {
                entries = order::mapped(found);
                assert(entries@ =~= listed(source));
            },
            DisplaySource::Local(Ok(found)) => {
                let mut rest = found;
                let ghost mut done: int = 0;
                assert(found@.skip(0) =~= found@);
                while rest.len() > 0
                    invariant
                        0 <= done <= found@.len(),
                        rest@ == found@.skip(done),
                        entries@ == displays_among(found@.take(done)),
                    decreases rest.len(),
                {
                    let entry = rest.remove(0);
                    proof {
                        assert(found@.take(done + 1).drop_last() =~= found@.take(done));
                        assert(found@.take(done + 1).last() == entry);
                        assert(rest@ =~= found@.skip(done + 1));
                        done = done + 1;
                    }
                    if let Ok(Some(display)) = entry {
                        entries.push(display);
                    }
                }
                assert(found@.take(done) =~= found@);
            },
            DisplaySource::Local(Err(err)) => {
                return Err(err);
            },
        }
        let mut entries = order::sort(entries);
        let ghost ranked = entries@;
        let len: usize = entries.len();
        let mut x: i32 = 0;
        for i in 0..len
            invariant
                len == ranked.len(),
                entries@.len() == ranked.len(),
                x == start_of(ranked, i as int),
                forall|j: int| 0 <= j < i ==> entries@[j] == side_by_side(ranked)[j],
                forall|j: int| i <= j < len ==> entries@[j] == ranked[j],
        {
            entries[i].origin = (x, 0);
            entries[i].primary = i == 0;
            x = saturating_add(x, entries[i].width as i32);
        }
        assert(entries@ =~= side_by_side(ranked));
        Ok(entries)
    }

    /// This is the first display of the source.
    pub open spec fn is_first(primary: Result<Display, Error>, source: DisplaySource) -> bool {
        match primary {
            Ok(primary) => arranged(listed(source)).len() > 0 && primary == arranged(
                listed(source),
            )[0],
            Err(err) => match source {
                DisplaySource::Local(Err(failure)) => err == failure,
                _ => listed(source).len() == 0 && err@ == Failure::of(
                    ErrorKind::NotFound,
                    "entity not found"@,
                ),
            },
        }
    }

    /// The first of all displays.
    pub fn primary(source: DisplaySource) -> (primary: Result<Display, Error>)
        ensures
            Display::is_first(primary, source),
    {
        proof {
            order::law_sorted_keeps_items(listed(source));
        }
        let mut all = match Self::all(source) {
            Ok(all) => all,
            Err(err) => {
                return Err(err);
            },
        };
        if all.len() == 0 {
            return Err(Error::not_found());
        }
        Ok(all.remove(0))
    }

    pub fn width(&self) -> (width: usize)
        ensures
            width == self.width,
    {
        self.width
    }

    pub fn height(&self) -> (height: usize)
        ensures
            height == self.height,
    {
        self.height
    }

    pub fn origin(&self) -> (origin: (i32, i32))
        ensures
            origin == self.origin,
    {
        self.origin
    }

    pub fn is_online(&self) -> (online: bool)
        ensures
            online == self.online,
    {
        self.online
    }

    pub fn is_primary(&self) -> (primary: bool)
        ensures
            primary == self.primary,
    {
        self.primary
    }

    pub fn name(&self) -> (name: String)
        ensures
            name == self.name,
    {
        self.name.clone()
    }

    pub fn card_path(&self) -> (path: &str)
        ensures
            path@ == self.card_path@,
    {
        self.card_path.as_str()
    }

    pub fn connector_path(&self) -> (path: &str)
        ensures
            path@ == self.connector_path@,
    {
        self.connector_path.as_str()
    }
}

/// Displays come in the order of their names, and exactly the first is primary.
pub proof fn law_displays_are_in_order(displays: Seq<Display>)
    ensures
        arranged(displays).len() == displays.len(),
        order::in_order(arranged(displays)),
        forall|i: int|
            0 <= i < arranged(displays).len() ==> (#[trigger] arranged(displays)[i]).primary == (i
                == 0),
{
    order::law_sorted_keeps_items(displays);
    order::law_sorted_in_order(displays);
    let ranked = order::sorted(displays);
    assert forall|i: int, j: int| 0 <= i < j < arranged(displays).len() implies !(
    #[trigger] arranged(displays)[j]).precedes(#[trigger] &arranged(displays)[i]) by {
        assert(!ranked[j].precedes(&ranked[i]));
    }
}

/// How far to the right the first `n` displays reach.
pub open spec fn total_width(displays: Seq<Display>, n: int) -> int
    decreases n,
{
    if n <= 0 {
        0
    } else {
        total_width(displays, n - 1) + displays[n - 1].width
    }
}

proof fn lemma_total_width_grows(displays: Seq<Display>, n: int, m: int)
    requires
        0 <= n <= m,
    ensures
        0 <= total_width(displays, n) <= total_width(displays, m),
    decreases m,
{
    if n < m {
        lemma_total_width_grows(displays, n, m - 1);
    } else if n > 0 {
        lemma_total_width_grows(displays, n - 1, n - 1);
    }
}

proof fn lemma_start_of(displays: Seq<Display>, n: int)
    requires
        0 <= n <= displays.len(),
        total_width(displays, displays.len() as int) <= i32::MAX,
    ensures
        start_of(displays, n) == total_width(displays, n),
    decreases n,
{
    if n > 0 {
        lemma_start_of(displays, n - 1);
        lemma_total_width_grows(displays, n - 1, n - 1);
        lemma_total_width_grows(displays, n, displays.len() as int);
    }
}

/// Displays tile one row from the origin to the right: as long as the row's
/// width is one that a coordinate can hold, each starts where the one before it
/// ends.
pub proof fn law_displays_tile_a_row(displays: Seq<Display>, i: int)
    requires
        0 <= i < displays.len(),
        total_width(order::sorted(displays), displays.len() as int) <= i32::MAX,
    ensures
        arranged(displays)[0].origin == (0i32, 0i32),
        arranged(displays)[i].origin.1 == 0,
        i + 1 < displays.len() ==> arranged(displays)[i + 1].origin.0 == arranged(
            displays,
        )[i].origin.0 + arranged(displays)[i].width,
{
    order::law_sorted_keeps_items(displays);
    lemma_start_of(order::sorted(displays), i);
    if i + 1 < displays.len() {
        lemma_start_of(order::sorted(displays), i + 1);
    }
}

/// Arranging displays changes nothing of a display but where it stands and whether it
/// is the primary one: with these two set back, the arranged displays are the given
/// ones in some order.
pub proof fn law_arranging_keeps_displays(displays: Seq<Display>)
    ensures
        arranged(displays).map_values(
            |d: Display| Display { origin: (0, 0), primary: false, ..d },
        ).to_multiset() == displays.map_values(
            |d: Display| Display { origin: (0, 0), primary: false, ..d },
        ).to_multiset(),
{
    let reset = |d: Display| Display { origin: (0, 0), primary: false, ..d };
    let ranked = order::sorted(displays);
    assert(arranged(displays).map_values(reset) =~= ranked.map_values(reset));
    order::law_sorted_keeps_items(displays);
    order::lemma_same_items_mapped(ranked, displays, reset);
}

/// Each arranged display is a given one, with its name, paths, size and state, and each
/// given one is among the arranged ones.
pub proof fn law_arranged_displays_are_the_given_ones(displays: Seq<Display>, i: int)
    requires
        0 <= i < displays.len(),
    ensures
        arranged(displays).len() == displays.len(),
        exists|j: int|
            0 <= j < displays.len() && (#[trigger] displays[j]).name == arranged(displays)[i].name
                && displays[j].card_path == arranged(displays)[i].card_path
                && displays[j].connector_path == arranged(displays)[i].connector_path
                && displays[j].width == arranged(displays)[i].width && displays[j].height
                == arranged(displays)[i].height && displays[j].online == arranged(
                displays,
            )[i].online && displays[j].accessible == arranged(displays)[i].accessible,
        exists|j: int|
            0 <= j < displays.len() && (#[trigger] arranged(displays)[j]).name == displays[i].name
                && arranged(displays)[j].card_path == displays[i].card_path && arranged(
                displays,
            )[j].connector_path == displays[i].connector_path && arranged(displays)[j].width
                == displays[i].width && arranged(displays)[j].height == displays[i].height
                && arranged(displays)[j].online == displays[i].online && arranged(
                displays,
            )[j].accessible == displays[i].accessible,
{
    let ranked = order::sorted(displays);
    order::law_sorted_keeps_items(displays);
    order::lemma_same_items(ranked, displays);
    assert(ranked.contains(ranked[i]));
    assert(displays.contains(ranked[i]));
    let j = choose|j: int| 0 <= j < displays.len() && displays[j] == ranked[i];
    assert(displays[j].name == arranged(displays)[i].name);
    assert(displays.contains(displays[i]));
    assert(ranked.contains(displays[i]));
    let k = choose|k: int| 0 <= k < ranked.len() && ranked[k] == displays[i];
    assert(arranged(displays)[k].name == displays[i].name);
}

/// Displays that stand in the order of their names already keep their order, those of
/// one name too.
pub proof fn law_ordered_displays_stay_in_order(displays: Seq<Display>, i: int)
    requires
        forall|i: int, j: int|
            0 <= i < j < displays.len() ==> !text::before(
                (#[trigger] displays[j]).name@,
                (#[trigger] displays[i]).name@,
            ),
        0 <= i < displays.len(),
    ensures
        arranged(displays).len() == displays.len(),
        arranged(displays)[i].name == displays[i].name,
        arranged(displays)[i].connector_path == displays[i].connector_path,
        arranged(displays)[i].card_path == displays[i].card_path,
        arranged(displays)[i].width == displays[i].width,
        arranged(displays)[i].height == displays[i].height,
        arranged(displays)[i].online == displays[i].online,
        arranged(displays)[i].accessible == displays[i].accessible,
{
    assert forall|i: int, j: int| 0 <= i < j < displays.len() implies !(
    #[trigger] displays[j]).precedes(#[trigger] &displays[i]) by {
        assert(!text::before(displays[j].name@, displays[i].name@));
    }
    order::law_sorted_leaves_ordered(displays);
}

/// No arranged display has a name that sorts before that of a display which stands
/// before it, and displays stand in one row: the first at the origin, every other
/// where the one before it ends, or at the last coordinate there is.
pub proof fn law_displays_stand_in_a_row_by_name(displays: Seq<Display>, i: int, j: int)
    requires
        0 <= i < j < displays.len(),
    ensures
        arranged(displays).len() == displays.len(),
        !text::before(arranged(displays)[j].name@, arranged(displays)[i].name@),
        arranged(displays)[0].origin.0 == 0,
        arranged(displays)[i].origin.1 == 0,
        arranged(displays)[j].origin.1 == 0,
        arranged(displays)[i].primary == (i == 0),
        !arranged(displays)[j].primary,
        j == i + 1 ==> ({
            let end = arranged(displays)[i].origin.0 + (arranged(displays)[i].width as i32);
            let start = arranged(displays)[j].origin.0;
            &&& i32::MIN <= end <= i32::MAX ==> start == end
            &&& end > i32::MAX ==> start == i32::MAX
            &&& end < i32::MIN ==> start == i32::MIN
        }),
{
    order::law_sorted_keeps_items(displays);
    order::law_sorted_in_order(displays);
    let ranked = order::sorted(displays);
    assert(!ranked[j].precedes(&ranked[i]));
}

/// Every display that a helper found is listed, in its place and as the helper told
/// it; it can be opened here exactly if the helper says so.
pub proof fn law_helper_displays_are_listed(found: Vec<HelperDisplay>, i: int)
    requires
        0 <= i < found@.len(),
    ensures
        ({
            let all = listed(DisplaySource::Helper(found));
            &&& all.len() == found@.len()
            &&& all[i].name == found@[i].name
            &&& all[i].card_path == found@[i].card_path
            &&& all[i].connector_path == found@[i].connector_path
            &&& all[i].width == found@[i].width
            &&& all[i].height == found@[i].height
            &&& all[i].online == found@[i].online
            &&& all[i].accessible == found@[i].can_open
        }),
{
}

/// Of the local listing every display is listed and nothing else, in its order;
/// entries that are none, or could not be read, change nothing.
pub proof fn law_local_displays_are_listed(
    one: Vec<Result<Option<Display>, Error>>,
    other: Vec<Result<Option<Display>, Error>>,
    both: Vec<Result<Option<Display>, Error>>,
    single: Vec<Result<Option<Display>, Error>>,
)
    requires
        both@ == one@ + other@,
        single@.len() == 1,
    ensures
        listed(DisplaySource::Local(Ok(both))) == listed(DisplaySource::Local(Ok(one))) + listed(
            DisplaySource::Local(Ok(other)),
        ),
        listed(DisplaySource::Local(Ok(single))) == (match single@[0] {
            Ok(Some(display)) => seq![display],
            _ => Seq::<Display>::empty(),
        }),
{
    lemma_displays_among(one@, other@);
    reveal_with_fuel(displays_among, 2);
    assert(displays_among(single@) =~= match single@[0] {
        Ok(Some(display)) => seq![display],
        _ => Seq::<Display>::empty(),
    });
}

proof fn lemma_displays_among(
    one: Seq<Result<Option<Display>, Error>>,
    other: Seq<Result<Option<Display>, Error>>,
)
    ensures
        displays_among(one + other) == displays_among(one) + displays_among(other),
    decreases other.len(),
{
    if other.len() > 0 {
        lemma_displays_among(one, other.drop_last());
        assert((one + other).drop_last() =~= one + other.drop_last());
        assert(displays_among(one + other) =~= displays_among(one) + displays_among(other));
    } else {
        assert(one + other =~= one);
        assert(displays_among(one) + displays_among(other) =~= displays_among(one));
    }
}

/// All displays of a source are listed, and no other: a source that cannot be listed
/// fails, and every other succeeds, though it be empty.
pub proof fn law_all_displays_are_listed(
    all: Result<Vec<Display>, Error>,
    source: DisplaySource,
    err: Error,
)
    requires
        Display::is_all(all, source),
    ensures
        source == DisplaySource::Local(Err(err)) ==> all == Err::<Vec<Display>, Error>(err),
        source is Helper || (source matches DisplaySource::Local(Ok(_))) ==> all is Ok,
        all matches Ok(all) ==> all@.map_values(
            |d: Display| Display { origin: (0, 0), primary: false, ..d },
        ).to_multiset() == listed(source).map_values(
            |d: Display| Display { origin: (0, 0), primary: false, ..d },
        ).to_multiset(),
{
    law_arranging_keeps_displays(listed(source));
}

/// The primary display is the first of all: it is primary, stands at the origin, and
/// no other has a name that sorts before its own. There is one as soon as there is a
/// display.
pub proof fn law_primary_display_is_the_first(
    primary: Result<Display, Error>,
    source: DisplaySource,
    i: int,
)
    requires
        Display::is_first(primary, source),
        !(source matches DisplaySource::Local(Err(_))),
    ensures
        primary is Ok <==> listed(source).len() > 0,
        primary matches Ok(display) ==> display.primary && display.origin == (0i32, 0i32) && (0 <= i
            < listed(source).len() ==> !text::before(listed(source)[i].name@, display.name@)),
        primary matches Err(err) ==> err@.kind == ErrorKind::NotFound,
{
    let displays = listed(source);
    let ranked = order::sorted(displays);
    order::law_sorted_keeps_items(displays);
    order::law_sorted_in_order(displays);
    order::lemma_same_items(ranked, displays);
    if let Ok(display) = primary {
        if 0 <= i < displays.len() {
            assert(displays.contains(displays[i]));
            assert(ranked.contains(displays[i]));
            let k = choose|k: int| 0 <= k < ranked.len() && ranked[k] == displays[i];
            if k > 0 {
                assert(!ranked[k].precedes(&ranked[0]));
            } else {
                text::lemma_before_irreflexive(displays[i].name@);
            }
        }
    }
}

/// What a helper found is used, though it be nothing; the local listing is asked only
/// where no helper answered.
pub proof fn law_helper_goes_before_the_local_listing(
    step: SourceStep,
    probed: Result<Vec<HelperDisplay>, Error>,
)
    requires
        is_step_after_probe(step, probed),
    ensures
        step is ListLocally <==> probed is Err,
        probed matches Ok(found) ==> step == SourceStep::Use(DisplaySource::Helper(found)),
{
}

/// A display of the local listing has its connector's name, path, card and mode, counts
/// as online, and is neither placed nor primary before all are arranged.
pub proof fn law_local_display_is_its_connectors(
    made: Display,
    connector_path: String,
    name: String,
    mode: ConnectedMode,
    accessible: bool,
)
    requires
        Display::is_of_connector(made, connector_path, name, mode, accessible),
    ensures
        made.connector_path == connector_path,
        made.name == name,
        made.card_path == mode.card_path,
        made.width == mode.width,
        made.height == mode.height,
        made.accessible == accessible,
        made.online,
        !made.primary,
        made.origin == (0i32, 0i32),
{
}

} // verus!
