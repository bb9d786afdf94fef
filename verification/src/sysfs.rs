//! Connectors as sysfs lists them: an entry's name, and the texts of its status
//! and modes.

use crate::error::{Error, ErrorKind, Failure};
use crate::text;
use vstd::prelude::*;

verus! {

/// The entries that stand for a card's connectors.
pub open spec fn is_connector_entry(name: Seq<char>) -> bool {
    text::occurs_at(name, "card"@, 0) && name.contains('-')
}

/// The name of an entry's card: what stands before the first hyphen.
pub open spec fn card_of(name: Seq<char>) -> Seq<char> {
    text::split_first(name, '-').unwrap().0
}

pub open spec fn is_connected(status: Seq<char>) -> bool {
    text::lowered(text::trimmed(status)) == text::lowered("connected"@)
}

/// A mode's size: two numbers with an `x` between them.
pub open spec fn mode_size(mode: Seq<char>) -> Option<(usize, usize)> {
    match text::split_first(mode, 'x') {
        Some((width, height)) => match (text::usize_value(width), text::usize_value(height)) {
            (Some(width), Some(height)) => Some((width, height)),
            _ => None,
        },
        None => None,
    }
}

pub fn parse_mode(mode: &str) -> (size: Option<(usize, usize)>)
    ensures
        size == mode_size(mode@),
{
    match text::split_once(mode, 'x') {
        Some((width, height)) => match (text::parse_usize(width), text::parse_usize(height)) {
            (Some(width), Some(height)) => Some((width, height)),
            _ => None,
        },
        None => None,
    }
}

/// A mode that is written as two numbers with an `x` between them is read back.
pub proof fn law_mode_reads_back(width: usize, height: usize)
    ensures
        mode_size(text::decimal(width as nat) + "x"@ + text::decimal(height as nat)) == Some(
            (width, height),
        ),
{
    let w = text::decimal(width as nat);
    let h = text::decimal(height as nat);
    let mode = w + "x"@ + h;
    reveal_strlit("x");
    text::law_decimal_reads_back(width);
    text::law_decimal_reads_back(height);
    text::lemma_decimal(width as nat);
    assert(mode[w.len() as int] == 'x');
    assert(mode.contains('x'));
    mode.index_of_first_ensures('x');
    let at = mode.index_of_first('x').unwrap();
    if at < w.len() {
        assert(mode[at] == w[at]);
        assert(text::is_digit(w[at]));
    }
    assert(mode.take(at) =~= w);
    assert(mode.skip(at + 1) =~= h);
}

/// What a connected connector with a mode is known by.
#[derive(Debug)]
pub struct ConnectedMode {
    pub card_path: String,
    pub width: usize,
    pub height: usize,
}

/// What comes next in reading a connector.
#[derive(Debug)]
pub enum ConnectorStep {
    /// The entry is no connector that is connected and has a mode.
    Skip,
    /// The connector's status is needed.
    ReadStatus,
    /// The connector's modes are needed.
    ReadModes,
    Found(ConnectedMode),
    Fail(Error),
}

/// The status is needed of an entry that is called as connectors are; others are
/// passed over.
pub open spec fn is_first_step(name: Option<&str>, step: ConnectorStep) -> bool {
    step == (if name matches Some(name) && is_connector_entry(name@) {
        ConnectorStep::ReadStatus
    } else {
        ConnectorStep::Skip
    })
}

/// The modes are needed of a connector that is connected; others are passed over.
pub open spec fn is_step_after_status(
    status: Result<String, Error>,
    step: ConnectorStep,
) -> bool {
    match status {
        Ok(status) => step == (if is_connected(status@) {
            ConnectorStep::ReadModes
        } else {
            ConnectorStep::Skip
        }),
        Err(err) => step == ConnectorStep::Fail(err),
    }
}

/// The first mode gives the size of the connector that is called `name`.
pub open spec fn is_step_after_modes(
    name: Seq<char>,
    modes: Result<String, Error>,
    missing: ErrorKind,
    step: ConnectorStep,
) -> bool {
    match modes {
        Ok(modes) => match text::first_line(modes@) {
            Some(mode) => match mode_size(mode) {
                Some((width, height)) => step matches ConnectorStep::Found(found)
                    && found.card_path@ == "/dev/dri/"@ + card_of(name) && found.width == width
                    && found.height == height,
                None => step == ConnectorStep::Skip,
            },
            None => step matches ConnectorStep::Fail(err) && err@ == Failure::of(
                missing,
                "missing drm mode"@,
            ),
        },
        Err(err) => step == ConnectorStep::Fail(err),
    }
}

/// Begins to read an entry by its name, which is missing where it is not text.
pub fn begin_entry(name: Option<&str>) -> (step: ConnectorStep)
    ensures
        is_first_step(name, step),
{
    match name {
        Some(name) => if text::starts_with(name, "card") && text::has_char(name, '-') {
            ConnectorStep::ReadStatus
        } else {
            ConnectorStep::Skip
        },
        None => ConnectorStep::Skip,
    }
}

/// Goes on with the text of the connector's status.
pub fn take_status(status: Result<String, Error>) -> (step: ConnectorStep)
    ensures
        is_step_after_status(status, step),
{
    match status {
        Ok(status) => if text::equals_ignoring_case(text::trim(status.as_str()), "connected") {
            ConnectorStep::ReadModes
        } else {
            ConnectorStep::Skip
        },
        Err(err) => ConnectorStep::Fail(err),
    }
}

/// Goes on with the text of the connector's modes, of which the first counts;
/// `missing` is the kind of error that no mode at all makes.
pub fn take_modes(name: &str, modes: Result<String, Error>, missing: ErrorKind) -> (step:
    ConnectorStep)
    requires
        is_connector_entry(name@),
    ensures
        is_step_after_modes(name@, modes, missing, step),
{
    let modes = match modes {
        Ok(modes) => modes,
        Err(err) => {
            return ConnectorStep::Fail(err);
        },
    };
    let mode = match text::first_filled_line(modes.as_str()) {
        Some(mode) => mode,
        None => {
            return ConnectorStep::Fail(Error::new(missing, "missing drm mode"));
        },
    };
    match parse_mode(mode.as_str()) {
        Some((width, height)) => match text::split_once(name, '-') {
            Some((card, _)) => ConnectorStep::Found(
                ConnectedMode { card_path: text::join("/dev/dri/", card), width, height },
            ),
            None => ConnectorStep::Skip,
        },
        None => ConnectorStep::Skip,
    }
}

/// The path at which the render nodes of a card's device are listed.
pub fn render_node_dir(card: &str) -> (path: String)
    ensures
        path@ == "/sys/class/drm/"@ + card@ + "/device/drm"@,
{
    text::join3("/sys/class/drm/", card, "/device/drm")
}

/// The card's name in the path of its device file.
pub fn card_name(name: &str) -> (card: &str)
    requires
        is_connector_entry(name@),
    ensures
        card@ == card_of(name@),
{
    match text::split_once(name, '-') {
        Some((card, _)) => card,
        None => name,
    }
}

pub open spec fn is_render_node(name: Option<String>) -> bool {
    name matches Some(name) && text::occurs_at(name@, "renderD"@, 0)
}

/// The path is that of the first render node by name; there is none where no name
/// is that of a render node.
pub open spec fn is_first_render_node(names: Seq<Option<String>>, node: Option<String>) -> bool {
    match node {
        Some(path) => exists|i: int|
            0 <= i < names.len() && is_render_node(#[trigger] names[i]) && path@ == "/dev/dri/"@
                + names[i].unwrap()@ && forall|j: int|
                0 <= j < names.len() && is_render_node(#[trigger] names[j]) ==> !text::before(
                    names[j].unwrap()@,
                    names[i].unwrap()@,
                ),
        None => forall|i: int| 0 <= i < names.len() ==> !is_render_node(#[trigger] names[i]),
    }
}

/// Picks the first render node by name; names that are not text are missing.
pub fn pick_render_node(names: &Vec<Option<String>>) -> (node: Option<String>)
    ensures
        is_first_render_node(names@, node),
{
    let mut best: Option<usize> = None;
    for i in 0..names.len()
        invariant
            match best {
                Some(best) => best < i && is_render_node(names@[best as int]) && forall|j: int|
                    0 <= j < i && is_render_node(#[trigger] names@[j]) ==> !text::before(
                        names@[j].unwrap()@,
                        names@[best as int].unwrap()@,
                    ),
                None => forall|j: int| 0 <= j < i ==> !is_render_node(#[trigger] names@[j]),
            },
    {
        if let Some(name) = &names[i] {
            if text::starts_with(name.as_str(), "renderD") {
                assert(is_render_node(names@[i as int]));
                match best {
                    Some(at) => {
                        if let Some(lowest) = &names[at] {
                            if text::sorts_before(name.as_str(), lowest.as_str()) {
                                proof {
                                    text::lemma_before_irreflexive(name@);
                                    assert forall|j: int|
                                        0 <= j < i && is_render_node(#[trigger] names@[j]) implies !text::before(
                                        names@[j].unwrap()@,
                                        name@,
                                    ) by {
                                        if text::before(names@[j].unwrap()@, name@) {
                                            text::lemma_before_transitive(
                                                names@[j].unwrap()@,
                                                name@,
                                                lowest@,
                                            );
                                        }
                                    }
                                }
                                best = Some(i);
                            }
                        }
                    },
                    None => {
                        proof {
                            text::lemma_before_irreflexive(name@);
                        }
                        best = Some(i);
                    },
                }
            }
        }
    }
    match best {
        Some(at) => match &names[at] {
            Some(name) => Some(text::join("/dev/dri/", name.as_str())),
            None => None,
        },
        None => None,
    }
}

/// An entry stands for a connector exactly if its name begins with `card` and has a
/// hyphen; the card's name is what stands before the first one.
pub proof fn law_connector_entries(number: Seq<char>, connector: Seq<char>)
    requires
        !number.contains('-'),
    ensures
        is_connector_entry(seq!['c', 'a', 'r', 'd'] + number + seq!['-'] + connector),
        card_of(seq!['c', 'a', 'r', 'd'] + number + seq!['-'] + connector) == seq![
            'c',
            'a',
            'r',
            'd',
        ] + number,
        !is_connector_entry(seq!['c', 'a', 'r', 'd'] + number),
{
    reveal_strlit("card");
    let card = seq!['c', 'a', 'r', 'd'] + number;
    let name = card + seq!['-'] + connector;
    assert(!card.contains('-'));
    assert(name =~= card.push('-') + connector);
    text::law_split_gives_the_parts(card, connector, '-');
    assert(name.subrange(0, 4) =~= "card"@);
    assert(name[card.len() as int] == '-');
}

/// A name that does not begin with `card` is no connector's.
pub proof fn law_other_entries_are_none(name: Seq<char>)
    requires
        name.len() < 4 || name[0] != 'c' || name[1] != 'a' || name[2] != 'r' || name[3] != 'd',
    ensures
        !is_connector_entry(name),
{
    reveal_strlit("card");
    if name.len() >= 4 {
        assert(name.subrange(0, 4)[0] == name[0]);
        assert(name.subrange(0, 4)[1] == name[1]);
        assert(name.subrange(0, 4)[2] == name[2]);
        assert(name.subrange(0, 4)[3] == name[3]);
    }
}

/// A connector is connected exactly if its status is that word, in whatever case and
/// with whatever white space around it.
pub proof fn law_connected_status(head: Seq<char>, status: Seq<char>, tail: Seq<char>)
    requires
        forall|i: int| 0 <= i < head.len() ==> text::white_space(#[trigger] head[i]),
        forall|i: int| 0 <= i < tail.len() ==> text::white_space(#[trigger] tail[i]),
        status.len() > 0 ==> !text::white_space(status[0]) && !text::white_space(status.last()),
    ensures
        is_connected(head + status + tail) <==> text::lowered(status) == "connected"@,
{
    text::law_trimming_finds_the_text(head, status, tail);
    reveal_strlit("connected");
    assert(text::lowered("connected"@) =~= "connected"@);
}

/// A mode is two numbers with an `x` between them: where either is none, there is no
/// size.
pub proof fn law_mode_is_two_numbers(width: Seq<char>, height: Seq<char>)
    requires
        !width.contains('x'),
    ensures
        mode_size(width) is None,
        mode_size(width + seq!['x'] + height) is Some <==> text::usize_value(width) is Some
            && text::usize_value(height) is Some,
        mode_size(width + seq!['x'] + height) matches Some((w, h)) ==> Some(w)
            == text::usize_value(width) && Some(h) == text::usize_value(height),
{
    text::law_split_gives_the_parts(width, height, 'x');
    assert(width + seq!['x'] + height =~= width.push('x') + height);
}

/// The reading of a connector goes on as long as it may be one that is shown: an entry
/// of another name, or one that is not connected, is passed over.
pub proof fn law_only_connected_connectors_are_read(
    name: Option<&str>,
    first: ConnectorStep,
    status: String,
    second: ConnectorStep,
)
    requires
        is_first_step(name, first),
        is_step_after_status(Ok(status), second),
    ensures
        first == ConnectorStep::ReadStatus || first == ConnectorStep::Skip,
        first == ConnectorStep::ReadStatus <==> (name matches Some(name) && text::occurs_at(
            name@,
            "card"@,
            0,
        ) && name@.contains('-')),
        second == ConnectorStep::ReadModes || second == ConnectorStep::Skip,
        second == ConnectorStep::ReadModes <==> is_connected(status@),
{
}

/// The first mode that is filled in gives the size, and the entry's name the card. A
/// mode that is none skips the connector, no mode at all is a failure, and so is a file
/// that could not be read.
pub proof fn law_first_mode_counts(
    name: Seq<char>,
    modes: Result<String, Error>,
    missing: ErrorKind,
    step: ConnectorStep,
)
    requires
        is_step_after_modes(name, modes, missing, step),
    ensures
        modes matches Err(err) ==> step == ConnectorStep::Fail(err),
        modes matches Ok(modes) ==> {
            let first = text::first_line(modes@);
            &&& first is None <==> step is Fail
            &&& step matches ConnectorStep::Fail(err) ==> err@.kind == missing
            &&& first matches Some(mode) ==> (step is Found <==> mode_size(mode) is Some)
            &&& step matches ConnectorStep::Found(found) ==> Some((found.width, found.height))
                == mode_size(first.unwrap()) && found.card_path@ == "/dev/dri/"@ + card_of(name)
            &&& first is Some && !(step is Found) ==> step == ConnectorStep::Skip
        },
{
}

/// The render node is a file of the device directory, called by a name that is listed
/// and begins as render nodes do; no other such name that is listed sorts before it.
/// There is one as soon as one is listed.
pub proof fn law_first_render_node(
    names: Seq<Option<String>>,
    node: Option<String>,
    j: int,
)
    requires
        is_first_render_node(names, node),
    ensures
        0 <= j < names.len() && (names[j] matches Some(name) && text::occurs_at(
            name@,
            "renderD"@,
            0,
        )) ==> node is Some,
        node matches Some(path) ==> exists|i: int|
            0 <= i < names.len() && (#[trigger] names[i] matches Some(own) && text::occurs_at(
                own@,
                "renderD"@,
                0,
            ) && path@ == "/dev/dri/"@ + own@ && (0 <= j < names.len() ==> (
            names[j] matches Some(name) ==> (text::occurs_at(name@, "renderD"@, 0)
                ==> !text::before(name@, own@))))),
{
    if 0 <= j < names.len() {
        assert(is_render_node(names[j]) || !is_render_node(names[j]));
    }
    if let Some(path) = node {
        let i = choose|i: int|
            0 <= i < names.len() && is_render_node(#[trigger] names[i]) && path@ == "/dev/dri/"@
                + names[i].unwrap()@ && forall|j: int|
                0 <= j < names.len() && is_render_node(#[trigger] names[j]) ==> !text::before(
                    names[j].unwrap()@,
                    names[i].unwrap()@,
                );
        assert(names[i] is Some);
    }
}

} // verus!
