//! Displays and captures on Linux, whichever way they are reached.

use crate::capturer;
use crate::capturer::FirstFrame;
use crate::error::{Error, ErrorKind, Failure};
use crate::kms;
use crate::order;
use crate::order::Turned;
use crate::wayland;
use crate::x11;
use vstd::prelude::*;

verus! {

#[derive(Debug)]
pub enum Display {
    X11(x11::Display),
    WAYLAND(wayland::Display),
    KMS(kms::Display),
}

impl Turned<Display> for x11::Display {
    open spec fn turned(self) -> Display {
        Display::X11(self)
    }

    fn turn(self) -> (display: Display) {
        Display::X11(self)
    }
}

impl Turned<Display> for wayland::Display {
    open spec fn turned(self) -> Display {
        Display::WAYLAND(self)
    }

    fn turn(self) -> (display: Display) {
        Display::WAYLAND(self)
    }
}

impl Turned<Display> for kms::Display {
    open spec fn turned(self) -> Display {
        Display::KMS(self)
    }

    fn turn(self) -> (display: Display) {
        Display::KMS(self)
    }
}

/// What the way in use says of the primary display.
#[derive(Debug)]
pub enum FoundPrimary {
    X11(Result<x11::Display, Error>),
    WAYLAND(Result<wayland::Display, Error>),
    KMS(kms::DisplaySource),
}

/// What the way in use says of all displays.
#[derive(Debug)]
pub enum FoundDisplays {
    X11(Result<Vec<x11::Display>, Error>),
    WAYLAND(Result<Vec<wayland::Display>, Error>),
    KMS(kms::DisplaySource),
}

impl Display {
    pub open spec fn spec_width(self) -> usize {
        match self {
            Display::X11(d) => d.width,
            Display::WAYLAND(d) => d.width,
            Display::KMS(d) => d.width,
        }
    }

    pub open spec fn spec_height(self) -> usize {
        match self {
            Display::X11(d) => d.height,
            Display::WAYLAND(d) => d.height,
            Display::KMS(d) => d.height,
        }
    }

    /// This is the primary display.
    pub open spec fn is_primary_of(primary: Result<Display, Error>, found: FoundPrimary) -> bool {
        match found {
            FoundPrimary::X11(Ok(d)) => primary == Ok::<Display, Error>(Display::X11(d)),
            FoundPrimary::X11(Err(failure)) => primary == Err::<Display, Error>(failure),
            FoundPrimary::WAYLAND(Ok(d)) => primary == Ok::<Display, Error>(
                Display::WAYLAND(d),
            ),
            FoundPrimary::WAYLAND(Err(failure)) => primary == Err::<Display, Error>(failure),
            FoundPrimary::KMS(source) => match primary {
                Ok(primary) => kms::listed(source).len() > 0 && primary == Display::KMS(
                    kms::arranged(kms::listed(source))[0],
                ),
                Err(err) => match source {
                    kms::DisplaySource::Local(Err(failure)) => err == failure,
                    _ => kms::listed(source).len() == 0 && err@ == Failure::of(
                        ErrorKind::NotFound,
                        "entity not found"@,
                    ),
                },
            },
        }
    }

    /// The primary display.
    pub fn primary(found: FoundPrimary) -> (primary: Result<Display, Error>)
        ensures
            Display::is_primary_of(primary, found),
    {
        match found {
            FoundPrimary::X11(found) => match found {
                Ok(d) => Ok(Display::X11(d)),
                Err(err) => Err(err),
            },
            FoundPrimary::WAYLAND(found) => match found {
                Ok(d) => Ok(Display::WAYLAND(d)),
                Err(err) => Err(err),
            },
            FoundPrimary::KMS(source) => {
                proof {
                    kms::law_displays_are_in_order(kms::listed(source));
                }
                match kms::Display::primary(source) {
                    Ok(d) => Ok(Display::KMS(d)),
                    Err(err) => Err(err),
                }
            },
        }
    }

    /// These are all displays that were found.
    pub open spec fn is_all(all: Result<Vec<Display>, Error>, found: FoundDisplays) -> bool {
        match found {
            FoundDisplays::X11(Ok(ds)) => all matches Ok(all) && all@.len() == ds@.len()
                && forall|i: int|
                0 <= i < ds@.len() ==> #[trigger] all@[i] == Display::X11(ds@[i]),
            FoundDisplays::X11(Err(failure)) => all == Err::<Vec<Display>, Error>(failure),
            FoundDisplays::WAYLAND(Ok(ds)) => all matches Ok(all) && all@.len() == ds@.len()
                && forall|i: int|
                0 <= i < ds@.len() ==> #[trigger] all@[i] == Display::WAYLAND(ds@[i]),
            FoundDisplays::WAYLAND(Err(failure)) => all == Err::<Vec<Display>, Error>(failure),
            FoundDisplays::KMS(kms::DisplaySource::Local(Err(failure))) => all == Err::<
                Vec<Display>,
                Error,
            >(failure),
            FoundDisplays::KMS(source) => all matches Ok(all) && all@.len() == kms::arranged(
                kms::listed(source),
            ).len() && forall|i: int|
                0 <= i < all@.len() ==> #[trigger] all@[i] == Display::KMS(
                    kms::arranged(kms::listed(source))[i],
                ),
        }
    }

    /// All displays, in the order in which they were found.
    pub fn all(found: FoundDisplays) -> (all: Result<Vec<Display>, Error>)
        ensures
            Display::is_all(all, found),
    {
        match found {
            FoundDisplays::X11(found) => match found {
                Ok(ds) => Ok(order::mapped(ds)),
                Err(err) => Err(err),
            },
            FoundDisplays::WAYLAND(found) => match found {
                Ok(ds) => Ok(order::mapped(ds)),
                Err(err) => Err(err),
            },
            FoundDisplays::KMS(source) => match kms::Display::all(source) {
                Ok(ds) => Ok(order::mapped(ds)),
                Err(err) => Err(err),
            },
        }
    }

    pub fn width(&self) -> (width: usize)
        ensures
            width == self.spec_width(),
    {
        match self {
            Display::X11(d) => d.width,
            Display::WAYLAND(d) => d.width,
            Display::KMS(d) => d.width(),
        }
    }

    pub fn height(&self) -> (height: usize)
        ensures
            height == self.spec_height(),
    {
        match self {
            Display::X11(d) => d.height,
            Display::WAYLAND(d) => d.height,
            Display::KMS(d) => d.height(),
        }
    }

    /// The width in the units of the desktop.
    pub fn logical_width(&self) -> (width: usize)
        ensures
            width == (match *self {
                Display::WAYLAND(d) => d.logical_width,
                _ => self.spec_width(),
            }),
    {
        match self {
            Display::X11(d) => d.width,
            Display::WAYLAND(d) => d.logical_width,
            Display::KMS(d) => d.width(),
        }
    }

    /// The height in the units of the desktop.
    pub fn logical_height(&self) -> (height: usize)
        ensures
            height == (match *self {
                Display::WAYLAND(d) => d.logical_height,
                _ => self.spec_height(),
            }),
    {
        match self {
            Display::X11(d) => d.height,
            Display::WAYLAND(d) => d.logical_height,
            Display::KMS(d) => d.height(),
        }
    }

    pub fn origin(&self) -> (origin: (i32, i32))
        ensures
            origin == (match *self {
                Display::X11(d) => d.origin,
                Display::WAYLAND(d) => d.origin,
                Display::KMS(d) => d.origin,
            }),
    {
        match self {
            Display::X11(d) => d.origin,
            Display::WAYLAND(d) => d.origin,
            Display::KMS(d) => d.origin(),
        }
    }

    pub fn is_online(&self) -> (online: bool)
        ensures
            online == (match *self {
                Display::X11(d) => d.online,
                Display::WAYLAND(d) => d.online,
                Display::KMS(d) => d.online,
            }),
    {
        match self {
            Display::X11(d) => d.online,
            Display::WAYLAND(d) => d.online,
            Display::KMS(d) => d.is_online(),
        }
    }

    pub fn is_primary(&self) -> (primary: bool)
        ensures
            primary == (match *self {
                Display::X11(d) => d.primary,
                Display::WAYLAND(d) => d.primary,
                Display::KMS(d) => d.primary,
            }),
    {
        match self {
            Display::X11(d) => d.primary,
            Display::WAYLAND(d) => d.primary,
            Display::KMS(d) => d.is_primary(),
        }
    }

    pub fn name(&self) -> (name: String)
        ensures
            name == (match *self {
                Display::X11(d) => d.name,
                Display::WAYLAND(d) => d.name,
                Display::KMS(d) => d.name,
            }),
    {
        match self {
            Display::X11(d) => d.name.clone(),
            Display::WAYLAND(d) => d.name.clone(),
            Display::KMS(d) => d.name(),
        }
    }
}

/// An opened capture; `F` is what owns a file descriptor.
pub enum Capturer<F> {
    X11(x11::Capturer),
    WAYLAND(wayland::Capturer),
    KMS(capturer::Capturer<F>),
}

/// What the way in use says of opening a capture.
pub enum Opening<F> {
    X11(Result<x11::Capturer, Error>),
    WAYLAND(Result<wayland::Capturer, Error>),
    /// The display, whether frames stay on the GPU, and what came of reading the
    /// first frame, if the display's card exists.
    KMS { display: kms::Display, use_dmabuf: bool, first: Option<FirstFrame<F>> },
}

impl<F> Capturer<F> {
    /// The capture is opened, or fails as opening it did.
    pub open spec fn is_new(opened: Result<Capturer<F>, Error>, opening: Opening<F>) -> bool {
        match opening {
            Opening::X11(Ok(c)) => opened == Ok::<Capturer<F>, Error>(Capturer::X11(c)),
            Opening::X11(Err(failure)) => opened == Err::<Capturer<F>, Error>(failure),
            Opening::WAYLAND(Ok(c)) => opened == Ok::<Capturer<F>, Error>(
                Capturer::WAYLAND(c),
            ),
            Opening::WAYLAND(Err(failure)) => opened == Err::<Capturer<F>, Error>(failure),
            Opening::KMS { display, use_dmabuf, first } => match first {
                Some(first) => match first.outcome {
                    Ok(frame) => opened matches Ok(Capturer::KMS(made)) && capturer::is_opened(
                        made,
                        display,
                        use_dmabuf,
                        first.helpers,
                        frame,
                    ),
                    Err(failure) => opened == Err::<Capturer<F>, Error>(failure),
                },
                None => opened matches Err(err) && err@ == capturer::card_missing(display),
            },
        }
    }

    /// The opened capture of a display.
    pub fn new(opening: Opening<F>) -> (opened: Result<Capturer<F>, Error>)
        ensures
            Self::is_new(opened, opening),
    {
        match opening {
            Opening::X11(opened) => match opened {
                Ok(c) => Ok(Capturer::X11(c)),
                Err(err) => Err(err),
            },
            Opening::WAYLAND(opened) => match opened {
                Ok(c) => Ok(Capturer::WAYLAND(c)),
                Err(err) => Err(err),
            },
            Opening::KMS { display, use_dmabuf, first } => {
                match capturer::Capturer::new(display, use_dmabuf, first) {
                    Ok(c) => Ok(Capturer::KMS(c)),
                    Err(err) => Err(err),
                }
            },
        }
    }

    pub fn width(&self) -> (width: usize)
        ensures
            width == (match *self {
                Capturer::X11(d) => d.width,
                Capturer::WAYLAND(d) => d.width,
                Capturer::KMS(d) => d.width,
            }),
    {
        match self {
            Capturer::X11(d) => d.width,
            Capturer::WAYLAND(d) => d.width,
            Capturer::KMS(d) => d.width(),
        }
    }

    pub fn height(&self) -> (height: usize)
        ensures
            height == (match *self {
                Capturer::X11(d) => d.height,
                Capturer::WAYLAND(d) => d.height,
                Capturer::KMS(d) => d.height,
            }),
    {
        match self {
            Capturer::X11(d) => d.height,
            Capturer::WAYLAND(d) => d.height,
            Capturer::KMS(d) => d.height(),
        }
    }
}

/// Every display that was found is there, in its place and as the way in use gave it;
/// what failed is handed on.
pub proof fn law_every_found_display_is_there(
    all: Result<Vec<Display>, Error>,
    found: FoundDisplays,
    i: int,
    err: Error,
)
    requires
        Display::is_all(all, found),
    ensures
        found matches FoundDisplays::X11(Ok(ds)) ==> all is Ok && all->Ok_0@.len() == ds@.len() && (
        0 <= i < ds@.len() ==> all->Ok_0@[i] == Display::X11(ds@[i])),
        found matches FoundDisplays::WAYLAND(Ok(ds)) ==> all is Ok && all->Ok_0@.len() == ds@.len()
            && (0 <= i < ds@.len() ==> all->Ok_0@[i] == Display::WAYLAND(ds@[i])),
        found matches FoundDisplays::KMS(source) ==> (all is Ok ==> all->Ok_0@.len()
            == kms::arranged(kms::listed(source)).len() && (0 <= i < all->Ok_0@.len()
            ==> all->Ok_0@[i] == Display::KMS(kms::arranged(kms::listed(source))[i]))),
        all is Err <==> found matches FoundDisplays::X11(Err(_))
            || found matches FoundDisplays::WAYLAND(Err(_)) || (
        found matches FoundDisplays::KMS(source) && source matches kms::DisplaySource::Local(
            Err(_),
        )),
        found == FoundDisplays::X11(Err(err)) || found == FoundDisplays::WAYLAND(Err(err)) || found
            == FoundDisplays::KMS(kms::DisplaySource::Local(Err(err))) ==> all == Err::<
            Vec<Display>,
            Error,
        >(err),
{
}

/// The primary display is the one that the way in use calls so; where displays are
/// captured from mode setting, it is the first of them all.
pub proof fn law_primary_display_is_of_the_way_in_use(
    primary: Result<Display, Error>,
    found: FoundPrimary,
    err: Error,
)
    requires
        Display::is_primary_of(primary, found),
    ensures
        found matches FoundPrimary::X11(Ok(d)) ==> primary == Ok::<Display, Error>(Display::X11(d)),
        found matches FoundPrimary::WAYLAND(Ok(d)) ==> primary == Ok::<Display, Error>(
            Display::WAYLAND(d),
        ),
        found == FoundPrimary::X11(Err(err)) || found == FoundPrimary::WAYLAND(Err(err)) || found
            == FoundPrimary::KMS(kms::DisplaySource::Local(Err(err))) ==> primary == Err::<
            Display,
            Error,
        >(err),
        found matches FoundPrimary::KMS(source) ==> (primary is Ok <==> kms::listed(source).len()
            > 0) && (primary is Ok ==> primary->Ok_0 == Display::KMS(
            kms::arranged(kms::listed(source))[0],
        )),
{
}

/// A capture is opened as the way in use opened it; from mode setting, exactly if the
/// first frame was read.
pub proof fn law_capture_is_of_the_way_in_use<F>(
    opened: Result<Capturer<F>, Error>,
    opening: Opening<F>,
    err: Error,
)
    requires
        Capturer::is_new(opened, opening),
    ensures
        opening matches Opening::X11(Ok(c)) ==> opened == Ok::<Capturer<F>, Error>(
            Capturer::X11(c),
        ),
        opening matches Opening::WAYLAND(Ok(c)) ==> opened == Ok::<Capturer<F>, Error>(
            Capturer::WAYLAND(c),
        ),
        opening == Opening::<F>::X11(Err(err)) || opening == Opening::<F>::WAYLAND(Err(err))
            ==> opened == Err::<Capturer<F>, Error>(err),
        opening matches Opening::KMS { display, use_dmabuf, first } ==> {
            &&& opened is Ok <==> (first matches Some(first) && first.outcome is Ok)
            &&& opened matches Ok(capture) ==> (capture matches Capturer::KMS(made)
                && made.pending_frame == Some(first.unwrap().outcome->Ok_0) && made.display
                == display && made.use_dmabuf == use_dmabuf && made.helpers
                == first.unwrap().helpers)
        },
{
}

/// A display has the size that the way in use gives it.
pub proof fn law_size_is_of_the_way_in_use(
    x: x11::Display,
    w: wayland::Display,
    k: kms::Display,
)
    ensures
        Display::X11(x).spec_width() == x.width && Display::X11(x).spec_height() == x.height,
        Display::WAYLAND(w).spec_width() == w.width && Display::WAYLAND(w).spec_height()
            == w.height,
        Display::KMS(k).spec_width() == k.width && Display::KMS(k).spec_height() == k.height,
{
}

} // verus!
