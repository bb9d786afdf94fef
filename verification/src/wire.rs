//! What a helper and its client send each other: frames behind a line that
//! describes them, and file descriptors beside such a line.

use crate::error::{Error, ErrorKind, Failure};
use crate::formats;
use crate::pixel;
use crate::pixel::Pixfmt;
use crate::readback::{FrameCapture, FrameOutput};
use crate::text;
use vstd::prelude::*;

verus! {

pub const NEWLINE: u8 = 10;

/// A line that describes a frame, and the frame's bytes behind it.
pub open spec fn framed(header: Seq<u8>, bytes: Seq<u8>) -> Seq<u8> {
    header.push(NEWLINE) + bytes
}

/// Puts the bytes of a frame behind the line that describes it.
pub fn frame_message(header: Vec<u8>, bytes: &Vec<u8>) -> (message: Vec<u8>)
    ensures
        message@ == framed(header@, bytes@),
{
    let mut message = header;
    message.push(NEWLINE);
    message.extend_from_slice(bytes.as_slice());
    message
}

/// The first line of a message and what stands behind it.
pub open spec fn unframed(message: Seq<u8>) -> Option<(Seq<u8>, Seq<u8>)> {
    if message.contains(NEWLINE) {
        let at = message.index_of_first(NEWLINE).unwrap();
        Some((message.take(at), message.skip(at + 1)))
    } else {
        None
    }
}

/// Parts a message into the line that describes a frame and the frame's bytes.
pub fn split_frame(message: &[u8]) -> (parts: Result<(Vec<u8>, Vec<u8>), Error>)
    ensures
        match parts {
            Ok((header, bytes)) => unframed(message@) == Some((header@, bytes@)),
            Err(err) => unframed(message@) is None && err@ == Failure::of(
                ErrorKind::Other,
                "privileged kms helper returned malformed frame header"@,
            ),
        },
{
    let mut header: Vec<u8> = Vec::new();
    for i in 0..message.len()
        invariant
            header@ == message@.take(i as int),
            forall|j: int| 0 <= j < i ==> message@[j] != NEWLINE,
    {
        if message[i] == NEWLINE {
            let mut bytes: Vec<u8> = Vec::new();
            for k in i + 1..message.len()
                invariant
                    i < message@.len(),
                    bytes@ == message@.subrange(i + 1, k as int),
            {
                bytes.push(message[k]);
                assert(bytes@ =~= message@.subrange(i + 1, k + 1));
            }
            proof {
                message@.index_of_first_ensures(NEWLINE);
                assert(message@[i as int] == NEWLINE);
                assert(message@.index_of_first(NEWLINE) == Some(i as int));
                assert(bytes@ =~= message@.skip(i + 1));
            }
            return Ok((header, bytes));
        }
        header.push(message[i]);
        assert(header@ =~= message@.take(i + 1));
    }
    Err(Error::other("privileged kms helper returned malformed frame header"))
}

/// Parting what was put together gives the parts, provided that the line that
/// describes the frame is one line.
pub proof fn law_frame_parts_come_back(header: Seq<u8>, bytes: Seq<u8>)
    requires
        !header.contains(NEWLINE),
    ensures
        unframed(framed(header, bytes)) == Some((header, bytes)),
{
    let message = framed(header, bytes);
    assert(message[header.len() as int] == NEWLINE);
    assert(message.contains(NEWLINE));
    message.index_of_first_ensures(NEWLINE);
    let at = message.index_of_first(NEWLINE).unwrap();
    if at < header.len() {
        assert(header[at] == message[at]);
        assert(header.contains(NEWLINE));
    }
    assert(message.take(at) =~= header);
    assert(message.skip(at + 1) =~= bytes);
}

/// What describes a frame, as it is read.
#[derive(Debug)]
pub struct FrameOutputOwned {
    pub card_path: String,
    pub connector_path: String,
    pub name: String,
    pub width: usize,
    pub height: usize,
    pub stride: usize,
    pub pixfmt: String,
    pub byte_len: usize,
}

/// What a line says of a frame.
#[verifier::ext_equal]
pub struct Description {
    pub card_path: Seq<char>,
    pub connector_path: Seq<char>,
    pub name: Seq<char>,
    pub width: usize,
    pub height: usize,
    pub stride: usize,
    pub pixfmt: Seq<char>,
    pub byte_len: usize,
}

/// What is written of a frame.
pub open spec fn written(header: FrameOutput) -> Description {
    Description {
        card_path: header.card_path@,
        connector_path: header.connector_path@,
        name: header.name@,
        width: header.width,
        height: header.height,
        stride: header.stride,
        pixfmt: header.pixfmt@,
        byte_len: header.byte_len,
    }
}

impl View for FrameOutputOwned {
    type V = Description;

    open spec fn view(&self) -> Description {
        Description {
            card_path: self.card_path@,
            connector_path: self.connector_path@,
            name: self.name@,
            width: self.width,
            height: self.height,
            stride: self.stride,
            pixfmt: self.pixfmt@,
            byte_len: self.byte_len,
        }
    }
}

/// The frame that a description and bytes make; the bytes have to be as many as
/// announced.
pub open spec fn is_assembled(
    frame: Result<FrameCapture, Error>,
    header: Description,
    body: Seq<u8>,
) -> bool {
    match frame {
        Ok(frame) => body.len() == header.byte_len && frame.bytes@ == body && written(frame.header)
            == header,
        Err(err) => body.len() != header.byte_len && err@ == Failure::of(
            ErrorKind::Other,
            "privileged kms helper frame length mismatch: expected "@ + text::decimal(
                header.byte_len as nat,
            ) + ", got "@ + text::decimal(body.len()),
        ),
    }
}

/// `String::leak` gives the same text for the rest of the program.
#[verifier::external_body]
fn leak(text: String) -> (leaked: &'static str)
    ensures
        leaked@ == text@,
{
    text.leak()
}

/// The name of a pixel layout for the rest of the program.
pub fn leak_pixfmt(pixfmt: String) -> (name: &'static str)
    ensures
        name@ == pixfmt@,
{
    if text::equals(pixfmt.as_str(), "BGRA") {
        "BGRA"
    } else if text::equals(pixfmt.as_str(), "RGBA") {
        "RGBA"
    } else if text::equals(pixfmt.as_str(), "RGB565LE") {
        "RGB565LE"
    } else {
        leak(pixfmt)
    }
}

/// Why the line that describes a frame cannot be read: `cause` came up.
pub fn header_failure(cause: Error) -> (err: Error)
    ensures
        err@ == Failure::caused("failed to parse frame header"@, cause),
{
    cause.context("failed to parse frame header")
}

/// Puts a frame together again; the bytes have to be as many as announced.
pub fn assemble_frame(header: FrameOutputOwned, body: Vec<u8>) -> (frame: Result<
    FrameCapture,
    Error,
>)
    ensures
        is_assembled(frame, header@, body@),
{
    if body.len() != header.byte_len {
        let expected = text::write_decimal(header.byte_len as u64);
        let got = text::write_decimal(body.len() as u64);
        let message = text::join4(
            "privileged kms helper frame length mismatch: expected ",
            expected.as_str(),
            ", got ",
            got.as_str(),
        );
        return Err(Error::with_message(ErrorKind::Other, message));
    }
    Ok(
        FrameCapture {
            header: FrameOutput {
                card_path: header.card_path,
                connector_path: header.connector_path,
                name: header.name,
                width: header.width,
                height: header.height,
                stride: header.stride,
                pixfmt: leak_pixfmt(header.pixfmt),
                byte_len: header.byte_len,
            },
            bytes: body,
        },
    )
}

/// A frame that was written comes back whole, whatever its layout is called, where
/// the line that describes it reads back as what was written: the message parts into
/// that line and the frame's bytes, and both together make the frame. One that
/// announces another number of bytes than it has comes back as an error.
pub proof fn law_written_frame_comes_back(
    frame: FrameCapture,
    line: Seq<u8>,
    read: FrameOutputOwned,
    back: Result<FrameCapture, Error>,
)
    requires
        !line.contains(NEWLINE),
        read@ == written(frame.header),
        unframed(framed(line, frame.bytes@)) matches Some((_, body)) && is_assembled(
            back,
            read@,
            body,
        ),
    ensures
        unframed(framed(line, frame.bytes@)) == Some((line, frame.bytes@)),
        match back {
            Ok(back) => frame.header.byte_len == frame.bytes@.len() && back.bytes@ == frame.bytes@
                && written(back.header) == written(frame.header),
            Err(_) => frame.header.byte_len != frame.bytes@.len(),
        },
{
    law_frame_parts_come_back(line, frame.bytes@);
}

/// Every layout that a helper announces is one that a client knows.
pub proof fn law_announced_layout_is_known(code: u32)
    ensures
        formats::layout_name(code) matches Some(name) ==> pixel::named_pixfmt(name) is Some,
{
}

/// `line` without a newline at its end.
pub open spec fn chomped(line: Seq<u8>) -> Seq<u8> {
    if line.len() > 0 && line.last() == NEWLINE {
        line.drop_last()
    } else {
        line
    }
}

pub fn strip_newline(line: Vec<u8>) -> (stripped: Vec<u8>)
    ensures
        stripped@ == chomped(line@),
{
    let mut stripped = line;
    if stripped.len() > 0 && stripped[stripped.len() - 1] == NEWLINE {
        stripped.pop();
    }
    stripped
}

/// Stripping the newline of a line gives the line's text.
pub proof fn law_line_comes_back(header: Seq<u8>)
    ensures
        chomped(header.push(NEWLINE)) == header,
{
    assert(header.push(NEWLINE).drop_last() =~= header);
}

/// What a helper says of the frame that follows.
#[derive(Debug)]
pub struct HelperFrameHeader {
    pub width: usize,
    pub height: usize,
    pub stride: usize,
    pub pixfmt: String,
    pub byte_len: usize,
}

/// A frame that a helper sent.
#[derive(Debug)]
pub struct HelperFrameOutput {
    pub width: usize,
    pub height: usize,
    pub stride: Vec<usize>,
    pub pixfmt: Pixfmt,
    pub data: Vec<u8>,
}

/// The frame is what the helper announced, with those bytes.
pub open spec fn is_helper_frame(
    frame: Result<HelperFrameOutput, Error>,
    header: HelperFrameHeader,
    data: Vec<u8>,
) -> bool {
    match frame {
        Ok(frame) => {
            &&& frame.width == header.width
            &&& frame.height == header.height
            &&& frame.stride@ == seq![header.stride]
            &&& Some(frame.pixfmt) == pixel::named_pixfmt(header.pixfmt@)
            &&& frame.data == data
        },
        Err(err) => pixel::named_pixfmt(header.pixfmt@) is None && err@
            == pixel::unsupported_pixfmt(header.pixfmt@),
    }
}

/// Puts the frame together that a helper announced; `data` are the announced
/// bytes.
pub fn helper_frame(header: HelperFrameHeader, data: Vec<u8>) -> (frame: Result<
    HelperFrameOutput,
    Error,
>)
    ensures
        is_helper_frame(frame, header, data),
{
    let mut stride: Vec<usize> = Vec::new();
    stride.push(header.stride);
    match pixel::parse_pixfmt(header.pixfmt.as_str()) {
        Ok(pixfmt) => Ok(
            HelperFrameOutput { width: header.width, height: header.height, stride, pixfmt, data },
        ),
        Err(err) => Err(err),
    }
}

#[derive(Clone, Copy, PartialEq, Eq, Debug, Structural)]
pub struct HelperDmabufPlane {
    pub stride: u32,
    pub offset: u32,
}

/// What a helper says of an exported framebuffer.
#[derive(Debug)]
pub struct HelperDmabufHeader {
    pub width: usize,
    pub height: usize,
    pub fourcc: u32,
    pub modifier: u64,
    pub planes: Vec<HelperDmabufPlane>,
}

/// A plane of an exported framebuffer with its file descriptor.
#[derive(Debug)]
pub struct DmabufPlane<F> {
    pub fd: F,
    pub stride: u32,
    pub offset: u32,
}

/// An exported framebuffer; `F` is what owns a file descriptor.
#[derive(Debug)]
pub struct DmabufFrame<F> {
    pub width: usize,
    pub height: usize,
    pub fourcc: u32,
    pub modifier: u64,
    pub planes: Vec<DmabufPlane<F>>,
}

/// The frame has the planes that were announced, each with its file descriptor.
pub open spec fn is_dmabuf_frame<F>(
    frame: Result<DmabufFrame<F>, Error>,
    header: HelperDmabufHeader,
    fds: Seq<F>,
) -> bool {
    match frame {
        Ok(frame) => {
            &&& header.planes@.len() == fds.len()
            &&& frame.width == header.width
            &&& frame.height == header.height
            &&& frame.fourcc == header.fourcc
            &&& frame.modifier == header.modifier
            &&& frame.planes@.len() == fds.len()
            &&& forall|i: int|
                0 <= i < fds.len() ==> #[trigger] frame.planes@[i] == (DmabufPlane {
                    fd: fds[i],
                    stride: header.planes@[i].stride,
                    offset: header.planes@[i].offset,
                })
        },
        Err(err) => header.planes@.len() != fds.len() && err@ == Failure::of(
            ErrorKind::InvalidData,
            "kms dmabuf plane/fd count mismatch: "@ + text::decimal(header.planes@.len())
                + " planes, "@ + text::decimal(fds.len()) + " fds"@,
        ),
    }
}

/// Joins the planes with the file descriptors that came beside them, one each.
pub fn dmabuf_frame<F>(header: HelperDmabufHeader, fds: Vec<F>) -> (frame: Result<
    DmabufFrame<F>,
    Error,
>)
    ensures
        is_dmabuf_frame(frame, header, fds@),
{
    if header.planes.len() != fds.len() {
        let plane_count = text::write_decimal(header.planes.len() as u64);
        let fd_count = text::write_decimal(fds.len() as u64);
        let mut message = text::join4(
            "kms dmabuf plane/fd count mismatch: ",
            plane_count.as_str(),
            " planes, ",
            fd_count.as_str(),
        );
        message = text::join(message.as_str(), " fds");
        return Err(Error::with_message(ErrorKind::InvalidData, message));
    }
    let mut rest = fds;
    let mut planes: Vec<DmabufPlane<F>> = Vec::new();
    let ghost joined = Seq::new(
        fds@.len(),
        |i: int|
            DmabufPlane {
                fd: fds@[i],
                stride: header.planes@[i].stride,
                offset: header.planes@[i].offset,
            },
    );
    assert(fds@.skip(0) =~= fds@);
    while rest.len() > 0
        invariant
            header.planes@.len() == fds@.len(),
            planes@.len() <= fds@.len(),
            rest@ == fds@.skip(planes@.len() as int),
            joined == Seq::new(
                fds@.len(),
                |i: int|
                    DmabufPlane {
                        fd: fds@[i],
                        stride: header.planes@[i].stride,
                        offset: header.planes@[i].offset,
                    },
            ),
            planes@ == joined.take(planes@.len() as int),
        decreases rest.len(),
    {
        let ghost done = planes@.len() as int;
        let plane = header.planes[planes.len()];
        let fd = rest.remove(0);
        planes.push(DmabufPlane { fd, stride: plane.stride, offset: plane.offset });
        proof {
            assert(rest@ =~= fds@.skip(done + 1));
            assert(planes@ =~= joined.take(done + 1));
        }
    }
    Ok(
        DmabufFrame {
            width: header.width,
            height: header.height,
            fourcc: header.fourcc,
            modifier: header.modifier,
            planes,
        },
    )
}

/// A message is parted at its first line end and nowhere else; one without a line end
/// describes nothing.
pub proof fn law_message_is_parted_at_the_first_line(message: Seq<u8>)
    ensures
        unframed(message) is Some <==> message.contains(10),
        unframed(message) matches Some((line, bytes)) ==> message == line + seq![10u8] + bytes
            && !line.contains(10),
{
    if message.contains(10u8) {
        message.index_of_first_ensures(10u8);
        let at = message.index_of_first(10u8).unwrap();
        let line = message.take(at);
        assert(message =~= line + seq![10u8] + message.skip(at + 1));
        assert forall|i: int| 0 <= i < line.len() implies line[i] != 10 by {
            assert(line[i] == message[i]);
        }
    }
}

/// Only a line end at the end of a line is taken away, and only one.
pub proof fn law_one_line_end_is_taken_away(line: Seq<u8>)
    ensures
        line.len() > 0 && line.last() == 10 ==> chomped(line).push(10) == line,
        line.len() == 0 || line.last() != 10 ==> chomped(line) == line,
{
    if line.len() > 0 && line.last() == 10 {
        assert(line.drop_last().push(10) =~= line);
    }
}

/// A frame is put together exactly if as many bytes came as were announced, and then
/// holds all of them and everything that was said of it.
pub proof fn law_announced_bytes_have_to_come(
    frame: Result<FrameCapture, Error>,
    header: FrameOutputOwned,
    body: Seq<u8>,
)
    requires
        is_assembled(frame, header@, body),
    ensures
        frame is Ok <==> header.byte_len == body.len(),
        frame matches Ok(frame) ==> {
            &&& frame.bytes@ == body
            &&& frame.header.card_path@ == header.card_path@
            &&& frame.header.connector_path@ == header.connector_path@
            &&& frame.header.name@ == header.name@
            &&& frame.header.width == header.width
            &&& frame.header.height == header.height
            &&& frame.header.stride == header.stride
            &&& frame.header.pixfmt@ == header.pixfmt@
            &&& frame.header.byte_len == header.byte_len
        },
{
}

/// A frame of a helper has the size, the stride and the bytes that came, and the layout
/// that the helper named; it is refused exactly if the layout has another name than
/// those that are known.
pub proof fn law_helper_frame_is_as_announced(
    frame: Result<HelperFrameOutput, Error>,
    header: HelperFrameHeader,
    data: Vec<u8>,
)
    requires
        is_helper_frame(frame, header, data),
    ensures
        frame is Ok <==> header.pixfmt@ == "BGRA"@ || header.pixfmt@ == "RGBA"@ || header.pixfmt@
            == "RGB565LE"@,
        frame matches Ok(frame) ==> {
            &&& frame.width == header.width
            &&& frame.height == header.height
            &&& frame.stride@.len() == 1
            &&& frame.stride@[0] == header.stride
            &&& frame.data == data
            &&& frame.pixfmt == Pixfmt::BGRA <==> header.pixfmt@ == "BGRA"@
            &&& frame.pixfmt == Pixfmt::RGBA <==> header.pixfmt@ == "RGBA"@
            &&& frame.pixfmt == Pixfmt::RGB565LE <==> header.pixfmt@ == "RGB565LE"@
        },
        frame matches Err(err) ==> err@ == Failure::of(
            ErrorKind::Unsupported,
            "unsupported kms helper pixfmt '"@ + header.pixfmt@ + "'"@,
        ),
{
    pixel::law_layouts_are_told_apart();
}

/// Every plane of an exported framebuffer goes with the file descriptor that came in
/// its place; where planes and descriptors are not as many, nothing is joined.
pub proof fn law_planes_go_with_their_descriptors<F>(
    frame: Result<DmabufFrame<F>, Error>,
    header: HelperDmabufHeader,
    fds: Seq<F>,
    i: int,
)
    requires
        is_dmabuf_frame(frame, header, fds),
    ensures
        frame is Ok <==> header.planes@.len() == fds.len(),
        frame matches Ok(frame) ==> {
            &&& frame.width == header.width
            &&& frame.height == header.height
            &&& frame.fourcc == header.fourcc
            &&& frame.modifier == header.modifier
            &&& frame.planes@.len() == fds.len()
            &&& 0 <= i < fds.len() ==> frame.planes@[i].fd == fds[i] && frame.planes@[i].stride
                == header.planes@[i].stride && frame.planes@[i].offset == header.planes@[i].offset
        },
        frame matches Err(err) ==> err@.kind == ErrorKind::InvalidData,
{
}

} // verus!
