//! File descriptors beside a message: the control data that carries them, and what
//! became of a message that was sent or received.

use crate::error::{Error, ErrorKind, Failure};
use crate::text;
use crate::wire;
use vstd::prelude::*;

verus! {

/// The size of a file descriptor.
pub const FD_SIZE: usize = 4;

/// The size of a machine word.
pub open spec fn word() -> int {
    usize::BITS as int / 8
}

/// The least multiple of `unit` that is not below `len`.
pub open spec fn rounded_up(len: int, unit: int) -> int {
    (len + unit - 1) / unit * unit
}

/// Control data is aligned to machine words.
pub fn cmsg_align(len: usize) -> (aligned: usize)
    requires
        len + word() - 1 <= usize::MAX,
    ensures
        aligned == rounded_up(len as int, word()),
{
    broadcast use vstd::layout::layout_of_primitives;

    let align: usize = core::mem::size_of::<usize>();
    assert(align == 4 || align == 8);
    let sum: usize = len + (align - 1);
    let aligned: usize = sum & !(align - 1);
    proof {
        if align == 4 {
            assert(sum & !3usize == sum - sum % 4) by (bit_vector);
            assert(word() == 4);
            assert(rounded_up(len as int, 4) == sum / 4 * 4);
        } else {
            assert(sum & !7usize == sum - sum % 8) by (bit_vector);
            assert(word() == 8);
            assert(rounded_up(len as int, 8) == sum / 8 * 8);
        }
    }
    aligned
}

/// `rounded_up` is the least multiple of `unit` that is not below `len`.
pub proof fn law_rounded_up_is_least(len: int, unit: int, multiple: int)
    requires
        0 <= len,
        0 < unit,
    ensures
        len <= rounded_up(len, unit) < len + unit,
        rounded_up(len, unit) % unit == 0,
        len <= multiple * unit ==> rounded_up(len, unit) <= multiple * unit,
{
    let q = (len + unit - 1) / unit;
    vstd::arithmetic::div_mod::lemma_fundamental_div_mod(len + unit - 1, unit);
    vstd::arithmetic::mul::lemma_mul_is_commutative(q, unit);
    vstd::arithmetic::div_mod::lemma_mod_multiples_basic(q, unit);
    if len <= multiple * unit && multiple < q {
        assert(multiple * unit <= (q - 1) * unit) by (nonlinear_arith)
            requires
                multiple <= q - 1,
                0 < unit,
        ;
        assert((q - 1) * unit == q * unit - unit) by (nonlinear_arith);
    }
    if q <= multiple {
        assert(q * unit <= multiple * unit) by (nonlinear_arith)
            requires
                q <= multiple,
                0 < unit,
        ;
    }
}

/// Where things stand in the control data that carries file descriptors.
#[derive(Clone, Copy, PartialEq, Eq, Debug, Structural)]
pub struct ControlLayout {
    /// The size of all the control data.
    pub control_len: usize,
    /// The size that its header announces.
    pub cmsg_len: usize,
    /// Where the file descriptors begin.
    pub data_offset: usize,
}

/// The control data fits into memory.
pub open spec fn control_fits(header_size: usize, fd_count: usize) -> bool {
    header_size + fd_count * FD_SIZE + 2 * (word() - 1) <= usize::MAX
}

/// Whether control data for that many file descriptors fits into memory.
pub fn fits_into_control(header_size: usize, fd_count: usize) -> (fits: bool)
    ensures
        fits == control_fits(header_size, fd_count),
{
    broadcast use vstd::layout::layout_of_primitives;

    let align: usize = core::mem::size_of::<usize>();
    assert(align == word());
    header_size as u128 + fd_count as u128 * 4 + 2 * (align as u128 - 1) <= usize::MAX as u128
}

/// The layout of control data for that many file descriptors behind a header of
/// that size.
pub open spec fn is_layout(layout: ControlLayout, header_size: usize, fd_count: int) -> bool {
    &&& layout.data_offset == rounded_up(header_size as int, word())
    &&& layout.cmsg_len == layout.data_offset + fd_count * FD_SIZE
    &&& layout.control_len == layout.data_offset + rounded_up(fd_count * FD_SIZE, word())
}

/// Lays out control data for that many file descriptors behind a header of that
/// size.
pub fn control_layout(header_size: usize, fd_count: usize) -> (layout: ControlLayout)
    requires
        control_fits(header_size, fd_count),
    ensures
        is_layout(layout, header_size, fd_count as int),
{
    broadcast use vstd::layout::layout_of_primitives;

    proof {
        law_rounded_up_is_least(header_size as int, word(), 0);
        law_rounded_up_is_least(fd_count * FD_SIZE, word(), 0);
    }
    let fd_bytes: usize = fd_count * FD_SIZE;
    let data_offset: usize = cmsg_align(header_size);
    ControlLayout {
        control_len: data_offset + cmsg_align(fd_bytes),
        cmsg_len: data_offset + fd_bytes,
        data_offset,
    }
}

/// How many file descriptors control data carries: none where it is shorter than
/// its header or not about file descriptors.
pub open spec fn carried(control_len: usize, header_size: usize, is_rights: bool, cmsg_len: usize) -> int {
    if control_len < header_size || !is_rights || cmsg_len < rounded_up(
        header_size as int,
        word(),
    ) {
        0
    } else {
        (cmsg_len - rounded_up(header_size as int, word())) / FD_SIZE as int
    }
}

pub fn received_fd_count(
    control_len: usize,
    header_size: usize,
    is_rights: bool,
    cmsg_len: usize,
) -> (count: usize)
    requires
        header_size + word() - 1 <= usize::MAX,
    ensures
        count == carried(control_len, header_size, is_rights, cmsg_len),
{
    if control_len < header_size || !is_rights {
        return 0;
    }
    let header_len: usize = cmsg_align(header_size);
    cmsg_len.saturating_sub(header_len) / FD_SIZE
}

/// A receiver counts as many file descriptors as the sender laid out, and they
/// lie within the control data.
pub proof fn law_sent_descriptors_are_counted(
    header_size: usize,
    fd_count: usize,
    layout: ControlLayout,
)
    requires
        control_fits(header_size, fd_count),
        is_layout(layout, header_size, fd_count as int),
    ensures
        carried(layout.control_len, header_size, true, layout.cmsg_len) == fd_count,
        layout.data_offset + fd_count * FD_SIZE <= layout.control_len,
{
    broadcast use vstd::layout::layout_of_primitives;

    law_rounded_up_is_least(header_size as int, word(), 0);
    law_rounded_up_is_least(fd_count * FD_SIZE, word(), 0);
}

/// The order in which the machine stores the bytes of a number.
#[derive(Clone, Copy, PartialEq, Eq, Debug, Structural)]
pub enum ByteOrder {
    LowFirst,
    HighFirst,
}

/// A descriptor without its sign, in two's complement.
pub open spec fn unsigned(fd: i32) -> int {
    if fd >= 0 {
        fd as int
    } else {
        fd + 0x1_0000_0000
    }
}

/// The bytes of a descriptor.
pub open spec fn fd_bytes(fd: i32, order: ByteOrder) -> Seq<u8> {
    let low_first = seq![
        (unsigned(fd) % 256) as u8,
        (unsigned(fd) / 256 % 256) as u8,
        (unsigned(fd) / 65536 % 256) as u8,
        (unsigned(fd) / 16777216) as u8,
    ];
    match order {
        ByteOrder::LowFirst => low_first,
        ByteOrder::HighFirst => low_first.reverse(),
    }
}

/// The bytes of descriptors, one behind the other.
pub open spec fn all_fd_bytes(fds: Seq<i32>, order: ByteOrder) -> Seq<u8>
    decreases fds.len(),
{
    if fds.len() == 0 {
        Seq::empty()
    } else {
        all_fd_bytes(fds.drop_last(), order) + fd_bytes(fds.last(), order)
    }
}

/// The descriptor whose bytes begin at `at`.
pub open spec fn fd_at(bytes: Seq<u8>, at: int, order: ByteOrder) -> i32 {
    let value = match order {
        ByteOrder::LowFirst => bytes[at] + 256 * bytes[at + 1] + 65536 * bytes[at + 2] + 16777216
            * bytes[at + 3],
        ByteOrder::HighFirst => bytes[at + 3] + 256 * bytes[at + 2] + 65536 * bytes[at + 1]
            + 16777216 * bytes[at],
    };
    if value < 0x8000_0000 {
        value as i32
    } else {
        (value - 0x1_0000_0000) as i32
    }
}

/// So many bytes that are zero.
pub open spec fn zeros(count: int) -> Seq<u8> {
    Seq::new(count as nat, |i: int| 0u8)
}

proof fn lemma_fd_comes_back(fd: i32, bytes: Seq<u8>, at: int, order: ByteOrder)
    requires
        0 <= at,
        at + FD_SIZE <= bytes.len(),
        bytes.subrange(at, at + FD_SIZE) == fd_bytes(fd, order),
    ensures
        fd_at(bytes, at, order) == fd,
{
    let own = fd_bytes(fd, order);
    assert forall|k: int| 0 <= k < FD_SIZE implies bytes[at + k] == #[trigger] own[k] by {
        assert(bytes.subrange(at, at + FD_SIZE)[k] == bytes[at + k]);
    }
    assert(bytes[at + 0] == own[0] && bytes[at + 1] == own[1] && bytes[at + 2] == own[2] && bytes[at
        + 3] == own[3]);
}

proof fn lemma_all_fd_bytes(fds: Seq<i32>, order: ByteOrder, i: int)
    requires
        0 <= i < fds.len(),
    ensures
        all_fd_bytes(fds, order).len() == fds.len() * FD_SIZE,
        all_fd_bytes(fds, order).subrange(i * FD_SIZE, i * FD_SIZE + FD_SIZE) == fd_bytes(
            fds[i],
            order,
        ),
    decreases fds.len(),
{
    let head = fds.drop_last();
    if head.len() > 0 {
        lemma_all_fd_bytes(
            head,
            order,
            if i < head.len() {
                i
            } else {
                0
            },
        );
    }
    let all = all_fd_bytes(fds, order);
    assert(all_fd_bytes(head, order).len() == head.len() * FD_SIZE);
    assert(fd_bytes(fds.last(), order).len() == FD_SIZE);
    if i < head.len() {
        assert(all.subrange(i * FD_SIZE, i * FD_SIZE + FD_SIZE) =~= all_fd_bytes(
            head,
            order,
        ).subrange(i * FD_SIZE, i * FD_SIZE + FD_SIZE));
    } else {
        assert(all.subrange(i * FD_SIZE, i * FD_SIZE + FD_SIZE) =~= fd_bytes(fds[i], order));
    }
}

proof fn lemma_all_fd_bytes_len(fds: Seq<i32>, order: ByteOrder)
    ensures
        all_fd_bytes(fds, order).len() == fds.len() * FD_SIZE,
{
    if fds.len() > 0 {
        lemma_all_fd_bytes(fds, order, 0);
    }
}

fn push_fd(bytes: &mut Vec<u8>, fd: i32, order: ByteOrder)
    ensures
        final(bytes)@ == old(bytes)@ + fd_bytes(fd, order),
{
    let value: u32 = if fd >= 0 {
        fd as u32
    } else {
        (fd as i64 + 0x1_0000_0000) as u32
    };
    let first: u8 = (value % 256) as u8;
    let second: u8 = (value / 256 % 256) as u8;
    let third: u8 = (value / 65536 % 256) as u8;
    let fourth: u8 = (value / 16777216) as u8;
    match order {
        ByteOrder::LowFirst => {
            bytes.push(first);
            bytes.push(second);
            bytes.push(third);
            bytes.push(fourth);
        },
        ByteOrder::HighFirst => {
            bytes.push(fourth);
            bytes.push(third);
            bytes.push(second);
            bytes.push(first);
        },
    }
    assert(bytes@ =~= old(bytes)@ + fd_bytes(fd, order));
}

fn read_fd(bytes: &[u8], at: usize, order: ByteOrder) -> (fd: i32)
    requires
        at + FD_SIZE <= bytes@.len(),
    ensures
        fd == fd_at(bytes@, at as int, order),
{
    let first: i64 = bytes[at] as i64;
    let second: i64 = bytes[at + 1] as i64;
    let third: i64 = bytes[at + 2] as i64;
    let fourth: i64 = bytes[at + 3] as i64;
    let value: i64 = match order {
        ByteOrder::LowFirst => first + 256 * second + 65536 * third + 16777216 * fourth,
        ByteOrder::HighFirst => fourth + 256 * third + 65536 * second + 16777216 * first,
    };
    if value < 0x8000_0000 {
        value as i32
    } else {
        (value - 0x1_0000_0000) as i32
    }
}

fn push_zeros(bytes: &mut Vec<u8>, count: usize)
    ensures
        final(bytes)@ == old(bytes)@ + zeros(count as int),
{
    for i in 0..count
        invariant
            bytes@ == old(bytes)@ + zeros(i as int),
    {
        bytes.push(0);
        assert(bytes@ =~= old(bytes)@ + zeros(i + 1));
    }
    assert(bytes@ =~= old(bytes)@ + zeros(count as int));
}

/// The control data for descriptors: room for its header, the descriptors, and
/// what aligns their end.
pub open spec fn control_bytes(
    layout: ControlLayout,
    fds: Seq<i32>,
    order: ByteOrder,
) -> Seq<u8> {
    zeros(layout.data_offset as int) + all_fd_bytes(fds, order) + zeros(
        layout.control_len - layout.cmsg_len,
    )
}

/// Lays out the control data for these descriptors. Its header is still to be
/// written to the room before them.
pub fn write_control(header_size: usize, fds: &Vec<i32>, order: ByteOrder) -> (written: (
    ControlLayout,
    Vec<u8>,
))
    requires
        control_fits(header_size, fds@.len() as usize),
    ensures
        is_layout(written.0, header_size, fds@.len() as int),
        written.1@ == control_bytes(written.0, fds@, order),
        written.1@.len() == written.0.control_len,
{
    let layout = control_layout(header_size, fds.len());
    let mut bytes: Vec<u8> = Vec::new();
    push_zeros(&mut bytes, layout.data_offset);
    assert(bytes@ =~= zeros(layout.data_offset as int));
    for i in 0..fds.len()
        invariant
            bytes@ == zeros(layout.data_offset as int) + all_fd_bytes(fds@.take(i as int), order),
    {
        assert(fds@.take(i + 1).drop_last() =~= fds@.take(i as int));
        push_fd(&mut bytes, fds[i], order);
        assert(bytes@ =~= zeros(layout.data_offset as int) + all_fd_bytes(
            fds@.take(i + 1),
            order,
        ));
    }
    assert(fds@.take(fds@.len() as int) =~= fds@);
    proof {
        lemma_all_fd_bytes_len(fds@, order);
        law_sent_descriptors_are_counted(header_size, fds@.len() as usize, layout);
    }
    push_zeros(&mut bytes, layout.control_len - layout.cmsg_len);
    (layout, bytes)
}

/// What a message's control data is about, as the system numbers it.
#[derive(Clone, Copy, PartialEq, Eq, Debug, Structural)]
pub struct ControlKind {
    pub level: i32,
    pub kind: i32,
}

/// The header of control data.
#[derive(Clone, Copy, PartialEq, Eq, Debug, Structural)]
pub struct ControlHeader {
    pub about: ControlKind,
    pub len: usize,
}

/// The descriptors in control data of which `control_len` bytes came.
pub open spec fn descriptors(
    control: Seq<u8>,
    control_len: usize,
    header_size: usize,
    header: ControlHeader,
    rights: ControlKind,
    order: ByteOrder,
) -> Seq<i32> {
    Seq::new(
        carried(control_len, header_size, header.about == rights, header.len) as nat,
        |i: int| fd_at(control, rounded_up(header_size as int, word()) + i * FD_SIZE, order),
    )
}

/// Whether the descriptors that a header announces lie within the control data.
pub fn holds_descriptors(
    control: &[u8],
    control_len: usize,
    header_size: usize,
    header: ControlHeader,
    rights: ControlKind,
) -> (holds: bool)
    requires
        header_size + word() - 1 <= usize::MAX,
    ensures
        holds == (rounded_up(header_size as int, word()) + carried(
            control_len,
            header_size,
            header.about == rights,
            header.len,
        ) * FD_SIZE <= control@.len()),
{
    let count: usize = received_fd_count(
        control_len,
        header_size,
        header.about == rights,
        header.len,
    );
    let offset: usize = cmsg_align(header_size);
    offset <= control.len() && count <= (control.len() - offset) / FD_SIZE
}

/// Reads the descriptors in received control data: none where it is shorter than
/// its header or not about rights.
pub fn read_control(
    control: &[u8],
    control_len: usize,
    header_size: usize,
    header: ControlHeader,
    rights: ControlKind,
    order: ByteOrder,
) -> (fds: Vec<i32>)
    requires
        header_size + word() - 1 <= usize::MAX,
        rounded_up(header_size as int, word()) + carried(
            control_len,
            header_size,
            header.about == rights,
            header.len,
        ) * FD_SIZE <= control@.len(),
    ensures
        fds@ == descriptors(control@, control_len, header_size, header, rights, order),
{
    let count: usize = received_fd_count(
        control_len,
        header_size,
        header.about == rights,
        header.len,
    );
    let offset: usize = cmsg_align(header_size);
    let mut fds: Vec<i32> = Vec::new();
    for i in 0..count
        invariant
            offset == rounded_up(header_size as int, word()),
            count == carried(control_len, header_size, header.about == rights, header.len),
            offset + count * FD_SIZE <= control@.len(),
            fds@ == descriptors(control@, control_len, header_size, header, rights, order).take(
                i as int,
            ),
    {
        fds.push(read_fd(control, offset + i * FD_SIZE, order));
        assert(fds@ =~= descriptors(
            control@,
            control_len,
            header_size,
            header,
            rights,
            order,
        ).take(i + 1));
    }
    assert(fds@ =~= descriptors(control@, control_len, header_size, header, rights, order));
    fds
}

/// The descriptors that were sent come back, all of them, in their order and
/// without what aligns their end, whatever the header's room holds.
pub proof fn law_sent_descriptors_come_back(
    header_size: usize,
    fds: Seq<i32>,
    layout: ControlLayout,
    control: Seq<u8>,
    rights: ControlKind,
    order: ByteOrder,
)
    requires
        fds.len() <= usize::MAX,
        control_fits(header_size, fds.len() as usize),
        is_layout(layout, header_size, fds.len() as int),
        control.len() == layout.control_len,
        control.skip(layout.data_offset as int) == control_bytes(layout, fds, order).skip(
            layout.data_offset as int,
        ),
    ensures
        descriptors(
            control,
            layout.control_len,
            header_size,
            ControlHeader { about: rights, len: layout.cmsg_len },
            rights,
            order,
        ) == fds,
        layout.data_offset + fds.len() * FD_SIZE <= control.len(),
{
    let header = ControlHeader { about: rights, len: layout.cmsg_len };
    let found = descriptors(control, layout.control_len, header_size, header, rights, order);
    law_sent_descriptors_are_counted(header_size, fds.len() as usize, layout);
    lemma_all_fd_bytes_len(fds, order);
    let offset = layout.data_offset as int;
    let all = control_bytes(layout, fds, order);
    assert forall|i: int| 0 <= i < fds.len() implies #[trigger] found[i] == fds[i] by {
        let at = offset + i * FD_SIZE;
        lemma_all_fd_bytes(fds, order, i);
        let own = all_fd_bytes(fds, order).subrange(i * FD_SIZE, i * FD_SIZE + FD_SIZE);
        assert forall|k: int| 0 <= k < FD_SIZE implies control[at + k] == #[trigger] own[k] by {
            assert(control.skip(offset)[i * FD_SIZE + k] == control[at + k]);
            assert(all.skip(offset)[i * FD_SIZE + k] == all[at + k]);
        }
        assert(control.subrange(at, at + FD_SIZE) =~= own);
        lemma_fd_comes_back(fds[i], control, at, order);
    }
    assert(found =~= fds);
}

/// Control data that is shorter than its header, or about anything else, brings no
/// descriptors.
pub proof fn law_other_control_data_brings_no_descriptors(
    control: Seq<u8>,
    control_len: usize,
    header_size: usize,
    header: ControlHeader,
    rights: ControlKind,
    order: ByteOrder,
)
    requires
        control_len < header_size || header.about != rights,
    ensures
        descriptors(control, control_len, header_size, header, rights, order).len() == 0,
{
}

/// A message went out whole or did not.
pub open spec fn is_sent(sent: Result<(), Error>, written: usize, len: usize) -> bool {
    match sent {
        Ok(_) => written == len,
        Err(err) => written != len && err@ == Failure::of(
            ErrorKind::WriteZero,
            "short kms dmabuf datagram write: expected "@ + text::decimal(len as nat)
                + ", wrote "@ + text::decimal(written as nat),
        ),
    }
}

/// Whether a whole message went out.
pub fn check_sent(written: usize, len: usize) -> (sent: Result<(), Error>)
    ensures
        is_sent(sent, written, len),
{
    if written != len {
        let expected = text::write_decimal(len as u64);
        let wrote = text::write_decimal(written as u64);
        let message = text::join4(
            "short kms dmabuf datagram write: expected ",
            expected.as_str(),
            ", wrote ",
            wrote.as_str(),
        );
        return Err(Error::with_message(ErrorKind::WriteZero, message));
    }
    Ok(())
}

/// The line that came, if anything did.
pub open spec fn is_received_line(line: Result<Vec<u8>, Error>, buffer: Seq<u8>, read: usize) -> bool {
    match line {
        Ok(line) => read > 0 && line@ == wire::chomped(
            if read <= buffer.len() {
                buffer.take(read as int)
            } else {
                buffer
            },
        ),
        Err(err) => read == 0 && err@ == Failure::of(
            ErrorKind::UnexpectedEof,
            "kms dmabuf socket closed"@,
        ),
    }
}

/// The line of a message of which `read` bytes came into `buffer`; no bytes mean
/// that the other side is gone.
pub fn received_line(buffer: Vec<u8>, read: usize) -> (line: Result<Vec<u8>, Error>)
    ensures
        is_received_line(line, buffer@, read),
{
    if read == 0 {
        return Err(Error::new(ErrorKind::UnexpectedEof, "kms dmabuf socket closed"));
    }
    let mut line = buffer;
    if read <= line.len() {
        line.truncate(read);
        assert(line@ =~= buffer@.take(read as int));
    }
    Ok(wire::strip_newline(line))
}

/// A message went out exactly if all of it did.
pub proof fn law_short_message_did_not_go_out(
    sent: Result<(), Error>,
    written: usize,
    len: usize,
)
    requires
        is_sent(sent, written, len),
    ensures
        sent is Ok <==> written == len,
        sent matches Err(err) ==> err@.kind == ErrorKind::WriteZero,
{
}

/// What came of a message is its line without a line end at the end; that nothing came
/// means that the other side is gone.
pub proof fn law_line_is_what_came(
    line: Result<Vec<u8>, Error>,
    buffer: Seq<u8>,
    read: usize,
)
    requires
        is_received_line(line, buffer, read),
    ensures
        line is Err <==> read == 0,
        line matches Err(err) ==> err@.kind == ErrorKind::UnexpectedEof,
        line matches Ok(line) ==> {
            let came = if read < buffer.len() {
                read as int
            } else {
                buffer.len() as int
            };
            &&& came > 0 && buffer[came - 1] == 10 ==> line@ == buffer.take(came - 1)
            &&& came == 0 || buffer[came - 1] != 10 ==> line@ == buffer.take(came)
        },
{
    let came = if read < buffer.len() {
        read as int
    } else {
        buffer.len() as int
    };
    assert(buffer.take(buffer.len() as int) =~= buffer);
    if came > 0 {
        assert(buffer.take(came).last() == buffer[came - 1]);
        assert(buffer.take(came).drop_last() =~= buffer.take(came - 1));
    }
}

/// Descriptors are counted by what the header announces behind itself, four bytes each;
/// what is left over counts for none.
pub proof fn law_descriptors_are_four_bytes(
    control_len: usize,
    header_size: usize,
    cmsg_len: usize,
    count: int,
    rest: int,
)
    requires
        header_size <= control_len,
        0 <= count,
        0 <= rest < 4,
        cmsg_len == rounded_up(header_size as int, word()) + 4 * count + rest,
    ensures
        carried(control_len, header_size, true, cmsg_len) == count,
        carried(control_len, header_size, false, cmsg_len) == 0,
{
    assert((4 * count + rest) / 4 == count);
}

/// The bytes of a descriptor are its own: put together low byte first, or high byte
/// first, as the machine does, they are the descriptor in two's complement.
pub proof fn law_bytes_of_a_descriptor(fd: i32)
    ensures
        fd_bytes(fd, ByteOrder::LowFirst).len() == 4,
        fd_bytes(fd, ByteOrder::HighFirst).len() == 4,
        ({
            let low = fd_bytes(fd, ByteOrder::LowFirst);
            let value = low[0] + 0x100 * low[1] + 0x1_0000 * low[2] + 0x100_0000 * low[3];
            &&& fd >= 0 ==> value == fd
            &&& fd < 0 ==> value == fd + 0x1_0000_0000
        }),
        ({
            let high = fd_bytes(fd, ByteOrder::HighFirst);
            let value = high[3] + 0x100 * high[2] + 0x1_0000 * high[1] + 0x100_0000 * high[0];
            &&& fd >= 0 ==> value == fd
            &&& fd < 0 ==> value == fd + 0x1_0000_0000
        }),
{
}

/// The control data begins with room for its header, has the descriptors behind it, one
/// after the other, and is otherwise zero.
pub proof fn law_control_data_is_laid_out(
    header_size: usize,
    fds: Seq<i32>,
    layout: ControlLayout,
    order: ByteOrder,
    i: int,
)
    requires
        fds.len() <= usize::MAX,
        control_fits(header_size, fds.len() as usize),
        is_layout(layout, header_size, fds.len() as int),
        0 <= i < fds.len(),
    ensures
        ({
            let bytes = control_bytes(layout, fds, order);
            let at = layout.data_offset + 4 * i;
            &&& bytes.len() == layout.control_len
            &&& header_size <= layout.data_offset
            &&& layout.cmsg_len == layout.data_offset + 4 * fds.len()
            &&& bytes.subrange(at, at + 4) == fd_bytes(fds[i], order)
            &&& forall|k: int| 0 <= k < layout.data_offset ==> #[trigger] bytes[k] == 0
            &&& forall|k: int|
                layout.cmsg_len <= k < layout.control_len ==> #[trigger] bytes[k] == 0
        }),
{
    broadcast use vstd::layout::layout_of_primitives;

    law_rounded_up_is_least(header_size as int, word(), 0);
    law_rounded_up_is_least(fds.len() * FD_SIZE, word(), 0);
    lemma_all_fd_bytes(fds, order, i);
    let bytes = control_bytes(layout, fds, order);
    let at = layout.data_offset + 4 * i;
    assert(bytes.subrange(at, at + 4) =~= all_fd_bytes(fds, order).subrange(4 * i, 4 * i + 4));
}

} // verus!
