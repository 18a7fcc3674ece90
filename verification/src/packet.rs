//! The three packets of a sidebar, as the bytes of their bodies.
//!
//! A text component travels in a form of its own that this module does not
//! read: a caller hands it over as the bytes it is sent as, and the builders
//! put them in their place.

use vstd::prelude::*;
use vstd::utf8::encode_utf8;

verus! {

/// What an objective packet does with the objective.
#[derive(Clone, Copy, Debug, PartialEq, Eq, Structural)]
pub enum Mode {
    /// Defines the objective for a client that does not have it yet.
    Add,
    /// Takes the objective away.
    Remove,
    /// Changes the title of an objective that the client has.
    Update,
}

/// How the client draws an entry's score.
#[derive(Clone, Copy, Debug, PartialEq, Eq, Structural)]
pub enum RenderType {
    /// As a number.
    Integer,
    /// As a row of hearts.
    Hearts,
}

/// Where on the screen an objective is shown.
#[derive(Clone, Copy, Debug, PartialEq, Eq, Structural)]
pub enum DisplaySlot {
    List,
    Sidebar,
    BelowName,
}

/// How the client formats the numbers of an objective or of one entry.
#[derive(Clone, Debug, PartialEq, Eq)]
pub enum NumberFormat {
    /// No number is shown.
    Blank,
    /// The number is shown in a style, given as the bytes it is sent as.
    Styled(Vec<u8>),
    /// A text component is shown in place of the number, given as the bytes
    /// it is sent as.
    Fixed(Vec<u8>),
}

/// Which of the three packets a body belongs to.
#[derive(Clone, Copy, Debug, PartialEq, Eq, Structural)]
pub enum PacketKind {
    Objective,
    DisplaySlot,
    Score,
}

/// The body of one packet.
#[derive(Clone, Debug, PartialEq, Eq)]
pub struct Packet {
    pub kind: PacketKind,
    pub body: Vec<u8>,
}

/// What a `Packet` holds, as mathematical values.
pub struct PacketView {
    pub kind: PacketKind,
    pub body: Seq<u8>,
}

impl View for Packet {
    type V = PacketView;

    open spec fn view(&self) -> PacketView {
        PacketView { kind: self.kind, body: self.body@ }
    }
}

impl Mode {
    /// The byte that stands for the mode.
    pub open spec fn wire(self) -> u8 {
        match self {
            Mode::Add => 0,
            Mode::Remove => 1,
            Mode::Update => 2,
        }
    }

    /// The byte that stands for the mode.
    pub fn to_wire(self) -> (b: u8)
        ensures
            b == self.wire(),
    {
        match self {
            Mode::Add => 0,
            Mode::Remove => 1,
            Mode::Update => 2,
        }
    }
}

impl RenderType {
    /// The number that stands for the render type.
    pub open spec fn wire(self) -> int {
        match self {
            RenderType::Integer => 0,
            RenderType::Hearts => 1,
        }
    }

    /// The number that stands for the render type.
    pub fn to_wire(self) -> (n: i32)
        ensures
            n == self.wire(),
    {
        match self {
            RenderType::Integer => 0,
            RenderType::Hearts => 1,
        }
    }
}

impl DisplaySlot {
    /// The number that stands for the slot.
    pub open spec fn wire(self) -> int {
        match self {
            DisplaySlot::List => 0,
            DisplaySlot::Sidebar => 1,
            DisplaySlot::BelowName => 2,
        }
    }

    /// The number that stands for the slot.
    pub fn to_wire(self) -> (n: i32)
        ensures
            n == self.wire(),
    {
        match self {
            DisplaySlot::List => 0,
            DisplaySlot::Sidebar => 1,
            DisplaySlot::BelowName => 2,
        }
    }
}

/// The bytes of an unsigned number in groups of seven bits, the lowest group
/// first; every byte but the last has its high bit set.
pub open spec fn varint_unsigned(v: nat) -> Seq<u8>
    decreases v,
{
    if v < 128 {
        seq![v as u8]
    } else {
        seq![(v % 128 + 128) as u8] + varint_unsigned(v / 128)
    }
}

/// The bytes of a 32-bit number: a negative one is sent as the unsigned
/// number with the same 32 bits.
pub open spec fn varint(v: int) -> Seq<u8> {
    if v >= 0 {
        varint_unsigned(v as nat)
    } else {
        varint_unsigned((v + 0x1_0000_0000) as nat)
    }
}

/// Whether the text can be sent as a string: the length of its UTF-8 form
/// must fit the 32-bit number that is sent before it.
pub open spec fn fits_string(s: Seq<char>) -> bool {
    encode_utf8(s).len() <= i32::MAX
}

/// The bytes of a string: the length of its UTF-8 form, then that form.
pub open spec fn string_bytes(s: Seq<char>) -> Seq<u8> {
    varint(encode_utf8(s).len() as int) + encode_utf8(s)
}

/// The bytes of an optional field: one byte that tells whether it is there,
/// then the field.
pub open spec fn optional_bytes(field: Option<Seq<u8>>) -> Seq<u8> {
    match field {
        Some(bytes) => seq![1u8] + bytes,
        None => seq![0u8],
    }
}

/// The bytes of a number format: its tag, then what the tag announces.
pub open spec fn number_format_bytes(format: NumberFormat) -> Seq<u8> {
    match format {
        NumberFormat::Blank => varint(0),
        NumberFormat::Styled(style) => varint(1) + style@,
        NumberFormat::Fixed(text) => varint(2) + text@,
    }
}

/// The optional number format as an optional field.
pub open spec fn number_format_field(format: Option<&NumberFormat>) -> Option<Seq<u8>> {
    match format {
        Some(f) => Some(number_format_bytes(*f)),
        None => None,
    }
}

/// The optional text as an optional field.
pub open spec fn text_field(text: Option<&[u8]>) -> Option<Seq<u8>> {
    match text {
        Some(t) => Some(t@),
        None => None,
    }
}

/// The body of an objective packet: the name and the mode, and for `Add`
/// and `Update` the title, the render type and the optional number format.
/// A `Remove` packet ends after the mode.
pub open spec fn objective_bytes(
    name: Seq<char>,
    mode: Mode,
    title: Seq<u8>,
    render_type: RenderType,
    number_format: Option<Seq<u8>>,
) -> Seq<u8> {
    let head = string_bytes(name) + seq![mode.wire()];
    if mode == Mode::Remove {
        head
    } else {
        head + title + varint(render_type.wire()) + optional_bytes(number_format)
    }
}

/// The body of a display-slot packet: the slot, then the objective's name.
pub open spec fn display_slot_bytes(slot: DisplaySlot, name: Seq<char>) -> Seq<u8> {
    varint(slot.wire()) + string_bytes(name)
}

/// The body of a score packet: the entry's name, the objective's name, the
/// score, the optional text shown for the entry and the optional number
/// format.
pub open spec fn score_bytes(
    entry_name: Seq<char>,
    objective_name: Seq<char>,
    score: int,
    display_text: Option<Seq<u8>>,
    number_format: Option<Seq<u8>>,
) -> Seq<u8> {
    string_bytes(entry_name) + string_bytes(objective_name) + varint(score) + optional_bytes(
        display_text,
    ) + optional_bytes(number_format)
}

/// Appends `bytes` to `out`.
pub fn write_bytes(out: &mut Vec<u8>, bytes: &[u8])
    ensures
        final(out)@ == old(out)@ + bytes@,
{
    let mut i: usize = 0;
    while i < bytes.len()
        invariant
            i <= bytes.len(),
            out@ == old(out)@ + bytes@.take(i as int),
        decreases bytes.len() - i,
    {
        out.push(bytes[i]);
        i += 1;
    }
}

/// Appends a 32-bit number in groups of seven bits.
pub fn write_varint(out: &mut Vec<u8>, value: i32)
    ensures
        final(out)@ == old(out)@ + varint(value as int),
{
    let mut rest: u64 = if value >= 0 {
        value as u64
    } else {
        (value as i64 + 0x1_0000_0000) as u64
    };
    while rest >= 128
        invariant
            out@ + varint_unsigned(rest as nat) == old(out)@ + varint(value as int),
        decreases rest,
    {
        let ghost before = out@;
        out.push((rest % 128 + 128) as u8);
        assert(out@ + varint_unsigned((rest / 128) as nat) =~= before + varint_unsigned(
            rest as nat,
        ));
        rest = rest / 128;
    }
    let ghost before = out@;
    out.push(rest as u8);
    assert(out@ =~= before + varint_unsigned(rest as nat));
}

/// Appends a string: the length of its UTF-8 form, then that form.
pub fn write_string(out: &mut Vec<u8>, s: &str)
    requires
        fits_string(s@),
    ensures
        final(out)@ == old(out)@ + string_bytes(s@),
{
    let bytes = s.as_bytes();
    write_varint(out, bytes.len() as i32);
    write_bytes(out, bytes);
    assert(out@ =~= old(out)@ + string_bytes(s@));
}

/// Appends a number format: its tag, then what the tag announces.
pub fn write_number_format(out: &mut Vec<u8>, format: &NumberFormat)
    ensures
        final(out)@ == old(out)@ + number_format_bytes(*format),
{
    match format {
        NumberFormat::Blank => {
            write_varint(out, 0);
        },
        NumberFormat::Styled(style) => {
            write_varint(out, 1);
            write_bytes(out, style.as_slice());
            assert(out@ =~= old(out)@ + number_format_bytes(*format));
        },
        NumberFormat::Fixed(text) => {
            write_varint(out, 2);
            write_bytes(out, text.as_slice());
            assert(out@ =~= old(out)@ + number_format_bytes(*format));
        },
    }
}

/// Appends an optional number format.
pub fn write_optional_number_format(out: &mut Vec<u8>, format: Option<&NumberFormat>)
    ensures
        final(out)@ == old(out)@ + optional_bytes(number_format_field(format)),
{
    match format {
        Some(f) => {
            out.push(1u8);
            write_number_format(out, f);
            assert(out@ =~= old(out)@ + optional_bytes(number_format_field(format)));
        },
        None => {
            out.push(0u8);
            assert(out@ =~= old(out)@ + optional_bytes(number_format_field(format)));
        },
    }
}

/// Builds an objective packet. `title` is the title's text component as the
/// bytes it is sent as; a `Remove` packet does not hold it, nor the render
/// type, nor the number format.
pub fn objective_packet(
    name: &str,
    mode: Mode,
    title: &[u8],
    render_type: RenderType,
    number_format: Option<&NumberFormat>,
) -> (p: Packet)
    requires
        fits_string(name@),
    ensures
        p.kind == PacketKind::Objective,
        p.body@ == objective_bytes(
            name@,
            mode,
            title@,
            render_type,
            number_format_field(number_format),
        ),
{
    let mut body: Vec<u8> = Vec::new();
    write_string(&mut body, name);
    body.push(mode.to_wire());
    match mode {
        Mode::Remove => {
            assert(body@ =~= string_bytes(name@) + seq![mode.wire()]);
        },
        _ => {
            write_bytes(&mut body, title);
            write_varint(&mut body, render_type.to_wire());
            write_optional_number_format(&mut body, number_format);
            assert(body@ =~= string_bytes(name@) + seq![mode.wire()] + title@ + varint(
                render_type.wire(),
            ) + optional_bytes(number_format_field(number_format)));
        },
    }
    Packet { kind: PacketKind::Objective, body }
}

/// Builds a display-slot packet, which shows the named objective in `slot`.
pub fn display_slot_packet(slot: DisplaySlot, name: &str) -> (p: Packet)
    requires
        fits_string(name@),
    ensures
        p.kind == PacketKind::DisplaySlot,
        p.body@ == display_slot_bytes(slot, name@),
{
    let mut body: Vec<u8> = Vec::new();
    write_varint(&mut body, slot.to_wire());
    write_string(&mut body, name);
    assert(body@ =~= display_slot_bytes(slot, name@));
    Packet { kind: PacketKind::DisplaySlot, body }
}

/// Builds a score packet for one entry of the named objective.
/// `display_text` is a text component as the bytes it is sent as.
pub fn score_packet(
    entry_name: &str,
    objective_name: &str,
    score: i32,
    display_text: Option<&[u8]>,
    number_format: Option<&NumberFormat>,
) -> (p: Packet)
    requires
        fits_string(entry_name@),
        fits_string(objective_name@),
    ensures
        p.kind == PacketKind::Score,
        p.body@ == score_bytes(
            entry_name@,
            objective_name@,
            score as int,
            text_field(display_text),
            number_format_field(number_format),
        ),
{
    let mut body: Vec<u8> = Vec::new();
    write_string(&mut body, entry_name);
    write_string(&mut body, objective_name);
    write_varint(&mut body, score);
    let ghost head = body@;
    match display_text {
        Some(text) => {
            body.push(1u8);
            write_bytes(&mut body, text);
            assert(body@ =~= head + optional_bytes(text_field(display_text)));
        },
        None => {
            body.push(0u8);
            assert(body@ =~= head + optional_bytes(text_field(display_text)));
        },
    }
    write_optional_number_format(&mut body, number_format);
    assert(body@ =~= score_bytes(
        entry_name@,
        objective_name@,
        score as int,
        text_field(display_text),
        number_format_field(number_format),
    ));
    Packet { kind: PacketKind::Score, body }
}

} // verus!
