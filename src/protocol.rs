//! The command vocabulary of the sticks, as exact sequences of bus operations.
//!
//! Every command but the probe is a frame: a start marker broadcast to every
//! stick, then the command's register writes, each broadcast to every stick
//! in order, then a stop marker broadcast to every stick.
use vstd::prelude::*;

use crate::error::FuryControllerError;
use crate::types::Colour;

verus! {

/// Bus address of the stick in slot 1.
pub const STICK_ADDRESS_1: u16 = 0x60;
/// Bus address of the stick in slot 2.
pub const STICK_ADDRESS_2: u16 = 0x61;
/// Bus address of the stick in slot 3.
pub const STICK_ADDRESS_3: u16 = 0x62;
/// Bus address of the stick in slot 4.
pub const STICK_ADDRESS_4: u16 = 0x63;

/// Register that takes the frame markers.
pub const FRAME_REGISTER: u8 = 0x08;
/// Value that opens a frame.
pub const FRAME_START: u8 = 0x53;
/// Value that closes a frame.
pub const FRAME_STOP: u8 = 0x44;
/// Register of the pattern style.
pub const STYLE_REGISTER: u8 = 0x09;
/// Register of a stick's own sync offset.
pub const SYNC_OFFSET_REGISTER: u8 = 0x0b;
/// Register of the pattern start offset.
pub const START_OFFSET_REGISTER: u8 = 0x0d;
/// Register of the overall brightness.
pub const BRIGHTNESS_REGISTER: u8 = 0x20;
/// Register of the pattern repeat delay.
pub const REPEAT_DELAY_REGISTER: u8 = 0x27;
/// Register of the red channel brightness.
pub const RED_BRIGHTNESS_REGISTER: u8 = 0x2d;
/// Register of the green channel brightness.
pub const GREEN_BRIGHTNESS_REGISTER: u8 = 0x2e;
/// Register of the blue channel brightness.
pub const BLUE_BRIGHTNESS_REGISTER: u8 = 0x2f;
/// Register of the number of colours in the colour table.
pub const COLOUR_COUNT_REGISTER: u8 = 0x30;
/// Red register of the first colour; colour `i` starts at `base + 3 i`.
pub const COLOUR_TABLE_BASE: u8 = 0x31;
/// Capacity of a stick's colour table.
pub const MAX_COLOURS: usize = 11;

/// The bus address of a slot, for slots 1 to 4.
pub fn stick_address(slot: u8) -> (r: Option<u16>)
    ensures
        r == (if 1 <= slot <= 4 { Some((0x60 + slot - 1) as u16) } else { None::<u16> }),
{
    match slot {
        1 => Some(STICK_ADDRESS_1),
        2 => Some(STICK_ADDRESS_2),
        3 => Some(STICK_ADDRESS_3),
        4 => Some(STICK_ADDRESS_4),
        _ => None,
    }
}

/// One operation on the bus.
#[derive(Debug, Clone, Copy, PartialEq, Eq, Structural)]
pub enum BusOp {
    /// Later operations go to the device at this address.
    SelectAddress(u16),
    /// Write a value to a register of the selected device.
    WriteRegister { register: u8, value: u8 },
    /// Read a register of the selected device; the value is not used.
    ReadRegister(u8),
}

/// A lighting animation of the sticks.
#[derive(Debug, Clone, Copy, PartialEq, Eq, Structural)]
pub enum PatternStyle {
    /// Always shows the custom colour.
    Solid,
    /// Cycles through the rainbow; colours have no effect.
    Rainbow,
    /// A dot scans from top to bottom, then settles on the centre.
    Scan,
    /// Fades in and out.
    Breathe,
    /// Only fades in.
    Fade,
    /// Wipes from bottom to top.
    Stripe,
    /// A trailing light, bottom to top.
    Trail,
    /// An electrical pattern, like a plasma ball.
    Lightning,
    /// Counts down from 9 to 0 repeatedly.
    Countdown,
    /// Fire; colours have no effect.
    Fire,
    /// Random sparkles; colours have no effect.
    Sparkles,
    /// Writes "F", "U", "R", "Y" across the sticks.
    Fury,
}

/// The opcode of a style on the wire. These numbers are fixed by the firmware.
pub open spec fn style_code(p: PatternStyle) -> u8 {
    match p {
        PatternStyle::Solid => 0x00,
        PatternStyle::Rainbow => 0x01,
        PatternStyle::Scan => 0x02,
        PatternStyle::Breathe => 0x03,
        PatternStyle::Fade => 0x04,
        PatternStyle::Stripe => 0x05,
        PatternStyle::Trail => 0x06,
        PatternStyle::Lightning => 0x07,
        PatternStyle::Countdown => 0x08,
        PatternStyle::Fire => 0x09,
        PatternStyle::Sparkles => 0x0a,
        PatternStyle::Fury => 0x0b,
    }
}

/// The style with a given opcode, if any.
pub open spec fn style_of_code(c: u8) -> Option<PatternStyle> {
    if c == 0x00 { Some(PatternStyle::Solid) }
    else if c == 0x01 { Some(PatternStyle::Rainbow) }
    else if c == 0x02 { Some(PatternStyle::Scan) }
    else if c == 0x03 { Some(PatternStyle::Breathe) }
    else if c == 0x04 { Some(PatternStyle::Fade) }
    else if c == 0x05 { Some(PatternStyle::Stripe) }
    else if c == 0x06 { Some(PatternStyle::Trail) }
    else if c == 0x07 { Some(PatternStyle::Lightning) }
    else if c == 0x08 { Some(PatternStyle::Countdown) }
    else if c == 0x09 { Some(PatternStyle::Fire) }
    else if c == 0x0a { Some(PatternStyle::Sparkles) }
    else if c == 0x0b { Some(PatternStyle::Fury) }
    else { None }
}

impl PatternStyle {
    /// The opcode of this style.
    pub fn code(&self) -> (r: u8)
        ensures
            r == style_code(*self),
    {
        match self {
            PatternStyle::Solid => 0x00,
            PatternStyle::Rainbow => 0x01,
            PatternStyle::Scan => 0x02,
            PatternStyle::Breathe => 0x03,
            PatternStyle::Fade => 0x04,
            PatternStyle::Stripe => 0x05,
            PatternStyle::Trail => 0x06,
            PatternStyle::Lightning => 0x07,
            PatternStyle::Countdown => 0x08,
            PatternStyle::Fire => 0x09,
            PatternStyle::Sparkles => 0x0a,
            PatternStyle::Fury => 0x0b,
        }
    }

    /// The style with opcode `code`, or `None` above 0x0b.
    pub fn from_code(code: u8) -> (r: Option<PatternStyle>)
        ensures
            r == style_of_code(code),
    {
        match code {
            0x00 => Some(PatternStyle::Solid),
            0x01 => Some(PatternStyle::Rainbow),
            0x02 => Some(PatternStyle::Scan),
            0x03 => Some(PatternStyle::Breathe),
            0x04 => Some(PatternStyle::Fade),
            0x05 => Some(PatternStyle::Stripe),
            0x06 => Some(PatternStyle::Trail),
            0x07 => Some(PatternStyle::Lightning),
            0x08 => Some(PatternStyle::Countdown),
            0x09 => Some(PatternStyle::Fire),
            0x0a => Some(PatternStyle::Sparkles),
            0x0b => Some(PatternStyle::Fury),
            _ => None,
        }
    }
}

/// Every style has a code of its own, and the code leads back to the style;
/// every code that names a style is that style's code.
pub proof fn lemma_style_code_round_trip(p: PatternStyle, c: u8)
    ensures
        style_of_code(style_code(p)) == Some(p),
        style_of_code(c) is Some ==> style_code(style_of_code(c)->0) == c,
        style_of_code(c) is Some <==> c <= 0x0b,
{
}


/// The name of a style in text.
pub open spec fn style_name(p: PatternStyle) -> Seq<char> {
    match p {
        PatternStyle::Solid => "solid"@,
        PatternStyle::Rainbow => "rainbow"@,
        PatternStyle::Scan => "scan"@,
        PatternStyle::Breathe => "breathe"@,
        PatternStyle::Fade => "fade"@,
        PatternStyle::Stripe => "stripe"@,
        PatternStyle::Trail => "trail"@,
        PatternStyle::Lightning => "lightning"@,
        PatternStyle::Countdown => "countdown"@,
        PatternStyle::Fire => "fire"@,
        PatternStyle::Sparkles => "sparkles"@,
        PatternStyle::Fury => "fury"@,
    }
}

/// The style that a text names, if any.
pub open spec fn style_of_name(s: Seq<char>) -> Option<PatternStyle> {
    if s == "solid"@ { Some(PatternStyle::Solid) }
    else if s == "rainbow"@ { Some(PatternStyle::Rainbow) }
    else if s == "scan"@ { Some(PatternStyle::Scan) }
    else if s == "breathe"@ { Some(PatternStyle::Breathe) }
    else if s == "fade"@ { Some(PatternStyle::Fade) }
    else if s == "stripe"@ { Some(PatternStyle::Stripe) }
    else if s == "trail"@ { Some(PatternStyle::Trail) }
    else if s == "lightning"@ { Some(PatternStyle::Lightning) }
    else if s == "countdown"@ { Some(PatternStyle::Countdown) }
    else if s == "fire"@ { Some(PatternStyle::Fire) }
    else if s == "sparkles"@ { Some(PatternStyle::Sparkles) }
    else if s == "fury"@ { Some(PatternStyle::Fury) }
    else { None }
}

/// Whether two texts hold the same characters.
fn same_text(a: &str, b: &str) -> (r: bool)
    ensures
        r == (a@ == b@),
{
    let n = a.unicode_len();
    if n != b.unicode_len() {
        return false;
    }
    let mut i: usize = 0;
    while i < n
        invariant
            i <= n,
            n == a@.len(),
            n == b@.len(),
            forall|k: int| 0 <= k < i ==> a@[k] == b@[k],
        decreases n - i,
    {
        if a.get_char(i) != b.get_char(i) {
            return false;
        }
        i = i + 1;
    }
    assert(a@ =~= b@);
    true
}

impl PatternStyle {
    /// The name of this style in text.
    pub fn name(&self) -> (r: &'static str)
        ensures
            r@ == style_name(*self),
    {
        match self {
            PatternStyle::Solid => "solid",
            PatternStyle::Rainbow => "rainbow",
            PatternStyle::Scan => "scan",
            PatternStyle::Breathe => "breathe",
            PatternStyle::Fade => "fade",
            PatternStyle::Stripe => "stripe",
            PatternStyle::Trail => "trail",
            PatternStyle::Lightning => "lightning",
            PatternStyle::Countdown => "countdown",
            PatternStyle::Fire => "fire",
            PatternStyle::Sparkles => "sparkles",
            PatternStyle::Fury => "fury",
        }
    }

    /// The style that `s` names; an unknown name is refused, and the error
    /// carries it.
    pub fn parse(s: &str) -> (r: Result<PatternStyle, FuryControllerError>)
        ensures
            style_of_name(s@) matches Some(p) ==> r == Ok::<PatternStyle, FuryControllerError>(
                p,
            ),
            style_of_name(s@) is None ==> (r matches Err(
                FuryControllerError::UnknownPatternStyle(t),
            ) && t@ == s@),
    {
        if same_text(s, "solid") {
            Ok(PatternStyle::Solid)
        } else if same_text(s, "rainbow") {
            Ok(PatternStyle::Rainbow)
        } else if same_text(s, "scan") {
            Ok(PatternStyle::Scan)
        } else if same_text(s, "breathe") {
            Ok(PatternStyle::Breathe)
        } else if same_text(s, "fade") {
            Ok(PatternStyle::Fade)
        } else if same_text(s, "stripe") {
            Ok(PatternStyle::Stripe)
        } else if same_text(s, "trail") {
            Ok(PatternStyle::Trail)
        } else if same_text(s, "lightning") {
            Ok(PatternStyle::Lightning)
        } else if same_text(s, "countdown") {
            Ok(PatternStyle::Countdown)
        } else if same_text(s, "fire") {
            Ok(PatternStyle::Fire)
        } else if same_text(s, "sparkles") {
            Ok(PatternStyle::Sparkles)
        } else if same_text(s, "fury") {
            Ok(PatternStyle::Fury)
        } else {
            Err(FuryControllerError::UnknownPatternStyle(s.to_owned()))
        }
    }
}

impl std::str::FromStr for PatternStyle {
    type Err = FuryControllerError;

    fn from_str(s: &str) -> Result<Self, Self::Err> {
        PatternStyle::parse(s)
    }
}

/// Every style's name leads back to that style.
pub proof fn lemma_style_name_round_trip(p: PatternStyle)
    ensures
        style_of_name(style_name(p)) == Some(p),
{
    reveal_strlit("solid");
    assert("solid"@.len() == 5 && "solid"@[0] == 's' && "solid"@[1] == 'o');
    reveal_strlit("rainbow");
    assert("rainbow"@.len() == 7 && "rainbow"@[0] == 'r' && "rainbow"@[1] == 'a');
    reveal_strlit("scan");
    assert("scan"@.len() == 4 && "scan"@[0] == 's' && "scan"@[1] == 'c');
    reveal_strlit("breathe");
    assert("breathe"@.len() == 7 && "breathe"@[0] == 'b' && "breathe"@[1] == 'r');
    reveal_strlit("fade");
    assert("fade"@.len() == 4 && "fade"@[0] == 'f' && "fade"@[1] == 'a');
    reveal_strlit("stripe");
    assert("stripe"@.len() == 6 && "stripe"@[0] == 's' && "stripe"@[1] == 't');
    reveal_strlit("trail");
    assert("trail"@.len() == 5 && "trail"@[0] == 't' && "trail"@[1] == 'r');
    reveal_strlit("lightning");
    assert("lightning"@.len() == 9 && "lightning"@[0] == 'l' && "lightning"@[1] == 'i');
    reveal_strlit("countdown");
    assert("countdown"@.len() == 9 && "countdown"@[0] == 'c' && "countdown"@[1] == 'o');
    reveal_strlit("fire");
    assert("fire"@.len() == 4 && "fire"@[0] == 'f' && "fire"@[1] == 'i');
    reveal_strlit("sparkles");
    assert("sparkles"@.len() == 8 && "sparkles"@[0] == 's' && "sparkles"@[1] == 'p');
    reveal_strlit("fury");
    assert("fury"@.len() == 4 && "fury"@[0] == 'f' && "fury"@[1] == 'u');
}

/// Writing `value` to `register` on every stick, in order.
pub open spec fn broadcast(sticks: Seq<u16>, register: u8, value: u8) -> Seq<BusOp>
    decreases sticks.len(),
{
    if sticks.len() == 0 {
        seq![]
    } else {
        broadcast(sticks.drop_last(), register, value) + seq![
            BusOp::SelectAddress(sticks.last()),
            BusOp::WriteRegister { register, value },
        ]
    }
}

/// A frame around `body`: start marker to every stick, the body, stop marker
/// to every stick.
pub open spec fn framed(sticks: Seq<u16>, body: Seq<BusOp>) -> Seq<BusOp> {
    broadcast(sticks, FRAME_REGISTER, FRAME_START) + body + broadcast(
        sticks,
        FRAME_REGISTER,
        FRAME_STOP,
    )
}

/// The probe: on each stick in turn, a start marker, three reads, a stop marker.
pub open spec fn probe_ops(sticks: Seq<u16>) -> Seq<BusOp>
    decreases sticks.len(),
{
    if sticks.len() == 0 {
        seq![]
    } else {
        probe_ops(sticks.drop_last()) + seq![
            BusOp::SelectAddress(sticks.last()),
            BusOp::WriteRegister { register: FRAME_REGISTER, value: FRAME_START },
            BusOp::ReadRegister(0x05),
            BusOp::ReadRegister(0x06),
            BusOp::ReadRegister(0x26),
            BusOp::WriteRegister { register: FRAME_REGISTER, value: FRAME_STOP },
        ]
    }
}

/// The sync offsets of the first `sticks.len()` sticks out of `n`: the stick
/// at position `i` gets `n - 1 - i`.
pub open spec fn sync_offsets(sticks: Seq<u16>, n: int) -> Seq<BusOp>
    decreases sticks.len(),
{
    if sticks.len() == 0 {
        seq![]
    } else {
        sync_offsets(sticks.drop_last(), n) + seq![
            BusOp::SelectAddress(sticks.last()),
            BusOp::WriteRegister {
                register: SYNC_OFFSET_REGISTER,
                value: (n - sticks.len()) as u8,
            },
        ]
    }
}

/// The colour table writes for `colours`: colour `i` goes to registers
/// `base + 3 i`, `base + 3 i + 1` and `base + 3 i + 2`, each broadcast.
pub open spec fn colour_table(sticks: Seq<u16>, colours: Seq<Colour>) -> Seq<BusOp>
    decreases colours.len(),
{
    if colours.len() == 0 {
        seq![]
    } else {
        let i = colours.len() - 1;
        let c = colours.last();
        colour_table(sticks, colours.drop_last()) + broadcast(
            sticks,
            (COLOUR_TABLE_BASE + 3 * i) as u8,
            c.red,
        ) + broadcast(sticks, (COLOUR_TABLE_BASE + 3 * i + 1) as u8, c.green) + broadcast(
            sticks,
            (COLOUR_TABLE_BASE + 3 * i + 2) as u8,
            c.blue,
        )
    }
}

/// What `sync_timings` plans.
pub open spec fn sync_timings_ops(sticks: Seq<u16>) -> Seq<BusOp> {
    framed(sticks, sync_offsets(sticks, sticks.len() as int))
}

/// What `set_rgb_brightness_percent` plans.
pub open spec fn rgb_brightness_ops(sticks: Seq<u16>, r: u8, g: u8, b: u8) -> Seq<BusOp> {
    framed(
        sticks,
        broadcast(sticks, RED_BRIGHTNESS_REGISTER, r) + broadcast(
            sticks,
            GREEN_BRIGHTNESS_REGISTER,
            g,
        ) + broadcast(sticks, BLUE_BRIGHTNESS_REGISTER, b),
    )
}

/// What `set_brightness_percent` plans.
pub open spec fn brightness_ops(sticks: Seq<u16>, percent: u8) -> Seq<BusOp> {
    framed(sticks, broadcast(sticks, BRIGHTNESS_REGISTER, percent))
}

/// What `set_pattern_start_offset` plans.
pub open spec fn start_offset_ops(sticks: Seq<u16>, offset: u8) -> Seq<BusOp> {
    framed(sticks, broadcast(sticks, START_OFFSET_REGISTER, offset))
}

/// What `set_pattern_repeat_delay` plans.
pub open spec fn repeat_delay_ops(sticks: Seq<u16>, delay: u8) -> Seq<BusOp> {
    framed(sticks, broadcast(sticks, REPEAT_DELAY_REGISTER, delay))
}

/// What `set_pattern` plans for at most eleven colours: style, colour
/// count, then the colour table.
pub open spec fn pattern_ops(sticks: Seq<u16>, style: PatternStyle, colours: Seq<Colour>) -> Seq<
    BusOp,
> {
    framed(
        sticks,
        broadcast(sticks, STYLE_REGISTER, style_code(style)) + broadcast(
            sticks,
            COLOUR_COUNT_REGISTER,
            colours.len() as u8,
        ) + colour_table(sticks, colours),
    )
}

/// What `set_pattern_style_only` plans.
pub open spec fn style_only_ops(sticks: Seq<u16>, style: PatternStyle) -> Seq<BusOp> {
    framed(sticks, broadcast(sticks, STYLE_REGISTER, style_code(style)))
}

/// What `set_pattern_colour_only` plans: a count of one and one colour.
pub open spec fn colour_only_ops(sticks: Seq<u16>, colour: Colour) -> Seq<BusOp> {
    framed(
        sticks,
        broadcast(sticks, COLOUR_COUNT_REGISTER, 1) + colour_table(sticks, seq![colour]),
    )
}

/// The fixed reset sequence, step by step.
pub open spec fn reset_steps(sticks: Seq<u16>) -> Seq<Seq<BusOp>> {
    seq![
        probe_ops(sticks),
        probe_ops(sticks),
        sync_timings_ops(sticks),
        brightness_ops(sticks, 100),
        rgb_brightness_ops(sticks, 100, 100, 100),
        start_offset_ops(sticks, 0),
        repeat_delay_ops(sticks, 1),
        pattern_ops(sticks, PatternStyle::Rainbow, seq![Colour { red: 0, green: 0, blue: 0 }]),
        sync_timings_ops(sticks),
    ]
}

/// The fixed reset sequence as one list of operations.
pub open spec fn reset_ops(sticks: Seq<u16>) -> Seq<BusOp> {
    reset_steps(sticks).flatten()
}



/// A broadcast reaches every stick, in the order of the set: the stick at
/// position `i` is selected at step `2 i` and written at step `2 i + 1`.
pub proof fn lemma_broadcast_reaches_every_stick(sticks: Seq<u16>, register: u8, value: u8)
    ensures
        broadcast(sticks, register, value).len() == 2 * sticks.len(),
        forall|i: int|
            0 <= i < sticks.len() ==> #[trigger] broadcast(sticks, register, value)[2 * i]
                == BusOp::SelectAddress(sticks[i]) && broadcast(sticks, register, value)[2 * i
                + 1] == (BusOp::WriteRegister { register, value }),
    decreases sticks.len(),
{
    if sticks.len() > 0 {
        lemma_broadcast_reaches_every_stick(sticks.drop_last(), register, value);
    }
}

/// A frame opens with a start marker on every stick, in order, before any
/// write of its body, and closes with a stop marker on every stick after the
/// last write of its body.
pub proof fn lemma_frame_brackets(sticks: Seq<u16>, body: Seq<BusOp>)
    ensures
        framed(sticks, body).len() == 4 * sticks.len() + body.len(),
        framed(sticks, body).subrange(2 * sticks.len() as int, (2 * sticks.len() + body.len()) as int)
            == body,
        forall|i: int|
            0 <= i < sticks.len() ==> {
                &&& #[trigger] framed(sticks, body)[2 * i] == BusOp::SelectAddress(sticks[i])
                &&& framed(sticks, body)[2 * i + 1] == (BusOp::WriteRegister {
                    register: FRAME_REGISTER,
                    value: FRAME_START,
                })
                &&& framed(sticks, body)[2 * sticks.len() + body.len() + 2 * i]
                    == BusOp::SelectAddress(sticks[i])
                &&& framed(sticks, body)[2 * sticks.len() + body.len() + 2 * i + 1] == (
                BusOp::WriteRegister { register: FRAME_REGISTER, value: FRAME_STOP })
            },
{
    lemma_broadcast_reaches_every_stick(sticks, FRAME_REGISTER, FRAME_START);
    lemma_broadcast_reaches_every_stick(sticks, FRAME_REGISTER, FRAME_STOP);
    let f = framed(sticks, body);
    let n = sticks.len() as int;
    assert(f.subrange(2 * n, 2 * n + body.len()) =~= body);
    let start = broadcast(sticks, FRAME_REGISTER, FRAME_START);
    let stop = broadcast(sticks, FRAME_REGISTER, FRAME_STOP);
    assert forall|i: int| 0 <= i < n implies {
        &&& #[trigger] f[2 * i] == BusOp::SelectAddress(sticks[i])
        &&& f[2 * i + 1] == (BusOp::WriteRegister { register: FRAME_REGISTER, value: FRAME_START })
        &&& f[2 * n + body.len() + 2 * i] == BusOp::SelectAddress(sticks[i])
        &&& f[2 * n + body.len() + 2 * i + 1] == (BusOp::WriteRegister {
            register: FRAME_REGISTER,
            value: FRAME_STOP,
        })
    } by {
        assert(f[2 * i] == start[2 * i]);
        assert(f[2 * i + 1] == start[2 * i + 1]);
        assert(f[2 * n + body.len() + 2 * i] == stop[2 * i]);
        assert(f[2 * n + body.len() + 2 * i + 1] == stop[2 * i + 1]);
    }
}

proof fn lemma_sync_offsets(sticks: Seq<u16>, n: int)
    ensures
        sync_offsets(sticks, n).len() == 2 * sticks.len(),
        forall|i: int|
            0 <= i < sticks.len() ==> #[trigger] sync_offsets(sticks, n)[2 * i]
                == BusOp::SelectAddress(sticks[i]) && sync_offsets(sticks, n)[2 * i + 1] == (
            BusOp::WriteRegister { register: SYNC_OFFSET_REGISTER, value: (n - 1 - i) as u8 }),
    decreases sticks.len(),
{
    if sticks.len() > 0 {
        lemma_sync_offsets(sticks.drop_last(), n);
    }
}

/// Sync of `n` sticks: after the start markers, the stick at position `i`
/// is selected and given offset `n - 1 - i`, for each position in order;
/// then come the stop markers.
pub proof fn lemma_sync_timings_offsets(sticks: Seq<u16>)
    requires
        0 < sticks.len() <= 256,
    ensures
        sync_timings_ops(sticks).len() == 6 * sticks.len(),
        forall|i: int|
            0 <= i < sticks.len() ==> {
                &&& #[trigger] sync_timings_ops(sticks)[2 * sticks.len() + 2 * i]
                    == BusOp::SelectAddress(sticks[i])
                &&& sync_timings_ops(sticks)[2 * sticks.len() + 2 * i + 1] == (
                BusOp::WriteRegister {
                    register: SYNC_OFFSET_REGISTER,
                    value: (sticks.len() - 1 - i) as u8,
                })
            },
{
    let n = sticks.len() as int;
    lemma_broadcast_reaches_every_stick(sticks, FRAME_REGISTER, FRAME_START);
    lemma_broadcast_reaches_every_stick(sticks, FRAME_REGISTER, FRAME_STOP);
    lemma_sync_offsets(sticks, n);
    let ops = sync_timings_ops(sticks);
    let body = sync_offsets(sticks, n);
    assert forall|i: int| 0 <= i < sticks.len() implies {
        &&& #[trigger] ops[2 * n + 2 * i] == BusOp::SelectAddress(sticks[i])
        &&& ops[2 * n + 2 * i + 1] == (BusOp::WriteRegister {
            register: SYNC_OFFSET_REGISTER,
            value: (n - 1 - i) as u8,
        })
    } by {
        assert(ops[2 * n + 2 * i] == body[2 * i]);
        assert(ops[2 * n + 2 * i + 1] == body[2 * i + 1]);
    }
}

/// The sticks that one invocation targets, in order. Not empty, and small
/// enough that every position's sync offset fits in a register.
pub struct MultiRamController {
    sticks: Vec<u16>,
}

impl View for MultiRamController {
    type V = Seq<u16>;

    closed spec fn view(&self) -> Seq<u16> {
        self.sticks@
    }
}

impl MultiRamController {
    /// The set is not empty and has at most 256 sticks.
    pub open spec fn wf(&self) -> bool {
        0 < self@.len() <= 256
    }

    /// A controller for `sticks`; the bus is opened against the first one.
    pub fn new(sticks: Vec<u16>) -> (r: Self)
        requires
            0 < sticks@.len() <= 256,
        ensures
            r@ == sticks@,
            r.wf(),
    {
        MultiRamController { sticks }
    }

    /// The address of the first stick, the one that the bus is opened against.
    pub fn first_stick(&self) -> (r: u16)
        requires
            self.wf(),
        ensures
            r == self@[0],
    {
        self.sticks[0]
    }

    /// Appends a write of `value` to `register` on every stick.
    fn push_broadcast(&self, ops: &mut Vec<BusOp>, register: u8, value: u8)
        ensures
            final(ops)@ == old(ops)@ + broadcast(self@, register, value),
    {
        let ghost start = ops@;
        let mut i: usize = 0;
        while i < self.sticks.len()
            invariant
                i <= self.sticks@.len(),
                ops@ == start + broadcast(self.sticks@.subrange(0, i as int), register, value),
            decreases self.sticks@.len() - i,
        {
            proof {
                assert(self.sticks@.subrange(0, i + 1).drop_last() =~= self.sticks@.subrange(
                    0,
                    i as int,
                ));
            }
            ops.push(BusOp::SelectAddress(self.sticks[i]));
            ops.push(BusOp::WriteRegister { register, value });
            i = i + 1;
            proof {
                assert(ops@ =~= start + broadcast(
                    self.sticks@.subrange(0, i as int),
                    register,
                    value,
                ));
            }
        }
        proof {
            assert(self.sticks@.subrange(0, self.sticks@.len() as int) =~= self.sticks@);
        }
    }

    fn push_start(&self, ops: &mut Vec<BusOp>)
        ensures
            final(ops)@ == old(ops)@ + broadcast(self@, FRAME_REGISTER, FRAME_START),
    {
        self.push_broadcast(ops, FRAME_REGISTER, FRAME_START);
    }

    fn push_end(&self, ops: &mut Vec<BusOp>)
        ensures
            final(ops)@ == old(ops)@ + broadcast(self@, FRAME_REGISTER, FRAME_STOP),
    {
        self.push_broadcast(ops, FRAME_REGISTER, FRAME_STOP);
    }

    /// The probe: each stick in turn gets a start marker, three reads whose
    /// values go unused, and a stop marker. The sticks need it to wake up.
    pub fn noop(&self) -> (r: Vec<BusOp>)
        ensures
            r@ == probe_ops(self@),
    {
        let mut ops: Vec<BusOp> = Vec::new();
        let mut i: usize = 0;
        while i < self.sticks.len()
            invariant
                i <= self.sticks@.len(),
                ops@ == probe_ops(self.sticks@.subrange(0, i as int)),
            decreases self.sticks@.len() - i,
        {
            proof {
                assert(self.sticks@.subrange(0, i + 1).drop_last() =~= self.sticks@.subrange(
                    0,
                    i as int,
                ));
            }
            ops.push(BusOp::SelectAddress(self.sticks[i]));
            ops.push(BusOp::WriteRegister { register: FRAME_REGISTER, value: FRAME_START });
            ops.push(BusOp::ReadRegister(0x05));
            ops.push(BusOp::ReadRegister(0x06));
            ops.push(BusOp::ReadRegister(0x26));
            ops.push(BusOp::WriteRegister { register: FRAME_REGISTER, value: FRAME_STOP });
            i = i + 1;
            proof {
                assert(ops@ =~= probe_ops(self.sticks@.subrange(0, i as int)));
            }
        }
        proof {
            assert(self.sticks@.subrange(0, self.sticks@.len() as int) =~= self.sticks@);
        }
        ops
    }

    /// One frame in which the stick at position `i` of `n` gets sync offset
    /// `n - 1 - i`, so that the sticks play their patterns in step.
    pub fn sync_timings(&self) -> (r: Vec<BusOp>)
        requires
            self.wf(),
        ensures
            r@ == sync_timings_ops(self@),
    {
        let mut ops: Vec<BusOp> = Vec::new();
        self.push_start(&mut ops);
        let ghost start = ops@;
        let n = self.sticks.len();
        let mut i: usize = 0;
        while i < n
            invariant
                n == self.sticks@.len() <= 256,
                i <= n,
                ops@ == start + sync_offsets(self.sticks@.subrange(0, i as int), n as int),
            decreases n - i,
        {
            proof {
                assert(self.sticks@.subrange(0, i + 1).drop_last() =~= self.sticks@.subrange(
                    0,
                    i as int,
                ));
            }
            let offset = (n - i - 1) as u8;
            ops.push(BusOp::SelectAddress(self.sticks[i]));
            ops.push(BusOp::WriteRegister { register: SYNC_OFFSET_REGISTER, value: offset });
            i = i + 1;
            proof {
                assert(ops@ =~= start + sync_offsets(
                    self.sticks@.subrange(0, i as int),
                    n as int,
                ));
            }
        }
        proof {
            assert(self.sticks@.subrange(0, n as int) =~= self.sticks@);
        }
        self.push_end(&mut ops);
        ops
    }

    /// One frame that sets the red, green and blue brightness, in percent.
    pub fn set_rgb_brightness_percent(
        &self,
        r_brightness_percent: u8,
        g_brightness_percent: u8,
        b_brightness_percent: u8,
    ) -> (r: Vec<BusOp>)
        requires
            r_brightness_percent <= 100,
            g_brightness_percent <= 100,
            b_brightness_percent <= 100,
        ensures
            r@ == rgb_brightness_ops(
                self@,
                r_brightness_percent,
                g_brightness_percent,
                b_brightness_percent,
            ),
    {
        let mut ops: Vec<BusOp> = Vec::new();
        self.push_start(&mut ops);
        self.push_broadcast(&mut ops, RED_BRIGHTNESS_REGISTER, r_brightness_percent);
        self.push_broadcast(&mut ops, GREEN_BRIGHTNESS_REGISTER, g_brightness_percent);
        self.push_broadcast(&mut ops, BLUE_BRIGHTNESS_REGISTER, b_brightness_percent);
        self.push_end(&mut ops);
        proof {
            let s = self@;
            assert(ops@ =~= rgb_brightness_ops(
                s,
                r_brightness_percent,
                g_brightness_percent,
                b_brightness_percent,
            ));
        }
        ops
    }

    /// One frame that writes `value` to `register` on every stick.
    fn single_write_frame(&self, register: u8, value: u8) -> (r: Vec<BusOp>)
        ensures
            r@ == framed(self@, broadcast(self@, register, value)),
    {
        let mut ops: Vec<BusOp> = Vec::new();
        self.push_start(&mut ops);
        self.push_broadcast(&mut ops, register, value);
        self.push_end(&mut ops);
        proof {
            assert(ops@ =~= framed(self@, broadcast(self@, register, value)));
        }
        ops
    }

    /// One frame that sets the overall brightness, in percent.
    pub fn set_brightness_percent(&self, brightness_percent: u8) -> (r: Vec<BusOp>)
        requires
            brightness_percent <= 100,
        ensures
            r@ == brightness_ops(self@, brightness_percent),
    {
        self.single_write_frame(BRIGHTNESS_REGISTER, brightness_percent)
    }

    /// One frame that sets the delay before the pattern starts.
    pub fn set_pattern_start_offset(&self, raw_offset: u8) -> (r: Vec<BusOp>)
        ensures
            r@ == start_offset_ops(self@, raw_offset),
    {
        self.single_write_frame(START_OFFSET_REGISTER, raw_offset)
    }

    /// One frame that sets the delay before the pattern repeats. All sticks
    /// should have the same value for their loops to stay aligned.
    pub fn set_pattern_repeat_delay(&self, raw_delay: u8) -> (r: Vec<BusOp>)
        ensures
            r@ == repeat_delay_ops(self@, raw_delay),
    {
        self.single_write_frame(REPEAT_DELAY_REGISTER, raw_delay)
    }

    /// One frame that rewrites the pattern style alone.
    pub fn set_pattern_style_only(&self, style: PatternStyle) -> (r: Vec<BusOp>)
        ensures
            r@ == style_only_ops(self@, style),
    {
        self.single_write_frame(STYLE_REGISTER, style.code())
    }

    /// Appends the colour table writes for `colours`.
    fn push_colour_table(&self, ops: &mut Vec<BusOp>, colours: &[Colour])
        requires
            colours@.len() <= MAX_COLOURS,
        ensures
            final(ops)@ == old(ops)@ + colour_table(self@, colours@),
    {
        let ghost start = ops@;
        let mut i: usize = 0;
        while i < colours.len()
            invariant
                i <= colours@.len() <= MAX_COLOURS,
                ops@ == start + colour_table(self@, colours@.subrange(0, i as int)),
            decreases colours@.len() - i,
        {
            let ghost before = ops@;
            proof {
                assert(colours@.subrange(0, i + 1).drop_last() =~= colours@.subrange(0, i as int));
            }
            let base: u8 = COLOUR_TABLE_BASE + 3 * (i as u8);
            let colour = colours[i];
            self.push_broadcast(ops, base, colour.red);
            self.push_broadcast(ops, base + 1, colour.green);
            self.push_broadcast(ops, base + 2, colour.blue);
            i = i + 1;
            proof {
                let s = colours@.subrange(0, i as int);
                assert(s.last() == colour);
                assert(ops@ =~= start + colour_table(self@, s));
            }
        }
        proof {
            assert(colours@.subrange(0, colours@.len() as int) =~= colours@);
        }
    }

    /// One frame that sets the pattern style and the colour table. More than
    /// eleven colours are refused before anything is planned.
    pub fn set_pattern(&self, pattern: PatternStyle, colours: &[Colour]) -> (r: Result<
        Vec<BusOp>,
        FuryControllerError,
    >)
        ensures
            colours@.len() > MAX_COLOURS ==> r == Err::<Vec<BusOp>, FuryControllerError>(
                FuryControllerError::TooManyColours(colours@.len() as usize),
            ),
            colours@.len() <= MAX_COLOURS ==> (r matches Ok(ops) && ops@ == pattern_ops(
                self@,
                pattern,
                colours@,
            )),
    {
        if colours.len() > MAX_COLOURS {
            return Err(FuryControllerError::TooManyColours(colours.len()));
        }
        let mut ops: Vec<BusOp> = Vec::new();
        self.push_start(&mut ops);
        self.push_broadcast(&mut ops, STYLE_REGISTER, pattern.code());
        self.push_broadcast(&mut ops, COLOUR_COUNT_REGISTER, colours.len() as u8);
        self.push_colour_table(&mut ops, colours);
        self.push_end(&mut ops);
        proof {
            assert(ops@ =~= pattern_ops(self@, pattern, colours@));
        }
        Ok(ops)
    }

    /// One frame that sets a single custom colour, leaving the style as it is.
    pub fn set_pattern_colour_only(&self, red: u8, green: u8, blue: u8) -> (r: Vec<BusOp>)
        ensures
            r@ == colour_only_ops(self@, Colour { red, green, blue }),
    {
        let colours = [Colour { red, green, blue }];
        let mut ops: Vec<BusOp> = Vec::new();
        self.push_start(&mut ops);
        self.push_broadcast(&mut ops, COLOUR_COUNT_REGISTER, 1);
        self.push_colour_table(&mut ops, &colours);
        self.push_end(&mut ops);
        proof {
            assert(colours@ =~= seq![Colour { red, green, blue }]);
            assert(ops@ =~= colour_only_ops(self@, Colour { red, green, blue }));
        }
        ops
    }

    /// The reset sequence: probe twice, sync, full brightness on every
    /// channel, no start offset, a repeat delay of 1, the rainbow pattern with
    /// one black colour, and sync again, in that order.
    pub fn reset(&self) -> (r: Vec<BusOp>)
        requires
            self.wf(),
        ensures
            r@ == reset_ops(self@),
    {
        let mut ops = self.noop();
        ops.append(&mut self.noop());
        ops.append(&mut self.sync_timings());
        ops.append(&mut self.set_brightness_percent(100));
        ops.append(&mut self.set_rgb_brightness_percent(100, 100, 100));
        ops.append(&mut self.set_pattern_start_offset(0));
        ops.append(&mut self.set_pattern_repeat_delay(1));
        let black = [Colour::default()];
        match self.set_pattern(PatternStyle::Rainbow, &black) {
            Ok(mut pattern) => ops.append(&mut pattern),
            Err(_) => {},
        }
        ops.append(&mut self.sync_timings());
        proof {
            let s = self@;
            assert(black@ =~= seq![Colour { red: 0, green: 0, blue: 0 }]);
            let steps = reset_steps(s);
            assert(steps.flatten() =~= steps[0] + steps[1] + steps[2] + steps[3] + steps[4]
                + steps[5] + steps[6] + steps[7] + steps[8]) by {
                reveal_with_fuel(Seq::flatten, 10);
            }
            assert(ops@ =~= reset_ops(s));
        }
        ops
    }
}

} // verus!
