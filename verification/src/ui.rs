//! The bytes that drive a VT100 terminal: control sequences, colours, and
//! the line that shows a message above the prompt.

use vstd::prelude::*;
use vstd::string::StringSliceAdditionalSpecFns;
use crate::frames::extend_bytes;

verus! {

/// A control sequence of a VT100 terminal.
#[derive(Clone, Copy, Debug, PartialEq, Eq, Structural)]
pub enum V100 {
    MoveWindowUp,
    MoveWindowDown,
    GoLineUp(usize),
    GoLineDown(usize),
    ClearScreen,
    SaveCursorPosition,
    RestoreCursorPosition,
    GoUpperLeft,
    ClearLineRight,
    InsertBlankSymbols(usize),
    InsertBlankLines(usize),
    ClearLine,
}

/// A colour of text or of background, or the end of all colouring.
#[derive(Clone, Copy, Debug, PartialEq, Eq, Structural)]
pub enum ANSIColors {
    RedText,
    GreenText,
    YellowText,
    BlueText,
    CyanText,
    RedBack,
    GreenBack,
    YellowBack,
    BlueBack,
    CyanBack,
    /// Takes every colour off again.
    Reset,
}

/// Numbers the messages that a terminal shows.
#[derive(Debug, PartialEq, Eq)]
pub struct UITerminal {
    /// The number that the next message gets.
    pub last_index: usize,
}

/// The escape character.
pub const ESC: u8 = 0x1b;

/// The decimal digits of `n` in ASCII.
pub open spec fn spec_decimal(n: nat) -> Seq<u8>
    decreases n,
{
    if n < 10 {
        seq![(48 + n) as u8]
    } else {
        spec_decimal(n / 10).push((48 + n % 10) as u8)
    }
}

/// `[`, the digits of `n`, and a closing letter.
pub open spec fn spec_counted(n: usize, letter: u8) -> Seq<u8> {
    seq![0x5bu8] + spec_decimal(n as nat) + seq![letter]
}

/// What follows the escape character in a control sequence.
pub open spec fn spec_v100_code(c: V100) -> Seq<u8> {
    match c {
        V100::MoveWindowUp => seq![0x44u8],
        V100::MoveWindowDown => seq![0x4du8],
        V100::GoLineUp(n) => spec_counted(n, 0x41),
        V100::GoLineDown(n) => spec_counted(n, 0x42),
        V100::ClearScreen => seq![0x5bu8, 0x32u8, 0x4au8],
        V100::SaveCursorPosition => seq![0x37u8],
        V100::RestoreCursorPosition => seq![0x38u8],
        V100::GoUpperLeft => seq![0x5bu8, 0x48u8],
        V100::ClearLineRight => seq![0x5bu8, 0x4bu8],
        V100::InsertBlankSymbols(n) => spec_counted(n, 0x40),
        V100::InsertBlankLines(n) => spec_counted(n, 0x4c),
        V100::ClearLine => seq![0x5bu8, 0x32u8, 0x4bu8],
    }
}

/// The bytes of a control sequence.
pub open spec fn spec_v100(c: V100) -> Seq<u8> {
    seq![ESC] + spec_v100_code(c)
}

/// The number that selects a colour.
pub open spec fn spec_color_code(c: ANSIColors) -> u8 {
    match c {
        ANSIColors::RedText => 31,
        ANSIColors::GreenText => 32,
        ANSIColors::YellowText => 33,
        ANSIColors::BlueText => 34,
        ANSIColors::CyanText => 36,
        ANSIColors::RedBack => 41,
        ANSIColors::GreenBack => 42,
        ANSIColors::YellowBack => 43,
        ANSIColors::BlueBack => 44,
        ANSIColors::CyanBack => 46,
        ANSIColors::Reset => 0,
    }
}

/// The bytes that switch a colour on.
pub open spec fn spec_color(c: ANSIColors) -> Seq<u8> {
    seq![ESC] + spec_counted(spec_color_code(c) as usize, 0x6d)
}

/// The bytes that set up the screen: cleared, with a rule and a prompt.
pub open spec fn spec_banner() -> Seq<u8> {
    spec_v100(V100::ClearScreen) + spec_v100(V100::GoLineUp(1)) + seq![
        0x2du8,
        0x2du8,
        0x2du8,
        0x0au8,
        0x3eu8,
    ]
}

/// The bytes that show message number `index` from `from` in a fresh line
/// above the prompt and put the cursor back where it was.
pub open spec fn spec_message_line(index: usize, from: Seq<u8>, msg: Seq<u8>) -> Seq<u8> {
    spec_v100(V100::SaveCursorPosition) + spec_v100(V100::MoveWindowUp) + spec_v100(
        V100::GoLineUp(2),
    ) + spec_v100(V100::InsertBlankLines(1)) + seq![0x0du8, 0x23u8] + spec_decimal(index as nat)
        + seq![0x20u8, 0x5bu8] + from + seq![0x5du8, 0x20u8] + msg + spec_v100(V100::GoLineDown(2))
        + spec_v100(V100::RestoreCursorPosition)
}

/// The number after `index`; after the largest comes zero.
pub open spec fn spec_next_index(index: usize) -> usize {
    if index == usize::MAX {
        0
    } else {
        (index + 1) as usize
    }
}

/// The decimal digits of `n` in ASCII.
pub fn decimal(n: usize) -> (r: Vec<u8>)
    ensures
        r@ == spec_decimal(n as nat),
    decreases n,
{
    if n < 10 {
        let mut r: Vec<u8> = Vec::new();
        r.push(48 + n as u8);
        assert(r@ =~= spec_decimal(n as nat));
        r
    } else {
        let mut r = decimal(n / 10);
        r.push(48 + (n % 10) as u8);
        r
    }
}

fn counted(out: &mut Vec<u8>, n: usize, letter: u8)
    ensures
        final(out)@ == old(out)@ + spec_counted(n, letter),
{
    out.push(0x5b);
    let digits = decimal(n);
    extend_bytes(out, digits.as_slice());
    out.push(letter);
    assert(out@ =~= old(out)@ + spec_counted(n, letter));
}

impl V100 {
    /// Appends the bytes of the control sequence to `out`.
    pub fn write_to(&self, out: &mut Vec<u8>)
        ensures
            final(out)@ == old(out)@ + spec_v100(*self),
    {
        out.push(ESC);
        match *self {
            V100::MoveWindowUp => {
                out.push(0x44);
            },
            V100::MoveWindowDown => {
                out.push(0x4d);
            },
            V100::GoLineUp(n) => {
                counted(out, n, 0x41);
            },
            V100::GoLineDown(n) => {
                counted(out, n, 0x42);
            },
            V100::ClearScreen => {
                out.push(0x5b);
                out.push(0x32);
                out.push(0x4a);
            },
            V100::SaveCursorPosition => {
                out.push(0x37);
            },
            V100::RestoreCursorPosition => {
                out.push(0x38);
            },
            V100::GoUpperLeft => {
                out.push(0x5b);
                out.push(0x48);
            },
            V100::ClearLineRight => {
                out.push(0x5b);
                out.push(0x4b);
            },
            V100::InsertBlankSymbols(n) => {
                counted(out, n, 0x40);
            },
            V100::InsertBlankLines(n) => {
                counted(out, n, 0x4c);
            },
            V100::ClearLine => {
                out.push(0x5b);
                out.push(0x32);
                out.push(0x4b);
            },
        }
        assert(out@ =~= old(out)@ + spec_v100(*self));
    }

    /// The bytes of the control sequence.
    pub fn to_bytes(&self) -> (r: Vec<u8>)
        ensures
            r@ == spec_v100(*self),
    {
        let mut out: Vec<u8> = Vec::new();
        self.write_to(&mut out);
        assert(out@ =~= spec_v100(*self));
        out
    }
}

impl ANSIColors {
    /// The number that selects the colour.
    pub fn code(&self) -> (r: u8)
        ensures
            r == spec_color_code(*self),
    {
        match self {
            ANSIColors::RedText => 31,
            ANSIColors::GreenText => 32,
            ANSIColors::YellowText => 33,
            ANSIColors::BlueText => 34,
            ANSIColors::CyanText => 36,
            ANSIColors::RedBack => 41,
            ANSIColors::GreenBack => 42,
            ANSIColors::YellowBack => 43,
            ANSIColors::BlueBack => 44,
            ANSIColors::CyanBack => 46,
            ANSIColors::Reset => 0,
        }
    }

    /// The bytes that switch the colour on.
    pub fn to_bytes(&self) -> (r: Vec<u8>)
        ensures
            r@ == spec_color(*self),
    {
        let mut out: Vec<u8> = Vec::new();
        out.push(ESC);
        counted(&mut out, self.code() as usize, 0x6d);
        assert(out@ =~= spec_color(*self));
        out
    }
}

impl UITerminal {
    /// A terminal that has shown nothing, and the bytes that set up its
    /// screen.
    pub fn new() -> (r: (Self, Vec<u8>))
        ensures
            r.0.last_index == 0,
            r.1@ == spec_banner(),
    {
        let mut out: Vec<u8> = Vec::new();
        V100::ClearScreen.write_to(&mut out);
        V100::GoLineUp(1).write_to(&mut out);
        out.push(0x2d);
        out.push(0x2d);
        out.push(0x2d);
        out.push(0x0a);
        out.push(0x3e);
        assert(out@ =~= spec_banner());
        (UITerminal { last_index: 0 }, out)
    }

    /// Numbers a message and gives the bytes that show it. The numbers go up
    /// by one and start over at zero after the largest.
    pub fn new_message(&mut self, from: &str, msg: &str) -> (r: (usize, Vec<u8>))
        ensures
            r.0 == old(self).last_index,
            final(self).last_index == spec_next_index(old(self).last_index),
            r.1@ == spec_message_line(r.0, from.spec_bytes(), msg.spec_bytes()),
    {
        let index = self.last_index;
        self.last_index = if index == usize::MAX {
            0
        } else {
            index + 1
        };
        let mut out: Vec<u8> = Vec::new();
        V100::SaveCursorPosition.write_to(&mut out);
        V100::MoveWindowUp.write_to(&mut out);
        V100::GoLineUp(2).write_to(&mut out);
        V100::InsertBlankLines(1).write_to(&mut out);
        out.push(0x0d);
        out.push(0x23);
        let digits = decimal(index);
        extend_bytes(&mut out, digits.as_slice());
        out.push(0x20);
        out.push(0x5b);
        extend_bytes(&mut out, from.as_bytes());
        out.push(0x5d);
        out.push(0x20);
        extend_bytes(&mut out, msg.as_bytes());
        V100::GoLineDown(2).write_to(&mut out);
        V100::RestoreCursorPosition.write_to(&mut out);
        assert(out@ =~= spec_message_line(index, from.spec_bytes(), msg.spec_bytes()));
        (index, out)
    }
}

} // verus!
