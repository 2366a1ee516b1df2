//! Colors, text modifiers and [`Style`]s, and the [`StyleChange`] that moves a
//! terminal from one style to another.

use vstd::prelude::*;
use crate::tui::command::{Attribute, Command, only_if, push_if};

verus! {

/// A color of the terminal's palette.
#[derive(Debug, Clone, Copy, PartialEq, Eq, Structural)]
pub enum Color {
    /// The terminal's default color.
    Reset,
    Black,
    DarkGrey,
    Red,
    DarkRed,
    Green,
    DarkGreen,
    Yellow,
    DarkYellow,
    Blue,
    DarkBlue,
    Magenta,
    DarkMagenta,
    Cyan,
    DarkCyan,
    White,
    Grey,
    /// A 24-bit color.
    Rgb { r: u8, g: u8, b: u8 },
    /// One of the 256 indexed colors.
    AnsiValue(u8),
}

/// The bit of the bold modifier.
pub const BOLD: u16 = 0x001;

/// The bit of the dim modifier.
pub const DIM: u16 = 0x002;

/// The bit of the italic modifier.
pub const ITALIC: u16 = 0x004;

/// The bit of the underlined modifier.
pub const UNDERLINED: u16 = 0x008;

/// The bit of the slow blink modifier.
pub const SLOW_BLINK: u16 = 0x010;

/// The bit of the rapid blink modifier.
pub const RAPID_BLINK: u16 = 0x020;

/// The bit of the reversed modifier.
pub const REVERSED: u16 = 0x040;

/// The bit of the hidden modifier.
pub const HIDDEN: u16 = 0x080;

/// The bit of the crossed out modifier.
pub const CROSSED_OUT: u16 = 0x100;

/// The bits of all the modifiers.
pub const ALL: u16 = 0x1ff;

/// A set of text modifiers that the terminal can put on a cell, one bit for
/// each.
#[derive(Debug, Clone, Copy, PartialEq, Eq, Structural)]
pub struct Modifier {
    /// The bits of the modifiers in the set.
    pub bits: u16,
}

impl Modifier {
    /// Whether every modifier of `other` is in `self`.
    pub open spec fn has(self, other: Modifier) -> bool {
        self.bits & other.bits == other.bits
    }

    /// The set of the modifiers of `a` that are not in `b`.
    pub open spec fn without(a: Modifier, b: Modifier) -> Modifier {
        Modifier { bits: a.bits & !b.bits }
    }

    /// The set without any modifier.
    pub fn empty() -> (r: Modifier)
        ensures
            r.bits == 0,
    {
        Modifier { bits: 0 }
    }

    /// The set of every modifier.
    pub fn all() -> (r: Modifier)
        ensures
            r.bits == ALL,
    {
        Modifier { bits: ALL }
    }

    /// The set with the modifiers whose bits are set in `bits`; bits that
    /// stand for no modifier are dropped.
    pub fn from_bits_truncate(bits: u16) -> (r: Modifier)
        ensures
            r.bits == bits & ALL,
    {
        Modifier { bits: bits & ALL }
    }

    /// The set of the bold modifier alone.
    pub fn bold() -> (r: Modifier)
        ensures
            r.bits == BOLD,
    {
        Modifier { bits: BOLD }
    }

    /// The set of the dim modifier alone.
    pub fn dim() -> (r: Modifier)
        ensures
            r.bits == DIM,
    {
        Modifier { bits: DIM }
    }

    /// The set of the italic modifier alone.
    pub fn italic() -> (r: Modifier)
        ensures
            r.bits == ITALIC,
    {
        Modifier { bits: ITALIC }
    }

    /// The set of the underlined modifier alone.
    pub fn underlined() -> (r: Modifier)
        ensures
            r.bits == UNDERLINED,
    {
        Modifier { bits: UNDERLINED }
    }

    /// The set of the slow blink modifier alone.
    pub fn slow_blink() -> (r: Modifier)
        ensures
            r.bits == SLOW_BLINK,
    {
        Modifier { bits: SLOW_BLINK }
    }

    /// The set of the rapid blink modifier alone.
    pub fn rapid_blink() -> (r: Modifier)
        ensures
            r.bits == RAPID_BLINK,
    {
        Modifier { bits: RAPID_BLINK }
    }

    /// The set of the reversed modifier alone.
    pub fn reversed() -> (r: Modifier)
        ensures
            r.bits == REVERSED,
    {
        Modifier { bits: REVERSED }
    }

    /// The set of the hidden modifier alone.
    pub fn hidden() -> (r: Modifier)
        ensures
            r.bits == HIDDEN,
    {
        Modifier { bits: HIDDEN }
    }

    /// The set of the crossed out modifier alone.
    pub fn crossed_out() -> (r: Modifier)
        ensures
            r.bits == CROSSED_OUT,
    {
        Modifier { bits: CROSSED_OUT }
    }

    /// The bits of the modifiers in the set.
    pub fn bits(&self) -> (r: u16)
        ensures
            r == self.bits,
    {
        self.bits
    }

    /// Whether the set holds no modifier.
    pub fn is_empty(&self) -> (r: bool)
        ensures
            r == (self.bits == 0),
    {
        self.bits == 0
    }

    /// Whether every modifier of `other` is in the set.
    pub fn contains(&self, other: Modifier) -> (r: bool)
        ensures
            r == self.has(other),
    {
        self.bits & other.bits == other.bits
    }

    /// The modifiers that are in either set.
    pub fn union(self, other: Modifier) -> (r: Modifier)
        ensures
            r.bits == self.bits | other.bits,
    {
        Modifier { bits: self.bits | other.bits }
    }

    /// The modifiers of `self` that are not in `other`.
    pub fn difference(self, other: Modifier) -> (r: Modifier)
        ensures
            r.bits == self.bits & !other.bits,
    {
        Modifier { bits: self.bits & !other.bits }
    }
}

/// The style of a cell: its two colors and the modifiers applied to it.
///
/// A style is built up from the default one:
/// `Style::default().fg(Color::Red).add_modifier(Modifier::bold())`.
#[derive(Debug, Clone, Copy, PartialEq, Eq, Structural)]
pub struct Style {
    /// The foreground color.
    pub fg: Color,
    /// The background color.
    pub bg: Color,
    /// The modifiers that are active.
    pub modifiers: Modifier,
}

/// What has to be sent to a terminal to change its style: the colors that
/// differ, and the modifiers to switch on and off.
#[derive(Debug, Clone, Copy, PartialEq, Eq, Structural)]
pub struct StyleChange {
    /// The new foreground color, if it changes.
    pub fg: Option<Color>,
    /// The new background color, if it changes.
    pub bg: Option<Color>,
    /// The modifiers to switch on.
    pub add_modifier: Modifier,
    /// The modifiers to switch off.
    pub sub_modifier: Modifier,
}

impl Default for Style {
    fn default() -> (r: Self)
        ensures
            r == Style::plain(),
    {
        Style { fg: Color::Reset, bg: Color::Reset, modifiers: Modifier::empty() }
    }
}

impl Style {
    /// The style of a terminal that was told nothing: default colors and no
    /// modifier.
    pub open spec fn plain() -> Style {
        Style { fg: Color::Reset, bg: Color::Reset, modifiers: Modifier { bits: 0 } }
    }

    /// The change that takes a terminal from `prev` to `self`.
    pub open spec fn change_from(self, prev: Style) -> StyleChange {
        StyleChange {
            fg: if self.fg != prev.fg {
                Some(self.fg)
            } else {
                None
            },
            bg: if self.bg != prev.bg {
                Some(self.bg)
            } else {
                None
            },
            add_modifier: Modifier::without(self.modifiers, prev.modifiers),
            sub_modifier: Modifier::without(prev.modifiers, self.modifiers),
        }
    }

    /// The same style with `color` as its foreground.
    pub fn fg(self, color: Color) -> (r: Style)
        ensures
            r == (Style { fg: color, ..self }),
    {
        Style { fg: color, ..self }
    }

    /// The same style with `color` as its background.
    pub fn bg(self, color: Color) -> (r: Style)
        ensures
            r == (Style { bg: color, ..self }),
    {
        Style { bg: color, ..self }
    }

    /// The same style with the modifiers of `modifier` switched on.
    pub fn add_modifier(self, modifier: Modifier) -> (r: Style)
        ensures
            r == (Style {
                modifiers: Modifier { bits: self.modifiers.bits | modifier.bits },
                ..self
            }),
    {
        Style { modifiers: self.modifiers.union(modifier), ..self }
    }

    /// The [`StyleChange`] that takes a terminal from `prev_style` to `self`.
    pub fn diff(&self, prev_style: Style) -> (r: StyleChange)
        ensures
            r == self.change_from(prev_style),
    {
        StyleChange {
            fg: if self.fg != prev_style.fg {
                Some(self.fg)
            } else {
                None
            },
            bg: if self.bg != prev_style.bg {
                Some(self.bg)
            } else {
                None
            },
            add_modifier: self.modifiers.difference(prev_style.modifiers),
            sub_modifier: prev_style.modifiers.difference(self.modifiers),
        }
    }

    /// The change from a style to itself changes no color and switches no
    /// modifier on or off.
    pub proof fn lemma_diff_same(s: Style)
        ensures
            s.change_from(s).fg is None,
            s.change_from(s).bg is None,
            s.change_from(s).add_modifier.bits == 0,
            s.change_from(s).sub_modifier.bits == 0,
            s.change_from(s).is_nothing(),
    {
        let b = s.modifiers.bits;
        assert(b & !b == 0) by (bit_vector);
    }
}

/// For each modifier, or pair of modifiers that end alike, the attribute that
/// switches it off. Bold and dim both end by going back to normal intensity,
/// and one attribute stops both kinds of blinking.
pub open spec fn removal_table() -> Seq<(u16, Attribute)> {
    seq![
        (REVERSED, Attribute::NoReverse),
        (BOLD, Attribute::NormalIntensity),
        (ITALIC, Attribute::NoItalic),
        (UNDERLINED, Attribute::NoUnderline),
        (DIM, Attribute::NormalIntensity),
        (CROSSED_OUT, Attribute::NotCrossedOut),
        (0x030u16, Attribute::NoBlink),
        (HIDDEN, Attribute::NoHidden),
    ]
}

/// For each modifier, the attribute that switches it on.
pub open spec fn addition_table() -> Seq<(u16, Attribute)> {
    seq![
        (REVERSED, Attribute::Reverse),
        (BOLD, Attribute::Bold),
        (ITALIC, Attribute::Italic),
        (UNDERLINED, Attribute::Underlined),
        (DIM, Attribute::Dim),
        (CROSSED_OUT, Attribute::CrossedOut),
        (SLOW_BLINK, Attribute::SlowBlink),
        (RAPID_BLINK, Attribute::RapidBlink),
        (HIDDEN, Attribute::Hidden),
    ]
}

/// The commands that set the attributes of those of the first `n` entries of
/// `table` whose bits meet `bits`, in the order of the table.
pub open spec fn chosen(table: Seq<(u16, Attribute)>, bits: u16, n: int) -> Seq<Command>
    decreases n,
{
    if n <= 0 {
        Seq::empty()
    } else {
        chosen(table, bits, n - 1) + only_if(
            bits & table[n - 1].0 != 0,
            Command::SetAttribute(table[n - 1].1),
        )
    }
}

fn removals() -> (r: Vec<(u16, Attribute)>)
    ensures
        r@ == removal_table(),
{
    vec![
        (REVERSED, Attribute::NoReverse),
        (BOLD, Attribute::NormalIntensity),
        (ITALIC, Attribute::NoItalic),
        (UNDERLINED, Attribute::NoUnderline),
        (DIM, Attribute::NormalIntensity),
        (CROSSED_OUT, Attribute::NotCrossedOut),
        (0x030u16, Attribute::NoBlink),
        (HIDDEN, Attribute::NoHidden),
    ]
}

fn additions() -> (r: Vec<(u16, Attribute)>)
    ensures
        r@ == addition_table(),
{
    vec![
        (REVERSED, Attribute::Reverse),
        (BOLD, Attribute::Bold),
        (ITALIC, Attribute::Italic),
        (UNDERLINED, Attribute::Underlined),
        (DIM, Attribute::Dim),
        (CROSSED_OUT, Attribute::CrossedOut),
        (SLOW_BLINK, Attribute::SlowBlink),
        (RAPID_BLINK, Attribute::RapidBlink),
        (HIDDEN, Attribute::Hidden),
    ]
}

/// Appends to `out` the commands that `table` holds for `bits`.
fn write_chosen(table: &Vec<(u16, Attribute)>, bits: u16, out: &mut Vec<Command>)
    ensures
        final(out)@ == old(out)@ + chosen(table@, bits, table@.len() as int),
{
    let ghost start = out@;
    let mut i: usize = 0;
    assert(out@ == start + chosen(table@, bits, 0));
    while i < table.len()
        invariant
            i <= table.len(),
            out@ == start + chosen(table@, bits, i as int),
        decreases table.len() - i,
    {
        let entry = table[i];
        push_if(out, bits & entry.0 != 0, Command::SetAttribute(entry.1));
        i += 1;
    }
}

/// No entry of a table is chosen for the empty set.
pub proof fn lemma_chosen_of_none(table: Seq<(u16, Attribute)>, n: int)
    ensures
        chosen(table, 0, n) == Seq::<Command>::empty(),
    decreases n,
{
    if n > 0 {
        lemma_chosen_of_none(table, n - 1);
        let m = table[n - 1].0;
        assert(0u16 & m == 0) by (bit_vector);
    }
}

impl StyleChange {
    /// Whether the change leaves the terminal's style as it is.
    pub open spec fn is_nothing(self) -> bool {
        &&& self.fg is None
        &&& self.bg is None
        &&& self.add_modifier.bits == 0
        &&& self.sub_modifier.bits == 0
    }

    /// The commands that set the colors that change.
    pub open spec fn colors(self) -> Seq<Command> {
        (match self.fg {
            Some(c) => seq![Command::SetForegroundColor(c)],
            None => Seq::empty(),
        }) + (match self.bg {
            Some(c) => seq![Command::SetBackgroundColor(c)],
            None => Seq::empty(),
        })
    }

    /// The commands that make the change: the colors, then the modifiers to
    /// switch off, then those to switch on.
    ///
    /// Switching off comes first because some modifiers share the attribute
    /// that ends them.
    pub open spec fn commands_of(self) -> Seq<Command> {
        self.colors() + chosen(
            removal_table(),
            self.sub_modifier.bits,
            removal_table().len() as int,
        ) + chosen(addition_table(), self.add_modifier.bits, addition_table().len() as int)
    }

    /// Appends to `out` the commands that make the change.
    pub fn write_commands(&self, out: &mut Vec<Command>)
        ensures
            final(out)@ == old(out)@ + self.commands_of(),
    {
        let ghost start = out@;
        if let Some(fg) = self.fg {
            out.push(Command::SetForegroundColor(fg));
        }
        if let Some(bg) = self.bg {
            out.push(Command::SetBackgroundColor(bg));
        }
        assert(out@ == start + self.colors());
        write_chosen(&removals(), self.sub_modifier.bits(), out);
        write_chosen(&additions(), self.add_modifier.bits(), out);
    }

    /// The commands that make the change, in the order in which to send
    /// them.
    pub fn commands(&self) -> (r: Vec<Command>)
        ensures
            r@ == self.commands_of(),
    {
        let mut out: Vec<Command> = Vec::new();
        self.write_commands(&mut out);
        out
    }

    /// A change that changes nothing asks nothing of the terminal.
    pub proof fn lemma_nothing_is_silent(c: StyleChange)
        requires
            c.is_nothing(),
        ensures
            c.commands_of() == Seq::<Command>::empty(),
    {
        lemma_chosen_of_none(removal_table(), 8);
        lemma_chosen_of_none(addition_table(), 9);
    }
}

} // verus!
