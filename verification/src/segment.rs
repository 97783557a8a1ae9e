//! The segments of a seven-segment digit and the glyph table.

use vstd::prelude::*;

verus! {

/// One of the seven bars of a digit, or its decimal point.
#[derive(Debug, Clone, Copy, PartialEq, Eq, Hash, Structural)]
pub enum Segment {
    A,
    B,
    C,
    DP,
    D,
    E,
    F,
    G,
}

impl Segment {
    /// The board-wide pin number that drives this segment.
    pub open spec fn spec_gpio(self) -> u32 {
        match self {
            Segment::A => 546,
            Segment::B => 547,
            Segment::C => 549,
            Segment::DP => 548,
            Segment::D => 525,
            Segment::E => 524,
            Segment::F => 634,
            Segment::G => 526,
        }
    }

    /// Position of the segment in declaration order, `A` first.
    pub open spec fn spec_index(self) -> int {
        match self {
            Segment::A => 0,
            Segment::B => 1,
            Segment::C => 2,
            Segment::DP => 3,
            Segment::D => 4,
            Segment::E => 5,
            Segment::F => 6,
            Segment::G => 7,
        }
    }

    /// The segment's bit in the conventional `gfedcba` encoding, with the
    /// decimal point in the top bit.
    pub open spec fn spec_bit(self) -> u8 {
        match self {
            Segment::A => 0x01,
            Segment::B => 0x02,
            Segment::C => 0x04,
            Segment::D => 0x08,
            Segment::E => 0x10,
            Segment::F => 0x20,
            Segment::G => 0x40,
            Segment::DP => 0x80,
        }
    }

    pub fn gpio(self) -> (pin: u32)
        ensures
            pin == self.spec_gpio(),
    {
        match self {
            Segment::A => 546,
            Segment::B => 547,
            Segment::C => 549,
            Segment::DP => 548,
            Segment::D => 525,
            Segment::E => 524,
            Segment::F => 634,
            Segment::G => 526,
        }
    }

    pub fn index(self) -> (i: usize)
        ensures
            i == self.spec_index(),
            i < 8,
    {
        match self {
            Segment::A => 0,
            Segment::B => 1,
            Segment::C => 2,
            Segment::DP => 3,
            Segment::D => 4,
            Segment::E => 5,
            Segment::F => 6,
            Segment::G => 7,
        }
    }

    pub fn bit(self) -> (b: u8)
        ensures
            b == self.spec_bit(),
    {
        match self {
            Segment::A => 0x01,
            Segment::B => 0x02,
            Segment::C => 0x04,
            Segment::D => 0x08,
            Segment::E => 0x10,
            Segment::F => 0x20,
            Segment::G => 0x40,
            Segment::DP => 0x80,
        }
    }
}

/// All eight segments in declaration order.
pub open spec fn all_segments() -> Seq<Segment> {
    seq![
        Segment::A,
        Segment::B,
        Segment::C,
        Segment::DP,
        Segment::D,
        Segment::E,
        Segment::F,
        Segment::G,
    ]
}

/// All eight segments in the order in which a display is blanked.
pub open spec fn blanking_order() -> Seq<Segment> {
    seq![
        Segment::A,
        Segment::B,
        Segment::C,
        Segment::D,
        Segment::DP,
        Segment::E,
        Segment::F,
        Segment::G,
    ]
}

/// The segments lit for `digit`, in the order in which they are switched on.
/// Values 0 to 9 show the decimal digit, 10 shows the wrap glyph, and every
/// other value is blank.
pub open spec fn glyph(digit: u8) -> Seq<Segment> {
    if digit == 0 {
        seq![Segment::A, Segment::B, Segment::C, Segment::D, Segment::E, Segment::F]
    } else if digit == 1 {
        seq![Segment::B, Segment::C]
    } else if digit == 2 {
        seq![Segment::A, Segment::B, Segment::G, Segment::E, Segment::D]
    } else if digit == 3 {
        seq![Segment::A, Segment::B, Segment::G, Segment::C, Segment::D]
    } else if digit == 4 {
        seq![Segment::F, Segment::B, Segment::G, Segment::C]
    } else if digit == 5 {
        seq![Segment::A, Segment::F, Segment::G, Segment::C, Segment::D]
    } else if digit == 6 {
        seq![Segment::A, Segment::F, Segment::G, Segment::E, Segment::C, Segment::D]
    } else if digit == 7 {
        seq![Segment::A, Segment::B, Segment::C]
    } else if digit == 8 {
        seq![Segment::A, Segment::B, Segment::C, Segment::D, Segment::E, Segment::F, Segment::G]
    } else if digit == 9 {
        seq![Segment::A, Segment::B, Segment::C, Segment::D, Segment::F, Segment::G]
    } else if digit == 10 {
        seq![Segment::A, Segment::G, Segment::E, Segment::D, Segment::C]
    } else {
        seq![]
    }
}

/// The glyph table in the conventional `gfedcba` bit encoding.
pub open spec fn glyph_mask(digit: u8) -> u8 {
    if digit == 0 {
        0x3f
    } else if digit == 1 {
        0x06
    } else if digit == 2 {
        0x5b
    } else if digit == 3 {
        0x4f
    } else if digit == 4 {
        0x66
    } else if digit == 5 {
        0x6d
    } else if digit == 6 {
        0x7d
    } else if digit == 7 {
        0x07
    } else if digit == 8 {
        0x7f
    } else if digit == 9 {
        0x6f
    } else if digit == 10 {
        0x5d
    } else {
        0x00
    }
}

/// Whether `seg` is lit when `digit` is shown.
pub open spec fn lit(digit: u8, seg: Segment) -> bool {
    glyph(digit).contains(seg)
}

/// The segments to light for `digit`, in switching order.
pub fn segments_for(digit: u8) -> (segs: Vec<Segment>)
    ensures
        segs@ == glyph(digit),
{
    let segs = match digit {
        0 => vec![Segment::A, Segment::B, Segment::C, Segment::D, Segment::E, Segment::F],
        1 => vec![Segment::B, Segment::C],
        2 => vec![Segment::A, Segment::B, Segment::G, Segment::E, Segment::D],
        3 => vec![Segment::A, Segment::B, Segment::G, Segment::C, Segment::D],
        4 => vec![Segment::F, Segment::B, Segment::G, Segment::C],
        5 => vec![Segment::A, Segment::F, Segment::G, Segment::C, Segment::D],
        6 => vec![Segment::A, Segment::F, Segment::G, Segment::E, Segment::C, Segment::D],
        7 => vec![Segment::A, Segment::B, Segment::C],
        8 => vec![
            Segment::A,
            Segment::B,
            Segment::C,
            Segment::D,
            Segment::E,
            Segment::F,
            Segment::G,
        ],
        9 => vec![Segment::A, Segment::B, Segment::C, Segment::D, Segment::F, Segment::G],
        10 => vec![Segment::A, Segment::G, Segment::E, Segment::D, Segment::C],
        _ => Vec::new(),
    };
    assert(segs@ =~= glyph(digit));
    segs
}

/// Every element of a glyph is a member of it.
proof fn lemma_glyph_members(digit: u8)
    ensures
        glyph(digit).len() <= 7,
        forall|k: int|
            0 <= k < glyph(digit).len() ==> glyph(digit).contains(#[trigger] glyph(digit)[k]),
{
}

/// The glyph table agrees, segment by segment, with the conventional
/// `gfedcba` encoding: a segment is lit for `digit` exactly when its bit is
/// set in `glyph_mask(digit)`.
pub proof fn lemma_glyph_matches_mask(digit: u8, seg: Segment)
    ensures
        lit(digit, seg) <==> (glyph_mask(digit) & seg.spec_bit()) != 0,
{
    let g = glyph(digit);
    let m = glyph_mask(digit);
    let b = seg.spec_bit();
    lemma_glyph_members(digit);
    assert(g.len() > 0 ==> g.contains(g[0]));
    assert(g.len() > 1 ==> g.contains(g[1]));
    assert(g.len() > 2 ==> g.contains(g[2]));
    assert(g.len() > 3 ==> g.contains(g[3]));
    assert(g.len() > 4 ==> g.contains(g[4]));
    assert(g.len() > 5 ==> g.contains(g[5]));
    assert(g.len() > 6 ==> g.contains(g[6]));
    assert((m & b) != 0 <==> (m == 0x3f && b != 0x40 && b != 0x80) || (m == 0x06 && (b == 0x02
        || b == 0x04)) || (m == 0x5b && b != 0x04 && b != 0x20 && b != 0x80) || (m == 0x4f && b
        != 0x10 && b != 0x20 && b != 0x80) || (m == 0x66 && b != 0x01 && b != 0x08 && b != 0x10
        && b != 0x80) || (m == 0x6d && b != 0x02 && b != 0x10 && b != 0x80) || (m == 0x7d && b
        != 0x02 && b != 0x80) || (m == 0x07 && (b == 0x01 || b == 0x02 || b == 0x04)) || (m
        == 0x7f && b != 0x80) || (m == 0x6f && b != 0x10 && b != 0x80) || (m == 0x5d && b
        != 0x02 && b != 0x20 && b != 0x80)) by (bit_vector)
        requires
            m == 0x3f || m == 0x06 || m == 0x5b || m == 0x4f || m == 0x66 || m == 0x6d || m
                == 0x7d || m == 0x07 || m == 0x7f || m == 0x6f || m == 0x5d || m == 0x00,
            b == 0x01 || b == 0x02 || b == 0x04 || b == 0x08 || b == 0x10 || b == 0x20 || b
                == 0x40 || b == 0x80,
    ;
}

/// No segment occurs twice in a glyph.
pub proof fn lemma_glyph_distinct(digit: u8)
    ensures
        glyph(digit).no_duplicates(),
{
}

/// Values above 10 are blank, and no glyph lights the decimal point.
pub proof fn lemma_glyph_blank(digit: u8)
    ensures
        digit > 10 ==> glyph(digit) =~= Seq::<Segment>::empty(),
        !lit(digit, Segment::DP),
{
}

/// The eight segments in declaration order.
pub fn segments_in_order() -> (segs: Vec<Segment>)
    ensures
        segs@ == all_segments(),
{
    let segs = vec![
        Segment::A,
        Segment::B,
        Segment::C,
        Segment::DP,
        Segment::D,
        Segment::E,
        Segment::F,
        Segment::G,
    ];
    assert(segs@ =~= all_segments());
    segs
}

/// The eight segments in blanking order.
pub fn segments_in_blanking_order() -> (segs: Vec<Segment>)
    ensures
        segs@ == blanking_order(),
{
    let segs = vec![
        Segment::A,
        Segment::B,
        Segment::C,
        Segment::D,
        Segment::DP,
        Segment::E,
        Segment::F,
        Segment::G,
    ];
    assert(segs@ =~= blanking_order());
    segs
}

/// A segment stands at its own index in declaration order.
pub proof fn lemma_segment_at_index(seg: Segment)
    ensures
        0 <= seg.spec_index() < 8,
        all_segments().len() == 8,
        all_segments()[seg.spec_index()] == seg,
{
}

/// Blanking order names every segment, each once.
pub proof fn lemma_blanking_order_complete(seg: Segment)
    ensures
        blanking_order().len() == 8,
        blanking_order().contains(seg),
        blanking_order().no_duplicates(),
{
    let b = blanking_order();
    assert(b[0] == Segment::A && b[1] == Segment::B && b[2] == Segment::C && b[3] == Segment::D
        && b[4] == Segment::DP && b[5] == Segment::E && b[6] == Segment::F && b[7]
        == Segment::G);
}

} // verus!
