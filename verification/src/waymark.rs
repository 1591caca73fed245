//! Waymarks: the eight markers (A–D, 1–4) players place on an arena, as the Waymark
//! Preset plugin knows them.

use vstd::prelude::*;

use crate::job::ascii_lower;

verus! {

/// A placeable marker for players to reference movements during a fight.
#[derive(Copy, Clone, Debug, Hash, PartialOrd, Ord, PartialEq, Eq, Structural)]
pub enum Waymark {
    A,
    B,
    C,
    D,
    One,
    Two,
    Three,
    Four,
}

/// The colour a waymark is drawn in; each stands for the CSS colour of the same name.
#[derive(Copy, Clone, Debug, PartialEq, Eq, Structural)]
pub enum WaymarkColor {
    Red,
    Yellow,
    LightCyan,
    Fuchsia,
}

/// The outline a waymark's shape takes.
#[derive(Copy, Clone, Debug, PartialEq, Eq, Structural)]
pub enum ShapeKind {
    Circle,
    Rectangle,
}

/// The numeric ID of a waymark in the Waymark Preset format: A–D are 0–3, 1–4 are 4–7.
pub open spec fn waymark_id(w: Waymark) -> u8 {
    match w {
        Waymark::A => 0,
        Waymark::B => 1,
        Waymark::C => 2,
        Waymark::D => 3,
        Waymark::One => 4,
        Waymark::Two => 5,
        Waymark::Three => 6,
        Waymark::Four => 7,
    }
}

/// The image with a waymark's letter or number.
pub open spec fn waymark_asset_path(w: Waymark) -> Seq<char> {
    match w {
        Waymark::One => "sprites/waymarks/way_1.png"@,
        Waymark::Two => "sprites/waymarks/way_2.png"@,
        Waymark::Three => "sprites/waymarks/way_3.png"@,
        Waymark::Four => "sprites/waymarks/way_4.png"@,
        Waymark::A => "sprites/waymarks/way_a.png"@,
        Waymark::B => "sprites/waymarks/way_b.png"@,
        Waymark::C => "sprites/waymarks/way_c.png"@,
        Waymark::D => "sprites/waymarks/way_d.png"@,
    }
}

/// A waymark's entity label.
pub open spec fn waymark_name(w: Waymark) -> Seq<char> {
    match w {
        Waymark::A => "Waymark A"@,
        Waymark::B => "Waymark B"@,
        Waymark::C => "Waymark C"@,
        Waymark::D => "Waymark D"@,
        Waymark::One => "Waymark 1"@,
        Waymark::Two => "Waymark 2"@,
        Waymark::Three => "Waymark 3"@,
        Waymark::Four => "Waymark 4"@,
    }
}

/// Waymarks come in pairs of the same colour: 1 and A, 2 and B, 3 and C, 4 and D.
pub open spec fn waymark_color(w: Waymark) -> WaymarkColor {
    match w {
        Waymark::One | Waymark::A => WaymarkColor::Red,
        Waymark::Two | Waymark::B => WaymarkColor::Yellow,
        Waymark::Three | Waymark::C => WaymarkColor::LightCyan,
        Waymark::Four | Waymark::D => WaymarkColor::Fuchsia,
    }
}

/// The lettered waymarks are circles.
pub open spec fn waymark_is_circle(w: Waymark) -> bool {
    w == Waymark::A || w == Waymark::B || w == Waymark::C || w == Waymark::D
}

/// Every waymark, in declaration order.
pub open spec fn all_waymarks() -> Seq<Waymark> {
    seq![
        Waymark::A,
        Waymark::B,
        Waymark::C,
        Waymark::D,
        Waymark::One,
        Waymark::Two,
        Waymark::Three,
        Waymark::Four,
    ]
}

impl Waymark {
    /// The asset path of the image with the letter or number of the waymark.
    pub fn asset_path(self) -> (r: &'static str)
        ensures
            r@ == waymark_asset_path(self),
    {
        match self {
            Waymark::One => "sprites/waymarks/way_1.png",
            Waymark::Two => "sprites/waymarks/way_2.png",
            Waymark::Three => "sprites/waymarks/way_3.png",
            Waymark::Four => "sprites/waymarks/way_4.png",
            Waymark::A => "sprites/waymarks/way_a.png",
            Waymark::B => "sprites/waymarks/way_b.png",
            Waymark::C => "sprites/waymarks/way_c.png",
            Waymark::D => "sprites/waymarks/way_d.png",
        }
    }

    /// The fill/stroke colour of this waymark.
    pub fn color(self) -> (r: WaymarkColor)
        ensures
            r == waymark_color(self),
    {
        match self {
            Waymark::One | Waymark::A => WaymarkColor::Red,
            Waymark::Two | Waymark::B => WaymarkColor::Yellow,
            Waymark::Three | Waymark::C => WaymarkColor::LightCyan,
            Waymark::Four | Waymark::D => WaymarkColor::Fuchsia,
        }
    }

    /// True if this waymark is a circle.
    pub fn is_circle(self) -> (r: bool)
        ensures
            r == waymark_is_circle(self),
    {
        matches!(self, Waymark::A | Waymark::B | Waymark::C | Waymark::D)
    }

    /// True if this waymark is a square.
    pub fn is_square(self) -> (r: bool)
        ensures
            r == !waymark_is_circle(self),
    {
        matches!(self, Waymark::One | Waymark::Two | Waymark::Three | Waymark::Four)
    }

    /// A name suitable for use as an entity label.
    pub fn name(self) -> (r: &'static str)
        ensures
            r@ == waymark_name(self),
    {
        match self {
            Waymark::A => "Waymark A",
            Waymark::B => "Waymark B",
            Waymark::C => "Waymark C",
            Waymark::D => "Waymark D",
            Waymark::One => "Waymark 1",
            Waymark::Two => "Waymark 2",
            Waymark::Three => "Waymark 3",
            Waymark::Four => "Waymark 4",
        }
    }

    /// The numeric ID of this waymark in the Waymark Preset format.
    pub fn id(self) -> (r: u8)
        ensures
            r == waymark_id(self),
    {
        match self {
            Waymark::A => 0,
            Waymark::B => 1,
            Waymark::C => 2,
            Waymark::D => 3,
            Waymark::One => 4,
            Waymark::Two => 5,
            Waymark::Three => 6,
            Waymark::Four => 7,
        }
    }

    /// The shape a waymark and its outline are drawn with: the lettered waymarks are
    /// circles and the numbered ones squares.
    pub fn shape_kind(self) -> (r: ShapeKind)
        ensures
            r == (if waymark_is_circle(self) { ShapeKind::Circle } else { ShapeKind::Rectangle }),
    {
        if self.is_circle() {
            ShapeKind::Circle
        } else {
            ShapeKind::Rectangle
        }
    }

    /// Every waymark, in declaration order.
    pub fn all() -> (r: Vec<Waymark>)
        ensures
            r@ == all_waymarks(),
    {
        let r = vec![
            Waymark::A,
            Waymark::B,
            Waymark::C,
            Waymark::D,
            Waymark::One,
            Waymark::Two,
            Waymark::Three,
            Waymark::Four,
        ];
        assert(r@ =~= all_waymarks());
        r
    }
}

/// The preset IDs of waymarks are distinct and lie below 8; listing every waymark in
/// order gives them the IDs 0 to 7, so each waymark appears exactly once.
pub proof fn lemma_waymark_ids(a: Waymark, b: Waymark)
    ensures
        waymark_id(a) < 8,
        waymark_id(a) == waymark_id(b) ==> a == b,
        all_waymarks().len() == 8,
        forall|i: int| 0 <= i < 8 ==> waymark_id(#[trigger] all_waymarks()[i]) == i,
{
}

/// The character a waymark is marked with: the letters A to D for the preset IDs 0 to 3,
/// the digits 1 to 4 for the IDs 4 to 7.
pub open spec fn marker_of_id(id: u8) -> char {
    if id < 4 {
        (('A' as u32) + id) as char
    } else {
        (('1' as u32) + id - 4) as char
    }
}

/// A waymark's label names the marker its preset ID stands for, and its image is named
/// after that marker in lower case.
pub proof fn lemma_waymark_marks(w: Waymark)
    ensures
        waymark_name(w) == "Waymark "@ + seq![marker_of_id(waymark_id(w))],
        waymark_asset_path(w) == "sprites/waymarks/way_"@ + seq![ascii_lower(marker_of_id(waymark_id(w)))] + ".png"@,
{
    reveal_strlit("Waymark ");
    reveal_strlit("sprites/waymarks/way_");
    reveal_strlit(".png");
    match w {
        Waymark::A => {
            reveal_strlit("Waymark A");
            reveal_strlit("sprites/waymarks/way_a.png");
        },
        Waymark::B => {
            reveal_strlit("Waymark B");
            reveal_strlit("sprites/waymarks/way_b.png");
        },
        Waymark::C => {
            reveal_strlit("Waymark C");
            reveal_strlit("sprites/waymarks/way_c.png");
        },
        Waymark::D => {
            reveal_strlit("Waymark D");
            reveal_strlit("sprites/waymarks/way_d.png");
        },
        Waymark::One => {
            reveal_strlit("Waymark 1");
            reveal_strlit("sprites/waymarks/way_1.png");
        },
        Waymark::Two => {
            reveal_strlit("Waymark 2");
            reveal_strlit("sprites/waymarks/way_2.png");
        },
        Waymark::Three => {
            reveal_strlit("Waymark 3");
            reveal_strlit("sprites/waymarks/way_3.png");
        },
        Waymark::Four => {
            reveal_strlit("Waymark 4");
            reveal_strlit("sprites/waymarks/way_4.png");
        },
    }
    assert(waymark_name(w) =~= "Waymark "@ + seq![marker_of_id(waymark_id(w))]);
    assert(waymark_asset_path(w) =~= "sprites/waymarks/way_"@ + seq![ascii_lower(marker_of_id(waymark_id(w)))] + ".png"@);
}

/// Waymarks of the same colour are exactly one letter and one number.
pub proof fn lemma_colour_pairs(a: Waymark, b: Waymark)
    ensures
        a != b && waymark_color(a) == waymark_color(b) ==> waymark_is_circle(a) != waymark_is_circle(b),
        waymark_color(a) == waymark_color(b) <==> waymark_id(a) % 4 == waymark_id(b) % 4,
{
}

} // verus!
