use vstd::prelude::*;

verus! {

/// A color target: one 8-bit duty value per channel.
#[derive(Clone, Copy, Debug, PartialEq, Eq, Structural)]
pub struct Color {
    pub red: u8,
    pub green: u8,
    pub blue: u8,
}

/// Number of entries in the built-in color sequence.
pub const SEQUENCE_LEN: usize = 64;

pub open spec fn rgb(red: u8, green: u8, blue: u8) -> Color {
    Color { red, green, blue }
}

/// The built-in color sequence, played in order and then from the start again.
pub open spec fn color_sequence() -> Seq<Color> {
    seq![
        rgb(17, 130, 75),
        rgb(33, 13, 11),
        rgb(136, 170, 199),
        rgb(28, 250, 113),
        rgb(176, 213, 48),
        rgb(109, 246, 149),
        rgb(19, 238, 223),
        rgb(239, 235, 80),
        rgb(27, 173, 158),
        rgb(241, 120, 127),
        rgb(157, 39, 101),
        rgb(39, 86, 211),
        rgb(176, 122, 209),
        rgb(95, 17, 25),
        rgb(244, 220, 56),
        rgb(129, 61, 225),
        rgb(234, 87, 236),
        rgb(116, 168, 24),
        rgb(114, 242, 97),
        rgb(136, 81, 209),
        rgb(78, 32, 79),
        rgb(97, 3, 188),
        rgb(188, 194, 134),
        rgb(229, 242, 166),
        rgb(135, 171, 50),
        rgb(200, 247, 52),
        rgb(168, 29, 214),
        rgb(241, 237, 246),
        rgb(85, 248, 146),
        rgb(84, 118, 37),
        rgb(252, 101, 224),
        rgb(160, 169, 166),
        rgb(197, 59, 14),
        rgb(34, 215, 211),
        rgb(115, 65, 29),
        rgb(230, 240, 246),
        rgb(186, 194, 102),
        rgb(87, 195, 49),
        rgb(18, 9, 223),
        rgb(27, 156, 110),
        rgb(88, 40, 69),
        rgb(189, 54, 98),
        rgb(45, 214, 56),
        rgb(72, 163, 143),
        rgb(65, 235, 187),
        rgb(185, 84, 22),
        rgb(24, 247, 235),
        rgb(184, 63, 199),
        rgb(242, 71, 21),
        rgb(94, 250, 166),
        rgb(9, 190, 83),
        rgb(190, 212, 82),
        rgb(174, 227, 98),
        rgb(12, 198, 5),
        rgb(60, 253, 14),
        rgb(10, 191, 221),
        rgb(17, 85, 73),
        rgb(187, 193, 25),
        rgb(9, 124, 42),
        rgb(234, 203, 39),
        rgb(94, 123, 246),
        rgb(86, 132, 125),
        rgb(236, 37, 219),
        rgb(158, 60, 149),
    ]
}

/// Builds the built-in color sequence.
pub fn sequence() -> (r: Vec<Color>)
    ensures
        r@ == color_sequence(),
        r@.len() == SEQUENCE_LEN,
{
    let r = vec![
        Color { red: 17, green: 130, blue: 75 },
        Color { red: 33, green: 13, blue: 11 },
        Color { red: 136, green: 170, blue: 199 },
        Color { red: 28, green: 250, blue: 113 },
        Color { red: 176, green: 213, blue: 48 },
        Color { red: 109, green: 246, blue: 149 },
        Color { red: 19, green: 238, blue: 223 },
        Color { red: 239, green: 235, blue: 80 },
        Color { red: 27, green: 173, blue: 158 },
        Color { red: 241, green: 120, blue: 127 },
        Color { red: 157, green: 39, blue: 101 },
        Color { red: 39, green: 86, blue: 211 },
        Color { red: 176, green: 122, blue: 209 },
        Color { red: 95, green: 17, blue: 25 },
        Color { red: 244, green: 220, blue: 56 },
        Color { red: 129, green: 61, blue: 225 },
        Color { red: 234, green: 87, blue: 236 },
        Color { red: 116, green: 168, blue: 24 },
        Color { red: 114, green: 242, blue: 97 },
        Color { red: 136, green: 81, blue: 209 },
        Color { red: 78, green: 32, blue: 79 },
        Color { red: 97, green: 3, blue: 188 },
        Color { red: 188, green: 194, blue: 134 },
        Color { red: 229, green: 242, blue: 166 },
        Color { red: 135, green: 171, blue: 50 },
        Color { red: 200, green: 247, blue: 52 },
        Color { red: 168, green: 29, blue: 214 },
        Color { red: 241, green: 237, blue: 246 },
        Color { red: 85, green: 248, blue: 146 },
        Color { red: 84, green: 118, blue: 37 },
        Color { red: 252, green: 101, blue: 224 },
        Color { red: 160, green: 169, blue: 166 },
        Color { red: 197, green: 59, blue: 14 },
        Color { red: 34, green: 215, blue: 211 },
        Color { red: 115, green: 65, blue: 29 },
        Color { red: 230, green: 240, blue: 246 },
        Color { red: 186, green: 194, blue: 102 },
        Color { red: 87, green: 195, blue: 49 },
        Color { red: 18, green: 9, blue: 223 },
        Color { red: 27, green: 156, blue: 110 },
        Color { red: 88, green: 40, blue: 69 },
        Color { red: 189, green: 54, blue: 98 },
        Color { red: 45, green: 214, blue: 56 },
        Color { red: 72, green: 163, blue: 143 },
        Color { red: 65, green: 235, blue: 187 },
        Color { red: 185, green: 84, blue: 22 },
        Color { red: 24, green: 247, blue: 235 },
        Color { red: 184, green: 63, blue: 199 },
        Color { red: 242, green: 71, blue: 21 },
        Color { red: 94, green: 250, blue: 166 },
        Color { red: 9, green: 190, blue: 83 },
        Color { red: 190, green: 212, blue: 82 },
        Color { red: 174, green: 227, blue: 98 },
        Color { red: 12, green: 198, blue: 5 },
        Color { red: 60, green: 253, blue: 14 },
        Color { red: 10, green: 191, blue: 221 },
        Color { red: 17, green: 85, blue: 73 },
        Color { red: 187, green: 193, blue: 25 },
        Color { red: 9, green: 124, blue: 42 },
        Color { red: 234, green: 203, blue: 39 },
        Color { red: 94, green: 123, blue: 246 },
        Color { red: 86, green: 132, blue: 125 },
        Color { red: 236, green: 37, blue: 219 },
        Color { red: 158, green: 60, blue: 149 },
    ];
    assert(r@ =~= color_sequence());
    r
}

} // verus!
