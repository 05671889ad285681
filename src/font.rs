//! A 5x7 bitmap font for status text: digits, letters (either case), space
//! and `.:-!/?`.
use vstd::prelude::*;
use crate::gfx::{color_byte, in_rect, px_of, py_of, Frame};

verus! {

/// The 5x7 glyph of `c` (letters in either case), seven rows of five
/// bits, the leftmost pixel in bit 4; `None` for characters without one.
pub open spec fn glyph_spec(c: char) -> Option<[u8; 7]> {
    if c == ' ' { Some([0, 0, 0, 0, 0, 0, 0]) }
    else if c == '.' { Some([0, 0, 0, 0, 0, 0b00100, 0]) }
    else if c == ':' { Some([0, 0, 0b00100, 0, 0b00100, 0, 0]) }
    else if c == '-' { Some([0, 0, 0, 0b11111, 0, 0, 0]) }
    else if c == '/' { Some([0, 0b00001, 0b00010, 0b00100, 0b01000, 0b10000, 0]) }
    else if c == '!' { Some([0b00100, 0b00100, 0b00100, 0b00100, 0, 0b00100, 0]) }
    else if c == '?' { Some([0b01110, 0b10001, 0b00010, 0b00100, 0b00100, 0, 0b00100]) }
    else if c == '0' { Some([0b01110, 0b10001, 0b10011, 0b10101, 0b11001, 0b10001, 0b01110]) }
    else if c == '1' { Some([0b00100, 0b01100, 0b00100, 0b00100, 0b00100, 0b00100, 0b01110]) }
    else if c == '2' { Some([0b01110, 0b10001, 0b00001, 0b00110, 0b01000, 0b10000, 0b11111]) }
    else if c == '3' { Some([0b11110, 0b00001, 0b00001, 0b01110, 0b00001, 0b00001, 0b11110]) }
    else if c == '4' { Some([0b00010, 0b00110, 0b01010, 0b10010, 0b11111, 0b00010, 0b00010]) }
    else if c == '5' { Some([0b11111, 0b10000, 0b11110, 0b00001, 0b00001, 0b10001, 0b01110]) }
    else if c == '6' { Some([0b00110, 0b01000, 0b10000, 0b11110, 0b10001, 0b10001, 0b01110]) }
    else if c == '7' { Some([0b11111, 0b00001, 0b00010, 0b00100, 0b01000, 0b01000, 0b01000]) }
    else if c == '8' { Some([0b01110, 0b10001, 0b10001, 0b01110, 0b10001, 0b10001, 0b01110]) }
    else if c == '9' { Some([0b01110, 0b10001, 0b10001, 0b01111, 0b00001, 0b00010, 0b01100]) }
    else if c == 'A' || c == 'a' { Some([0b01110, 0b10001, 0b10001, 0b11111, 0b10001, 0b10001, 0b10001]) }
    else if c == 'B' || c == 'b' { Some([0b11110, 0b10001, 0b10001, 0b11110, 0b10001, 0b10001, 0b11110]) }
    else if c == 'C' || c == 'c' { Some([0b01110, 0b10001, 0b10000, 0b10000, 0b10000, 0b10001, 0b01110]) }
    else if c == 'D' || c == 'd' { Some([0b11100, 0b10010, 0b10001, 0b10001, 0b10001, 0b10010, 0b11100]) }
    else if c == 'E' || c == 'e' { Some([0b11111, 0b10000, 0b10000, 0b11110, 0b10000, 0b10000, 0b11111]) }
    else if c == 'F' || c == 'f' { Some([0b11111, 0b10000, 0b10000, 0b11110, 0b10000, 0b10000, 0b10000]) }
    else if c == 'G' || c == 'g' { Some([0b01110, 0b10001, 0b10000, 0b10111, 0b10001, 0b10001, 0b01110]) }
    else if c == 'H' || c == 'h' { Some([0b10001, 0b10001, 0b10001, 0b11111, 0b10001, 0b10001, 0b10001]) }
    else if c == 'I' || c == 'i' { Some([0b01110, 0b00100, 0b00100, 0b00100, 0b00100, 0b00100, 0b01110]) }
    else if c == 'J' || c == 'j' { Some([0b00001, 0b00001, 0b00001, 0b00001, 0b10001, 0b10001, 0b01110]) }
    else if c == 'K' || c == 'k' { Some([0b10001, 0b10010, 0b10100, 0b11000, 0b10100, 0b10010, 0b10001]) }
    else if c == 'L' || c == 'l' { Some([0b10000, 0b10000, 0b10000, 0b10000, 0b10000, 0b10000, 0b11111]) }
    else if c == 'M' || c == 'm' { Some([0b10001, 0b11011, 0b10101, 0b10101, 0b10001, 0b10001, 0b10001]) }
    else if c == 'N' || c == 'n' { Some([0b10001, 0b11001, 0b10101, 0b10011, 0b10001, 0b10001, 0b10001]) }
    else if c == 'O' || c == 'o' { Some([0b01110, 0b10001, 0b10001, 0b10001, 0b10001, 0b10001, 0b01110]) }
    else if c == 'P' || c == 'p' { Some([0b11110, 0b10001, 0b10001, 0b11110, 0b10000, 0b10000, 0b10000]) }
    else if c == 'Q' || c == 'q' { Some([0b01110, 0b10001, 0b10001, 0b10001, 0b10101, 0b10010, 0b01101]) }
    else if c == 'R' || c == 'r' { Some([0b11110, 0b10001, 0b10001, 0b11110, 0b10100, 0b10010, 0b10001]) }
    else if c == 'S' || c == 's' { Some([0b01111, 0b10000, 0b10000, 0b01110, 0b00001, 0b00001, 0b11110]) }
    else if c == 'T' || c == 't' { Some([0b11111, 0b00100, 0b00100, 0b00100, 0b00100, 0b00100, 0b00100]) }
    else if c == 'U' || c == 'u' { Some([0b10001, 0b10001, 0b10001, 0b10001, 0b10001, 0b10001, 0b01110]) }
    else if c == 'V' || c == 'v' { Some([0b10001, 0b10001, 0b10001, 0b10001, 0b10001, 0b01010, 0b00100]) }
    else if c == 'W' || c == 'w' { Some([0b10001, 0b10001, 0b10001, 0b10101, 0b10101, 0b11011, 0b10001]) }
    else if c == 'X' || c == 'x' { Some([0b10001, 0b10001, 0b01010, 0b00100, 0b01010, 0b10001, 0b10001]) }
    else if c == 'Y' || c == 'y' { Some([0b10001, 0b01010, 0b00100, 0b00100, 0b00100, 0b00100, 0b00100]) }
    else if c == 'Z' || c == 'z' { Some([0b11111, 0b00001, 0b00010, 0b00100, 0b01000, 0b10000, 0b11111]) }
    else { None }
}

/// The glyph of `ch`, when the font has one.
pub fn glyph5x7(ch: char) -> (r: Option<[u8; 7]>)
    ensures
        r == glyph_spec(ch),
{
    let g: [u8; 7] = match ch {
        ' ' => [0, 0, 0, 0, 0, 0, 0],
        '.' => [0, 0, 0, 0, 0, 0b00100, 0],
        ':' => [0, 0, 0b00100, 0, 0b00100, 0, 0],
        '-' => [0, 0, 0, 0b11111, 0, 0, 0],
        '/' => [0, 0b00001, 0b00010, 0b00100, 0b01000, 0b10000, 0],
        '!' => [0b00100, 0b00100, 0b00100, 0b00100, 0, 0b00100, 0],
        '?' => [0b01110, 0b10001, 0b00010, 0b00100, 0b00100, 0, 0b00100],
        '0' => [0b01110, 0b10001, 0b10011, 0b10101, 0b11001, 0b10001, 0b01110],
        '1' => [0b00100, 0b01100, 0b00100, 0b00100, 0b00100, 0b00100, 0b01110],
        '2' => [0b01110, 0b10001, 0b00001, 0b00110, 0b01000, 0b10000, 0b11111],
        '3' => [0b11110, 0b00001, 0b00001, 0b01110, 0b00001, 0b00001, 0b11110],
        '4' => [0b00010, 0b00110, 0b01010, 0b10010, 0b11111, 0b00010, 0b00010],
        '5' => [0b11111, 0b10000, 0b11110, 0b00001, 0b00001, 0b10001, 0b01110],
        '6' => [0b00110, 0b01000, 0b10000, 0b11110, 0b10001, 0b10001, 0b01110],
        '7' => [0b11111, 0b00001, 0b00010, 0b00100, 0b01000, 0b01000, 0b01000],
        '8' => [0b01110, 0b10001, 0b10001, 0b01110, 0b10001, 0b10001, 0b01110],
        '9' => [0b01110, 0b10001, 0b10001, 0b01111, 0b00001, 0b00010, 0b01100],
        'A' | 'a' => [0b01110, 0b10001, 0b10001, 0b11111, 0b10001, 0b10001, 0b10001],
        'B' | 'b' => [0b11110, 0b10001, 0b10001, 0b11110, 0b10001, 0b10001, 0b11110],
        'C' | 'c' => [0b01110, 0b10001, 0b10000, 0b10000, 0b10000, 0b10001, 0b01110],
        'D' | 'd' => [0b11100, 0b10010, 0b10001, 0b10001, 0b10001, 0b10010, 0b11100],
        'E' | 'e' => [0b11111, 0b10000, 0b10000, 0b11110, 0b10000, 0b10000, 0b11111],
        'F' | 'f' => [0b11111, 0b10000, 0b10000, 0b11110, 0b10000, 0b10000, 0b10000],
        'G' | 'g' => [0b01110, 0b10001, 0b10000, 0b10111, 0b10001, 0b10001, 0b01110],
        'H' | 'h' => [0b10001, 0b10001, 0b10001, 0b11111, 0b10001, 0b10001, 0b10001],
        'I' | 'i' => [0b01110, 0b00100, 0b00100, 0b00100, 0b00100, 0b00100, 0b01110],
        'J' | 'j' => [0b00001, 0b00001, 0b00001, 0b00001, 0b10001, 0b10001, 0b01110],
        'K' | 'k' => [0b10001, 0b10010, 0b10100, 0b11000, 0b10100, 0b10010, 0b10001],
        'L' | 'l' => [0b10000, 0b10000, 0b10000, 0b10000, 0b10000, 0b10000, 0b11111],
        'M' | 'm' => [0b10001, 0b11011, 0b10101, 0b10101, 0b10001, 0b10001, 0b10001],
        'N' | 'n' => [0b10001, 0b11001, 0b10101, 0b10011, 0b10001, 0b10001, 0b10001],
        'O' | 'o' => [0b01110, 0b10001, 0b10001, 0b10001, 0b10001, 0b10001, 0b01110],
        'P' | 'p' => [0b11110, 0b10001, 0b10001, 0b11110, 0b10000, 0b10000, 0b10000],
        'Q' | 'q' => [0b01110, 0b10001, 0b10001, 0b10001, 0b10101, 0b10010, 0b01101],
        'R' | 'r' => [0b11110, 0b10001, 0b10001, 0b11110, 0b10100, 0b10010, 0b10001],
        'S' | 's' => [0b01111, 0b10000, 0b10000, 0b01110, 0b00001, 0b00001, 0b11110],
        'T' | 't' => [0b11111, 0b00100, 0b00100, 0b00100, 0b00100, 0b00100, 0b00100],
        'U' | 'u' => [0b10001, 0b10001, 0b10001, 0b10001, 0b10001, 0b10001, 0b01110],
        'V' | 'v' => [0b10001, 0b10001, 0b10001, 0b10001, 0b10001, 0b01010, 0b00100],
        'W' | 'w' => [0b10001, 0b10001, 0b10001, 0b10101, 0b10101, 0b11011, 0b10001],
        'X' | 'x' => [0b10001, 0b10001, 0b01010, 0b00100, 0b01010, 0b10001, 0b10001],
        'Y' | 'y' => [0b10001, 0b01010, 0b00100, 0b00100, 0b00100, 0b00100, 0b00100],
        'Z' | 'z' => [0b11111, 0b00001, 0b00010, 0b00100, 0b01000, 0b10000, 0b11111],
        _ => return None,
    };
    Some(g)
}

/// Whether the glyph pixel in column `col` and row `row` is set.
pub open spec fn glyph_bit(g: [u8; 7], col: int, row: int) -> bool {
    ((g@[row] as u32) >> ((4 - col) as u32)) & 1u32 != 0
}

/// What drawing `ch` at (`x`, `y`) leaves in byte `i` of a framebuffer `fw`
/// pixels wide whose byte was `old`.
pub open spec fn char_byte(fw: int, i: int, old: u8, x: int, y: int, ch: char, color: u32) -> u8 {
    let cx = px_of(i, fw) - x;
    let cy = py_of(i, fw) - y;
    match glyph_spec(ch) {
        Some(g) => if 0 <= cx < 5 && 0 <= cy < 7 && glyph_bit(g, cx, cy) { color_byte(color, i % 4) } else { old },
        None => old,
    }
}

/// The framebuffer bytes `s` after drawing `ch` at (`x`, `y`).
pub open spec fn char_seq(s: Seq<u8>, fw: int, x: int, y: int, ch: char, color: u32) -> Seq<u8> {
    Seq::new(s.len(), |i: int| char_byte(fw, i, s[i], x, y, ch, color))
}

/// The framebuffer bytes `s` after drawing the first `k` characters of
/// `text` from (`x`, `y`), six pixels apart.
pub open spec fn text_seq(s: Seq<u8>, fw: int, x: int, y: int, text: Seq<char>, color: u32, k: nat) -> Seq<u8>
    decreases k,
{
    if k == 0 {
        s
    } else {
        char_seq(text_seq(s, fw, x, y, text, color, (k - 1) as nat), fw, x + 6 * (k - 1), y, text[k - 1], color)
    }
}

impl Frame {
    /// Draws one character with its top left corner at (`x`, `y`); a
    /// character without a glyph draws nothing.
    pub fn char5x7(&mut self, x: i32, y: i32, ch: char, color: u32)
        requires
            old(self).wf(),
            x <= i32::MAX - 4,
            y <= i32::MAX - 6,
        ensures
            final(self).wf(),
            final(self).w == old(self).w,
            final(self).h == old(self).h,
            final(self).data@ == char_seq(old(self).data@, old(self).w as int, x as int, y as int, ch, color),
    {
        let ghost fw = self.w as int;
        let ghost n = self.data@.len();
        if let Some(rows) = glyph5x7(ch) {
            let mut dy: usize = 0;
            while dy < 7
                invariant
                    dy <= 7,
                    glyph_spec(ch) == Some(rows),
                    x <= i32::MAX - 4,
                    y <= i32::MAX - 6,
                    self.wf(),
                    self.w == old(self).w,
                    self.h == old(self).h,
                    fw == self.w,
                    self.data@.len() == n,
                    n == old(self).data@.len(),
                    forall|i: int| 0 <= i < n ==> #[trigger] self.data@[i] == if py_of(i, fw) - y < dy {
                        char_byte(fw, i, old(self).data@[i], x as int, y as int, ch, color)
                    } else {
                        old(self).data@[i]
                    },
                decreases 7 - dy,
            {
                let row = rows[dy];
                let mut dx: usize = 0;
                while dx < 5
                    invariant
                        dx <= 5,
                        dy < 7,
                        row == rows@[dy as int],
                        glyph_spec(ch) == Some(rows),
                        x <= i32::MAX - 4,
                        y <= i32::MAX - 6,
                        self.wf(),
                        self.w == old(self).w,
                        self.h == old(self).h,
                        fw == self.w,
                        self.data@.len() == n,
                        n == old(self).data@.len(),
                        forall|i: int| 0 <= i < n ==> #[trigger] self.data@[i] == if py_of(i, fw) - y < dy
                            || (py_of(i, fw) - y == dy && px_of(i, fw) - x < dx) {
                            char_byte(fw, i, old(self).data@[i], x as int, y as int, ch, color)
                        } else {
                            old(self).data@[i]
                        },
                    decreases 5 - dx,
                {
                    if ((row as u32) >> (4 - dx) as u32) & 1u32 != 0 {
                        self.rect(x + dx as i32, y + dy as i32, 1, 1, color);
                    }
                    dx = dx + 1;
                }
                dy = dy + 1;
            }
        }
        assert(self.data@ =~= char_seq(old(self).data@, fw, x as int, y as int, ch, color));
    }

    /// Draws `text` from (`x`, `y`), one character every six pixels.
    pub fn text5x7(&mut self, x: i32, y: i32, text: &str, color: u32)
        requires
            old(self).wf(),
            x + 6 * text@.len() <= i32::MAX,
            y <= i32::MAX - 6,
        ensures
            final(self).wf(),
            final(self).w == old(self).w,
            final(self).h == old(self).h,
            final(self).data@ == text_seq(old(self).data@, old(self).w as int, x as int, y as int,
                text@, color, text@.len()),
    {
        let mut cx: i32 = x;
        for ch in it: text.chars()
            invariant
                it.seq() == text@,
                cx == x + 6 * it.index(),
                x + 6 * text@.len() <= i32::MAX,
                y <= i32::MAX - 6,
                self.wf(),
                self.w == old(self).w,
                self.h == old(self).h,
                self.data@ == text_seq(old(self).data@, old(self).w as int, x as int, y as int,
                    text@, color, it.index() as nat),
        {
            self.char5x7(cx, y, ch, color);
            cx = cx + 6;
        }
    }
}

} // verus!
