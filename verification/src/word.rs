//! One falling word.

use crate::enums::WordColor;
use crate::text::char_len;
use vstd::prelude::*;

verus! {

/// How many units of `y` make one row of the screen.
pub const ROW_UNITS: i64 = 1000;

/// A falling word. `x` is its column. `y` is its height in thousandths of
/// a row, so that a speed of a tenth of a row per tick is the integer 100.
pub struct Word {
    x: i32,
    y: i64,
    text: String,
    color: WordColor,
}

/// What a word is, as plain values.
pub struct WordView {
    pub x: int,
    pub y: int,
    pub text: Seq<char>,
    pub color: WordColor,
}

impl WordView {
    /// The word after falling by `speed`.
    pub open spec fn fallen(self, speed: int) -> WordView {
        WordView { x: self.x, y: self.y + speed, text: self.text, color: self.color }
    }

    /// The row on which the word is drawn: its height in whole rows, rounded
    /// towards the top line.
    pub open spec fn row(self) -> int {
        if self.y >= 0 {
            self.y / (ROW_UNITS as int)
        } else {
            -((-self.y) / (ROW_UNITS as int))
        }
    }
}

impl View for Word {
    type V = WordView;

    closed spec fn view(&self) -> WordView {
        WordView { x: self.x as int, y: self.y as int, text: self.text@, color: self.color }
    }
}

impl Word {
    /// A word at column `x` and height `y` (in thousandths of a row).
    pub fn new(x: i32, y: i64, text: String, color: WordColor) -> (w: Word)
        ensures
            w@ == (WordView { x: x as int, y: y as int, text: text@, color: color }),
    {
        Word { x, y, text, color }
    }

    /// The column of the word's first character.
    pub fn get_x(&self) -> (x: i32)
        ensures
            x == self@.x,
    {
        self.x
    }

    /// The height of the word, in thousandths of a row.
    pub fn get_y(&self) -> (y: i64)
        ensures
            y == self@.y,
    {
        self.y
    }

    /// Moves the word to height `y`.
    pub fn set_y(&mut self, y: i64)
        ensures
            final(self)@ == (WordView { y: y as int, ..old(self)@ }),
    {
        self.y = y;
    }

    /// The characters still to be typed.
    pub fn get_text(&self) -> (text: &String)
        ensures
            text@ == self@.text,
    {
        &self.text
    }

    /// The characters still to be typed, for changing them. The word
    /// afterwards is the word before with the text that the caller leaves
    /// behind the reference.
    pub fn get_text_mut(&mut self) -> (text: &mut String)
        ensures
            text@ == old(self)@.text,
            final(self)@ == (WordView { text: final(text)@, ..old(self)@ }),
    {
        &mut self.text
    }

    /// The colour the word is drawn in.
    pub fn get_color(&self) -> (color: WordColor)
        ensures
            color == self@.color,
    {
        self.color
    }

    /// The number of characters still to be typed.
    pub fn len(&self) -> (n: usize)
        ensures
            n == self@.text.len(),
    {
        char_len(&self.text)
    }

    /// The row on which the word is drawn.
    pub fn row(&self) -> (r: i64)
        ensures
            r == self@.row(),
    {
        self.y / ROW_UNITS
    }
}

} // verus!
