use crate::common::{
    cell_index, column_bit, FrameBuffer, GREEN_IDX, SCREEN_HEIGHT, SCREEN_WIDTH,
};
use vstd::prelude::*;

verus! {

/// Number of games on the menu: Tetris, Snake, Tanks, Races, in that order.
pub const GAME_COUNT: u8 = 4;

/// The title image of menu entry `idx`, as eight columns of 32 bits, most
/// significant bit at the top (see `FrameBuffer::from_rows`).
pub open spec fn title_spec(idx: int) -> [u32; 8] {
    if idx == 0 {
        [
            0b_00000000000000000000000000000000,
            0b_00000000000000000000000000000000,
            0b_01110011100111001110010010011100,
            0b_00100010000010001010010010010000,
            0b_00100011100010001110010110010000,
            0b_00100010000010001000011010010000,
            0b_00100011100010001000010010011100,
            0b_00000000000000000000000000000000,
        ]
    } else if idx == 1 {
        [
            0b_00000000000000000000000000000000,
            0b_00000000000000000000010000000000,
            0b_01100110110111001000101001001100,
            0b_00010101010100001001101010010010,
            0b_01100100010111001010101100011110,
            0b_00010100010100001100101010010010,
            0b_01100100010111001000101001010010,
            0b_00000000000000000000000000000000,
        ]
    } else if idx == 2 {
        [
            0b_00000000000000000000000000000000,
            0b_00000000000000000000000000000000,
            0b_00001110001000101001010010010000,
            0b_00000100010100101001100010010000,
            0b_00000100011100111001100010110000,
            0b_00000100010100101001010011010000,
            0b_00000100010100101001010010010000,
            0b_00000000000000000000000000000000,
        ]
    } else {
        [
            0b_00000000000000000000000000000000,
            0b_00000000000000000000000000000000,
            0b_00001110011100101001010010010000,
            0b_00001000010100101001100010010000,
            0b_00001000010100111001100010110000,
            0b_00001000010100101001010011010000,
            0b_00001000011100101001010010010000,
            0b_00000000000000000000000000000000,
        ]
    }
}

/// The title image of menu entry `idx` (entries past the last show the
/// last one).
pub fn game_title(idx: u8) -> (rows: [u32; 8])
    ensures
        rows == title_spec(idx as int),
{
    if idx == 0 {
        [
            0b_00000000000000000000000000000000,
            0b_00000000000000000000000000000000,
            0b_01110011100111001110010010011100,
            0b_00100010000010001010010010010000,
            0b_00100011100010001110010110010000,
            0b_00100010000010001000011010010000,
            0b_00100011100010001000010010011100,
            0b_00000000000000000000000000000000,
        ]
    } else if idx == 1 {
        [
            0b_00000000000000000000000000000000,
            0b_00000000000000000000010000000000,
            0b_01100110110111001000101001001100,
            0b_00010101010100001001101010010010,
            0b_01100100010111001010101100011110,
            0b_00010100010100001100101010010010,
            0b_01100100010111001000101001010010,
            0b_00000000000000000000000000000000,
        ]
    } else if idx == 2 {
        [
            0b_00000000000000000000000000000000,
            0b_00000000000000000000000000000000,
            0b_00001110001000101001010010010000,
            0b_00000100010100101001100010010000,
            0b_00000100011100111001100010110000,
            0b_00000100010100101001010011010000,
            0b_00000100010100101001010010010000,
            0b_00000000000000000000000000000000,
        ]
    } else {
        [
            0b_00000000000000000000000000000000,
            0b_00000000000000000000000000000000,
            0b_00001110011100101001010010010000,
            0b_00001000010100101001100010010000,
            0b_00001000010100111001100010110000,
            0b_00001000010100101001010011010000,
            0b_00001000011100101001010010010000,
            0b_00000000000000000000000000000000,
        ]
    }
}

/// The game menu: which entry is selected.
pub struct Menu {
    pub game_idx: u8,
}

impl Menu {
    pub fn new() -> (m: Menu)
        ensures
            m.game_idx == 0,
    {
        Menu { game_idx: 0 }
    }

    /// Moves the selection by the stick's horizontal reading, cyclically
    /// (the reading taken as a byte, so -1 steps back by one).
    pub fn navigate(&mut self, x_input: i8)
        requires
            old(self).game_idx < GAME_COUNT,
        ensures
            final(self).game_idx < GAME_COUNT,
            x_input == 0 ==> final(self).game_idx == old(self).game_idx,
            x_input != 0 ==> final(self).game_idx as int == ((old(self).game_idx as int + (
            x_input as u8) as int) % 256) % 4,
    {
        if x_input != 0 {
            let step: u8 = #[verifier::truncate] (x_input as u8);
            self.game_idx = self.game_idx.wrapping_add(step) % GAME_COUNT;
        }
    }

    /// The title screen of the selected game, drawn in green.
    pub fn title_screen(&self) -> (fb: FrameBuffer)
        ensures
            forall|x: int, y: int|
                0 <= x < SCREEN_WIDTH && 0 <= y < SCREEN_HEIGHT ==> fb@[#[trigger] cell_index(
                    SCREEN_WIDTH - 1 - x,
                    y,
                )] == if column_bit(title_spec(self.game_idx as int)[x], y) {
                    GREEN_IDX
                } else {
                    0u8
                },
    {
        let rows = game_title(self.game_idx);
        FrameBuffer::from_rows(&rows, GREEN_IDX)
    }
}

} // verus!
