pub mod common;
pub mod digits;
pub mod figure;
pub mod life;
pub mod menu;
pub mod races;
pub mod snake;
pub mod tanks;
pub mod tetris;
