//! What the screen shows: the picker's lines, the big font, layout arithmetic and colours.
pub mod bigfont;
pub mod canvas;
pub mod detail;
pub mod particles;
pub mod search;
pub mod theme;
