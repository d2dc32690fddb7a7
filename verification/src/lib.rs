//! An interpreter for a two-dimensional, stack/queue-based esoteric
//! programming language whose instructions are syllabic characters: each
//! syllable's initial consonant selects an opcode, its vowel steers the
//! instruction pointer, and its final consonant pair picks a storage slot
//! or an inline literal.

pub mod aheui;
pub mod hangul;
pub mod text;
