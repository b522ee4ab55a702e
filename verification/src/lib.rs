//! A verified chess rules engine: board representation, FEN parsing and
//! serialization, per-piece move generation, check and legality filtering,
//! castling-rights bookkeeping, en-passant detection, promotion, and move
//! history, together with the small value types the surrounding terminal
//! application needs (parsed console commands, tab state).

pub mod board;
pub mod cli;
pub mod command;
pub mod fen;
pub mod movegen;
pub mod piece;
pub mod position;
pub mod tabs;
