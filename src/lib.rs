pub mod bitboards;
pub mod board;
pub mod castle;
pub mod eval;
pub mod lookup;
pub mod magics;
pub mod masks;
pub mod movement;
pub mod piece;
pub mod position;
pub mod score;
pub mod search;
pub mod text;
pub mod transposition;
