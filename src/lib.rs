//! Gameplay rules of a small arcade soccer game: goal detection, the score
//! ledger, the ball's lifecycle, obstacle motion and player input decisions.
//! The host engine runs these once per frame and performs what they decide.
pub mod arena;
pub mod ball;
pub mod game;
pub mod obstacle;
pub mod player;
pub mod scoring;
