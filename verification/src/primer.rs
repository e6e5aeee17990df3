//! Small exercises in stating and proving contracts: arithmetic that cannot
//! overflow, values that change hands, and text cut at a byte.

pub mod arithmetic;
pub mod ownership;
pub mod rectangle;
pub mod text;
pub mod user;
