//! The logic of the user programs shipped with the kernel: the dining
//! philosophers, the "fish" printer and the bounded message queue.

pub mod dinner;
pub mod dinner_alt;
pub mod fish;
pub mod mq;
