//! The aquarium's inhabitants: what they look like and which colours they
//! wear.

pub mod bubble;
pub mod fish;
pub mod seaweed;
pub mod visitor;
