pub mod cards;
pub mod hand;
pub mod deck;
pub mod models;
pub mod game;
