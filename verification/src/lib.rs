pub mod arith;
pub mod text;
pub mod zone;
pub mod keys;
pub mod item;
pub mod container;
pub mod inventory;
pub mod trading;
pub mod trade_manager;
pub mod trade_execution;
pub mod currency;
pub mod stations;
pub mod plot;
pub mod resource;
pub mod extraction;
pub mod exchange;
pub mod random;
pub mod crafting;
pub mod engine;
pub mod events;
pub mod road_network;
pub mod seeded_rng;
pub mod auth;
