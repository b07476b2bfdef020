use vstd::prelude::*;

pub mod activity;
pub mod automod;
pub mod backup;
pub mod commands;
pub mod components;
pub mod menus;
pub mod moderation;
pub mod mp;
pub mod text;
pub mod tools;

verus! {

} // verus!
