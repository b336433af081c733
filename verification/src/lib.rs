//! Infinite Backlot: the verified core of an autonomous episode engine.
use vstd::prelude::*;

pub mod adapt;
pub mod author;
pub mod asr;
pub mod authored;
pub mod authoring;
pub mod avatar;
pub mod briefing;
pub mod bvh;
pub mod captions;
pub mod completion;
pub mod config;
pub mod default_world;
pub mod digest;
pub mod json;
pub mod director;
pub mod motion;
pub mod library;
pub mod llm;
pub mod navigation;
pub mod package;
pub mod phrasing;
pub mod production;
pub mod protocol;
pub mod retarget;
pub mod rng;
pub mod soma;
pub mod stage;
pub mod story;
pub mod text;
pub mod tts;
pub mod validation;
pub mod world;
pub mod world_modules;

verus! {

} // verus!
