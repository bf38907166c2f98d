//! The decisions of the link between the game Phira and a DGHub: which messages a judgement, a
//! message of the hub or a failure leads to.

pub mod grade;
pub mod hello;
pub mod hub;
pub mod json;
pub mod lan;
pub mod live;
pub mod mapping;
pub mod run;
pub mod scan;
pub mod supervisor;
pub mod text;
pub mod token;
pub mod update;
