pub mod countdown;
pub mod farm;
pub mod money;
pub mod movement;
pub mod status;
