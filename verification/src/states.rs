pub mod any_state;
pub mod game_state;
pub mod main_state;
pub mod pipeline_state;
pub mod ui_state;
