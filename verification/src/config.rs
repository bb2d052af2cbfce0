pub mod game_config;
