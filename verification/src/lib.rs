//! Verified core of a Telegram task runner: task configuration, the inline
//! TOML writer, task selection, action resolution, peer lookup planning,
//! keyboard-button search and the session store's state rules.
pub mod config;
pub mod db;
pub mod gen_config;
pub mod llm;
pub mod run;
pub mod session_store;
pub mod telegram;
pub mod text;
pub mod trigger;
