//! The widgets of the interactive terminal interface and the manager that
//! holds them under a single focus pointer.

pub mod action_list;
pub mod input;
pub mod manager;
pub mod result_table;
pub mod widget_trait;
