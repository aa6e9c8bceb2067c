//! Verified core of the terminal chat client's application state: the input
//! line and its keys, the dialog state machines, slash commands and their
//! autocomplete, the emoji picker, mouse selection, the stored-message and
//! tool-call text formats, the prompt-history file, and the decisions and
//! messages around agent turns and channel setup.

pub mod text;
pub mod keys;
pub mod export_dialog;
pub mod unicode;
pub mod catalog;
pub mod slash;
pub mod xml_tools;
pub mod selection;
pub mod skills_dialog;
pub mod kg_review;
pub mod mission_control;
pub mod model_selector;
pub mod onboarding_notes;
pub mod paste_cleanup;
pub mod transcript;
pub mod input_edit;
pub mod approval;
pub mod approval_book;
pub mod tool_description;
pub mod session_state;
pub mod session_book;
pub mod history;
pub mod chat_input;
pub mod chat_keys;
pub mod file_picker;
pub mod sessions_screen;
pub mod tool_markers;
pub mod image_markers;
pub mod reasoning;
pub mod paste_paths;
pub mod mouse_select;
pub mod history_file;
pub mod emoji_picker;
pub mod kg_actions;
pub mod slash_dispatch;
pub mod message_expand;
pub mod channel_setup;
pub mod release_setup;
pub mod turn_start;
pub mod global_keys;
pub mod tool_group;
pub mod listing_order;
