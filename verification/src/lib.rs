//! Verified core of a terminal Markdown previewer: command-line parsing,
//! Mermaid block framing and tokenizing, line bookkeeping and the state
//! machine behind the fullscreen diagram viewer.
pub mod text;
pub mod width;
pub mod preview;
pub mod diagram_model;
pub mod preview_cache;
pub mod diagrams;
pub mod names;
pub mod diagram_nav;
pub mod diagram_search;
pub mod diagram_controls;
pub mod diagram_open;
pub mod diagram_poll;
pub mod mermaid_syntax;
pub mod document;
pub mod numbers;
pub mod cli;
pub mod settings;
pub mod pointer;
pub mod plain_output;
pub mod footnotes;
pub mod diagram_keys;
pub mod mailbox;
pub mod laws;
pub mod diagram_screen;
pub mod mermaid_block;
pub mod block_frame;
pub mod code_keys;
pub mod line_maps;
pub mod keys;
pub mod pointer_events;
pub mod notes;
