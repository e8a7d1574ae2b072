//! State and rules of a tabbed hex editor.

pub mod active;
pub mod background;
pub mod cli;
pub mod closing;
pub mod commands;
pub mod compare;
pub mod console;
pub mod copy;
pub mod dialogs;
pub mod dispatch;
pub mod dock;
pub mod dock_ops;
pub mod editor;
pub mod frame;
pub mod hexview;
pub mod kept_edits;
pub mod labels;
pub mod menu;
pub mod mounting;
pub mod moves;
pub mod newfile;
pub mod opening;
pub mod palette;
pub mod palette_inputs;
pub mod palette_rows;
pub mod panels;
pub mod panes;
pub mod plugins;
pub mod queue;
pub mod reload;
pub mod restoring;
pub mod runtimes;
pub mod save;
pub mod search;
pub mod session;
pub mod settings;
pub mod source;
pub mod tabs;
pub mod template;
pub mod template_panel;
pub mod template_runs;
pub mod text;
pub mod tool_pane;
pub mod viewer;
pub mod watching;
pub mod web;
pub mod web_dispatch;
pub mod web_rows;
