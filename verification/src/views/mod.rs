//! The views: controls, lists, validators and windows.
pub mod list_viewer;
pub mod scrollbar;
pub mod cluster_group;
pub mod progress_bar;
pub mod validator;
pub mod picture_validator;
pub mod lookup_validator;
pub mod listbox;
pub mod combo_box;
pub mod color_dialog;
pub mod button;
pub mod help_file;
pub mod radiobutton;
pub mod background;
pub mod indicator;
pub mod help_context;
pub mod help_index;
pub mod help_toc;
pub mod scroller;
pub mod help_viewer;
pub mod help_window;
pub mod handle;
pub mod label;
pub mod input_line;
pub mod menu_viewer;
pub mod menu_box;
pub mod menu_bar;
pub mod msgbox;
pub mod outline;
pub mod group;
pub mod dialog;
pub mod desktop;
pub mod dir_listbox;
pub mod file_dialog;
pub mod chdir_dialog;
pub mod ansi_background;
pub mod file_list;
pub mod history;
pub mod history_window;
pub mod kitty_image;
