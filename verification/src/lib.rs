//! The decisions behind a desktop database client.

pub mod app_identity;
pub mod app_settings;
pub mod backup_dialog;
pub mod builder_laws;
pub mod builder_pane;
pub mod builder_sql;
pub mod canvas_laws;
pub mod connection;
pub mod connection_dialog;
pub mod connection_form;
pub mod connection_view;
pub mod context_menu;
pub mod data_edit;
pub mod data_laws;
pub mod data_pane;
pub mod diagram_laws;
pub mod dialog_laws;
pub mod driver_laws;
pub mod driver_manager;
pub mod driver_view;
pub mod erd_laws;
pub mod erd_layout;
pub mod erd_pane;
pub mod form_laws;
pub mod grid;
pub mod keyed;
pub mod ordered;
pub mod profile;
pub mod profile_list;
pub mod reading_laws;
pub mod screen_laws;
pub mod sorting;
pub mod template;
pub mod text;
pub mod tunnel;
pub mod tunnel_laws;
pub mod view;
