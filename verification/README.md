# rudbman_app

The decisions of a desktop database manager, verified with Verus.

`src/` is the library. Each module holds the state of one part of the window and
the rules it follows, with a contract on every function and, next to it or in the
`*_laws` modules, the properties that hold across functions.

| Module | What it decides |
| --- | --- |
| `text`, `ordered`, `sorting`, `keyed`, `view` | texts, ordered maps, stable sorting, lists by key, and what a view is described with |
| `template` | filling, reading and taking apart a URL template; moving a URL to the near end of a tunnel |
| `profile`, `profile_list` | connection profiles, driver definitions, and the list they are shown in |
| `connection`, `tunnel` | the order in which a session and the tunnel under it go up and come down |
| `connection_form`, `connection_dialog`, `connection_view` | editing, testing and saving a profile |
| `driver_manager`, `driver_view` | driver definitions, their archives and classes |
| `builder_sql`, `builder_pane` | the query builder and the statement it writes |
| `grid`, `data_edit`, `data_pane`, `context_menu`, `data_laws` | the rows of a table, what is staged over them, and the pane that shows both |
| `erd_pane`, `erd_layout`, `erd_laws` | a schema's diagram and where its boxes were left |
| `backup_dialog` | backing a schema up |
| `app_settings`, `app_identity` | the settings, and what the application calls itself |

`app/` is ordinary Rust around the library: files, threads, channels, and the
loops that carry out what the library decides. `tests/` runs the library.
