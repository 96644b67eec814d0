# ferdirust

A desktop shell that hosts several messaging web apps (Messenger, Slack,
Proton Mail, Telegram, ...) side by side in one window, each in its own
browser storage partition, with a sidebar that shows unread dots.

- `src/` is the library, verified with Verus: badge counting and
  notification debouncing (`sidebar::badge`), sidebar commands
  (`ipc::messages`, `sidebar::bridge`), the service configuration and
  partition paths (`service::config`, `service::partition`), the service
  deck and the text handed to the browser (`service::manager`), and the
  decisions behind the browser's handlers (`handlers::*`,
  `window_delegate`).
- `app/` is the program around it: the CEF browser objects and handlers,
  file-system work, `services.toml` (de)serialization and desktop
  notifications.
- `tests/` exercises the library.

Page resources (`resources/scripts/*.js`, `resources/sidebar/sidebar.html`)
are read at run time from a `resources` directory next to the executable.
