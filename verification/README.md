# tray-icon

Tray icons on Linux desktops, shown over the session bus with the `org.kde.StatusNotifierItem` and
`com.canonical.dbusmenu` interfaces. Written in [Verus](https://github.com/verus-lang/verus): every
function of the library has a contract, and Verus proves that the code meets it.

- `src/` is the library. It does no input or output of its own.
  - `tray`, `command`: the tray icon in the hands of the application, and the commands it gives.
  - `run`, `service`, `inner`: the service, its course and its state.
  - `menu`, `flat`, `item_properties`, `properties`, `layout`, `layout_read`: the menu, its
    numbering, and its layout as the bus sees it, written and read back.
  - `status_item`, `dbus_menu`: the answers of the two objects on the bus.
  - `icon`: pixels from RGBA to ARGB32.
  - `order`: whether the dictionaries in a D-Bus value can be sorted.
  - `value`: D-Bus values. All calls into `zvariant` are here; their contracts are taken on trust.
  - `laws`, `layout_laws`: what holds across functions.
- `app/` connects the library to the bus (`zbus`), to the application's menus (`muda`) and to a
  thread with a runtime (`crossbeam-channel`, `tokio`).
- `tests/` runs the library on concrete values.
