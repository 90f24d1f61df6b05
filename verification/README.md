# synoik_ui

The overlays of a desktop shell, as verified Rust: the app grid, the dash and the dock it becomes,
the date menu with its calendar, events and message list, the emoji picker, the context and
accessibility menus, and the dialogs that ask before a session ends.

`src/` is the library. Verus proves each of its functions against its contract: what is where, what
a point is on, and what a click, a key or a swipe does; for the app grid, the dash, the message
list, the emoji picker and the dialogs also what is drawn over what. It holds no floating point and
does no I/O. Lengths come in whole parts of a logical pixel, times in nanoseconds, and outputs by
number; what text measures and what an animation has got to is told by the caller.

| Overlay | Modules |
| --- | --- |
| App grid | `app_grid`, `grid_entry`, `grid_layout`, `grid_input`, `grid_swipe`, `grid_page`, `grid_view`, `grid_scene` |
| Dash and dock | `dash`, `dock` |
| Date menu | `date_menu`, `menu_view`, `menu_picture`, `calendar`, `calendar_view`, `dates`, `events` |
| Message list | `message_list`, `message_layout`, `message_view` |
| Emoji picker | `emoji_picker`, `picker_place`, `picker_view` |
| Menus | `a11y_menu`, `app_menu`, `background_menu`, `popover` |
| Dialogs and banners | `end_session_dialog`, `exit_confirm_dialog`, `config_error_notification`, `card`, `node` |
| Screenshot flash | `flashspot` |
| Shared | `area`, `rect`, `lists`, `text`, `icon`, `keys`, `time` |

Proof functions named `law_..` state what holds across functions: that dates shifted there and back
are the same, that a cancelled drag restores the order, that no two tiles or cards overlap, that a
held dock does not hide.

Two modules trust code outside the library: `node` builds accessibility nodes with AccessKit, and
`config_error_notification` compares and quotes paths with the standard library.

`app/` is ordinary Rust around the library: the local clock and the locale's words, and the
compositor's geometry and keys. `tests/` runs the library on concrete values.
