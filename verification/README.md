# turbo_vision

The widgets of a text-mode user interface toolkit in the style of Turbo
Vision: menus and menu bars, dialogs and buttons, check boxes and radio
buttons, input lines with validators, list boxes, combo boxes, file and
directory dialogs, a help system and progress bars. Each widget's behaviour is
stated as a contract and proved with Verus.

## Layout

- `src/` is the verified library. A widget keeps its state as plain values,
  answers an event with its new state (and, where the event leaves the
  widget, an action for its caller), and draws itself as a list of rows of
  character cells (`draw::DrawLine`). Laws that relate several calls stand as
  public proof functions named `law_...` beside the functions they are about.
- `tests/` runs the library on concrete values.
- `app/` holds what needs the terminal or the file system: the screen, the
  modal loops that draw a widget, read an event and hand it to the library,
  and directory listings.

The library calls `base64` to encode images for the terminal's graphics
protocol; `app/` uses `crossterm` for the terminal.
