# logarithm

The verified core of a desktop log viewer with a chat assistant.

- `src/` is the library, verified with Verus. Every public function has a
  contract stated over `Seq<char>` views and spec functions:
  - `backend`: parsing a log text into entries (`parse_log`), the
    `filter_entries` command, and the chat-provider helpers (routing, the
    Gemini conversation format, reading a provider's JSON reply);
  - `viewer`: the viewer's filters (`apply_filters`, with plain, fuzzy
    and regular-expression search), level propagation to continuation lines, group numbering, the rows, the context menu;
  - `markdown` and `components::markdown`: the markdown renderer of the
    chat panel (every piece of input text is HTML-escaped);
  - `ai`: building and planning chat requests, `@file` mentions, actions
    from the viewer, the panel's state;
  - `components`, `app_state`, `shared`: tabs, shortcuts, levels and
    colours, filter settings, the data types;
  - `text`: the string primitives (`trim`, `lines`, `split_whitespace`, ...)
    stated after their documented `str` behaviour.
- `tests/` runs the library on concrete inputs.
- `app/` holds what cannot be verified: the HTTP calls to the providers,
  file reading, JSON framing, the browser's storage and clipboard.
