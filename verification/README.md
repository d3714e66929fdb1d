# rowser

A toy web page viewer. The library (`src/`) turns an HTML document into
paragraph and heading blocks of bold, italic or regular text, and lists the
text runs to lay out with their relative sizes; `app/` fetches the page,
opens the window and draws.

- `src/dom.rs`: the document tree (parsed with html5ever) and white space.
- `src/html.rs`: the walk that builds blocks and spans, and the element names it announces.
- `src/render.rs`: text runs and heading sizes.
- `src/events.rs`: what keys, wheel turns and typed characters do.
- `src/laws.rs`: properties of the walk proved for every tree.
