# wisp

The verified core of Wisp, a design canvas driven over JSON-RPC: the document
store (a tree of nodes with layout, style and typography), snapshot-based undo,
the text rendering of the tree, the built-in component templates, the decisions
the server makes for each method, and the command-line client's requests and
output.

- `src/` is the library, verified with Verus. Sizes are held as binary64 bit
  patterns; ids as 128-bit UUID values.
- `tests/` runs the library on concrete values.
- `app/` is the `wisp` program around it: the WebSocket server (axum), the client
  (tokio-tungstenite, clap), JSON encoding (serde), files and the terminal.
