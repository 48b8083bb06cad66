# flipchart

An ephemeral flipchart an AI agent draws Mermaid diagrams on, over MCP: named
views, one in front, gone when the session ends. The rules that decide what
gets drawn, the notes that go with a drawing, the words the agent gets back and
the deck the window shows are a library verified with Verus.

## Layout

- `src/` — the verified library.
  - `text.rs`: the text the rules read, as character sequences (lines, trim,
    words, tokens, decimals, padding).
  - `mermaid.rs`: the trusted boundary with `mermaid-rs-renderer`: reading
    and editing the IR its parser builds; each item says what it claims.
  - `graph.rs`: what the rules read of a parsed diagram, next to the IR.
  - `honest_limit.rs`: the rejection of nodes the agent did not declare, with
    the proof that the rejection lists them sorted.
  - `house_style.rs`: the style the flipchart imposes and the notes it owes.
  - `diagram.rs`: the steps between mmdr's parser and its renderer (the
    words for what does not read, the honest limit, the house style, the
    drawing), and their wording.
  - `flipchart.rs`: the live views, the `show` and `clear` tools, and the laws
    of the flipchart (what a show writes a read gives back, the front is the
    latest drawing, a rejection changes nothing, ...).
  - `deck.rs`: the window's side: the sheets, the cursor and its arrows.
  - `check.rs`: the wording of the diagnostic run over `.mmd` files.
- `tests/` — the library's tests.
- `app/` — the program: the two calls into mmdr that can unwind (parse and
  render), made where an unwinding is caught; the MCP server over stdio; the
  `check` subcommand; and on macOS the window, its rasterizer and the system
  calls.
