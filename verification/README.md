# Markdown engine

Turns a Markdown document (headers, block quotes, task lists) into HTML in
one pass, with the style rules of the blocks it used appended at the end.

- `src/tokenizer.rs` splits the document bytes into tokens; `next_token` and
  `tokens_of` state what each token is.
- `src/parser.rs` is the state machine that writes the HTML of each token;
  `render` states the HTML of a whole document, and `lemma_document_parses`
  shows that the parser takes every token of any document.
- `src/tag.rs`, `src/schema.rs`, `src/html_writer.rs`, `src/mapper.rs` hold the
  block kinds, the markup, the in-memory writer and the style sheet.
- `app/main.rs` reads `test.md` and writes `test.html`.
