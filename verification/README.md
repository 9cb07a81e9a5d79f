# ultitools

A verified toolkit for web and source files, written in Verus:

- `lint`: a rule-based linter (configuration, findings, reports, fix plans)
  with rule sets for C, C++, C#, CSS, Dart, HTML, Java, JavaScript, Markdown,
  NASM, PHP, Python, R, Rust, SQL and TypeScript.
- `minify`: minifiers and formatters for CSS, JavaScript and HTML.
- `markdown`: a Markdown-to-HTML renderer with `<Card>`, `<LinkCard>`,
  `<CardGrid>`, `<Tabs>` and `<TabItem>` components; code blocks are
  highlighted by the `ultihighlighter` crate.

Layout: `src/` is the verified library (contracts on each function, and the
laws that span functions as proof functions), `tests/` runs it on concrete inputs,
and `app/` is the command-line front end (file and directory I/O).
