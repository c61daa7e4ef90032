# f06

A library for the formatted text output ("F06" files) of Nastran-like finite
element solvers such as MYSTRAN and Simcenter Nastran, written in Verus: its
functions carry `requires`/`ensures` contracts that the verifier proves.

## Layout

- `src/` — the verified library.
  - `text`, `numbers`, `util`, `headers`: characters, numeric tokens, the
    breakdown of lines into fields, and the detection of spaced block
    headers.
  - `elements`, `blocktypes`, `flavour`, `geometry`, `indexing`, `order`,
    `indexmap`, `columns`: the vocabulary of the data (element and block
    types, solvers, degrees of freedom, row and column indexes, their order).
  - `blocks`, `decoders`, `parser`, `f06file`: data blocks and their merging
    and sorting, the per-block line decoders, the one-pass parser and the
    parsed file.
  - `compare`, `diff`, `extraction`, `amounts`, `script`, `metrics`: the
    comparison of blocks and files, and extractions of data.
  - `layout`, `formatting`, `index_fns`, `from_f06`, `templates`,
    `record_filter`, `display`: the fixed-width CSV layout and the
    conversion of parsed files into it, and display texts.
- `tests/` — tests of the library on concrete values.
- `app/` — a command-line program around the library: reading files,
  writing CSV, and everything that needs floating point (values of reals,
  their formatting, and the criteria that flag differing values).

Reals are kept as the decimal text they were read from; the program turns
them into floating-point values where it needs them.
