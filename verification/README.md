# expense_engine

The engine that keeps a mattress factory's bill of materials up to date and
computes what its orders consume.

- `src/` is the library, verified with Verus:
  - `excel_parser/`, `material_import.rs`, `procedure_import.rs`: the rows
    of the 1C reports (materials, procedures, models, specifications) read
    into records, with the layout checks of the reports;
  - `interpreter/`: the lexer, the grammar and the parser of the
    calculation-procedure language, and the preparation of procedures;
  - `vba.rs`: the translation of procedures into VBA functions;
  - `materials.rs`, `orders.rs`, `tasks.rs`, `procedures.rs`, `logger.rs`:
    the records of the database and the decisions taken on them;
  - `text.rs`, `helpers.rs`, `constants.rs`: text utilities, code and unit
    normalisation, names of files and tables.
- `app/` is the program around it: the database, the Excel files, and the
  evaluation of procedures, whose values are floating-point numbers.
  `app import` runs the importers, `app expense '[ids]'` computes the
  expense of materials of orders, `app cut '[ids]'` the parts of their
  cutting tasks.
- `tests/` runs the library on concrete reports, procedures and orders.
