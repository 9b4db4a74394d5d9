# coppercrab

The verified core of CopperCrab, a helper for milling printed circuit boards
from Gerber and Excellon files.

- `src/` is the library, checked by Verus:
  - `pcb::parser::text`: the number grammar shared by the readers
    (unsigned integers; numbers as a float reader reads them, held exactly:
    decimals with exponents, infinities, not-a-number).
  - `pcb::parser::excellon`: the drill-file reader.
  - `pcb::parser::gerber`: the Gerber command model and the layer builder.
  - `pcb::debug`: the bounding box of a layer.
  - `workflow`: which tool a selection names, what a toolpath generation
    run does, which G-code files an export writes.
  - `logger`: the bounded log buffer; `locale`: the interface languages.
- `tests/`: tests of the library on concrete values.
- `app/`: a command-line front end: file reading, the Gerber parser crate,
  the tool library file, the configuration directory, SVG export and the
  logger.

Gerber lengths are `i64` counts of millionths of the layer unit; drill-file
numbers are exact decimals, infinities or not-a-number.
