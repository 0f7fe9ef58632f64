# frisbee

A compiler and virtual machine for the Frisbee language, written as a
verified library with a thin command-line program around it.

- `src/` is the library, checked by Verus: the scanner and parser, the
  module loader's steps, the semantic checks (expression typing, name
  resolution, type annotation, module checks), code generation and
  assembly, the bytecode loader and disassembler, and the serialization of
  calls between active objects.
- `tests/` holds the tests, run against the compiled library.
- `app/` holds `main`, file access and the loading loop.
