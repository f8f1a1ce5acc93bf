# buguc

A compiler for bugu-lang, a small C-like language, to RISC-V assembly,
written in Verus. Every stage of the library is proved to compute its
specification:

- `lexer`: source text to tokens (`tokenize`, specified by `lex`);
- `parser`: tokens to the syntax tree of one function with its parameters
  (`parsing`, specified by the grammar functions `p_*`), each name tagged with
  the scope that declares it (blocks open scopes of their own), with the
  table of declared variables;
- `ir`: the syntax tree to an intermediate representation over virtual
  registers (`ast2ir`, specified by `spec_ast2ir`);
- `ir_handle`: allocation of the physical temporaries `t0`..`t9` (`op`,
  `dataflow`) and the division into basic blocks;
- `codegen`: assembly text (`write_asm`, specified by `spec_write_asm`);
- `compile` (in `lib.rs`): the stages in a row.

Each stage requires an input that it can handle; `check_syntax`, `lowerable`,
`allocatable` and `writable` tell, with exact contracts, whether an input is
one, and `compile` asks them before each stage and reports the first stage
that cannot go on.

`regeister` holds the register pools, `symbols` the symbol table, `text` the
decimal formatting, and `laws` properties that relate several operations.

`app/` is the command-line program: it reads a `.bugu` file, prints what each
stage produced, writes the `.S` file and calls the RISC-V assembler.
