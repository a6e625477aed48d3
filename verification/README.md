# spirv_webgpu_transform

Transformations of SPIR-V modules that make them acceptable to WebGPU shader translators,
written in Verus: each transformation states in its contract what module it produces and
which bindings it records as corrections, and Verus proves the code against it.

## Layout

- `src/util/`: the word-level machinery shared by the transformations: reading instruction
  streams (`instruction`), inserting and pruning instructions (`util`), ensuring type
  declarations (`ensure`), decorations and binding corrections (`decorate`,
  `copy_decorate`, `correct_decorate`), functions and their parameters (`function`),
  pointer chains (`pointer`) and chains of image operations (`opaque_trace`).
- `src/pruneunuseddref.rs`: removes unused sampled-image and sampler variables.
- `src/isnanisinfpatch.rs`: replaces `OpIsNan` / `OpIsInf` by bit tests.
- `src/storagecubepatch.rs`: turns storage cube images into two-dimensional arrayed images.
- `src/immediatespatch.rs`: turns push constants into a uniform buffer.
- `src/splitbindingarray.rs`: splits binding arrays into one resource per element.
- `src/mirrorpatch.rs`: gives two shaders the same binding layout.
- `tests/`: tests on concrete modules.
- `app/`: the command line tool.
