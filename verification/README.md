# mistralrs-oxide

Building blocks for LLM inference — tensors, layers, model-file parsing, a
tokenizer, CUDA error handling and launch planning — with their shape,
layout, parsing and decision logic verified by Verus.

- `src/` is the verified library. Every public function states in its
  contract what it returns for each input (where it calls a trait that
  users implement or an outside crate, in terms of what that call
  reports); the laws of the library (round
  trips, broadcasting, transposition, error-code recovery, device health)
  are public proof functions beside the code they speak of.
- `app/` holds what the library cannot express: floating-point arithmetic
  on tensor elements, file and device I/O, sampling with random numbers and
  the CUDA driver bindings. It calls the library for every check and
  decision.
- `tests/` exercises the library on concrete values.
