# acyclib

The bookkeeping of a neural network trainer, verified with Verus.

- `src/logger.rs`: the text of the trainer's log lines, with or without colours.
  `src/logger_laws.rs` states what colours change.
- `src/optimiser.rs`: the optimiser of a network, one state for each weight. What has to be done
  on the device comes out as actions; the outcomes go back in. `src/optimiser/laws.rs` states the
  order of the work.
- `src/optimiser/state.rs`: what a state offers; `wrap.rs`: a state under parameters of another
  type.
- `src/optimiser/ranger21.rs`: the Ranger21 state and its checkpoints.
  `src/optimiser/ranger21_laws.rs` states what holds over many updates.
  `src/optimiser/ranger21_checkpoints.rs` states what a checkpoint gives back: the counts of each
  state and the contents of its buffers, by name and whatever the order of the records, for names
  that a step file can hold. The parameters are not saved.
- `src/optimiser/nnue_clip.rs`: which weights are kept in which range.
  `src/optimiser/nnue_clip_laws.rs` states what becomes of the weights, and that clamping again
  changes nothing.
- `src/state_map.rs`, `src/steps.rs`, `src/order.rs`, `src/parse.rs`, `src/text.rs`: states by
  name, step files, sorted names, and texts.
- `app/`: printing, files, floating point, and the interface of a device backend.
