# prepare_pass

The pass of a GPU renderer that prepares the primitives of a frame: it culls what no dirty region
touches, splits primitives into segments along their clips, requests clip masks, and brings the
resources of each kind of primitive up to date.

The library in `src/` is verified with Verus. It decides; the renderer does the rest. Each function
of the pass is a machine that is done, cannot go on, or waits for the reply to one `Request`. What a
machine does is stated as a `Program`, the tree of all its conversations with a renderer, and every
function ensures that it follows its program. Coordinates are single-precision numbers that the
library only compares and hands on; arithmetic on them is asked for like everything else.

- `src/program.rs`: requests, replies, faults and programs.
- `src/model.rs`, `src/geometry.rs`, `src/scalar.rs`: the data.
- `src/pass.rs`: lists of primitives; `src/clip_task.rs`: clip masks; `src/interned.rs`: the kinds.
- `src/law_*.rs`: what every run keeps, adds and asks, whatever the renderer replies.
- `src/faults_*.rs`: how a run can fail.
- `app/`: answers the requests, with `euclid` for the arithmetic and a `Renderer` for the rest.
- `tests/`: scripted conversations with exact values.
