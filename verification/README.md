# umami

A data acquisition backend for neutron detectors: inputs decode detector
streams into events, recipes give the events their logical meaning, sorters
merge the streams by time, and a post-processor histograms them and hands
them on to outputs.

The library under `src/` is verified with Verus: every function carries a
contract, and the properties that span several functions are stated as
proof functions whose names start with `law_`.

* `event`, `format`: the event model and its stored record formats
* `expr`: the event expression language (lexer, parser, evaluation, aliases)
* `input`: stream decoders (GE, Canon, Mesytec, Jumiom, test) and the run
  state machine of an input; `input/mesy/cmd` plans and checks the MCPD
  set-up commands, `input/mesy/header` reads the text header of a dump file
* `recipe`: the event recipes, and the lookup of a configured recipe's kind
* `sorter`, `pipeline`: merging time-sorted streams, and the plan of sorters
* `postproc`, `shm`, `histo`: histogram bookkeeping and its segment layout;
  `postproc::post_step` is the post-processor's step from an item or
  request to the new state, the histogram, the replies and what goes on to
  the outputs
* `json`: the JSON values of the replies, named by what they hold
* `output`: diagnostics, auxiliary histograms, and the frame stream to an
  external consumer
* `command`, `config`, `text`, `bytes`, `error`, `client`: replies, keys,
  configuration values and the text and byte helpers; `command/handler` is
  the command handler's state machine (where each command goes, what it
  waits for, and what the client is answered, down to the reply's text);
  `config/patch` writes parameter values back into the configuration file

`app/` is the `umami` program around it: configuration files, sockets,
files, shared memory, threads, and the floating-point position formulas.
