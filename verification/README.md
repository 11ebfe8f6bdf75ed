# dtdb_sql

The SQL front end of an embedded relational database, verified with Verus.

`src/` turns the text of a statement into a plan, optimizes the plan and decides, step by step,
what an execution asks of the storage layer. Every function there has a contract that Verus
proves; what rests on another crate stands behind a small trusted item with a doc comment that
says what is taken on faith.

| Part | Modules |
| --- | --- |
| Text to statements | `tokens`, `tree`, `converted`, `parse`, `preprocess`, `syntax`, `parsed` |
| Values and expressions | `value`, `schema`, `order`, `scalar`, `expr`, `eval`, `binding`, `message` |
| Planning | `logical`, `planner`, `grouping`, `ddl`, `modify`, `statement`, `params`, `parameters`, `subquery` |
| Optimizing | `bounds`, `ranges`, `cost`, `pushdown`, `optimizer`, `single_key`, `kept`, `explain` |
| Executing | `engine`, `cache`, `execute`, `point_get`, `physical`, `run`, `spill`, `merge`, `table` |

Floating point and tokenizers are outside the reach of the proofs. Where a function needs such a
result it stops with the question, the caller records the answer in a `Facts` value and calls
again: `facts` holds both, and the contracts hold for every set of answers.

`app/` is the ordinary Rust around the library: the driver that performs the actions of an
execution against a storage layer, the answers to the questions, the run files of an external
sort and the command line.
