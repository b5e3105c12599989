# lance-context-core

The rules of a context store that keeps its records in Lance tables, written in
Verus: how records become columns and come back, which table a store accepts,
what a write plans, what a read gives, how flushed write-ahead generations are
merged, and how search results are ranked. Each function states in its contract
what it returns, as far as the library decides it: where another crate decides,
the contract speaks of that crate's answer. The proof functions named `law_*`
state what holds of the functions together.

## Layout

`src/` is the library.

| Modules | Subject |
| --- | --- |
| `schema`, `batch`, `error`, `text`, `number`, `collect`, `order` | columns, batches and errors, and the small tools under them |
| `record`, `patch`, `metric`, `read` | what a context record is, how it is changed, and reading one value of a batch |
| `context_columns`, `context_schema`, `context_codec`, `context_decode`, `context_store` | the context table and its conversion in both directions |
| `rollout_record`, `rollout_columns`, `rollout_codec`, `rollout_decode`, `rollout_filter`, `rollout_page`, `rollout_sql`, `rollout_store` | rollouts: table, filters, pages and queries |
| `datagen_event`, `datagen_columns`, `datagen_checks`, `datagen_codec`, `datagen_decode`, `datagen_store` | event logs of data generation |
| `generic_store` | tables whose columns a caller declares |
| `listing`, `writes`, `fusion`, `retrieve`, `point_read`, `projection`, `sql` | listing, writing, searching and fetching records |
| `storage`, `shard`, `merge`, `merge_commit`, `compaction` | the write-ahead log, merging it and compacting the table |
| `context_laws`, `context_table_laws`, `rollout_laws`, `datagen_laws`, `write_laws` | what reading gives back of a write, and what writes keep |
| `outside` | the calls into other crates, with what is believed of each |

Floats stand in the library as their bits, times as microseconds since the Unix
epoch, with what is below a microsecond beside them where times are compared, and
JSON documents as their compact text.

`tests/` runs the library against tables held in memory.

`app/` puts the library to work: it converts Arrow batches, computes distances
in floating point, and drives a storage engine behind the trait `Engine`.
`app/lance_engine.rs` implements that trait with Lance.
