//! Storage rules of a Lance-backed context store, stated and proved.

pub mod batch;
pub mod collect;
pub mod compaction;
pub mod context_codec;
pub mod context_columns;
pub mod context_decode;
pub mod context_laws;
pub mod context_schema;
pub mod context_store;
pub mod context_table_laws;
pub mod datagen_checks;
pub mod datagen_codec;
pub mod datagen_columns;
pub mod datagen_decode;
pub mod datagen_event;
pub mod datagen_laws;
pub mod datagen_store;
pub mod error;
pub mod fusion;
pub mod generic_store;
pub mod listing;
pub mod merge;
pub mod merge_commit;
pub mod metric;
pub mod number;
pub mod order;
pub mod outside;
pub mod patch;
pub mod point_read;
pub mod projection;
pub mod read;
pub mod record;
pub mod retrieve;
pub mod rollout_codec;
pub mod rollout_columns;
pub mod rollout_decode;
pub mod rollout_filter;
pub mod rollout_laws;
pub mod rollout_page;
pub mod rollout_record;
pub mod rollout_sql;
pub mod rollout_store;
pub mod schema;
pub mod shard;
pub mod sql;
pub mod storage;
pub mod text;
pub mod write_laws;
pub mod writes;
