# chain_datasets

Bookkeeping for per-block and per-day Bitcoin chain datasets, written in
Verus and proved against its contracts.

- `src/` is the verified library: cohort filters and cohort tables,
  height- and date-indexed maps, the state that decides which datasets
  still need a block or a day, the order in which a cohort inserts its
  data, the selection of the datasets to insert into and export, and the
  integer parts of the statistics (supply, UTXO counts, percentile prices,
  supply in profit, rewards).
- `tests/` runs the library on concrete values.
- `app/` holds what is not verified: file formats on disk, the
  floating-point statistics, and the glue that feeds the library.
