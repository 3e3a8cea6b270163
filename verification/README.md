# iceberg-register

Registers existing Parquet files with a table of an Iceberg REST catalog.

- `src/` is the verified library.
  - `text`: splitting, joining, lines and trimming.
  - `table_id`: dotted table identifiers.
  - `paths`: the list of paths, one per line.
  - `options`, `props`: the settings and the catalog properties they ask for.
  - `report`: the lines that are printed.
  - `registration`: which step follows which, and what a failure says.
- `app/` is the program: the command line, and the steps that touch files, the
  catalog and the table. It needs an `iceberg` crate in which
  `ParquetWriter::parquet_files_to_data_files` is public.
- `tests/` runs the library.
