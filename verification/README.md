# updater

Updates a WooCommerce shop from uploaded CSV files. A worker takes upload
requests off a RabbitMQ queue, reads the rows the request asks for, groups
them into product families (a parent and its variations), and creates or
updates each product through the shop's REST API, keeping progress and a
cache in Redis.

## Layout

- `src/` — the library, verified with Verus:
  - `text`, `number`: text and number helpers with exact specifications;
  - `helper`: cell cleaning and SHA-256 fingerprints;
  - `str_map`: the insertion-ordered map used wherever text keys are looked up;
  - `field_mapping`: how CSV columns map onto product properties and attributes;
  - `woocommerce`, `builder`: products and variations, how they are built
    from a row, merged, validated and compared;
  - `csv_table`: reading a file's bytes into its header and records (through
    the `csv` crate) and grouping the rows a request asks for;
  - `grouping`, `batcher`, `family`, `processor`: grouping rows into families,
    batching, and the decisions taken while products are sent to the shop;
  - `processing_result`, `progress`, `status`, `worker`: what is recorded of a
    run, the progress stages, stored statuses and the request message.
- `app/` — the worker around the library: queue, HTTP, Redis, reading files, JSON,
  and the floating-point percentages.
- `tests/` — tests of the library on concrete values.
