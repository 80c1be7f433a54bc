# extenddb_query

Verified planning for the PostgreSQL storage engine of a DynamoDB-compatible service.

- `src/expression_keys.rs`: checks the keys of `ExpressionAttributeNames` / `ExpressionAttributeValues` maps.
- `src/keyset.rs`: keyset pagination fragment and `ORDER BY` clause of a `Query`, and the law that they agree.
- `src/sort_keys.rs`: extra RANGE-key equality conditions.
- `src/query_plan.rs`, `src/start_key.rs`: the SQL of a `Query` and the start-key values bound for pagination.
- `src/scan_plan.rs`: the SQL of a `Scan`.
- `src/page.rs`: cutting fetched rows to a page.
- `src/decimal.rs`, `src/text.rs`, `src/schema.rs`: number rendering, joining, key layout.
- `app/`: serde deserializers and the engine glue that runs the planned SQL.
