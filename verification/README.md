# markcollab_backend_filesystem

The file-tree service of a collaborative editor: folders and files addressed
by dotted paths, per-user permissions that flow down the tree, public access
levels, and the access decisions taken before every request.

- `src/` is the library, verified with Verus: identifiers and paths
  (`ids`, `paths`, `order`), records (`models`), errors (`error`), the
  in-memory repository (`repo`), access decisions (`access`), what the
  request handlers decide and build (`handlers`), and properties that hold
  across operations (`laws`).
- `app/` is the HTTP server around it (axum, PostgreSQL through sqlx, S3
  through OpenDAL, the collaboration service through reqwest).
- `tests/` runs the library on concrete values.
