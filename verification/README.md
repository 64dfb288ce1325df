# k8s_node_server

A dashboard backend for Kubernetes clusters. It reads `~/.kube/config`,
refreshes the OIDC tokens of the configured users, lists the nodes and pods of
each cluster and pushes the result to browsers over a websocket every five
seconds. The library also lays out the report of a node as an xlsx workbook.

Layout:

- `src/` — the verified library (Verus):
  - `string_map.rs`: a string-to-string map kept in key order (labels, capacities).
  - `model.rs`: cluster, node, pod and container information and their views.
  - `cluster_data.rs`: assembling a cluster's information from node and pod listings.
  - `dummy_data.rs`: the sample clusters.
  - `xlsx.rs`: the calls into `rust_xlsxwriter`, with their contracts.
  - `excel.rs`: the node report, laid out as cells and written as a workbook.
  - `handlers.rs`: the websocket server's session bookkeeping, tick decisions and polling passes.
  - `oidc.rs`: which kubeconfig contexts get a token refresh, the refresh request and what its reply leads to.
  - `text.rs`: prefix, decimal and copy helpers.
- `app/` — the server program: Kubernetes API calls, HTTP and websocket actors,
  the token refresh over HTTP, serialization.
- `tests/` — tests of the library.
