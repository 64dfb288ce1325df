//! Cluster, node and pod information for a Kubernetes dashboard, with the
//! logic that assembles it from raw cluster listings, lays it out as a
//! spreadsheet report, and decides what the websocket server sends.

pub mod string_map;
pub mod model;
pub mod text;
pub mod cluster_data;
pub mod dummy_data;
pub mod xlsx;
pub mod excel;
pub mod handlers;
pub mod oidc;
