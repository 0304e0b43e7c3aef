//! Verified core of a binary-cache presence prober.
//!
//! The library holds the logic of the prober: classifying HTTP probe
//! responses and driving the retry/backoff state machine, fanning a batch of
//! probes out and aggregating the outcomes, filtering resolved addresses by
//! address family and pinning an endpoint, building probe URLs, extracting
//! content hashes from store paths, and reading `nix.conf`-style
//! configuration text. All network, process and terminal work lives outside
//! the library and hands it plain values.

pub mod dispatch;
pub mod limits;
pub mod net;
pub mod nix;
pub mod nix_conf;
pub mod probe;
pub mod text;
