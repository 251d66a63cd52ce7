//! Normalisation of infrastructure-provider configuration schemas into a typed
//! contract tree.
//!
//! The stages run in this order:
//! - [`terraform`]: the raw schema a provider publishes;
//! - [`projection`]: raw attributes and blocks become [`intermediate`] attributes,
//!   with optionality and interpolation read off the raw flags;
//! - [`augment`] and [`schema`]: meta-arguments are added and the merged schema
//!   with its `resource`, `data` and `provider` blocks is put together;
//! - [`resolve`]: computed-field descriptors are anchored on the dictionaries
//!   they describe;
//! - [`split`]: the merged schema is split into the maps of one provider and a
//!   core schema.
//!
//! Field maps are entry sequences ([`fields`]) whose meaning is a map from
//! names, so every contract is stated over that map.

pub mod augment;
pub mod fields;
pub mod intermediate;
pub mod projection;
pub mod providers;
pub mod resolve;
pub mod schema;
pub mod split;
pub mod terraform;
