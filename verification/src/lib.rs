//! A value bridge between a dynamically-typed host runtime and an embedded,
//! sandboxed script evaluator (the guest).
//!
//! The crate models both object worlds as plain data, converts values in both
//! directions, gives the decision rules by which an opaque host object is made
//! to behave as a guest value, and builds the immutable namespaces that guest
//! scripts evaluate against.

mod adapter;
mod builder;
mod convert;
mod errors;
mod extension;
mod laws;
mod namespace;
mod value;

pub use convert::{g2h, g2h_seq, guest_to_host, h2g, h2g_seq, host_to_guest};
pub use convert::{lemma_foreign_identity, lemma_round_trip, lemma_round_trip_seq};
pub use adapter::{ForeignAdapter, GuestNamedArg, GuestOrdering, HostNamedArg, PreparedCall};
pub use adapter::{g2h_named, guest_named_seq, host_named_seq, named_args_view, positions_view};
pub use adapter::{named_unpack_prefix, positional_unpack_prefix};
pub use adapter::{spec_attr_exists, spec_attr_read, spec_attr_write, spec_call_result, spec_hash,
    spec_length, spec_ordering, spec_prepare, spec_truthiness, spec_verdict};
pub use adapter::{lemma_attr_access_asymmetry, lemma_hash_equality_consistency};
pub use builder::{BuilderError, BuilderModel, NamespaceBuilder, ScopeModel};
pub use builder::{initial_model, spec_abort, spec_begin, spec_bind, spec_build, spec_end,
    spec_set, spec_set_docstring};
pub use errors::{AdapterOp, GuestErr, GuestError, HostError};
pub use extension::{collect_extensions, lemma_code_injective, LibraryExtension};
pub use laws::{after_begin, after_commit, after_inner_set, child_token};
pub use laws::{lemma_bind_lookup, lemma_bind_lookup_other, lemma_builder_one_shot,
    lemma_last_write_wins, lemma_nested_scope_isolation};
pub use namespace::{Binding, ItemsIter, Namespace, NamespaceModel, NamespaceValue, NamesIter,
    NsVal};
pub use namespace::{bindings_of, describe_of, index_of_name, lookup, ns_val_of};
pub use namespace::{lemma_bindings_of_props, lemma_index_of_name_determined,
    lemma_index_of_name_props};
pub use value::{GuestVal, GuestValue, HostVal, HostValue};
pub use value::copy_guest_value;
pub use value::{guest_seq_of, guest_val_of, host_seq_of, host_val_of};
