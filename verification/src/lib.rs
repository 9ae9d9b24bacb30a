//! Selector invalidation planning, declaration block editing and root
//! font-relative state for an embedder that owns its own document tree.

pub mod device;
pub mod lightmount_declaration_block;
pub mod lightmount_invalidation;
