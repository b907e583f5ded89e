//! Memory-introspection core of a type-1 hypervisor.
//!
//! A hook hides a patch inside a guest by keeping two extended-page-table (EPT)
//! hierarchies for the same guest-physical memory: the primary view maps the
//! original page as readable and writable, the secondary view maps the patched
//! page as execute-only. Every EPT violation is resolved by switching the active
//! view; an EPT misconfiguration is fatal.
//!
//! The crate holds the decisions and the data they are taken on. It touches no
//! hardware: the operations a handler wants performed are queued on the [`vm::Vm`]
//! and carried out by the caller before the guest resumes.

pub mod ept;
pub mod error;
pub mod hooks;
pub mod pattern;
pub mod ssdt_find;
pub mod vm;
pub mod vmcs;
pub mod vmerror;
pub mod vmexit;
