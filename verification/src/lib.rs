//! Validation and planning logic for KSeF FA(3) invoices built from a JSON descriptor.

pub mod text;
pub mod decimal;
pub mod model;
pub mod validation;
pub mod exchange;
pub mod invoice;
pub mod fa3;
pub mod validation_laws;
