//! Wizard records with one attached image each: the record store, the
//! attachment manager, the error taxonomy and the response envelope.

pub mod directory;
pub mod image_name;
pub mod store_lemmas;
pub mod wizard;
pub mod wizard_api;
pub mod wizard_responses;
pub mod wizard_service;
