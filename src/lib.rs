//! Core library of an air-gapped signing appliance: the signing descriptor and
//! its binary encoding, payload extraction, hashing and signing, rendering of
//! interpreter output, the guest sandbox boundary, the secure element model
//! and the decisions of the signing flow.
pub mod codec;
pub mod crypto;
pub mod display;
pub mod echo;
pub mod flow;
pub mod hal;
pub mod keystore;
pub mod pack;
pub mod sandbox;
pub mod secure_element;
pub mod spec;
pub mod text;
