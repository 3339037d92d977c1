//! The narrow hardware interface the signing flow runs against.
use crate::display::DisplayLine;
use vstd::prelude::*;

verus! {

/// Failures reported by hardware or by the secure element.
#[derive(Debug)]
pub enum HalError {
    Display(String),
    Button(String),
    Usb(String),
    Storage(String),
}

/// User button action.
#[derive(Debug, Clone, Copy, PartialEq, Eq, Structural)]
pub enum ButtonEvent {
    Confirm,
    Reject,
    Up,
    Down,
}

/// The three files of a signing medium.
pub struct UsbContents {
    pub payload: Vec<u8>,
    pub interpreter_wasm: Vec<u8>,
    pub signing_spec_cbor: Vec<u8>,
}

/// Display output.
pub trait Display {
    fn clear(&mut self) -> Result<(), HalError>;

    fn show_message(&mut self, text: &str) -> Result<(), HalError>;

    fn show_lines(&mut self, lines: &[DisplayLine], scroll_offset: usize) -> Result<(), HalError>;
}

/// Button input.
pub trait Buttons {
    fn wait_event(&mut self) -> Result<ButtonEvent, HalError>;
}

/// USB mass storage mount and unmount.
pub trait UsbMount {
    fn wait_insert(&mut self) -> Result<(), HalError>;

    fn mount_readonly(&mut self) -> Result<(), HalError>;

    fn read_contents(&self) -> Result<UsbContents, HalError>;

    fn write_output(&mut self, data: &[u8]) -> Result<(), HalError>;

    /// Reads a named file; `None` where it does not exist.
    fn read_file(&self, name: &str) -> Result<Option<Vec<u8>>, HalError>;

    /// Writes a named file.
    fn write_file(&mut self, name: &str, data: &[u8]) -> Result<(), HalError>;

    fn unmount(&mut self) -> Result<(), HalError>;
}

/// Hardware secure element: keys are generated and kept inside it, PIN
/// verification gates their use.
pub trait SecureElement {
    /// Sets the initial PIN during first-time setup.
    fn set_pin(&mut self, pin: &[u8]) -> Result<(), HalError>;

    /// Verifies the user PIN, opening the session on success.
    fn verify_pin(&mut self, pin: &[u8]) -> Result<(), HalError>;

    /// Whether a PIN has been set.
    fn is_provisioned(&self) -> bool;

    /// Generates a key in `slot` and returns its public key.
    fn generate_key(&mut self, slot: u8) -> Result<Vec<u8>, HalError>;

    /// Signs `hash` with the key in `slot`; requires a verified session.
    fn sign(&mut self, slot: u8, hash: &[u8]) -> Result<Vec<u8>, HalError>;

    /// The public key of `slot`.
    fn public_key(&self, slot: u8) -> Result<Vec<u8>, HalError>;

    /// Imports a seed into `slot` and returns its public key.
    fn import_key(&mut self, slot: u8, seed: &[u8]) -> Result<Vec<u8>, HalError>;

    /// The seed of `slot`, for backup during provisioning.
    fn export_seed(&self, slot: u8) -> Result<Vec<u8>, HalError>;
}

} // verus!
