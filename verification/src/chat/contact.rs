//! An address-book entry: a peer's public key, a display name, and the
//! colour the conversation view paints the name in.

use vstd::prelude::*;

verus! {

/// A display colour, one byte per channel.
#[derive(Clone, Copy, PartialEq, Eq, Structural, Debug)]
pub struct Rgb {
    pub r: u8,
    pub g: u8,
    pub b: u8,
}

/// The mathematical shape of an address-book entry.
#[verifier::ext_equal]
pub struct ContactModel {
    pub public_key: Seq<char>,
    pub name: Seq<char>,
    pub color: Rgb,
}

/// An address-book entry, keyed by the peer's public key.
pub struct Contact {
    pub public_key: String,
    pub name: String,
    pub color: Rgb,
}

impl View for Contact {
    type V = ContactModel;

    open spec fn view(&self) -> ContactModel {
        ContactModel { public_key: self.public_key@, name: self.name@, color: self.color }
    }
}

impl DeepView for Contact {
    type V = ContactModel;

    open spec fn deep_view(&self) -> ContactModel {
        self.view()
    }
}

impl Default for Contact {
    /// An empty entry painted black.
    fn default() -> (r: Self)
        ensures
            r@.public_key.len() == 0,
            r@.name.len() == 0,
            r@.color == (Rgb { r: 0, g: 0, b: 0 }),
    {
        Contact { public_key: String::new(), name: String::new(), color: Rgb { r: 0, g: 0, b: 0 } }
    }
}

} // verus!
