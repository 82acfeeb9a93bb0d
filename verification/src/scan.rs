//! USB identities of the devices found on the bus.
use vstd::prelude::*;
use crate::decimal::{decimal_digits, u16_to_decimal};

verus! {

/// Identity texts that a camera record or a USB device can report.
pub trait IdInformation {
    /// The USB vendor id, as text.
    fn g_vendor_id(&self) -> String;

    /// The USB product id, as text.
    fn g_product_id(&self) -> String;

    /// The device's name.
    fn g_name(&self) -> String;
}

/// The vendor and product id of one device on the USB bus.
#[derive(PartialEq, Eq, Structural, Clone, Copy, Debug)]
pub struct UsbLinkInfo {
    pub vendor_id: u16,
    pub product_id: u16,
}

impl UsbLinkInfo {
    pub fn new(vendor_id: u16, product_id: u16) -> (r: UsbLinkInfo)
        ensures
            r.vendor_id == vendor_id,
            r.product_id == product_id,
    {
        UsbLinkInfo { vendor_id, product_id }
    }
}

impl IdInformation for UsbLinkInfo {
    fn g_vendor_id(&self) -> (r: String)
        ensures
            r@ == decimal_digits(self.vendor_id as nat),
    {
        u16_to_decimal(self.vendor_id)
    }

    fn g_product_id(&self) -> (r: String)
        ensures
            r@ == decimal_digits(self.product_id as nat),
    {
        u16_to_decimal(self.product_id)
    }

    /// A bare USB link has no name: the empty text.
    fn g_name(&self) -> (r: String)
        ensures
            r@ == Seq::<char>::empty(),
    {
        String::new()
    }
}

} // verus!
