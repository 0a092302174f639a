//! Finding the network card.
use vstd::prelude::*;

verus! {

/// Detection does nothing here: the card is taken to be the fourth PCI device.
pub fn detect_network_device() {
}

} // verus!
