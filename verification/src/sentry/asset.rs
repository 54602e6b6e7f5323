//! Assets that a channel's deposit may be held in.

use vstd::prelude::*;
use vstd::std_specs::convert::FromSpecImpl;
use vstd::string::*;

verus! {

/// The name of an asset.
#[derive(Debug)]
pub struct Asset(pub String);

impl View for Asset {
    type V = Seq<char>;

    open spec fn view(&self) -> Seq<char> {
        self.0@
    }
}

impl Asset {
    /// The asset named `name`.
    pub fn new(name: &str) -> (r: Asset)
        ensures
            r@ == name@,
    {
        Asset(String::from_str(name))
    }

    /// The name of the asset.
    pub fn name(&self) -> (r: &String)
        ensures
            r@ == self@,
    {
        &self.0
    }
}

impl Clone for Asset {
    fn clone(&self) -> (r: Asset)
        ensures
            r@ == self@,
    {
        Asset(self.0.clone())
    }
}

impl From<String> for Asset {
    fn from(asset: String) -> (r: Asset) {
        Asset(asset)
    }
}

impl FromSpecImpl<String> for Asset {
    open spec fn obeys_from_spec() -> bool {
        true
    }

    open spec fn from_spec(asset: String) -> Asset {
        Asset(asset)
    }
}

} // verus!
