use vstd::prelude::*;

verus! {

/// A service provider that is reached through the tunnel.
#[derive(Debug, PartialEq, Eq)]
pub struct ServiceProvider {
    pub url: String,
}

impl ServiceProvider {
    /// The provider at a URL.
    pub fn new(url: String) -> (provider: ServiceProvider)
        ensures
            provider.url == url,
    {
        ServiceProvider { url }
    }
}

} // verus!
