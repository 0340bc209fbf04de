use vstd::prelude::*;

use crate::commerce::listing::Listing;

verus! {

/// Settings of the catalog and ledger.
#[derive(Debug, Clone, PartialEq, Eq)]
pub struct Config {
    /// Address of the CW20 token that is the settlement token of the site.
    pub denom: String,
    /// Address to which surplus funds held by the ledger are withdrawn.
    pub withdrawal_address: String,
    /// Address of the paired trust registry.
    pub trust_contract: String,
}

/// Presentation data of the site.
#[derive(Debug, Clone, PartialEq, Eq)]
pub struct Marketing {
    /// Name of the site.
    pub name: String,
    /// Copyright line, such as "Josef's Store 2022".
    pub copyright: Option<String>,
    /// URL of a hosted logo.
    pub logo: Option<String>,
    /// Listings shown at the top of the site.
    pub featured_listings: Vec<Listing>,
    pub socials: Vec<Social>,
}

#[derive(Debug, Clone, PartialEq, Eq)]
pub struct Social {
    pub network: Network,
    pub url: String,
}

#[derive(Debug, PartialEq, Eq, Clone, Copy, Structural)]
pub enum Network {
    Twitter,
    Facebook,
    GitHub,
    LinkedIn,
    Instagram,
    YouTube,
    Reddit,
    Medium,
    Discord,
    TikTok,
    Twitch,
}

} // verus!
