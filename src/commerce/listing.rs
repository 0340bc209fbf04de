use vstd::prelude::*;

verus! {

/// An amount of a CW20 token, named by the token contract's address.
#[derive(Debug, Clone, PartialEq, Eq)]
pub struct TokenAmount {
    pub address: String,
    pub amount: u128,
}

/// A sellable catalog entry.
#[derive(Debug, Clone, PartialEq, Eq)]
pub struct Listing {
    pub id: u64,
    pub active: bool,
    pub price: TokenAmount,
    pub attributes: Attributes,
    pub options: Vec<ListingOption>,
}

#[derive(Debug, Clone, PartialEq, Eq)]
pub struct Attributes {
    pub name: String,
    pub description: Option<String>,
    pub images: Vec<String>,
}

/// A priced variant group of a listing (a size, a colour).
#[derive(Debug, Clone, PartialEq, Eq)]
pub struct ListingOption {
    pub id: u64,
    pub name: String,
    pub description: Option<String>,
    pub options: Vec<ListingOptionItem>,
}

/// One choice within a listing option, with an optional surcharge.
#[derive(Debug, Clone, PartialEq, Eq)]
pub struct ListingOptionItem {
    pub name: String,
    pub cost: Option<TokenAmount>,
}

impl ListingOption {
    pub fn new(id: u64, name: &str, description: Option<&str>, options: Vec<ListingOptionItem>) -> (r:
        ListingOption)
        ensures
            r.id == id,
            r.name@ == name@,
            r.description.is_some() == description.is_some(),
            description.is_some() ==> r.description.unwrap()@ == description.unwrap()@,
            r.options == options,
    {
        let description = match description {
            Some(d) => Some(d.to_string()),
            None => None,
        };
        ListingOption { id, name: name.to_string(), description, options }
    }
}

impl ListingOptionItem {
    pub fn new(name: &str, cost: Option<u128>, denom: String) -> (r: ListingOptionItem)
        ensures
            r.name@ == name@,
            r.cost.is_some() == cost.is_some(),
            cost.is_some() ==> r.cost.unwrap() == (TokenAmount { address: denom, amount: cost.unwrap() }),
    {
        let cost = match cost {
            Some(amount) => Some(TokenAmount { address: denom, amount }),
            None => None,
        };
        ListingOptionItem { name: name.to_string(), cost }
    }
}

} // verus!
