//! Listings of the grid's objects, which arrive page by page.

use vstd::prelude::*;
use crate::contract::{NameContract, NodeContract, RentContract};

verus! {

/// Amount of items to fetch when iterating on graphql.
pub const PAGE_SIZE: usize = 1000;

/// A collection of different types of contracts.
#[derive(Debug, PartialEq, Eq)]
pub struct Contracts {
    /// List of node contracts.
    pub node_contracts: Vec<NodeContract>,
    /// List of name contracts.
    pub name_contracts: Vec<NameContract>,
    /// List of rent contracts.
    pub rent_contracts: Vec<RentContract>,
}

/// The greatest of three numbers.
pub open spec fn max3(a: int, b: int, c: int) -> int {
    if a >= b && a >= c {
        a
    } else if b >= c {
        b
    } else {
        c
    }
}

impl Contracts {
    /// A collection without contracts.
    pub fn new() -> (contracts: Contracts)
        ensures
            contracts.node_contracts@.len() == 0,
            contracts.name_contracts@.len() == 0,
            contracts.rent_contracts@.len() == 0,
    {
        Contracts { node_contracts: Vec::new(), name_contracts: Vec::new(), rent_contracts: Vec::new() }
    }

    /// The length of the longest of the three lists. Of a page of
    /// contracts, this is the number of objects found.
    pub fn longest_list(&self) -> (found: usize)
        ensures
            found == max3(
                self.node_contracts@.len() as int,
                self.name_contracts@.len() as int,
                self.rent_contracts@.len() as int,
            ),
    {
        let nodes: usize = self.node_contracts.len();
        let names: usize = self.name_contracts.len();
        let rents: usize = self.rent_contracts.len();
        if nodes >= names && nodes >= rents {
            nodes
        } else if names >= rents {
            names
        } else {
            rents
        }
    }

    /// Moves the contracts of `page` to the end of the lists of their kind,
    /// and leaves `page` without contracts.
    pub fn append(&mut self, page: &mut Contracts)
        ensures
            final(self).node_contracts@ == old(self).node_contracts@ + old(page).node_contracts@,
            final(self).name_contracts@ == old(self).name_contracts@ + old(page).name_contracts@,
            final(self).rent_contracts@ == old(self).rent_contracts@ + old(page).rent_contracts@,
            final(page).node_contracts@.len() == 0,
            final(page).name_contracts@.len() == 0,
            final(page).rent_contracts@.len() == 0,
    {
        self.node_contracts.append(&mut page.node_contracts);
        self.name_contracts.append(&mut page.name_contracts);
        self.rent_contracts.append(&mut page.rent_contracts);
    }
}

/// What follows on a page of a listing: the page at `offset` held `found`
/// objects. A full page is followed by the page at the offset after its
/// objects; a page that is not full is the last.
pub fn next_page(offset: usize, found: usize) -> (next: Option<usize>)
    requires
        offset + found <= usize::MAX,
    ensures
        next == if found == PAGE_SIZE {
            Some((offset + found) as usize)
        } else {
            None
        },
{
    if found == PAGE_SIZE {
        Some(offset + found)
    } else {
        None
    }
}

} // verus!
