use tfgrid_graphql::contract::{ContractState, NameContract, NodeContract, RentContract, Resources};
use tfgrid_graphql::graphql::{next_page, Contracts, PAGE_SIZE};

fn node_contract(contract_id: u64) -> NodeContract {
    NodeContract {
        contract_id,
        created_at: 1663850262,
        deployment_data: String::from("data"),
        deployment_hash: String::from("hash"),
        node_id: 4200,
        number_of_public_ips: 1,
        resources_used: Some(Resources { cru: 1, hru: 2, mru: 3, sru: 4 }),
        solution_provider_id: None,
        state: ContractState::Created,
        twin_id: 7,
    }
}

fn name_contract(contract_id: u64) -> NameContract {
    NameContract {
        contract_id,
        created_at: 1663850262,
        solution_provider_id: Some(1),
        state: ContractState::GracePeriod,
        twin_id: 7,
        name: String::from("name"),
    }
}

fn rent_contract(contract_id: u64) -> RentContract {
    RentContract {
        contract_id,
        created_at: 1663850262,
        node_id: 4200,
        solution_provider_id: None,
        state: ContractState::OutOfFunds,
        twin_id: 7,
    }
}

fn page(nodes: u64, names: u64, rents: u64) -> Contracts {
    Contracts {
        node_contracts: (0..nodes).map(node_contract).collect(),
        name_contracts: (0..names).map(name_contract).collect(),
        rent_contracts: (0..rents).map(rent_contract).collect(),
    }
}

#[test]
fn contract_states_have_labels() {
    assert_eq!(ContractState::Created.label(), "Created");
    assert_eq!(ContractState::GracePeriod.label(), "Grace Period");
    assert_eq!(ContractState::OutOfFunds.label(), "Out of Funds");
    assert_eq!(ContractState::Deleted.label(), "Deleted");
}

#[test]
fn new_collection_has_no_contracts() {
    let contracts = Contracts::new();
    assert_eq!(contracts, page(0, 0, 0));
    assert_eq!(contracts.longest_list(), 0);
}

#[test]
fn longest_list_of_a_page() {
    assert_eq!(page(3, 2, 1).longest_list(), 3);
    assert_eq!(page(2, 3, 1).longest_list(), 3);
    assert_eq!(page(1, 2, 3).longest_list(), 3);
    assert_eq!(page(2, 2, 2).longest_list(), 2);
    assert_eq!(page(0, 0, 1).longest_list(), 1);
}

#[test]
fn pages_are_appended() {
    let mut contracts = page(2, 1, 0);
    let mut next = Contracts {
        node_contracts: vec![node_contract(10)],
        name_contracts: vec![name_contract(11), name_contract(12)],
        rent_contracts: vec![rent_contract(13)],
    };
    contracts.append(&mut next);
    assert_eq!(next, page(0, 0, 0));
    assert_eq!(
        contracts,
        Contracts {
            node_contracts: vec![node_contract(0), node_contract(1), node_contract(10)],
            name_contracts: vec![name_contract(0), name_contract(11), name_contract(12)],
            rent_contracts: vec![rent_contract(13)],
        }
    );
}

#[test]
fn full_page_is_followed_by_another() {
    assert_eq!(PAGE_SIZE, 1000);
    assert_eq!(next_page(0, 1000), Some(1000));
    assert_eq!(next_page(1000, 1000), Some(2000));
    assert_eq!(next_page(5, 1000), Some(1005));
}

#[test]
fn page_that_is_not_full_is_the_last() {
    assert_eq!(next_page(0, 0), None);
    assert_eq!(next_page(0, 999), None);
    assert_eq!(next_page(3000, 223), None);
    assert_eq!(next_page(0, 1001), None);
}

#[test]
fn listing_ends_with_the_first_page_that_is_not_full() {
    let pages = [1000usize, 1000, 1000, 17, 1000];
    let mut offset = 0;
    let mut fetched = 0;
    for found in pages {
        fetched += 1;
        match next_page(offset, found) {
            Some(next) => offset = next,
            None => break,
        }
    }
    assert_eq!(fetched, 4);
    assert_eq!(offset, 3000);
}
