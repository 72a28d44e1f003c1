use multi_sig_wallet::address::Address;
use multi_sig_wallet::wallet::{ExecutionStep, MultiSigWallet};

const REQUIRED: u128 = 2;

fn create_owner(x: u8) -> Address {
    Address::new(x as u128)
}

fn wallet_address() -> Address {
    Address::new(100_001)
}

fn send_init(owners: &Vec<Address>) -> MultiSigWallet {
    let wallet = MultiSigWallet::new(wallet_address(), owners, REQUIRED)
        .expect("initialization must succeed");
    verify_owners(&wallet, owners);
    wallet
}

fn verify_owners(wallet: &MultiSigWallet, owners: &Vec<Address>) {
    assert!(wallet.get_owners() == *owners);
}

/// Proposes a transaction addressed to the wallet itself; with a
/// requirement above one the submitter's own confirmation cannot
/// complete the quorum.
fn submit_transaction(wallet: &mut MultiSigWallet, sender: Address, data: &[u8]) -> u128 {
    match wallet.submit_transaction(sender, wallet_address(), 0, data.to_vec()) {
        Ok((id, step)) => {
            assert!(matches!(step, ExecutionStep::NoOp));
            id
        }
        Err(e) => panic!("submit refused: {:?}", e),
    }
}

/// Confirms, and hands back the outbound call if the quorum is now met.
fn confirm_transaction(
    wallet: &mut MultiSigWallet,
    owner: Address,
    transaction_id: u128,
) -> Option<(Address, u128, Vec<u8>)> {
    match wallet.confirm_transaction(owner, transaction_id) {
        Ok(ExecutionStep::NoOp) => None,
        Ok(ExecutionStep::Call {
            destination,
            value,
            data,
        }) => Some((destination, value, data)),
        Err(e) => panic!("confirm refused: {:?}", e),
    }
}

fn add_owner(owners: &mut Vec<Address>, wallet: &mut MultiSigWallet) {
    let owner5 = create_owner(5u8);

    // before confirm
    let transaction_id = submit_transaction(wallet, owners[0], &[1]);
    assert!(1 == wallet.get_confirmation_count(transaction_id));
    assert!(!wallet.is_confirmed(transaction_id));
    let old_confirmations = wallet.get_confirmations(transaction_id);
    assert!(1 == old_confirmations.len());
    assert!(old_confirmations[0] == owners[0]);
    verify_owners(wallet, owners);
    assert!(0 == wallet.get_transaction_count(false, true));
    assert!(1 == wallet.get_transaction_count(true, false));
    assert!(1 == wallet.get_transaction_count(true, true));
    // confirm
    let call = confirm_transaction(wallet, owners[1], transaction_id);
    let executed = match call {
        None => false,
        Some((destination, value, _data)) => {
            assert!(destination == wallet_address());
            assert!(value == 0);
            wallet.add_owner(wallet_address(), owner5).unwrap();
            wallet.finish_execution(transaction_id, true).unwrap();
            true
        }
    };
    assert!(executed);

    // after confirm
    assert!(2 == wallet.get_confirmation_count(transaction_id));
    assert!(wallet.is_confirmed(transaction_id));
    let new_confirmations = wallet.get_confirmations(transaction_id);
    assert!(2 == new_confirmations.len());
    assert!(new_confirmations[0] == owners[0]);
    assert!(new_confirmations[1] == owners[1]);

    owners.push(owner5);
    verify_owners(wallet, owners);

    assert!(1 == wallet.get_transaction_count(false, true));
    assert!(0 == wallet.get_transaction_count(true, false));
    assert!(1 == wallet.get_transaction_count(true, true));
}

fn remove_owner(owners: &mut Vec<Address>, wallet: &mut MultiSigWallet) {
    let owner5 = *owners.last().unwrap();

    // before confirm
    let transaction_id = submit_transaction(wallet, owners[0], &[2]);
    assert!(1 == wallet.get_confirmation_count(transaction_id));
    assert!(!wallet.is_confirmed(transaction_id));
    let old_confirmations = wallet.get_confirmations(transaction_id);
    assert!(1 == old_confirmations.len());
    assert!(old_confirmations[0] == owners[0]);
    verify_owners(wallet, owners);
    assert!(1 == wallet.get_transaction_count(false, true));
    assert!(1 == wallet.get_transaction_count(true, false));
    assert!(2 == wallet.get_transaction_count(true, true));
    // confirm
    let call = confirm_transaction(wallet, owners[1], transaction_id);
    let executed = match call {
        None => false,
        Some((destination, _value, _data)) => {
            assert!(destination == wallet_address());
            wallet.remove_owner(wallet_address(), owner5).unwrap();
            wallet.finish_execution(transaction_id, true).unwrap();
            true
        }
    };
    assert!(executed);

    // after confirm
    assert!(2 == wallet.get_confirmation_count(transaction_id));
    assert!(wallet.is_confirmed(transaction_id));
    let new_confirmations = wallet.get_confirmations(transaction_id);
    assert!(2 == new_confirmations.len());
    assert!(new_confirmations[0] == owners[0]);
    assert!(new_confirmations[1] == owners[1]);

    owners.pop();
    verify_owners(wallet, owners);

    assert!(2 == wallet.get_transaction_count(false, true));
    assert!(0 == wallet.get_transaction_count(true, false));
    assert!(2 == wallet.get_transaction_count(true, true));
}

fn change_requirement(owners: &Vec<Address>, wallet: &mut MultiSigWallet) {
    // before confirm
    let transaction_id = submit_transaction(wallet, owners[0], &[3]);
    assert!(1 == wallet.get_confirmation_count(transaction_id));
    assert!(!wallet.is_confirmed(transaction_id));
    let old_confirmations = wallet.get_confirmations(transaction_id);
    assert!(1 == old_confirmations.len());
    assert!(old_confirmations[0] == owners[0]);
    verify_owners(wallet, owners);
    assert!(2 == wallet.get_transaction_count(false, true));
    assert!(1 == wallet.get_transaction_count(true, false));
    assert!(3 == wallet.get_transaction_count(true, true));
    // confirm
    let call = confirm_transaction(wallet, owners[1], transaction_id);
    let executed = match call {
        None => false,
        Some((destination, _value, _data)) => {
            assert!(destination == wallet_address());
            wallet
                .change_requirement(wallet_address(), REQUIRED + 1)
                .unwrap();
            wallet.finish_execution(transaction_id, true).unwrap();
            true
        }
    };
    assert!(executed);

    // after confirm
    assert!(2 == wallet.get_confirmation_count(transaction_id));
    // since required changed, should not be confirmed any more
    assert!(!wallet.is_confirmed(transaction_id));
    let new_confirmations = wallet.get_confirmations(transaction_id);
    assert!(2 == new_confirmations.len());
    assert!(new_confirmations[0] == owners[0]);
    assert!(new_confirmations[1] == owners[1]);

    assert!(3 == wallet.get_transaction_count(false, true));
    assert!(0 == wallet.get_transaction_count(true, false));
    assert!(3 == wallet.get_transaction_count(true, true));
}

fn replace_owner(owners: &mut Vec<Address>, wallet: &mut MultiSigWallet) {
    let owner6 = create_owner(6u8);

    // before confirm
    let transaction_id = submit_transaction(wallet, owners[0], &[4]);
    assert!(1 == wallet.get_confirmation_count(transaction_id));
    assert!(!wallet.is_confirmed(transaction_id));
    let old_confirmations = wallet.get_confirmations(transaction_id);
    assert!(1 == old_confirmations.len());
    assert!(old_confirmations[0] == owners[0]);
    verify_owners(wallet, owners);
    assert!(3 == wallet.get_transaction_count(false, true));
    assert!(1 == wallet.get_transaction_count(true, false));
    assert!(4 == wallet.get_transaction_count(true, true));
    // confirm
    let call = confirm_transaction(wallet, owners[1], transaction_id);
    assert!(call.is_none());

    // not enough confirmations
    assert!(2 == wallet.get_confirmation_count(transaction_id));
    assert!(!wallet.is_confirmed(transaction_id));
    let new_confirmations = wallet.get_confirmations(transaction_id);
    assert!(2 == new_confirmations.len());
    assert!(new_confirmations[0] == owners[0]);
    assert!(new_confirmations[1] == owners[1]);
    // 3 confirmations
    let call = confirm_transaction(wallet, owners[2], transaction_id);
    let executed = match call {
        None => false,
        Some((destination, _value, _data)) => {
            assert!(destination == wallet_address());
            wallet
                .replace_owner(wallet_address(), owners[3], owner6)
                .unwrap();
            wallet.finish_execution(transaction_id, true).unwrap();
            true
        }
    };
    assert!(executed);
    assert!(3 == wallet.get_confirmation_count(transaction_id));
    assert!(wallet.is_confirmed(transaction_id));
    let new_confirmations = wallet.get_confirmations(transaction_id);
    assert!(3 == new_confirmations.len());
    assert!(new_confirmations[0] == owners[0]);
    assert!(new_confirmations[1] == owners[1]);
    assert!(new_confirmations[2] == owners[2]);

    owners[3] = owner6;
    verify_owners(wallet, owners);

    assert!(4 == wallet.get_transaction_count(false, true));
    assert!(0 == wallet.get_transaction_count(true, false));
    assert!(4 == wallet.get_transaction_count(true, true));
}

#[test]
fn basics() {
    let mut owners = (1..5).map(create_owner).collect::<Vec<_>>();
    // init
    let mut wallet = send_init(&owners);
    // owner-set and requirement management, each through the quorum workflow
    add_owner(&mut owners, &mut wallet);
    remove_owner(&mut owners, &mut wallet);
    change_requirement(&owners, &mut wallet);
    replace_owner(&mut owners, &mut wallet);
}
