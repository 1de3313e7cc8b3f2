use regtest_transfer::wallet::{
    after_create, after_listing, after_load, is_already_exists_error, is_wallet_loaded,
    ProvisionStep,
};

/// A daemon as far as provisioning sees it: which wallets are stored and
/// which of them are loaded.
struct Daemon {
    stored: Vec<String>,
    loaded: Vec<String>,
}

impl Daemon {
    fn create(&mut self, name: &str) -> Option<String> {
        if self.stored.iter().any(|w| w == name) {
            Some(format!("Wallet file verification failed. Failed to create database path '{name}'. Database already exists."))
        } else {
            self.stored.push(name.to_string());
            self.loaded.push(name.to_string());
            None
        }
    }

    fn load(&mut self, name: &str) -> bool {
        if self.loaded.iter().any(|w| w == name) {
            false
        } else {
            self.loaded.push(name.to_string());
            true
        }
    }

    fn ensure_wallet(&mut self, name: &str) -> ProvisionStep {
        let listing = Some(self.loaded.clone());
        let mut step = after_listing(is_wallet_loaded(&listing, name));
        loop {
            step = match step {
                ProvisionStep::CreateWallet => {
                    let err = self.create(name);
                    after_create(err.as_deref())
                }
                ProvisionStep::LoadWallet => {
                    let ok = self.load(name);
                    after_load(ok)
                }
                done => return done,
            };
        }
    }
}

#[test]
fn listed_wallet_is_found() {
    let ws = Some(vec!["Miner".to_string(), "Trader".to_string()]);
    assert!(is_wallet_loaded(&ws, "Trader"));
    assert!(is_wallet_loaded(&ws, "Miner"));
    assert!(!is_wallet_loaded(&ws, "miner"));
    assert!(!is_wallet_loaded(&Some(vec![]), "Miner"));
    assert!(!is_wallet_loaded(&None, "Miner"));
}

#[test]
fn exists_errors_are_recognised() {
    assert!(is_already_exists_error("Database already exists."));
    assert!(is_already_exists_error("Wallet \"Miner\" already exists."));
    assert!(!is_already_exists_error("Wallet file verification failed."));
    assert!(!is_already_exists_error("already exist"));
    assert!(!is_already_exists_error(""));
}

#[test]
fn step_functions() {
    assert_eq!(after_listing(true), ProvisionStep::Ready { created: false });
    assert_eq!(after_listing(false), ProvisionStep::CreateWallet);
    assert_eq!(after_create(None), ProvisionStep::Ready { created: true });
    assert_eq!(after_create(Some("Database already exists.")), ProvisionStep::LoadWallet);
    assert_eq!(after_create(Some("Insufficient permissions")), ProvisionStep::Failed);
    assert_eq!(after_load(true), ProvisionStep::Ready { created: false });
    assert_eq!(after_load(false), ProvisionStep::Ready { created: false });
}

#[test]
fn ensure_wallet_twice_in_a_row() {
    let mut d = Daemon { stored: vec![], loaded: vec![] };
    assert_eq!(d.ensure_wallet("Miner"), ProvisionStep::Ready { created: true });
    assert_eq!(d.ensure_wallet("Miner"), ProvisionStep::Ready { created: false });
}

#[test]
fn second_run_with_wallets_loaded() {
    let mut d = Daemon { stored: vec![], loaded: vec![] };
    assert_eq!(d.ensure_wallet("Miner"), ProvisionStep::Ready { created: true });
    assert_eq!(d.ensure_wallet("Trader"), ProvisionStep::Ready { created: true });
    assert_eq!(d.ensure_wallet("Miner"), ProvisionStep::Ready { created: false });
    assert_eq!(d.ensure_wallet("Trader"), ProvisionStep::Ready { created: false });
}

#[test]
fn stored_but_unloaded_wallet_is_loaded() {
    let mut d = Daemon { stored: vec!["Trader".to_string()], loaded: vec![] };
    assert_eq!(d.ensure_wallet("Trader"), ProvisionStep::Ready { created: false });
    assert_eq!(d.loaded, vec!["Trader".to_string()]);
}
