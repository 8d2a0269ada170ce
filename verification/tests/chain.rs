//! The chain-specification surface: environment constants, account-id
//! derivation and sealing modes.

use verification::chain_spec::Account;
use verification::chain_spec::ParachainMainnetRuntime;
use verification::chain_spec::ParachainRuntime;
use verification::chain_spec::ParachainTestnetRuntime;
use verification::chain_spec::CustomChainSpecProperties;
use verification::chain_spec::Dev;
use verification::chain_spec::Extensions;
use verification::chain_spec::Local;
use verification::chain_spec::NodeChainSpec;
use verification::chain_spec::Sealing;
use verification::chain_spec::BGLT;

#[test]
fn test_dev_chain_constants() {
    assert_eq!(<NodeChainSpec<Dev>>::token_symbol(), "BGLT");
    assert_eq!(<NodeChainSpec<Dev>>::token_decimals(), 18);
    assert_eq!(<NodeChainSpec<Dev>>::evm_chain_id(), 6024);
    assert_eq!(<NodeChainSpec<Dev>>::initial_balance(), 1_000_000 * BGLT);
    assert_eq!(<NodeChainSpec<Dev>>::chain_name(), "ID chain development");
    assert_eq!(<NodeChainSpec<Dev>>::chain_identifier(), "dev");
}

#[test]
fn test_local_chain_constants() {
    assert_eq!(<NodeChainSpec<Local>>::token_symbol(), "BGLT");
    assert_eq!(<NodeChainSpec<Local>>::token_decimals(), 18);
    assert_eq!(<NodeChainSpec<Local>>::evm_chain_id(), 6025);
    assert_eq!(<NodeChainSpec<Local>>::initial_balance(), 1_000_000 * BGLT);
    assert_eq!(<NodeChainSpec<Local>>::chain_name(), "ID chain local");
    assert_eq!(<NodeChainSpec<Local>>::chain_identifier(), "local");
}

#[test]
fn test_to_account_id_from_ecdsa_truncates() {
    let mut public = [0u8; 33];
    let mut i = 0usize;
    while i < 33 {
        public[i] = i as u8;
        i += 1;
    }
    let id = Account::to_account_id_from_ecdsa(&public);
    let mut expected = [0u8; 20];
    let mut j = 0usize;
    while j < 20 {
        expected[j] = j as u8;
        j += 1;
    }
    assert_eq!(id, expected);
}

#[test]
fn test_chain_identifier_classification() {
    assert!(matches!(
        ParachainRuntime::from_str("dev"),
        Ok(ParachainRuntime::ParachainTestnet(ParachainTestnetRuntime::Dev))
    ));
    assert!(matches!(
        ParachainRuntime::from_str("parachain-testnet-dev"),
        Ok(ParachainRuntime::ParachainTestnet(ParachainTestnetRuntime::Dev))
    ));
    assert!(matches!(
        ParachainRuntime::from_str("parachain-testnet-new"),
        Ok(ParachainRuntime::ParachainTestnet(ParachainTestnetRuntime::New))
    ));
    assert!(matches!(
        ParachainRuntime::from_str("parachain-testnet"),
        Ok(ParachainRuntime::ParachainTestnet(
            ParachainTestnetRuntime::ParachainTestnet
        ))
    ));
    assert!(matches!(
        ParachainRuntime::from_str("parachain-testnet-stg"),
        Ok(ParachainRuntime::ParachainTestnet(
            ParachainTestnetRuntime::ParachainTestnetStg
        ))
    ));
    assert!(matches!(
        ParachainRuntime::from_str("standalone"),
        Ok(ParachainRuntime::ParachainTestnet(
            ParachainTestnetRuntime::Standalone
        ))
    ));
    assert!(matches!(
        ParachainRuntime::from_str("standalone-new"),
        Ok(ParachainRuntime::ParachainTestnet(
            ParachainTestnetRuntime::StandaloneNew
        ))
    ));
    assert!(matches!(
        ParachainRuntime::from_str("parachain-mainnet-dev"),
        Ok(ParachainRuntime::ParachainMainnet(ParachainMainnetRuntime::Dev))
    ));
    assert!(matches!(
        ParachainRuntime::from_str("parachain-mainnet-new"),
        Ok(ParachainRuntime::ParachainMainnet(ParachainMainnetRuntime::New))
    ));
    assert!(matches!(
        ParachainRuntime::from_str("parachain-mainnet"),
        Ok(ParachainRuntime::ParachainMainnet(
            ParachainMainnetRuntime::ParachainMainnet
        ))
    ));
}

#[test]
fn test_chain_identifier_fallbacks() {
    match ParachainRuntime::from_str("my-parachain-testnet-fork.json") {
        Ok(ParachainRuntime::ParachainTestnet(ParachainTestnetRuntime::Other(p))) => {
            assert_eq!(p, "my-parachain-testnet-fork.json");
        }
        _ => panic!("expected a testnet path"),
    }
    match ParachainRuntime::from_str("my-parachain-mainnet-fork.json") {
        Ok(ParachainRuntime::ParachainMainnet(ParachainMainnetRuntime::Other(p))) => {
            assert_eq!(p, "my-parachain-mainnet-fork.json");
        }
        _ => panic!("expected a mainnet path"),
    }
    match ParachainRuntime::from_str("some/spec.json") {
        Ok(ParachainRuntime::ParachainTestnet(ParachainTestnetRuntime::Other(p))) => {
            assert_eq!(p, "some/spec.json");
        }
        _ => panic!("expected the testnet fallback"),
    }
}

#[test]
fn test_runtime_labels() {
    assert_eq!(ParachainTestnetRuntime::Dev.label(), "dev");
    assert_eq!(
        ParachainTestnetRuntime::ParachainTestnet.label(),
        "parachain-testnet"
    );
    assert_eq!(
        ParachainTestnetRuntime::ParachainTestnetStg.label(),
        "parachain-testnet-stg"
    );
    assert_eq!(ParachainTestnetRuntime::New.label(), "new");
    assert_eq!(ParachainTestnetRuntime::Standalone.label(), "standalone");
    assert_eq!(
        ParachainTestnetRuntime::StandaloneNew.label(),
        "standalone-new"
    );
    assert_eq!(
        ParachainTestnetRuntime::Other(String::from("x.json")).label(),
        "other -> x.json"
    );
    assert_eq!(ParachainMainnetRuntime::Dev.label(), "dev");
    assert_eq!(
        ParachainMainnetRuntime::ParachainMainnet.label(),
        "parachain-mainnet"
    );
    assert_eq!(ParachainMainnetRuntime::New.label(), "new");
    assert_eq!(
        ParachainMainnetRuntime::Other(String::from("y.json")).label(),
        "other -> y.json"
    );
    assert_eq!(
        ParachainRuntime::ParachainTestnet(ParachainTestnetRuntime::Dev).label(),
        "parachain-testnet (dev)"
    );
    assert_eq!(
        ParachainRuntime::ParachainMainnet(ParachainMainnetRuntime::Other(String::from(
            "spec.json"
        )))
        .label(),
        "parachain-mainnet (other -> spec.json)"
    );
}

#[test]
fn test_sealing_default_is_manual() {
    assert_eq!(Sealing::default(), Sealing::Manual);
    assert_ne!(Sealing::Manual, Sealing::Instant);
}

#[test]
fn test_extensions_fields() {
    let ext = Extensions { relay_chain: String::from("rococo_local"), para_id: 2_086 };
    let copy = ext.clone();
    assert_eq!(ext, copy);
    assert_eq!(copy.relay_chain, "rococo_local");
    assert_eq!(copy.para_id, 2_086);
}
