//! Static network tables: chain ID to display name, and chain ID to the
//! default Safe transaction pool contract address.

use vstd::prelude::*;

verus! {

/// Chain ID of Ethereum mainnet.
pub const MAINNET: u64 = 1;
/// Chain ID of the Goerli testnet.
pub const GOERLI: u64 = 5;
/// Chain ID of the Sepolia testnet.
pub const SEPOLIA: u64 = 11155111;
/// Chain ID of Polygon.
pub const POLYGON: u64 = 137;
/// Chain ID of Arbitrum.
pub const ARBITRUM: u64 = 42161;
/// Chain ID of Optimism.
pub const OPTIMISM: u64 = 10;
/// Chain ID of Base.
pub const BASE: u64 = 8453;
/// Chain ID of Gnosis Chain.
pub const GNOSIS: u64 = 100;

/// Default RPC endpoint for Ethereum mainnet.
pub const DEFAULT_MAINNET_RPC: &'static str = "https://eth-mainnet.g.alchemy.com/v2/demo";

/// Fallback Safe transaction pool address, used when the chain ID is not recognized.
pub const DEFAULT_SAFE_TX_POOL_ADDRESS: &'static str = "0x6b8e1f0D2c34A0AeaD9A25B6966f7C0CAD653E5c";

/// The display name of the network with the given chain ID.
pub open spec fn spec_network_name(chain_id: u64) -> Seq<char> {
    if chain_id == MAINNET {
        "Ethereum Mainnet"@
    } else if chain_id == GOERLI {
        "Goerli Testnet"@
    } else if chain_id == SEPOLIA {
        "Sepolia Testnet"@
    } else if chain_id == POLYGON {
        "Polygon"@
    } else if chain_id == ARBITRUM {
        "Arbitrum"@
    } else if chain_id == OPTIMISM {
        "Optimism"@
    } else if chain_id == BASE {
        "Base"@
    } else if chain_id == GNOSIS {
        "Gnosis Chain"@
    } else {
        "Unknown Network"@
    }
}

/// The default Safe transaction pool address for the network with the given
/// chain ID; unrecognized chain IDs fall back to one fixed address.
pub open spec fn spec_safe_tx_pool_address(network_id: u64) -> Seq<char> {
    if network_id == MAINNET {
        "0x6b8e1f0D2c34A0AeaD9A25B6966f7C0CAD653E5c"@
    } else if network_id == GOERLI {
        "0x3A4fA54b8AaB5E2E2DBD0a41f41f629e4e71e2E7"@
    } else if network_id == SEPOLIA {
        "0xa2ad21dc93B362570D0159b9E3A2fE5D8ecA0424"@
    } else if network_id == POLYGON {
        "0xA3B9Ff95a78e04845a82ee5F75595E7bDaB8723D"@
    } else if network_id == ARBITRUM {
        "0x7c4A2Db70E5f39BA5Db11B8A942f02A8D3B3aA1B"@
    } else if network_id == OPTIMISM {
        "0x6E4d941A6fAD76B3d26E0c5447B4f5A7EfcA8ab8"@
    } else if network_id == BASE {
        "0x2d340e22C5A33c1Ea01DAC41E331b7FE4c033C3b"@
    } else if network_id == GNOSIS {
        "0x8d0C7BC9c4c588534dC1BF96d3ee9A4bCcBf28C7"@
    } else {
        DEFAULT_SAFE_TX_POOL_ADDRESS@
    }
}

/// Get the network display name for a chain ID. Total: unrecognized IDs get a
/// fixed "unknown network" name.
pub fn get_network_name(chain_id: u64) -> (name: &'static str)
    ensures
        name@ == spec_network_name(chain_id),
{
    if chain_id == MAINNET {
        "Ethereum Mainnet"
    } else if chain_id == GOERLI {
        "Goerli Testnet"
    } else if chain_id == SEPOLIA {
        "Sepolia Testnet"
    } else if chain_id == POLYGON {
        "Polygon"
    } else if chain_id == ARBITRUM {
        "Arbitrum"
    } else if chain_id == OPTIMISM {
        "Optimism"
    } else if chain_id == BASE {
        "Base"
    } else if chain_id == GNOSIS {
        "Gnosis Chain"
    } else {
        "Unknown Network"
    }
}

/// Get the default Safe transaction pool address for a network. Total:
/// unrecognized IDs get the fixed fallback address.
pub fn get_safe_tx_pool_address(network_id: u64) -> (addr: &'static str)
    ensures
        addr@ == spec_safe_tx_pool_address(network_id),
{
    if network_id == MAINNET {
        "0x6b8e1f0D2c34A0AeaD9A25B6966f7C0CAD653E5c"
    } else if network_id == GOERLI {
        "0x3A4fA54b8AaB5E2E2DBD0a41f41f629e4e71e2E7"
    } else if network_id == SEPOLIA {
        "0xa2ad21dc93B362570D0159b9E3A2fE5D8ecA0424"
    } else if network_id == POLYGON {
        "0xA3B9Ff95a78e04845a82ee5F75595E7bDaB8723D"
    } else if network_id == ARBITRUM {
        "0x7c4A2Db70E5f39BA5Db11B8A942f02A8D3B3aA1B"
    } else if network_id == OPTIMISM {
        "0x6E4d941A6fAD76B3d26E0c5447B4f5A7EfcA8ab8"
    } else if network_id == BASE {
        "0x2d340e22C5A33c1Ea01DAC41E331b7FE4c033C3b"
    } else if network_id == GNOSIS {
        "0x8d0C7BC9c4c588534dC1BF96d3ee9A4bCcBf28C7"
    } else {
        DEFAULT_SAFE_TX_POOL_ADDRESS
    }
}

} // verus!
