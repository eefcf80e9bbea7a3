//! The data the ledger stores: the contract-wide configuration, the
//! per-token-line information with its fungible / NFT configuration, and the
//! plain input records that curation, minting and burning take.

use vstd::prelude::*;

use crate::expiration::BlockInfo;
use crate::metadata::{
    clone_opt_metadata, opt_metadata_view, Extension, ExtensionV, Metadata, MetadataV,
};
use crate::util::clone_string_vec;

verus! {

/// What an operation sees of its call context: the current logical clock,
/// the calling principal, and the address of this deployment.
#[derive(Debug)]
pub struct Env {
    pub block: BlockInfo,
    pub sender: String,
    pub contract_address: String,
}

/// The contract-wide configuration singleton.
#[derive(Debug)]
pub struct ContractConfig {
    /// The admin, if the deployment has one; clearing it is permanent.
    pub admin: Option<String>,
    /// The principals allowed to curate new token lines; duplicates may
    /// accumulate and removal clears every matching entry.
    pub curators: Vec<String>,
    /// Every token_id ever curated, in curation order.
    pub token_id_list: Vec<String>,
    /// The transaction counter: the id the next logged transaction gets.
    pub tx_cnt: u64,
    /// The address this deployment answers under.
    pub contract_address: String,
}

/// Configuration of one token line, as curated: either fungible or NFT.
/// The two variants carry only the switches that make sense for them; the
/// flattened form fills the rest with the forced values.
#[derive(Debug, PartialEq)]
pub enum TknConf {
    Fungible {
        minters: Vec<String>,
        decimals: u8,
        public_total_supply: bool,
        enable_mint: bool,
        enable_burn: bool,
        minter_may_update_metadata: bool,
    },
    /// An NFT is minted exactly once, at curation, so it has no
    /// `enable_mint` switch and no decimals.
    Nft {
        minters: Vec<String>,
        public_total_supply: bool,
        owner_is_public: bool,
        enable_burn: bool,
        minter_may_update_metadata: bool,
        owner_may_update_metadata: bool,
    },
}

impl TknConf {
    pub open spec fn spec_is_nft(self) -> bool {
        self is Nft
    }

    pub open spec fn spec_minters(self) -> Seq<String> {
        match self {
            TknConf::Fungible { minters, .. } => minters@,
            TknConf::Nft { minters, .. } => minters@,
        }
    }

    /// Decimals play no role for an NFT: zero.
    pub open spec fn spec_decimals(self) -> u8 {
        match self {
            TknConf::Fungible { decimals, .. } => decimals,
            TknConf::Nft { .. } => 0u8,
        }
    }

    pub open spec fn spec_public_total_supply(self) -> bool {
        match self {
            TknConf::Fungible { public_total_supply, .. } => public_total_supply,
            TknConf::Nft { public_total_supply, .. } => public_total_supply,
        }
    }

    /// A fungible token has many holders, so no owner can be public.
    pub open spec fn spec_owner_is_public(self) -> bool {
        match self {
            TknConf::Fungible { .. } => false,
            TknConf::Nft { owner_is_public, .. } => owner_is_public,
        }
    }

    /// An NFT can never be minted after curation.
    pub open spec fn spec_enable_mint(self) -> bool {
        match self {
            TknConf::Fungible { enable_mint, .. } => enable_mint,
            TknConf::Nft { .. } => false,
        }
    }

    pub open spec fn spec_enable_burn(self) -> bool {
        match self {
            TknConf::Fungible { enable_burn, .. } => enable_burn,
            TknConf::Nft { enable_burn, .. } => enable_burn,
        }
    }

    pub open spec fn spec_minter_may_update_metadata(self) -> bool {
        match self {
            TknConf::Fungible { minter_may_update_metadata, .. } => minter_may_update_metadata,
            TknConf::Nft { minter_may_update_metadata, .. } => minter_may_update_metadata,
        }
    }

    /// A fungible token has many holders, so holders never edit metadata.
    pub open spec fn spec_owner_may_update_metadata(self) -> bool {
        match self {
            TknConf::Fungible { .. } => false,
            TknConf::Nft { owner_may_update_metadata, .. } => owner_may_update_metadata,
        }
    }

    /// Whether this configuration names an NFT token line.
    pub fn is_nft(&self) -> (r: bool)
        ensures
            r == self.spec_is_nft(),
    {
        match self {
            TknConf::Fungible { .. } => false,
            TknConf::Nft { .. } => true,
        }
    }

    /// Whether `addr` is one of this token line's minters.
    pub fn has_minter(&self, addr: &String) -> (r: bool)
        ensures
            r == crate::util::seq_has_string(self.spec_minters(), addr@),
    {
        match self {
            TknConf::Fungible { minters, .. } => crate::util::contains_string(minters, addr),
            TknConf::Nft { minters, .. } => crate::util::contains_string(minters, addr),
        }
    }

    /// Whether minting is enabled: never for an NFT.
    pub fn enable_mint(&self) -> (r: bool)
        ensures
            r == self.spec_enable_mint(),
    {
        match self {
            TknConf::Fungible { enable_mint, .. } => *enable_mint,
            TknConf::Nft { .. } => false,
        }
    }

    /// Whether burning is enabled.
    pub fn enable_burn(&self) -> (r: bool)
        ensures
            r == self.spec_enable_burn(),
    {
        match self {
            TknConf::Fungible { enable_burn, .. } => *enable_burn,
            TknConf::Nft { enable_burn, .. } => *enable_burn,
        }
    }

    /// Combines the variant fields into one record for the shared mint /
    /// burn / transfer paths, filling the switches a variant lacks with the
    /// values it forces.
    pub fn flatten(&self) -> (r: TknConfFlat)
        ensures
            conf_flat_matches(r, *self),
    {
        match self {
            TknConf::Fungible {
                minters,
                decimals,
                public_total_supply,
                enable_mint,
                enable_burn,
                minter_may_update_metadata,
            } => TknConfFlat {
                is_nft: false,
                decimals: *decimals,
                public_total_supply: *public_total_supply,
                owner_is_public: false,
                enable_mint: *enable_mint,
                enable_burn: *enable_burn,
                minter_may_update_metadata: *minter_may_update_metadata,
                owner_may_update_metadata: false,
                minters: clone_string_vec(minters),
            },
            TknConf::Nft {
                minters,
                public_total_supply,
                owner_is_public,
                enable_burn,
                minter_may_update_metadata,
                owner_may_update_metadata,
            } => TknConfFlat {
                is_nft: true,
                decimals: 0u8,
                public_total_supply: *public_total_supply,
                owner_is_public: *owner_is_public,
                enable_mint: false,
                enable_burn: *enable_burn,
                minter_may_update_metadata: *minter_may_update_metadata,
                owner_may_update_metadata: *owner_may_update_metadata,
                minters: clone_string_vec(minters),
            },
        }
    }

    /// The configuration a fungible token line gets when a test or caller
    /// asks for one with everything switched on.
    pub fn default_fungible() -> (r: Self)
        ensures
            !r.spec_is_nft(),
            r.spec_minters().len() == 1 && r.spec_minters()[0]@ == "addr0"@,
            r.spec_decimals() == 6,
            r.spec_public_total_supply(),
            r.spec_enable_mint(),
            r.spec_enable_burn(),
            r.spec_minter_may_update_metadata(),
    {
        TknConf::Fungible {
            minters: vec![String::from_str("addr0")],
            decimals: 6u8,
            public_total_supply: true,
            enable_mint: true,
            enable_burn: true,
            minter_may_update_metadata: true,
        }
    }

    /// The configuration an NFT token line gets when a test or caller asks
    /// for one with everything switched on.  It starts with no minters: an
    /// NFT is minted once, at curation.
    pub fn default_nft() -> (r: Self)
        ensures
            r.spec_is_nft(),
            r.spec_minters().len() == 0,
            r.spec_public_total_supply(),
            r.spec_owner_is_public(),
            r.spec_enable_burn(),
            r.spec_minter_may_update_metadata(),
            r.spec_owner_may_update_metadata(),
    {
        TknConf::Nft {
            minters: Vec::new(),
            public_total_supply: true,
            owner_is_public: true,
            enable_burn: true,
            minter_may_update_metadata: true,
            owner_may_update_metadata: true,
        }
    }
}

impl Clone for TknConf {
    fn clone(&self) -> (r: Self)
        ensures
            conf_eqv(r, *self),
    {
        match self {
            TknConf::Fungible {
                minters,
                decimals,
                public_total_supply,
                enable_mint,
                enable_burn,
                minter_may_update_metadata,
            } => TknConf::Fungible {
                minters: clone_string_vec(minters),
                decimals: *decimals,
                public_total_supply: *public_total_supply,
                enable_mint: *enable_mint,
                enable_burn: *enable_burn,
                minter_may_update_metadata: *minter_may_update_metadata,
            },
            TknConf::Nft {
                minters,
                public_total_supply,
                owner_is_public,
                enable_burn,
                minter_may_update_metadata,
                owner_may_update_metadata,
            } => TknConf::Nft {
                minters: clone_string_vec(minters),
                public_total_supply: *public_total_supply,
                owner_is_public: *owner_is_public,
                enable_burn: *enable_burn,
                minter_may_update_metadata: *minter_may_update_metadata,
                owner_may_update_metadata: *owner_may_update_metadata,
            },
        }
    }
}

/// Two token configurations that read the same: same variant, same switches,
/// same minter list.
pub open spec fn conf_eqv(a: TknConf, b: TknConf) -> bool {
    &&& a.spec_is_nft() == b.spec_is_nft()
    &&& a.spec_minters() == b.spec_minters()
    &&& a.spec_decimals() == b.spec_decimals()
    &&& a.spec_public_total_supply() == b.spec_public_total_supply()
    &&& a.spec_owner_is_public() == b.spec_owner_is_public()
    &&& a.spec_enable_mint() == b.spec_enable_mint()
    &&& a.spec_enable_burn() == b.spec_enable_burn()
    &&& a.spec_minter_may_update_metadata() == b.spec_minter_may_update_metadata()
    &&& a.spec_owner_may_update_metadata() == b.spec_owner_may_update_metadata()
}

/// A flat record that carries the same switches as a [`TknConf`] value.
pub open spec fn conf_flat_matches(f: TknConfFlat, c: TknConf) -> bool {
    &&& f.is_nft == c.spec_is_nft()
    &&& f.minters@ == c.spec_minters()
    &&& f.decimals == c.spec_decimals()
    &&& f.public_total_supply == c.spec_public_total_supply()
    &&& f.owner_is_public == c.spec_owner_is_public()
    &&& f.enable_mint == c.spec_enable_mint()
    &&& f.enable_burn == c.spec_enable_burn()
    &&& f.minter_may_update_metadata == c.spec_minter_may_update_metadata()
    &&& f.owner_may_update_metadata == c.spec_owner_may_update_metadata()
}

/// The flattened form of a token configuration, for the shared logic.
#[derive(Debug, PartialEq)]
pub struct TknConfFlat {
    pub is_nft: bool,
    pub decimals: u8,
    pub public_total_supply: bool,
    pub owner_is_public: bool,
    pub enable_mint: bool,
    pub enable_burn: bool,
    pub minter_may_update_metadata: bool,
    pub owner_may_update_metadata: bool,
    pub minters: Vec<String>,
}

impl TknConfFlat {
    /// Folds the flat record back into the variant its `is_nft` flag names,
    /// dropping the fields that variant forces.
    pub fn to_enum(&self) -> (r: TknConf)
        ensures
            r.spec_is_nft() == self.is_nft,
            r.spec_minters() == self.minters@,
            r.spec_decimals() == if self.is_nft { 0u8 } else { self.decimals },
            r.spec_public_total_supply() == self.public_total_supply,
            r.spec_owner_is_public() == (self.is_nft && self.owner_is_public),
            r.spec_enable_mint() == (!self.is_nft && self.enable_mint),
            r.spec_enable_burn() == self.enable_burn,
            r.spec_minter_may_update_metadata() == self.minter_may_update_metadata,
            r.spec_owner_may_update_metadata() == (self.is_nft && self.owner_may_update_metadata),
    {
        if self.is_nft {
            TknConf::Nft {
                minters: clone_string_vec(&self.minters),
                public_total_supply: self.public_total_supply,
                owner_is_public: self.owner_is_public,
                enable_burn: self.enable_burn,
                minter_may_update_metadata: self.minter_may_update_metadata,
                owner_may_update_metadata: self.owner_may_update_metadata,
            }
        } else {
            TknConf::Fungible {
                minters: clone_string_vec(&self.minters),
                decimals: self.decimals,
                public_total_supply: self.public_total_supply,
                enable_mint: self.enable_mint,
                enable_burn: self.enable_burn,
                minter_may_update_metadata: self.minter_may_update_metadata,
            }
        }
    }
}

/// Everything the ledger stores about one token line.
#[derive(Debug, PartialEq)]
pub struct TknInfo {
    /// Unique and immutable once curated.
    pub token_id: String,
    pub name: String,
    pub symbol: String,
    pub token_config: TknConf,
    pub public_metadata: Option<Metadata>,
    pub private_metadata: Option<Metadata>,
    /// The principal that curated this token line; set at curation.
    pub curator: String,
}

/// Two token records that read the same, field for field.
pub open spec fn info_eqv(a: TknInfo, b: TknInfo) -> bool {
    &&& a.token_id@ == b.token_id@
    &&& a.name@ == b.name@
    &&& a.symbol@ == b.symbol@
    &&& conf_eqv(a.token_config, b.token_config)
    &&& opt_metadata_view(a.public_metadata) == opt_metadata_view(b.public_metadata)
    &&& opt_metadata_view(a.private_metadata) == opt_metadata_view(b.private_metadata)
    &&& a.curator@ == b.curator@
}

impl Clone for TknInfo {
    fn clone(&self) -> (r: Self)
        ensures
            info_eqv(r, *self),
    {
        TknInfo {
            token_id: self.token_id.clone(),
            name: self.name.clone(),
            symbol: self.symbol.clone(),
            token_config: self.token_config.clone(),
            public_metadata: clone_opt_metadata(&self.public_metadata),
            private_metadata: clone_opt_metadata(&self.private_metadata),
            curator: self.curator.clone(),
        }
    }
}

/// One holder and an amount, as curation, minting and burning take them.
#[derive(Debug, PartialEq)]
pub struct TokenIdBalance {
    pub address: String,
    pub amount: u128,
}

/// The input record that curates one new token line: its stored information
/// and its initial holders.  The curating principal is recorded from the
/// caller, whatever the `curator` field of `token_info` says.
#[derive(Debug, PartialEq)]
pub struct CurateTokenId {
    pub token_info: TknInfo,
    pub balances: Vec<TokenIdBalance>,
}

/// The input record that mints or burns against one existing token line.
/// For a burn, each `address` must be the caller: the base policy burns only
/// one's own holdings.
#[derive(Debug, PartialEq)]
pub struct TokenAmount {
    pub token_id: String,
    pub balances: Vec<TokenIdBalance>,
}

/// The stored record a test or caller starts from: fungible token line "0"
/// named "token0" / "TKN", everything enabled, a placeholder metadata pair,
/// and 1000 units held by "addr0".
impl Default for CurateTokenId {
    fn default() -> (r: Self)
        ensures
            r.token_info.token_id@ == "0"@,
            r.token_info.name@ == "token0"@,
            r.token_info.symbol@ == "TKN"@,
            !r.token_info.token_config.spec_is_nft(),
            r.token_info.token_config.spec_minters().len() == 1,
            r.token_info.token_config.spec_minters()[0]@ == "addr0"@,
            r.token_info.token_config.spec_decimals() == 6,
            r.token_info.token_config.spec_public_total_supply(),
            r.token_info.token_config.spec_enable_mint(),
            r.token_info.token_config.spec_enable_burn(),
            r.token_info.token_config.spec_minter_may_update_metadata(),
            opt_metadata_view(r.token_info.public_metadata) == Some(
                MetadataV {
                    token_uri: Some("public uri"@),
                    extension: Some(ExtensionV { image: None, description: None }),
                },
            ),
            opt_metadata_view(r.token_info.private_metadata) == Some(
                MetadataV {
                    token_uri: Some("private uri"@),
                    extension: Some(ExtensionV { image: None, description: None }),
                },
            ),
            r.token_info.curator@ == ""@,
            r.balances@.len() == 1,
            r.balances@[0].address@ == "addr0"@,
            r.balances@[0].amount == 1000,
    {
        proof {
            reveal_strlit("");
            assert(""@ =~= Seq::<char>::empty());
        }
        CurateTokenId {
            token_info: TknInfo {
                token_id: String::from_str("0"),
                name: String::from_str("token0"),
                symbol: String::from_str("TKN"),
                token_config: TknConf::default_fungible(),
                public_metadata: Some(
                    Metadata {
                        token_uri: Some(String::from_str("public uri")),
                        extension: Some(Extension::default()),
                    },
                ),
                private_metadata: Some(
                    Metadata {
                        token_uri: Some(String::from_str("private uri")),
                        extension: Some(Extension::default()),
                    },
                ),
                curator: String::new(),
            },
            balances: vec![
                TokenIdBalance { address: String::from_str("addr0"), amount: 1000u128 },
            ],
        }
    }
}

} // verus!
