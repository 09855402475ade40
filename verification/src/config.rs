use vstd::prelude::*;

use crate::cli::Mode;
use crate::json::JsonValue;

verus! {

/// A project's configuration, as the generation engine consumes it.
///
/// Loading and merging the config files is the caller's concern; the
/// engine receives the already-decoded plain values.
pub struct AppConfig {
    pub policy_id: Option<String>,
    pub name: String,
    pub display_name: Option<String>,
    pub mode: Mode,
    pub start_at_one: bool,
    pub amount: usize,
    pub tolerance: usize,
    /// Root of the layer image tree.
    pub path: String,
    pub sets: Option<Vec<SetConfig>>,
    pub layers: Vec<LayerConfig>,
    pub nft_maker: Option<NftMakerLocalConfig>,
    /// Extra key/value fields copied into each metadata document.
    pub extra: Option<Vec<(String, JsonValue)>>,
}

/// A named generation domain with its own target amount.
pub struct SetConfig {
    pub name: String,
    pub amount: usize,
}

/// One declared layer: its position in the declaration list is its
/// sampling and compositing position.
pub struct LayerConfig {
    pub name: String,
    pub display_name: Option<String>,
    /// Weight of a synthetic trait with no image.
    pub none: Option<u32>,
    /// Set names whose domains force this layer to its `None` trait.
    pub exclude_if_sets: Option<Vec<String>>,
    /// Earlier-layer selections that force this layer to its `None` trait.
    pub exclude_if_traits: Option<Vec<IfTrait>>,
}

/// One exclusion condition: an earlier layer and the trait names in it
/// that trigger the exclusion.
pub struct IfTrait {
    pub layer: String,
    pub traits: Vec<String>,
}

/// Per-project marketplace settings.
pub struct NftMakerLocalConfig {
    pub network: NftMakerNetwork,
    pub apikey: String,
    pub nft_project_id: NftProjectId,
}

/// A marketplace project handle: either a numeric id or a uid string.
pub enum NftProjectId {
    Uid(String),
    Id(i32),
}

impl Default for NftProjectId {
    fn default() -> (r: Self)
        ensures
            r == NftProjectId::Id(0i32),
    {
        NftProjectId::Id(0)
    }
}

/// The marketplace network a project lives on.
#[derive(Clone, Copy, Debug, PartialEq, Eq, Structural)]
pub enum NftMakerNetwork {
    Testnet,
    Mainnet,
}

impl NftMakerNetwork {
    pub fn is_testnet(&self) -> (r: bool)
        ensures
            r == (self is Testnet),
    {
        matches!(self, NftMakerNetwork::Testnet)
    }

    pub fn is_mainnet(&self) -> (r: bool)
        ensures
            r == (self is Mainnet),
    {
        matches!(self, NftMakerNetwork::Mainnet)
    }
}

impl Default for NftMakerNetwork {
    fn default() -> (r: Self)
        ensures
            r == NftMakerNetwork::Testnet,
    {
        NftMakerNetwork::Testnet
    }
}

/// The globally stored marketplace credentials.
pub struct NftMakerGlobalConfig {
    pub apikey: String,
}

/// The global (per-user) configuration.
pub struct GlobalConfig {
    pub nft_maker: Option<NftMakerGlobalConfig>,
}

} // verus!
