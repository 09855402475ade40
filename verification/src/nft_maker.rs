use vstd::prelude::*;
use vstd::string::StrSliceExecFns;
use vstd::string::StringExecFns;

use crate::config::{AppConfig, NftMakerNetwork, NftProjectId};
use crate::json::{int_chars, push_int};
use crate::metadata::Attribute;
use crate::strutil::dec_chars;

verus! {

impl NftMakerNetwork {
    /// The marketplace API root of this network.
    pub fn to_url_string(&self) -> (r: String)
        ensures
            self is Mainnet ==> r@ == "https://api.nft-maker.io"@,
            self is Testnet ==> r@ == "https://api-testnet.nft-maker.io/v2"@,
    {
        match self {
            NftMakerNetwork::Mainnet => String::from_str("https://api.nft-maker.io"),
            NftMakerNetwork::Testnet => String::from_str("https://api-testnet.nft-maker.io/v2"),
        }
    }
}

/// The API root of a network, as characters.
pub open spec fn url_chars(network: NftMakerNetwork) -> Seq<char> {
    match network {
        NftMakerNetwork::Mainnet => "https://api.nft-maker.io"@,
        NftMakerNetwork::Testnet => "https://api-testnet.nft-maker.io/v2"@,
    }
}

/// A project handle, as it stands in a request path.
pub open spec fn project_id_chars(id: NftProjectId) -> Seq<char> {
    match id {
        NftProjectId::Uid(s) => s@,
        NftProjectId::Id(n) => int_chars(n as int),
    }
}

/// Appends a project handle to a request path.
fn push_project_id(out: &mut String, id: &NftProjectId)
    ensures
        final(out)@ == old(out)@ + project_id_chars(*id),
{
    match id {
        NftProjectId::Uid(s) => {
            out.append(s.as_str());
        },
        NftProjectId::Id(n) => {
            push_int(out, *n as i64);
        },
    }
}

/// One placeholder of an upload request: an attribute slot and the text
/// that fills it.
pub struct MetadataPlaceholder {
    pub name: Option<String>,
    pub value: Option<String>,
}

/// The image payload of a mainnet upload.
#[allow(non_snake_case)]
pub struct NftFile {
    pub mimetype: Option<String>,
    pub file_from_base64: Option<String>,
    pub file_froms_url: Option<String>,
    pub file_from_IPFS: Option<String>,
    pub description: Option<String>,
    pub displayname: Option<String>,
    pub metadata_placeholder: Vec<MetadataPlaceholder>,
}

/// The image payload of a testnet upload.
#[allow(non_snake_case)]
pub struct NftFileV2 {
    pub mimetype: Option<String>,
    pub file_from_base64: Option<String>,
    pub file_froms_url: Option<String>,
    pub file_from_IPFS: Option<String>,
}

/// A secondary file of a testnet upload.
pub struct NftSubFileV2 {
    pub subfile: NftFileV2,
    pub description: Option<String>,
    pub metadata_placeholder: Vec<MetadataPlaceholder>,
}

/// A mainnet upload request.
pub struct UploadNftRequest {
    pub asset_name: Option<String>,
    pub preview_image_nft: NftFile,
    pub subfiles: Option<Vec<NftFile>>,
    pub metadata: Option<String>,
}

/// A testnet upload request.
pub struct UploadNftRequestV2 {
    pub tokenname: Option<String>,
    pub displayname: Option<String>,
    pub description: Option<String>,
    pub preview_image_nft: NftFileV2,
    pub subfiles: Option<Vec<NftSubFileV2>>,
    pub metadata_placeholder: Vec<MetadataPlaceholder>,
    pub metadata_override: Option<String>,
    pub price_in_lovelace: Option<i64>,
}

/// The marketplace's answer to an upload.
pub struct UploadNftResponse {
    pub nft_id: i32,
    pub nft_uid: Option<String>,
    pub ipfs_hash_mainnft: Option<String>,
    pub ipfs_hash_sub_files: Option<Vec<String>>,
    pub metadata: Option<String>,
    pub asset_id: Option<String>,
}

/// One uploaded token, as the marketplace reports it.
pub struct NftDetails {
    pub id: i32,
    pub ipfshash: Option<String>,
    pub state: Option<String>,
    pub name: Option<String>,
    pub displayname: Option<String>,
    pub detaildata: Option<String>,
    pub minted: bool,
    pub receiveraddress: Option<String>,
    pub selldate: Option<String>,
    pub soldby: Option<String>,
    pub reserveduntil: Option<String>,
    pub policyid: Option<String>,
    pub assetid: Option<String>,
    pub assetname: Option<String>,
    pub fingerprint: Option<String>,
    pub initialminttxhash: Option<String>,
    pub title: Option<String>,
    pub series: Option<String>,
    pub ipfs_gateway_address: Option<String>,
    pub metadata: Option<String>,
    pub single_price: Option<i64>,
    pub uid: Option<String>,
}

/// A project-creation request.
pub struct CreateProjectRequest {
    pub projectname: Option<String>,
    pub description: Option<String>,
    pub projecturl: Option<String>,
    pub tokenname_prefix: Option<String>,
    pub policy_expires: bool,
    pub policy_locks_date_time: Option<String>,
    pub payout_walletaddress: Option<String>,
    pub max_nft_supply: i32,
    pub policy: Policy,
    pub metadata: Option<String>,
    pub address_expiretime: i32,
}

/// A minting policy, as the marketplace describes it.
pub struct Policy {
    pub policy_id: Option<String>,
    pub private_verifykey: Option<String>,
    pub private_signingkey: Option<String>,
    pub policy_script: Option<String>,
}

impl Default for Policy {
    fn default() -> (r: Self)
        ensures
            r.policy_id is None,
            r.private_verifykey is None,
            r.private_signingkey is None,
            r.policy_script is None,
    {
        Policy {
            policy_id: None,
            private_verifykey: None,
            private_signingkey: None,
            policy_script: None,
        }
    }
}

/// The marketplace's answer to a project creation.
pub struct CreateProjectResponse {
    pub project_id: i32,
    pub metadata: Option<String>,
    pub policy_id: Option<String>,
    pub policy_script: Option<String>,
    pub policy_expiration: Option<String>,
    pub uid: Option<String>,
}

impl CreateProjectRequest {
    /// A project-creation request for the configured project: policy
    /// expiry set to the given lock time, a supply of one per token, and
    /// twenty minutes of address reservation.
    pub fn new(config: &AppConfig, metadata_info: String, expiration_time: String) -> (r: Self)
        ensures
            r.projectname == Some(config.name),
            r.description is None,
            r.projecturl is None,
            r.tokenname_prefix is None,
            r.policy_expires,
            r.policy_locks_date_time == Some(expiration_time),
            r.payout_walletaddress is None,
            r.max_nft_supply == 1i32,
            r.policy.policy_id is None && r.policy.private_verifykey is None
                && r.policy.private_signingkey is None && r.policy.policy_script is None,
            r.metadata == Some(metadata_info),
            r.address_expiretime == 20i32,
    {
        CreateProjectRequest {
            projectname: Some(config.name.clone()),
            description: None,
            projecturl: None,
            tokenname_prefix: None,
            policy_expires: true,
            policy_locks_date_time: Some(expiration_time),
            payout_walletaddress: None,
            max_nft_supply: 1,
            policy: Policy::default(),
            metadata: Some(metadata_info),
            address_expiretime: 20,
        }
    }
}

/// The request path that creates a project.
pub fn create_project_url(network: NftMakerNetwork, apikey: &String) -> (r: String)
    ensures
        r@ == url_chars(network) + "/CreateProject/"@ + apikey@,
{
    proof {
        reveal_strlit("/CreateProject/");
    }
    let mut url = network.to_url_string();
    url.append("/CreateProject/");
    url.append(apikey.as_str());
    proof {
        assert(url@ =~= url_chars(network) + "/CreateProject/"@ + apikey@);
    }
    url
}

/// An upload request, bound for one of the two networks.
pub enum UploadRequestBody {
    Mainnet(UploadNftRequest),
    Testnet(UploadNftRequestV2),
}

/// Builds the upload request for one output: the request path and the
/// body the network's API expects. On mainnet the key stands in the
/// path and the display fields ride with the file; on testnet the
/// project handle alone stands in the path and the placeholders ride at
/// the top level.
pub fn upload_nft_request(
    network: NftMakerNetwork,
    apikey: &String,
    nft_project_id: &NftProjectId,
    asset_name: String,
    mimetype: String,
    displayname: String,
    file_from_base64: String,
    metadata_placeholder: Vec<MetadataPlaceholder>,
) -> (r: (String, UploadRequestBody))
    ensures
        network is Mainnet ==> {
            &&& r.0@ == url_chars(network) + "/UploadNft/"@ + apikey@ + "/"@ + project_id_chars(
                *nft_project_id,
            )
            &&& r.1 matches UploadRequestBody::Mainnet(b) && b == (UploadNftRequest {
                asset_name: Some(asset_name),
                preview_image_nft: NftFile {
                    mimetype: Some(mimetype),
                    description: None,
                    displayname: Some(displayname),
                    file_from_IPFS: None,
                    file_froms_url: None,
                    file_from_base64: Some(file_from_base64),
                    metadata_placeholder: metadata_placeholder,
                },
                subfiles: None,
                metadata: None,
            })
        },
        network is Testnet ==> {
            &&& r.0@ == url_chars(network) + "/UploadNft/"@ + project_id_chars(*nft_project_id)
            &&& r.1 matches UploadRequestBody::Testnet(b) && b == (UploadNftRequestV2 {
                tokenname: Some(asset_name),
                displayname: Some(displayname),
                description: None,
                preview_image_nft: NftFileV2 {
                    mimetype: Some(mimetype),
                    file_from_base64: Some(file_from_base64),
                    file_from_IPFS: None,
                    file_froms_url: None,
                },
                subfiles: None,
                metadata_placeholder: metadata_placeholder,
                metadata_override: None,
                price_in_lovelace: None,
            })
        },
{
    proof {
        reveal_strlit("/UploadNft/");
        reveal_strlit("/");
    }
    match network {
        NftMakerNetwork::Mainnet => {
            let mut url = network.to_url_string();
            url.append("/UploadNft/");
            url.append(apikey.as_str());
            url.append("/");
            push_project_id(&mut url, nft_project_id);
            proof {
                assert(url@ =~= url_chars(network) + "/UploadNft/"@ + apikey@ + "/"@
                    + project_id_chars(*nft_project_id));
            }
            let body = UploadNftRequest {
                asset_name: Some(asset_name),
                preview_image_nft: NftFile {
                    mimetype: Some(mimetype),
                    description: None,
                    displayname: Some(displayname),
                    file_from_IPFS: None,
                    file_froms_url: None,
                    file_from_base64: Some(file_from_base64),
                    metadata_placeholder,
                },
                subfiles: None,
                metadata: None,
            };
            (url, UploadRequestBody::Mainnet(body))
        },
        NftMakerNetwork::Testnet => {
            let mut url = network.to_url_string();
            url.append("/UploadNft/");
            push_project_id(&mut url, nft_project_id);
            proof {
                assert(url@ =~= url_chars(network) + "/UploadNft/"@ + project_id_chars(
                    *nft_project_id,
                ));
            }
            let body = UploadNftRequestV2 {
                tokenname: Some(asset_name),
                displayname: Some(displayname),
                description: None,
                preview_image_nft: NftFileV2 {
                    mimetype: Some(mimetype),
                    file_from_base64: Some(file_from_base64),
                    file_from_IPFS: None,
                    file_froms_url: None,
                },
                subfiles: None,
                metadata_placeholder,
                metadata_override: None,
                price_in_lovelace: None,
            };
            (url, UploadRequestBody::Testnet(body))
        },
    }
}

/// Names the base64 text of a byte string: the encoding depends on the
/// bytes alone.
pub uninterp spec fn base64_of(bytes: Seq<u8>) -> Seq<char>;

/// Encodes an image file for an upload request.
///
/// Relies on base64::encode: the standard-alphabet, padded base64 text
/// of the bytes, a function of the bytes alone.
#[verifier::external_body]
fn encode_base64(bytes: &Vec<u8>) -> (r: String)
    ensures
        r@ == base64_of(bytes@),
{
    base64::encode(bytes)
}

/// Prepares the upload pieces of one rendered output: its asset name,
/// its display name, its image as base64 text, and one metadata
/// placeholder per attribute, named by position.
pub fn prepare_upload(
    name: &String,
    display_name: &Option<String>,
    number: &str,
    image_bytes: &Vec<u8>,
    attributes: &Vec<Attribute>,
) -> (r: (String, String, String, Vec<MetadataPlaceholder>))
    ensures
        r.0@ == name@ + number@,
        r.1@ == (match *display_name {
            Some(d) => d@,
            None => name@,
        }) + " #"@ + number@,
        r.2@ == base64_of(image_bytes@),
        r.3@.len() == attributes@.len(),
        forall|i: int|
            0 <= i < attributes@.len() ==> {
                let p = #[trigger] r.3@[i];
                &&& p.name matches Some(pn) && pn@ == "attribute"@ + dec_chars(i)
                &&& p.value matches Some(pv) && pv@ == attributes@[i].value@
            },
{
    proof {
        reveal_strlit(" #");
        reveal_strlit("attribute");
    }
    let mut asset_name = name.clone();
    asset_name.append(number);
    let mut displayname = match display_name {
        Some(d) => d.clone(),
        None => name.clone(),
    };
    displayname.append(" #");
    displayname.append(number);
    proof {
        assert(displayname@ =~= (match *display_name {
            Some(d) => d@,
            None => name@,
        }) + " #"@ + number@);
    }
    let encoded = encode_base64(image_bytes);
    let mut placeholders: Vec<MetadataPlaceholder> = Vec::new();
    let n = attributes.len();
    let mut i: usize = 0;
    while i < n
        invariant
            i <= n,
            n == attributes@.len(),
            placeholders@.len() == i,
            forall|j: int|
                0 <= j < i ==> {
                    let p = #[trigger] placeholders@[j];
                    &&& p.name matches Some(pn) && pn@ == "attribute"@ + dec_chars(j)
                    &&& p.value matches Some(pv) && pv@ == attributes@[j].value@
                },
        decreases n - i,
    {
        proof {
            reveal_strlit("attribute");
        }
        let mut pname = String::from_str("attribute");
        crate::strutil::push_dec(&mut pname, i as u64);
        placeholders.push(
            MetadataPlaceholder { name: Some(pname), value: Some(attributes[i].value.clone()) },
        );
        i += 1;
    }
    (asset_name, displayname, encoded, placeholders)
}

} // verus!
