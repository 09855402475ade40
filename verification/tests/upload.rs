use pix::cli::Mode;
use pix::config::{AppConfig, NftMakerNetwork, NftProjectId};
use pix::metadata::Attribute;
use pix::nft_maker::{
    create_project_url, prepare_upload, upload_nft_request, CreateProjectRequest, Policy,
    UploadRequestBody,
};

fn config(name: &str) -> AppConfig {
    AppConfig {
        policy_id: None,
        name: name.to_string(),
        display_name: None,
        mode: Mode::Simple,
        start_at_one: false,
        amount: 10,
        tolerance: 50,
        path: "images".to_string(),
        sets: None,
        layers: Vec::new(),
        nft_maker: None,
        extra: None,
    }
}

#[test]
fn network_urls() {
    assert_eq!(NftMakerNetwork::Mainnet.to_url_string(), "https://api.nft-maker.io");
    assert_eq!(
        NftMakerNetwork::Testnet.to_url_string(),
        "https://api-testnet.nft-maker.io/v2"
    );
    assert!(NftMakerNetwork::Testnet.is_testnet());
    assert!(!NftMakerNetwork::Testnet.is_mainnet());
    assert!(NftMakerNetwork::Mainnet.is_mainnet());
    assert_eq!(NftMakerNetwork::default(), NftMakerNetwork::Testnet);
}

#[test]
fn project_id_defaults_to_zero() {
    assert!(matches!(NftProjectId::default(), NftProjectId::Id(0)));
}

#[test]
fn create_project_request_fields() {
    let cfg = config("pix");
    let r = CreateProjectRequest::new(&cfg, "META".to_string(), "2022".to_string());
    assert_eq!(r.projectname, Some("pix".to_string()));
    assert_eq!(r.description, None);
    assert!(r.policy_expires);
    assert_eq!(r.policy_locks_date_time, Some("2022".to_string()));
    assert_eq!(r.max_nft_supply, 1);
    assert_eq!(r.metadata, Some("META".to_string()));
    assert_eq!(r.address_expiretime, 20);
    let p = Policy::default();
    assert!(p.policy_id.is_none() && p.policy_script.is_none());
    assert!(p.private_verifykey.is_none() && p.private_signingkey.is_none());
}

#[test]
fn create_project_path_holds_the_key() {
    let url = create_project_url(NftMakerNetwork::Mainnet, &"KEY".to_string());
    assert_eq!(url, "https://api.nft-maker.io/CreateProject/KEY");
}

#[test]
fn mainnet_upload_request() {
    let (url, body) = upload_nft_request(
        NftMakerNetwork::Mainnet,
        &"KEY".to_string(),
        &NftProjectId::Id(77),
        "pix1".to_string(),
        "image/png".to_string(),
        "Pix #1".to_string(),
        "BASE64".to_string(),
        Vec::new(),
    );
    assert_eq!(url, "https://api.nft-maker.io/UploadNft/KEY/77");
    match body {
        UploadRequestBody::Mainnet(b) => {
            assert_eq!(b.asset_name, Some("pix1".to_string()));
            assert_eq!(b.preview_image_nft.mimetype, Some("image/png".to_string()));
            assert_eq!(b.preview_image_nft.displayname, Some("Pix #1".to_string()));
            assert_eq!(b.preview_image_nft.file_from_base64, Some("BASE64".to_string()));
            assert!(b.preview_image_nft.file_from_IPFS.is_none());
            assert!(b.subfiles.is_none());
            assert!(b.metadata.is_none());
        },
        UploadRequestBody::Testnet(_) => panic!("wrong network"),
    }
}

#[test]
fn testnet_upload_request() {
    let (url, body) = upload_nft_request(
        NftMakerNetwork::Testnet,
        &"KEY".to_string(),
        &NftProjectId::Uid("proj-uid".to_string()),
        "pix1".to_string(),
        "image/png".to_string(),
        "Pix #1".to_string(),
        "BASE64".to_string(),
        Vec::new(),
    );
    assert_eq!(url, "https://api-testnet.nft-maker.io/v2/UploadNft/proj-uid");
    match body {
        UploadRequestBody::Testnet(b) => {
            assert_eq!(b.tokenname, Some("pix1".to_string()));
            assert_eq!(b.displayname, Some("Pix #1".to_string()));
            assert_eq!(b.preview_image_nft.file_from_base64, Some("BASE64".to_string()));
            assert!(b.metadata_override.is_none());
            assert!(b.price_in_lovelace.is_none());
        },
        UploadRequestBody::Mainnet(_) => panic!("wrong network"),
    }
}

#[test]
fn prepared_upload_encodes_and_numbers() {
    let attrs = vec![
        Attribute { name: "Background".to_string(), value: "Red".to_string() },
        Attribute { name: "Hat".to_string(), value: "None".to_string() },
    ];
    let bytes: Vec<u8> = b"hello".to_vec();
    let display = Some("Pix".to_string());
    let (asset_name, displayname, encoded, placeholders) =
        prepare_upload(&"pix".to_string(), &display, "7", &bytes, &attrs);
    assert_eq!(asset_name, "pix7");
    assert_eq!(displayname, "Pix #7");
    assert_eq!(encoded, "aGVsbG8=");
    assert_eq!(placeholders.len(), 2);
    assert_eq!(placeholders[0].name, Some("attribute0".to_string()));
    assert_eq!(placeholders[0].value, Some("Red".to_string()));
    assert_eq!(placeholders[1].name, Some("attribute1".to_string()));
    assert_eq!(placeholders[1].value, Some("None".to_string()));
}

#[test]
fn prepared_upload_falls_back_to_the_asset_name() {
    let (_, displayname, _, _) =
        prepare_upload(&"pix".to_string(), &None, "2", &Vec::new(), &Vec::new());
    assert_eq!(displayname, "pix #2");
}
