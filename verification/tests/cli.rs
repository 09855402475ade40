use pix::cli::{Commands, ConfigArgs, Mode, NewCommand};
use pix::config::{
    GlobalConfig, NftMakerGlobalConfig, NftMakerLocalConfig, NftMakerNetwork, NftProjectId,
};

#[test]
fn mode_names_and_default() {
    assert_eq!(Mode::as_str(&Mode::Simple), "simple");
    assert_eq!(Mode::as_str(&Mode::Advanced), "advanced");
    assert_eq!(Mode::default(), Mode::Simple);
}

#[test]
fn command_values_carry_their_arguments() {
    let cmd = Commands::Gen(ConfigArgs { config: "pix.json".to_string() });
    match cmd {
        Commands::Gen(args) => assert_eq!(args.config, "pix.json"),
        _ => panic!("wrong command"),
    }
    let cmd = Commands::New { name: "demo".to_string() };
    match cmd {
        Commands::New { name } => assert_eq!(name, "demo"),
        _ => panic!("wrong command"),
    }
    let new_cmd = NewCommand { mode: Mode::Advanced };
    assert_eq!(new_cmd.mode, Mode::Advanced);
}

#[test]
fn marketplace_config_values() {
    let global = GlobalConfig {
        nft_maker: Some(NftMakerGlobalConfig { apikey: "KEY".to_string() }),
    };
    assert_eq!(global.nft_maker.unwrap().apikey, "KEY");

    let local = NftMakerLocalConfig {
        network: NftMakerNetwork::Testnet,
        apikey: String::new(),
        nft_project_id: NftProjectId::default(),
    };
    assert!(local.network.is_testnet());
    assert!(matches!(local.nft_project_id, NftProjectId::Id(0)));
}
