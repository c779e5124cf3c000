use zkemail_layout::config::env_assignments;
use zkemail_layout::config::CollaboratorConfig;

#[test]
fn env_assignments_exports_present_credentials_in_order() {
    let cfg = CollaboratorConfig {
        private_key: "0x0123abcd".to_string(),
        rpc_url: "https://sepolia.base.org".to_string(),
        chain_id: 84532,
        etherscan_api_key: String::new(),
        dkim_registry_address: "0x2971369F8681aF91F434D6F0f599C07842F3A17e".to_string(),
    };
    let vars = env_assignments(&cfg);
    let pairs: Vec<(&str, &str)> = vars.iter().map(|p| (p.0.as_str(), p.1.as_str())).collect();
    assert_eq!(
        pairs,
        vec![
            ("JSON_LOGGER", "true"),
            ("PRIVATE_KEY", "0x0123abcd"),
            ("RPC_URL", "https://sepolia.base.org"),
            ("CHAIN_ID", "84532"),
            (
                "DKIM_REGISTRY",
                "0x2971369F8681aF91F434D6F0f599C07842F3A17e"
            ),
        ]
    );
}

#[test]
fn env_assignments_omits_absent_credentials() {
    let cfg = CollaboratorConfig {
        private_key: String::new(),
        rpc_url: String::new(),
        chain_id: 0,
        etherscan_api_key: String::new(),
        dkim_registry_address: String::new(),
    };
    let vars = env_assignments(&cfg);
    assert_eq!(vars.len(), 1);
    assert_eq!(vars[0].0, "JSON_LOGGER");
    assert_eq!(vars[0].1, "true");
}
