use ecash_wallet::error::ErrorKind;
use ecash_wallet::mint::{
    build_mint_info, decode_bolt11_invoice, extract_supported_nuts, get_database_path,
    normalize_mint_url, parse_cashu_token, wallet_database_exists, MintCapabilities, NutSupport,
};

fn no_nuts() -> NutSupport {
    NutSupport {
        nut07: false, nut08: false, nut09: false, nut10: false, nut11: false, nut12: false,
        nut14: false, nut15_methods: 0, nut17_supported: 0, nut19_ttl: false,
        nut19_cached_endpoints: 0, nut20: false,
    }
}

#[test]
fn onion_urls_use_plain_http() {
    assert_eq!(normalize_mint_url("https://abc.onion").unwrap(), "http://abc.onion");
    assert_eq!(normalize_mint_url("https://Mint.Example.com/").unwrap(), "https://mint.example.com");
    assert_eq!(normalize_mint_url("http://abc.onion/path").unwrap(), "http://abc.onion/path");
    assert_eq!(normalize_mint_url("").unwrap_err().kind, ErrorKind::InvalidInput);
    assert_eq!(normalize_mint_url("no-scheme").unwrap_err().kind, ErrorKind::InvalidInput);
}

#[test]
fn supported_nuts_in_order() {
    assert_eq!(extract_supported_nuts(&no_nuts()), vec!["NUT-04", "NUT-05"]);
    let mut n = no_nuts();
    n.nut07 = true;
    n.nut12 = true;
    n.nut15_methods = 1;
    n.nut19_cached_endpoints = 2;
    n.nut20 = true;
    assert_eq!(
        extract_supported_nuts(&n),
        vec!["NUT-04", "NUT-05", "NUT-07", "NUT-12", "NUT-15", "NUT-19", "NUT-20"]
    );
}

#[test]
fn mint_info_carries_descriptor_fields() {
    let caps = MintCapabilities {
        name: Some("m".to_string()),
        version: Some("v1".to_string()),
        description: None,
        description_long: None,
        contact: None,
        motd: Some("hi".to_string()),
        icon_url: None,
        urls: None,
        nuts: no_nuts(),
    };
    let info = build_mint_info(caps);
    assert_eq!(info.name.as_deref(), Some("m"));
    assert_eq!(info.motd.as_deref(), Some("hi"));
    assert_eq!(info.nuts.unwrap(), vec!["NUT-04", "NUT-05"]);
    assert!(info.public_key.is_none());
}

#[test]
fn database_path_flattens_url() {
    assert_eq!(
        get_database_path("/data", "https://mint.example/api"),
        "/data/wallet_data/wallet_https_mint.example_api.db"
    );
    assert_eq!(get_database_path("/data/", "a://b"), "/data/wallet_data/wallet_a_b.db");
    assert_eq!(get_database_path("", "m"), "wallet_data/wallet_m.db");
    assert!(!wallet_database_exists("/nonexistent-dir-for-test", "https://mint.example"));
}

#[test]
fn malformed_invoice_and_token_are_invalid_input() {
    assert_eq!(decode_bolt11_invoice("lnbc-garbage").err().unwrap().kind, ErrorKind::InvalidInput);
    assert_eq!(parse_cashu_token("cashuBnotbase64!").err().unwrap().kind, ErrorKind::InvalidInput);
}

#[test]
fn invoice_amount_in_msat_and_sats() {
    let inv = "lnbc330n1p5d85skpp5344v3ktclujsjl3h09wgsfm7zytumr7h7zhrl857f5w8nv0a52zqdqqcqzzsxqyz5vqrzjqvueefmrckfdwyyu39m0lf24sqzcr9vcrmxrvgfn6empxz7phrjxvrttncqq0lcqqyqqqqlgqqqqqqgq2qsp5j3rrg8kvpemqxtf86j8tjm90wq77c7ende4e5qmrerq4xsg02vhq9qxpqysgqjltywgyk6uc5qcgwh8xnzmawl2tjlhz8d28tgp3yx8xwtz76x0jqkfh6mmq70hervjxs0keun7ur0spldgll29l0dnz3md50d65sfqqqwrwpsu";
    let s = decode_bolt11_invoice(inv).unwrap();
    assert_eq!(s.amount_msat, 33000);
    assert_eq!(s.amount_sats, 33);
}

#[test]
fn token_string_names_its_mint() {
    let token = "cashuBpGF0gaJhaUgArSaMTR9YJmFwgaNhYQFhc3hAOWE2ZGJiODQ3YmQyMzJiYTc2ZGIwZGYxOTcyMTZiMjlkM2I4Y2MxNDU1M2NkMjc4MjdmYzFjYzk0MmZlZGI0ZWFjWCEDhhhUP_trhpXfStS6vN6So0qWvc2X3O4NfM-Y1HISZ5JhZGlUaGFuayB5b3VhbXVodHRwOi8vbG9jYWxob3N0OjMzMzhhdWNzYXQ=";
    let summary = parse_cashu_token(token).unwrap();
    assert_eq!(summary.mint_url.as_deref(), Some("http://localhost:3338"));
}

#[test]
fn invoice_without_amount_is_refused() {
    let inv = "lnbc1pvjluezsp5zyg3zyg3zyg3zyg3zyg3zyg3zyg3zyg3zyg3zyg3zyg3zyg3zygspp5qqqsyqcyq5rqwzqfqqqsyqcyq5rqwzqfqqqsyqcyq5rqwzqfqypqdpl2pkx2ctnv5sxxmmwwd5kgetjypeh2ursdae8g6twvus8g6rfwvs8qun0dfjkxaq9qrsgq357wnc5r2ueh7ck6q93dj32dlqnls087fxdwk8qakdyafkq3yap9us6v52vjjsrvywa6rt52cm9r9zqt8r2t7mlcwspyetp5h2tztugp9lfyql";
    assert_eq!(decode_bolt11_invoice(inv).err().unwrap().kind, ErrorKind::InvoiceMissingAmount);
}
