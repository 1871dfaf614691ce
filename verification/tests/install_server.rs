use terminal_hell::install_server::{
    binary_hmac_hex, build_bash_script, build_pwsh_script, effective_base_and_code, one_liners,
    parse_ipv4_exec, route, to_hex, InstallRoute,
};
use terminal_hell::share::ShareCode;

fn sample_code() -> ShareCode {
    ShareCode::new(
        [203, 0, 113, 7],
        4646,
        4647,
        [
            0x11, 0x22, 0x33, 0x44, 0x55, 0x66, 0x77, 0x88, 0x99, 0xaa, 0xbb, 0xcc, 0xdd, 0xee,
            0xff, 0x00,
        ],
    )
}

#[test]
fn hex_is_lowercase_two_digits_per_byte() {
    assert_eq!(to_hex(&[0x00, 0x0f, 0xa5, 0xff]), "000fa5ff");
    assert_eq!(to_hex(&[]), "");
}

#[test]
fn hmac_header_matches_reference_value() {
    let token: [u8; 16] = [0, 1, 2, 3, 4, 5, 6, 7, 8, 9, 10, 11, 12, 13, 14, 15];
    let h = binary_hmac_hex(&token, b"terminal_hell");
    assert_eq!(h, "6aa38b67e4e8afe9e38871b8bfa0967f911db8be89ce16714fee0699c2f1d303");
}

#[test]
fn routes_by_method_and_path() {
    assert_eq!(route(false, "/install.sh"), InstallRoute::MethodNotAllowed);
    assert_eq!(route(true, "/install.sh"), InstallRoute::InstallSh);
    assert_eq!(route(true, "/install.sh?x=1"), InstallRoute::InstallSh);
    assert_eq!(route(true, "/install.ps1"), InstallRoute::InstallPs1);
    assert_eq!(route(true, "/binary"), InstallRoute::Binary);
    assert_eq!(route(true, "/"), InstallRoute::NotFound);
    assert_eq!(route(true, "/binary/x"), InstallRoute::NotFound);
}

#[test]
fn one_liners_use_advertised_http_address() {
    let (sh, ps) = one_liners(&sample_code());
    assert_eq!(sh, "curl -sSfL http://203.0.113.7:4647/install.sh | sh");
    assert_eq!(ps, "iwr http://203.0.113.7:4647/install.ps1 -UseBasicParsing | iex");
}

#[test]
fn host_header_ip_replaces_code_address() {
    let (base, code) = effective_base_and_code(Some("10.0.0.5:4647"), &sample_code());
    assert_eq!(base, "http://10.0.0.5:4647");
    assert_eq!(code, "TH01AEFAAAAFCITBEJYREIZUIVLGO6EJTKV3ZTO657YA");
}

#[test]
fn host_name_keeps_default_code() {
    let (base, code) = effective_base_and_code(Some("example.net:4647"), &sample_code());
    assert_eq!(base, "http://example.net:4647");
    assert_eq!(code, sample_code().encode());
}

#[test]
fn missing_host_uses_default_address() {
    let (base, code) = effective_base_and_code(None, &sample_code());
    assert_eq!(base, "http://203.0.113.7:4647");
    assert_eq!(code, sample_code().encode());
}

#[test]
fn dotted_quads_parse() {
    let v: Vec<char> = "192.168.1.20".chars().collect();
    assert_eq!(parse_ipv4_exec(&v), Some([192, 168, 1, 20]));
    let bad: Vec<char> = "256.1.1.1".chars().collect();
    assert_eq!(parse_ipv4_exec(&bad), None);
    let short: Vec<char> = "1.2.3".chars().collect();
    assert_eq!(parse_ipv4_exec(&short), None);
}

#[test]
fn scripts_embed_session_values() {
    let sh = build_bash_script("TH01CODE", "0.9.1", "http://h:1", "abcd");
    assert!(sh.starts_with("#!/bin/sh"));
    assert!(sh.contains("TH01CODE"));
    assert!(sh.contains("0.9.1"));
    assert!(sh.contains("http://h:1"));
    assert!(sh.contains("abcd"));
    let ps = build_pwsh_script("TH01CODE", "0.9.1", "http://h:1", "abcd");
    assert!(ps.contains("TH01CODE"));
    assert!(ps.contains("http://h:1"));
}
