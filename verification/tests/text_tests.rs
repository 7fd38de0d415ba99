use nerum_core::host::{is_colon_hex, is_valid_hostname, is_valid_target, subdomain_name};
use nerum_core::model::IpAddress;
use nerum_core::text::{str_is_prefix_of, str_lex_leq, u64_to_hex_string, u64_to_string};

#[test]
fn decimal_text_of_integers() {
    assert_eq!(u64_to_string(0), "0");
    assert_eq!(u64_to_string(7), "7");
    assert_eq!(u64_to_string(10), "10");
    assert_eq!(u64_to_string(10443), "10443");
    assert_eq!(u64_to_string(u64::MAX), "18446744073709551615");
}

#[test]
fn hexadecimal_text_of_integers() {
    assert_eq!(u64_to_hex_string(0), "0");
    assert_eq!(u64_to_hex_string(255), "ff");
    assert_eq!(u64_to_hex_string(64030), "fa1e");
    assert_eq!(u64_to_hex_string(0x2001), "2001");
}

#[test]
fn ipv4_dotted_quad_text() {
    assert_eq!(IpAddress::V4(0x7f000001).to_text(), "127.0.0.1");
    assert_eq!(IpAddress::V4(0xc0a80101).to_text(), "192.168.1.1");
    assert_eq!(IpAddress::V4(0).to_text(), "0.0.0.0");
    assert_eq!(IpAddress::V4(u32::MAX).to_text(), "255.255.255.255");
}

#[test]
fn ipv6_grouped_hex_text() {
    assert_eq!(
        IpAddress::V6(0x2001_0db8_0000_0000_0000_0000_0000_0001).to_text(),
        "2001:db8:0:0:0:0:0:1"
    );
    assert_eq!(IpAddress::V6(1).to_text(), "0:0:0:0:0:0:0:1");
}

#[test]
fn character_wise_order() {
    assert!(str_lex_leq("", "a"));
    assert!(str_lex_leq("a", "a"));
    assert!(str_lex_leq("10", "7"));
    assert!(!str_lex_leq("7", "10"));
    assert!(str_lex_leq("abc", "abd"));
    assert!(str_lex_leq("ab", "abc"));
    assert!(!str_lex_leq("abc", "ab"));
}

#[test]
fn prefix_test() {
    assert!(str_is_prefix_of("", "anything"));
    assert!(str_is_prefix_of("MSS", "MSS,NOP,WS"));
    assert!(str_is_prefix_of("MSS,NOP,WS", "MSS,NOP,WS"));
    assert!(!str_is_prefix_of("MSS,NOP,WS,SACK", "MSS,NOP,WS"));
    assert!(!str_is_prefix_of("NOP", "MSS,NOP,WS"));
}

#[test]
fn hostname_syntax() {
    assert!(is_valid_hostname("example.com"));
    assert!(is_valid_hostname("a"));
    assert!(is_valid_hostname("sub-domain.example.co.jp"));
    assert!(is_valid_hostname("192.168.1.1"));
    assert!(!is_valid_hostname(""));
    assert!(!is_valid_hostname(".example.com"));
    assert!(!is_valid_hostname("example.com."));
    assert!(!is_valid_hostname("exa mple.com"));
    assert!(!is_valid_hostname("double..dot"));
    assert!(!is_valid_hostname("-leading.example"));
    assert!(!is_valid_hostname("trailing-.example"));
    assert!(!is_valid_hostname(&"a".repeat(254)));
}

#[test]
fn target_syntax_accepts_addresses_and_names() {
    assert!(is_valid_target("example.com"));
    assert!(is_valid_target("10.0.0.1"));
    assert!(is_valid_target("2001:db8:0:0:0:0:0:1"));
    assert!(is_colon_hex("2001:db8:0:0:0:0:0:1"));
    assert!(!is_valid_target(""));
    assert!(!is_valid_target("not a host"));
}

#[test]
fn subdomain_names_join_word_and_apex() {
    assert_eq!(subdomain_name("www", "example.com"), "www.example.com");
    assert_eq!(subdomain_name("a", "b"), "a.b");
}
