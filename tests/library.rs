use tiny_keccak::{Hasher, Keccak};
use wise::{
    compute_node, decode_content_hash, is_name, namehash, split_content_hash, strip,
    ContentScheme, WiseError,
};

fn keccak(data: &[u8]) -> Vec<u8> {
    let mut out = [0u8; 32];
    let mut k = Keccak::v256();
    k.update(data);
    k.finalize(&mut out);
    out.to_vec()
}

fn unhex(s: &str) -> Vec<u8> {
    (0..s.len() / 2)
        .map(|i| u8::from_str_radix(&s[2 * i..2 * i + 2], 16).unwrap())
        .collect()
}

fn ok(id: &str, scheme: &str) -> Result<(String, String), WiseError> {
    Ok((id.to_string(), scheme.to_string()))
}

#[test]
fn empty_name_is_root() {
    assert_eq!(namehash(""), vec![0u8; 32]);
    assert_eq!(compute_node(""), [0u8; 32]);
}

#[test]
fn eth_golden_vector() {
    assert_eq!(
        namehash("eth"),
        unhex("93cdeb708b7545dc668eb9280176169d1c33cfd8ed6f04690a0bcc88a93fc4ae")
    );
}

#[test]
fn foo_eth_golden_vector() {
    let expected = unhex("de9b09fd7c5f901e23a3f19fecc54828e9c848539801e86591bd9801b019f84f");
    assert_eq!(namehash("foo.eth"), expected);
    assert_eq!(compute_node("foo.eth").to_vec(), expected);
}

#[test]
fn namehash_is_deterministic() {
    assert_eq!(namehash("mizuki.eth"), namehash("mizuki.eth"));
    assert_eq!(compute_node("a.b.c"), compute_node("a.b.c"));
}

#[test]
fn namehash_binds_parent_node() {
    let mut joined = namehash("eth");
    joined.extend_from_slice(&keccak(b"foo"));
    assert_eq!(namehash("foo.eth"), keccak(&joined));
    let mut root = vec![0u8; 32];
    root.extend_from_slice(&keccak(b"eth"));
    assert_eq!(namehash("eth"), keccak(&root));
}

#[test]
fn namehash_total_on_odd_names() {
    for name in ["a..b", ".", "..", "eth.", ".eth", "ünïcödé.eth", "名前.eth"] {
        assert_eq!(namehash(name).len(), 32);
    }
    assert_ne!(namehash("a..b"), namehash("a.b"));
    let mut dot = vec![0u8; 32];
    dot.extend_from_slice(&keccak(b""));
    let once = keccak(&dot);
    let mut twice = once.clone();
    twice.extend_from_slice(&keccak(b""));
    assert_eq!(namehash("."), keccak(&twice));
}

#[test]
fn ipfs_content_hash_decodes_to_base58() {
    assert_eq!(
        decode_content_hash(
            "0xe301017012205cf128dcc4ef93cb5b900d30540ce1ab25328e450c7f5f9b3a6d338a2f8c1294"
        ),
        ok("QmUbTVz1L4uEvAPg5QcSu8Pow1YdwshDJ8VbyYjWaJv4JP", "ipfs-ns")
    );
}

#[test]
fn swarm_content_hash_decodes_to_text() {
    assert_eq!(
        decode_content_hash("0xe46578616d706c652e657468"),
        ok("example.eth", "swarm-ns")
    );
    assert_eq!(decode_content_hash("0xE4656565"), ok("eee", "swarm-ns"));
}

#[test]
fn ipns_content_hash_drops_header_and_trailer() {
    assert_eq!(
        decode_content_hash("0xe501017201220abcd0"),
        ok("TskZJ", "ipns-ns")
    );
    assert_eq!(decode_content_hash("0xe501017200"), ok("", "ipns-ns"));
}

#[test]
fn other_tags_fall_back_to_text() {
    assert_eq!(decode_content_hash("0x0168656c6c6f"), ok("hello", "utf-8"));
    assert_eq!(decode_content_hash("0x00"), ok("", "utf-8"));
    assert_eq!(decode_content_hash("0xe3010170"), ok("", "ipfs-ns"));
}

#[test]
fn short_input_is_truncated() {
    for val in ["0x", "0xa", "0xz", "0xe301", "0xe30101", "0xe5010172", "0xe50101"] {
        assert_eq!(decode_content_hash(val), Err(WiseError::TruncatedInput), "{}", val);
    }
}

#[test]
fn malformed_hex_is_invalid() {
    for val in ["0xabc", "0xzz", "e46565", "", "0Xe465", "0xe3010170zz", "0xe46g"] {
        assert_eq!(decode_content_hash(val), Err(WiseError::InvalidHexEncoding), "{}", val);
    }
}

#[test]
fn bad_text_payload_is_invalid_utf8() {
    assert_eq!(decode_content_hash("0xe4ff"), Err(WiseError::InvalidUtf8Payload));
    assert_eq!(decode_content_hash("0x00c3"), Err(WiseError::InvalidUtf8Payload));
}

#[test]
fn split_gives_scheme_and_payload() {
    assert_eq!(
        split_content_hash("0xe301017012ab"),
        Ok((ContentScheme::IpfsNs, vec![0x12, 0xab]))
    );
    assert_eq!(
        split_content_hash("0xe40012"),
        Ok((ContentScheme::SwarmNs, vec![0x00, 0x12]))
    );
    assert_eq!(split_content_hash("0x7f41"), Ok((ContentScheme::Utf8, vec![0x41])));
    assert_eq!(split_content_hash("0xe4"), Ok((ContentScheme::SwarmNs, vec![])));
}

#[test]
fn schemes_by_tag() {
    assert_eq!(ContentScheme::from_tag(0xe3), ContentScheme::IpfsNs);
    assert_eq!(ContentScheme::from_tag(0xe4), ContentScheme::SwarmNs);
    assert_eq!(ContentScheme::from_tag(0xe5), ContentScheme::IpnsNs);
    assert_eq!(ContentScheme::from_tag(0xe6), ContentScheme::Utf8);
    assert_eq!(ContentScheme::IpnsNs.name(), "ipns-ns");
    assert_eq!(ContentScheme::Utf8.header_digits(), 2);
    assert_eq!(ContentScheme::IpnsNs.trailer_digits(), 1);
}

#[test]
fn base58_keeps_leading_zero_bytes() {
    assert_eq!(decode_content_hash("0xe30101700012"), ok("1K", "ipfs-ns"));
}

#[test]
fn names_must_end_in_eth() {
    assert_eq!(is_name("mizuki.eth"), Ok(()));
    assert_eq!(is_name(".eth"), Ok(()));
    assert_eq!(
        is_name("mizuki.com"),
        Err(WiseError::InvalidArgvName("the name format must be ***.eth".to_string()))
    );
    assert!(is_name("eth").is_err());
    assert!(is_name("").is_err());
}

#[test]
fn strip_drops_the_quotes() {
    assert_eq!(strip("\"0xe301\""), "0xe301");
    assert_eq!(strip("\"\""), "");
    assert_eq!(strip("'é'"), "é");
}
