use streamcore_rust_sdk::icerestart::{
    apply_ice_fragment, bump_sdp_origin, can_apply_ice_fragment, ice_fragment_from_sdp,
    parse_ice_details, split_sdp_lines, IceDetails,
};

const REMOTE_ANSWER: &str = "v=0\r\n\
o=- 4611731400430051336 2 IN IP4 127.0.0.1\r\n\
s=-\r\n\
t=0 0\r\n\
a=group:BUNDLE 0 1\r\n\
m=audio 9 UDP/TLS/RTP/SAVPF 111\r\n\
c=IN IP4 0.0.0.0\r\n\
a=mid:0\r\n\
a=ice-ufrag:oldU\r\n\
a=ice-pwd:oldPassword0000000000\r\n\
a=fingerprint:sha-256 AA:BB:CC\r\n\
a=candidate:1 1 udp 2130706431 192.0.2.10 41000 typ host\r\n\
a=end-of-candidates\r\n\
a=rtpmap:111 opus/48000/2\r\n\
a=ssrc:12345 cname:stream\r\n\
m=application 9 UDP/DTLS/SCTP webrtc-datachannel\r\n\
a=mid:1\r\n\
a=ice-ufrag:oldU\r\n\
a=ice-pwd:oldPassword0000000000\r\n";

const SERVER_FRAGMENT: &str = "a=ice-ufrag:newU\r\n\
a=ice-pwd:newPassword111111111\r\n\
m=audio 9 UDP/TLS/RTP/SAVPF 111\r\n\
a=mid:0\r\n\
a=candidate:1 1 udp 2130706431 198.51.100.1 39132 typ host\r\n";

#[test]
fn parses_credentials_and_candidates() {
    let details = parse_ice_details(SERVER_FRAGMENT);
    assert_eq!(details.ufrag, "newU");
    assert_eq!(details.pwd, "newPassword111111111");
    assert_eq!(details.candidates.len(), 1);
}

#[test]
fn parses_lf_only_bodies() {
    let details = parse_ice_details("a=ice-ufrag:newU\na=ice-pwd:pw\n");
    assert_eq!(details.ufrag, "newU");
    assert_eq!(details.pwd, "pw");
}

#[test]
fn builds_a_fragment_from_the_bundle_master_only() {
    let local = "v=0\r\n\
m=audio 9 UDP/TLS/RTP/SAVPF 111\r\n\
a=mid:0\r\n\
a=ice-ufrag:localU\r\n\
a=ice-pwd:localPassword222222\r\n\
a=candidate:1 1 udp 2130706431 198.51.100.7 51000 typ host\r\n\
m=application 9 UDP/DTLS/SCTP webrtc-datachannel\r\n\
a=mid:1\r\n\
a=candidate:9 1 udp 1 10.0.0.1 1 typ host\r\n";
    let frag = ice_fragment_from_sdp(local);

    assert!(frag.contains("a=ice-ufrag:localU"));
    assert!(frag.contains("a=ice-pwd:localPassword222222"));
    assert!(frag.contains("m=audio 9 UDP/TLS/RTP/SAVPF 111"));
    assert!(frag.contains("a=mid:0"));
    assert!(frag.contains("198.51.100.7"));
    assert!(frag.ends_with("a=end-of-candidates\r\n"));
    // Bundled sections are not described.
    assert!(!frag.contains("m=application"));
    assert!(!frag.contains("10.0.0.1"));
}

#[test]
fn folds_a_fragment_into_the_stored_answer() {
    let applied = apply_ice_fragment(REMOTE_ANSWER, SERVER_FRAGMENT).unwrap();

    assert!(!applied.contains("oldU"));
    assert!(!applied.contains("oldPassword0000000000"));
    // Both bundled sections must agree on the new credentials.
    assert_eq!(applied.matches("a=ice-ufrag:newU").count(), 2);
    assert_eq!(applied.matches("a=ice-pwd:newPassword111111111").count(), 2);

    // Stale candidates go, new ones arrive.
    assert!(!applied.contains("192.0.2.10"));
    assert!(applied.contains("a=candidate:1 1 udp 2130706431 198.51.100.1 39132 typ host"));

    // Everything the transport is not responsible for survives verbatim.
    for must in [
        "a=mid:0",
        "a=mid:1",
        "a=ssrc:12345 cname:stream",
        "a=fingerprint:sha-256 AA:BB:CC",
        "a=rtpmap:111 opus/48000/2",
        "a=group:BUNDLE 0 1",
        "m=application 9 UDP/DTLS/SCTP webrtc-datachannel",
    ] {
        assert!(applied.contains(must), "rewrite dropped {must}");
    }

    // A new revision of the same session.
    assert!(applied.contains("o=- 4611731400430051336 3 IN IP4 127.0.0.1"));
}

#[test]
fn candidates_land_in_the_first_media_section() {
    let applied = apply_ice_fragment(REMOTE_ANSWER, SERVER_FRAGMENT).unwrap();
    let audio = applied.find("m=audio").unwrap();
    let app = applied.find("m=application").unwrap();
    let candidate = applied.find("a=candidate:").unwrap();
    assert!(candidate > audio && candidate < app);
}

#[test]
fn rejects_a_fragment_without_credentials() {
    let trickle = "m=audio 9 UDP/TLS/RTP/SAVPF 111\r\na=candidate:1 1 udp 1 1.2.3.4 1 typ host\r\n";
    assert!(apply_ice_fragment(REMOTE_ANSWER, trickle).is_none());
}

#[test]
fn leaves_a_malformed_origin_alone() {
    assert_eq!(bump_sdp_origin("o=- 123"), "o=- 123");
    assert_eq!(
        bump_sdp_origin("o=- 123 abc IN IP4 127.0.0.1"),
        "o=- 123 abc IN IP4 127.0.0.1"
    );
}

#[test]
fn folded_answer_is_exact() {
    let applied = apply_ice_fragment(REMOTE_ANSWER, SERVER_FRAGMENT).unwrap();
    let expected = "v=0\r\n\
o=- 4611731400430051336 3 IN IP4 127.0.0.1\r\n\
s=-\r\n\
t=0 0\r\n\
a=group:BUNDLE 0 1\r\n\
m=audio 9 UDP/TLS/RTP/SAVPF 111\r\n\
c=IN IP4 0.0.0.0\r\n\
a=mid:0\r\n\
a=ice-ufrag:newU\r\n\
a=ice-pwd:newPassword111111111\r\n\
a=fingerprint:sha-256 AA:BB:CC\r\n\
a=rtpmap:111 opus/48000/2\r\n\
a=ssrc:12345 cname:stream\r\n\
a=candidate:1 1 udp 2130706431 198.51.100.1 39132 typ host\r\n\
a=end-of-candidates\r\n\
m=application 9 UDP/DTLS/SCTP webrtc-datachannel\r\n\
a=mid:1\r\n\
a=ice-ufrag:newU\r\n\
a=ice-pwd:newPassword111111111\r\n";
    assert_eq!(applied, expected);
}

#[test]
fn fragment_is_exact() {
    let local = "a=ice-ufrag:U\nm=audio 9 X 1\na=ice-pwd:P\na=mid:a\na=candidate:c1\na=candidate:c2\nm=video\na=mid:b\n";
    assert_eq!(
        ice_fragment_from_sdp(local),
        "a=ice-ufrag:U\r\na=ice-pwd:P\r\nm=audio 9 X 1\r\na=mid:a\r\na=candidate:c1\r\na=candidate:c2\r\na=end-of-candidates\r\n"
    );
    assert_eq!(ice_fragment_from_sdp(""), "a=end-of-candidates\r\n");
}

#[test]
fn reading_a_fragment_gives_back_the_bundle_master() {
    let local = "v=0\r\na=ice-ufrag:U\r\nm=audio\r\na=ice-pwd:P\r\na=candidate:c1\r\nm=video\r\na=candidate:c2\r\n";
    let told = parse_ice_details(&ice_fragment_from_sdp(local));
    assert_eq!(told.ufrag, "U");
    assert_eq!(told.pwd, "P");
    assert_eq!(told.candidates, vec!["c1".to_string()]);
}

#[test]
fn first_value_that_is_not_empty_wins() {
    let details = parse_ice_details("a=ice-ufrag:\na=ice-ufrag:one\na=ice-ufrag:two\na=ice-pwd:p\n");
    assert_eq!(details.ufrag, "one");
    assert_eq!(details.pwd, "p");
    let none: IceDetails = IceDetails::default();
    assert_eq!(none.ufrag, "");
    assert_eq!(none.pwd, "");
    assert!(none.candidates.is_empty());
}

#[test]
fn lines_drop_carriage_returns_and_blanks() {
    assert_eq!(
        split_sdp_lines("\r\n\na\r\r\nb\rc\n\nd"),
        vec!["a".to_string(), "b\rc".to_string(), "d".to_string()]
    );
}

#[test]
fn line_endings_make_no_difference() {
    let lf = REMOTE_ANSWER.replace("\r\n", "\n");
    assert_eq!(split_sdp_lines(&lf), split_sdp_lines(REMOTE_ANSWER));
    assert_eq!(
        apply_ice_fragment(&lf, SERVER_FRAGMENT),
        apply_ice_fragment(REMOTE_ANSWER, SERVER_FRAGMENT)
    );
}

#[test]
fn answer_without_media_takes_candidates_at_the_end() {
    assert_eq!(
        apply_ice_fragment("v=0\r\na=ice-ufrag:x\r\n", "a=ice-ufrag:U\r\na=ice-pwd:P\r\na=candidate:c\r\n").unwrap(),
        "v=0\r\na=ice-ufrag:U\r\na=candidate:c\r\na=end-of-candidates\r\n"
    );
    assert_eq!(
        apply_ice_fragment("", "a=ice-ufrag:U\r\na=ice-pwd:P\r\n").unwrap(),
        "\r\n"
    );
}

#[test]
fn later_fold_supersedes_an_earlier_one() {
    let second = "a=ice-ufrag:U2\r\na=ice-pwd:P2\r\na=candidate:z\r\n";
    let once = apply_ice_fragment(REMOTE_ANSWER, second).unwrap();
    let first = apply_ice_fragment(REMOTE_ANSWER, SERVER_FRAGMENT).unwrap();
    let twice = apply_ice_fragment(&first, second).unwrap();
    assert_eq!(twice, once.replace("6 3 IN", "6 4 IN"));
}

#[test]
fn bumps_the_session_version() {
    assert_eq!(bump_sdp_origin("o=- 1 9 IN IP4 h"), "o=- 1 10 IN IP4 h");
    assert_eq!(bump_sdp_origin("o=-  1\t+9 IN IP4  h "), "o=- 1 10 IN IP4 h");
    assert_eq!(
        bump_sdp_origin("o=- 1 18446744073709551614 IN IP4 h"),
        "o=- 1 18446744073709551615 IN IP4 h"
    );
    // Too large to be a version at all.
    assert_eq!(
        bump_sdp_origin("o=- 1 18446744073709551616 IN IP4 h"),
        "o=- 1 18446744073709551616 IN IP4 h"
    );
}

#[test]
fn version_at_its_maximum_cannot_be_folded() {
    let last = "o=- 1 18446744073709551615 IN IP4 h\r\n";
    assert!(!can_apply_ice_fragment(last, SERVER_FRAGMENT));
    assert!(can_apply_ice_fragment(last, "a=mid:0\r\n"));
    assert!(apply_ice_fragment(last, "a=mid:0\r\n").is_none());
    assert!(can_apply_ice_fragment(REMOTE_ANSWER, SERVER_FRAGMENT));
}
