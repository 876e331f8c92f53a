use kete::args::{arg_kind, key_source, looks_like_path, parse_args, ArgKind, Args, Invocation, KeySource};
use kete::entries::{
    decrypt_exit, gather_targets, open_entry, structural_exit, Found, Label, TargetError,
};
use kete::hex::{hex_preview, parse_hex32};
use kete::render::{render_inspected, render_value, show_plain, Rendering};
use kete::{derive_addr_key, derive_entry_addr, derive_scoped_addr, encrypt_bytes};

fn argv(words: &[&str]) -> Vec<String> {
    words.iter().map(|w| w.to_string()).collect()
}

fn decrypting(words: &[&str]) -> (String, String, String, String, Args) {
    match parse_args(&argv(words)) {
        Invocation::Decrypt { id, dir, seed, secret, args } => (id, dir, seed, secret, args),
        _ => panic!("decryption was asked for"),
    }
}

#[test]
fn no_arguments_show_the_usage_as_a_failure() {
    assert!(matches!(parse_args(&argv(&[])), Invocation::Usage { exit: 1 }));
}

#[test]
fn help_wins_over_everything() {
    for words in [&["-h"][..], &["--help"], &["--nonsense", "--help"], &["--app", "-h"]] {
        assert!(matches!(parse_args(&argv(words)), Invocation::Usage { exit: 0 }));
    }
}

#[test]
fn unknown_options_are_refused() {
    match parse_args(&argv(&["ring.vsf", "--frob", "--other"])) {
        Invocation::UnknownOption { option } => assert_eq!(option, "--frob"),
        _ => panic!("--frob is no option"),
    }
    assert!(matches!(parse_args(&argv(&["--"])), Invocation::UnknownOption { .. }));
}

#[test]
fn a_bare_file_is_shown() {
    match parse_args(&argv(&["/tmp/ring.vsf"])) {
        Invocation::ShowFile { path } => assert_eq!(path, "/tmp/ring.vsf"),
        _ => panic!("a file was given"),
    }
    assert!(matches!(parse_args(&argv(&["just-a-key"])), Invocation::NothingToDo));
    assert!(matches!(parse_args(&argv(&["--app", "photon"])), Invocation::NothingToDo));
}

#[test]
fn decryption_needs_all_four() {
    assert!(matches!(parse_args(&argv(&["--seed", "session"])), Invocation::IncompleteDecrypt));
    assert!(matches!(
        parse_args(&argv(&["--app", "a", "--dir", "d", "--seed", "s", "--secret"])),
        Invocation::IncompleteDecrypt
    ));
    let (id, dir, seed, secret, args) = decrypting(&[
        "--app", "photon", "--dir", "Photon", "--seed", "session", "--secret", "device", "contacts",
        "--domain", "avatar", "--domain", "settings", "--addr", "00", "a/b", "c/d", "--scope", "ff",
        "--domain",
    ]);
    assert_eq!((id.as_str(), dir.as_str()), ("photon", "Photon"));
    assert_eq!((seed.as_str(), secret.as_str()), ("session", "device"));
    assert_eq!(args.keys, argv(&["contacts", "c/d"]));
    assert_eq!(args.file.as_deref(), Some("a/b"));
    assert_eq!(args.domains, argv(&["avatar", "settings"]));
    assert_eq!(args.addrs, argv(&["00"]));
    assert_eq!(args.scope.as_deref(), Some("ff"));
}

#[test]
fn the_last_of_an_option_counts() {
    let (id, _, _, _, args) = decrypting(&[
        "--app", "a", "--app", "b", "--dir", "d", "--seed", "s", "--secret", "x", "--scope", "ff",
        "--scope",
    ]);
    assert_eq!(id, "b");
    assert_eq!(args.scope, None);
}

#[test]
fn options_take_the_next_word_whatever_it_is() {
    let (id, _, _, _, args) =
        decrypting(&["--app", "--dir", "--dir", "d", "--seed", "s", "--secret", "x"]);
    assert_eq!(id, "--dir");
    assert!(args.keys.is_empty());
}

#[test]
fn arguments_have_kinds() {
    assert!(arg_kind("--app") == ArgKind::App);
    assert!(arg_kind("--dir") == ArgKind::Dir);
    assert!(arg_kind("--seed") == ArgKind::Seed);
    assert!(arg_kind("--secret") == ArgKind::Secret);
    assert!(arg_kind("--domain") == ArgKind::Domain);
    assert!(arg_kind("--addr") == ArgKind::Addr);
    assert!(arg_kind("--scope") == ArgKind::Scope);
    assert!(arg_kind("--apps") == ArgKind::Unknown);
    assert!(arg_kind("-a") == ArgKind::Word);
    assert!(arg_kind("") == ArgKind::Word);
}

#[test]
fn paths_have_separators_or_the_extension() {
    for path in ["/x", "a\\b", "ring.vsf", ".vsf", "a/"] {
        assert!(looks_like_path(path), "{path}");
    }
    for key in ["", "contacts", "vsf", "ring.vsfx", "fractal7"] {
        assert!(!looks_like_path(key), "{key}");
    }
}

#[test]
fn hex_is_64_digits_of_either_case() {
    let digits = "00ff".repeat(16);
    let mut want = [0u8; 32];
    for i in 0..16 {
        want[2 * i + 1] = 0xff;
    }
    assert_eq!(parse_hex32(&digits), Some(want));
    assert_eq!(parse_hex32(&digits.to_uppercase()), Some(want));
    assert_eq!(parse_hex32("1a".repeat(32).as_str()), Some([0x1a; 32]));
    assert_eq!(parse_hex32(&digits[..63]), None);
    assert_eq!(parse_hex32(&format!("{digits}0")), None);
    assert_eq!(parse_hex32(&"0g".repeat(32)), None);
    assert_eq!(parse_hex32(&"+f".repeat(32)), None);
    assert_eq!(parse_hex32(&"é".repeat(32)), None);
    assert_eq!(parse_hex32(""), None);
}

#[test]
fn previews_show_32_bytes() {
    assert_eq!(hex_preview(&[]), "");
    assert_eq!(hex_preview(&[0x00, 0x0f, 0xa0, 0xff]), "000fa0ff");
    let long: Vec<u8> = (0u8..40).collect();
    assert_eq!(hex_preview(&long).len(), 64);
    assert_eq!(parse_hex32(&hex_preview(&long)).unwrap()[..], long[..32]);
}

#[test]
fn seeds_and_secrets_come_from_word_or_digits() {
    assert!(matches!(key_source("session", "session"), KeySource::Live));
    match key_source(&"0b".repeat(32), "device") {
        KeySource::Bytes(bytes) => assert_eq!(bytes, [0x0b; 32]),
        _ => panic!("64 digits were given"),
    }
    assert!(matches!(key_source("device", "session"), KeySource::Malformed));
    assert!(matches!(key_source("0b", "device"), KeySource::Malformed));
}

fn asked(keys: &[&str], domains: &[&str], addrs: &[&str], scope: Option<&str>) -> Args {
    Args {
        app_id: None,
        app_dir: None,
        seed: None,
        secret: None,
        file: None,
        keys: argv(keys),
        domains: argv(domains),
        addrs: argv(addrs),
        scope: scope.map(|s| s.to_string()),
    }
}

#[test]
fn targets_are_keys_then_domains_then_addresses() {
    let seed = [4u8; 32];
    let digits = "0123456789abcdef".repeat(4);
    let args = asked(&["k"], &["avatar"], &[&digits], None);
    let list = gather_targets("photon", &seed, &args).unwrap();
    assert_eq!(list.len(), 3);
    assert!(matches!(&list[0].label, Label::Key(k) if k == "k"));
    assert_eq!(list[0].addr, derive_entry_addr("photon", "k"));
    assert!(matches!(&list[1].label, Label::Domain(d) if d == "avatar"));
    assert_eq!(list[1].addr, derive_scoped_addr("photon", "avatar", &seed));
    assert!(matches!(&list[2].label, Label::Addr(a) if a == "0123456789abcdef"));
    assert_eq!(Some(list[2].addr), parse_hex32(&digits));
    assert!(gather_targets("photon", &seed, &asked(&[], &[], &[], None)).unwrap().is_empty());
}

#[test]
fn a_scope_replaces_the_seed() {
    let seed = [4u8; 32];
    let scope = "05".repeat(32);
    let list = gather_targets("photon", &seed, &asked(&[], &["d"], &[], Some(&scope))).unwrap();
    assert_eq!(list[0].addr, derive_scoped_addr("photon", "d", &[5u8; 32]));
}

#[test]
fn malformed_targets_are_refused() {
    let seed = [4u8; 32];
    let refused = |args: &Args| match gather_targets("photon", &seed, args) {
        Ok(_) => panic!("malformed"),
        Err(e) => e,
    };
    assert_eq!(refused(&asked(&["k"], &[], &["xx"], Some("yy"))), TargetError::BadScope);
    assert_eq!(refused(&asked(&["k"], &[], &["xx"], None)), TargetError::BadAddr);
}

#[test]
fn entries_open_with_the_store_s_key() {
    let (addr, seed, secret) = ([1u8; 32], [2u8; 32], [3u8; 32]);
    let key = derive_addr_key("photon", &addr, &seed, &secret);
    let stored = encrypt_bytes(b"value", &key).unwrap();
    let open = |got| open_entry("photon", &addr, &seed, &secret, got);
    match open(Ok(Some(stored.clone()))) {
        Found::Value(bytes) => assert_eq!(bytes, b"value"),
        _ => panic!("it opens"),
    }
    match open_entry("photon", &addr, &seed, &[9u8; 32], Ok(Some(stored))) {
        Found::Sealed(message) => assert_eq!(message, "aead::Error"),
        _ => panic!("the secret is another"),
    }
    assert!(matches!(open(Ok(None)), Found::Absent));
    assert!(!open(Ok(None)).failed());
    match open(Err("seal".to_string())) {
        Found::Unreadable(message) => assert_eq!(message, "seal"),
        _ => panic!("the engine failed"),
    }
    assert!(open(Err("seal".to_string())).failed());
    assert!(open(Ok(Some(vec![1]))).failed());
}

#[test]
fn exit_codes_tell_failures() {
    assert_eq!(decrypt_exit(&vec![]), 0);
    assert_eq!(decrypt_exit(&vec![false, false]), 0);
    assert_eq!(decrypt_exit(&vec![false, true]), 2);
    assert_eq!(structural_exit(Some(true)), 0);
    assert_eq!(structural_exit(Some(false)), 2);
    assert_eq!(structural_exit(None), 1);
}

fn shown(plain: &[u8]) -> String {
    match render_value(plain) {
        Rendering::Show(text) => text,
        Rendering::Inspect => panic!("no VSF document"),
    }
}

#[test]
fn text_is_shown_as_text() {
    assert_eq!(shown(b"hello\n\tworld"), "    hello\n\tworld");
    assert_eq!(shown("rārangi — ok".as_bytes()), "    rārangi — ok");
    assert_eq!(shown(b""), "    ");
}

#[test]
fn anything_else_is_shown_in_digits() {
    assert_eq!(shown(b"a\x00b"), "    (binary; first 32 bytes hex: 610062)");
    assert_eq!(shown(b"\r"), "    (binary; first 32 bytes hex: 0d)");
    assert_eq!(shown("\u{85}".as_bytes()), "    (binary; first 32 bytes hex: c285)");
    assert_eq!(shown(&[0xff, 0xfe]), "    (binary; first 32 bytes hex: fffe)");
    assert_eq!(
        shown(&[0xff; 40]),
        format!("    (binary; first 32 bytes hex: {})", "ff".repeat(32))
    );
}

#[test]
fn vsf_documents_go_to_the_inspector() {
    let document = [0x52, 0xC3, 0x85, 0x3C, 0x01];
    assert!(matches!(render_value(&document), Rendering::Inspect));
    assert!(matches!(render_value(&document[..4]), Rendering::Inspect));
    assert!(matches!(render_value(&document[..3]), Rendering::Show(_)));
    assert_eq!(
        render_inspected(&document, Ok("one\r\n\ntwo\rx\n".to_string())),
        argv(&["    one", "    ", "    two\rx"])
    );
    assert!(render_inspected(&document, Ok(String::new())).is_empty());
    assert_eq!(render_inspected(&document, Ok("last\r".to_string())), argv(&["    last\r"]));
    assert_eq!(
        render_inspected(&document, Err("truncated".to_string())),
        argv(&[
            "    (VSF magic but inspect failed: truncated)",
            "    (binary; first 32 bytes hex: 52c3853c01)",
        ])
    );
    assert_eq!(show_plain(&document[..4]), "    RÅ<");
}

#[test]
fn report_lines_are_those_of_the_standard_library() {
    for report in ["", "\n", "\r\n", "a\nb", "a\r\r\nb\n\n", "\r", "x\n\r", "a\n\nb\r\n"] {
        let want: Vec<String> = report.lines().map(|l| format!("    {l}")).collect();
        assert_eq!(render_inspected(b"R", Ok(report.to_string())), want, "{report:?}");
    }
}
