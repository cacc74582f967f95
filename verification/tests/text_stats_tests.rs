use anchr::commands::{parse_command, Command};
use anchr::config::RfsConfig;
use anchr::hashing::{content_hash, hash_matches};
use anchr::stats::{format_bytes, format_speed_and_size, format_stats, Stats};
use anchr::text::{split_tokens, trim, u64_dec_string};

#[test]
fn tokens_split_on_whitespace_runs() {
    let toks = split_tokens("  rfs   upload\t/d/x  f.txt \n");
    assert_eq!(toks, vec!["rfs", "upload", "/d/x", "f.txt"]);
    assert!(split_tokens("   ").is_empty());
    assert!(split_tokens("").is_empty());
}

#[test]
fn command_words() {
    assert_eq!(parse_command(""), Command::Empty);
    assert_eq!(parse_command("ping"), Command::Ping);
    assert_eq!(parse_command("  PING  "), Command::Ping);
    assert_eq!(parse_command("Drop"), Command::Drop);
    assert_eq!(parse_command("rfs list"), Command::RfsList);
    assert_eq!(parse_command("RFS list extra"), Command::RfsList);
    assert_eq!(
        parse_command("rfs upload /vol/dir ./local.bin"),
        Command::RfsUpload {
            target_dir: "/vol/dir".to_string(),
            local_path: "./local.bin".to_string()
        }
    );
    assert_eq!(parse_command("rfs upload onlyone"), Command::RfsUploadUsage);
    assert_eq!(parse_command("rfs upload a b c"), Command::RfsUploadUsage);
    assert_eq!(parse_command("rfs"), Command::RfsUsage);
    assert_eq!(parse_command("rfs bogus"), Command::RfsUsage);
    assert_eq!(parse_command("hello world"), Command::Unknown);
    // The subcommand is matched exactly, not case-folded.
    assert_eq!(parse_command("rfs LIST"), Command::RfsUsage);
}

#[test]
fn decimal_spelling() {
    assert_eq!(u64_dec_string(0), "0");
    assert_eq!(u64_dec_string(7), "7");
    assert_eq!(u64_dec_string(10), "10");
    assert_eq!(u64_dec_string(1048576), "1048576");
    assert_eq!(u64_dec_string(u64::MAX), "18446744073709551615");
}

#[test]
fn trimming() {
    assert_eq!(trim("  abc \n"), "abc");
    assert_eq!(trim("abc"), "abc");
    assert_eq!(trim(" \t\r\n "), "");
    assert_eq!(trim(""), "");
    assert_eq!(trim("a b"), "a b");
}

#[test]
fn byte_counts_with_binary_units() {
    assert_eq!(format_bytes(0), "0 B");
    assert_eq!(format_bytes(512), "512 B");
    assert_eq!(format_bytes(1024), "1.00 KiB");
    assert_eq!(format_bytes(1536), "1.50 KiB");
    assert_eq!(format_bytes(10 * 1024 + 256), "10.25 KiB");
    assert_eq!(format_bytes(1_048_576), "1.00 MiB");
    assert_eq!(format_bytes(1_073_741_824), "1.00 GiB");
    assert_eq!(format_bytes(2_684_354_560), "2.50 GiB");
}

#[test]
fn status_line() {
    let s = Stats { tx_bytes: 0, rx_bytes: 2048, last_msg_id: 7, pool_count: 3 };
    assert_eq!(format_stats(&s), "tx: 0 B | rx: 2.00 KiB | c:7 | p:3");
}

#[test]
fn size_and_speed_summary() {
    let (size, speed) = format_speed_and_size(1_048_576, 1_000);
    assert_eq!(size, "1.00 MB");
    assert_eq!(speed, "1.00 MB/s");
    let (size, speed) = format_speed_and_size(512, 2_000);
    assert_eq!(size, "512 Bytes");
    assert_eq!(speed, "256 B/s");
    let (size, speed) = format_speed_and_size(100, 0);
    assert_eq!(size, "100 Bytes");
    assert_eq!(speed, "N/A");
    let (size, speed) = format_speed_and_size(3_221_225_472, 1_000);
    assert_eq!(size, "3.00 GB");
    assert_eq!(speed, "3.00 GB/s");
}

#[test]
fn content_hashes_spell_lowercase_hex() {
    // The classic SHA-256 vectors: the empty input and "abc".
    assert_eq!(
        content_hash(b""),
        "e3b0c44298fc1c149afbf4c8996fb92427ae41e4649b934ca495991b7852b855"
    );
    assert_eq!(
        content_hash(b"abc"),
        "ba7816bf8f01cfea414140de5dae2223b00361a396177a9cb410ff61f20015ad"
    );
    assert!(hash_matches(
        b"abc",
        "ba7816bf8f01cfea414140de5dae2223b00361a396177a9cb410ff61f20015ad"
    ));
    assert!(!hash_matches(b"abc", "ba7816bf"));
    assert!(!hash_matches(
        b"abd",
        "ba7816bf8f01cfea414140de5dae2223b00361a396177a9cb410ff61f20015ad"
    ));
}

#[test]
fn volume_list_display() {
    let vols = vec![
        RfsConfig { dev_name: "d1".to_string(), bind_path: "/srv/a".to_string() },
        RfsConfig { dev_name: "d2".to_string(), bind_path: "/srv/b".to_string() },
    ];
    assert_eq!(
        anchr::stats::format_volume_list(&vols),
        "Volume List Received:\n  [0] dev_name: 'd1', bind_path: '/srv/a'\n  [1] dev_name: 'd2', bind_path: '/srv/b'"
    );
    assert_eq!(anchr::stats::format_volume_list(&vec![]), "Volume List Received:");
}
