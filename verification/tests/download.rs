use flint::download::{
    content_range_total, download_verdict, part_path, sha256_hex_of, verify_existing, DigestStream,
    DownloadRun, RangeDecision, RangeState,
};
use flint::text::hex;
use flint::types::pct;
use flint::AppError;

#[test]
fn part_file_sits_beside_the_destination() {
    assert_eq!(part_path("/m/model.gguf"), "/m/model.gguf.part");
}

#[test]
fn content_range_gives_the_total() {
    assert_eq!(content_range_total("bytes 8-15/16"), Some(16));
    assert_eq!(content_range_total("bytes 0-0/ 42 "), Some(42));
    assert_eq!(content_range_total("bytes 0-9/*"), None);
    assert_eq!(content_range_total("123"), Some(123));
    assert_eq!(content_range_total("bytes 1-2/+7"), Some(7));
    assert_eq!(content_range_total("bytes 1-2/18446744073709551616"), None);
    assert_eq!(content_range_total("bytes 1-2/"), None);
}

#[test]
fn percent_is_rounded_to_a_tenth() {
    assert_eq!(pct(0, 0), 0);
    assert_eq!(pct(30, 100), 300);
    assert_eq!(pct(1, 3), 333);
    assert_eq!(pct(2, 3), 667);
    assert_eq!(pct(16, 16), 1000);
    assert_eq!(pct(1, 2000), 1); // 0.05 % rounds up
}

#[test]
fn hex_is_lowercase_two_digits_per_byte() {
    assert_eq!(hex(&[0x00, 0x0f, 0xab, 0xff]), "000fabff");
    assert_eq!(hex(&[]), "");
}

#[test]
fn sha256_of_known_inputs() {
    assert_eq!(
        sha256_hex_of(b""),
        "e3b0c44298fc1c149afbf4c8996fb92427ae41e4649b934ca495991b7852b855"
    );
    assert_eq!(
        sha256_hex_of(b"abc"),
        "ba7816bf8f01cfea414140de5dae2223b00361a396177a9cb410ff61f20015ad"
    );
}

#[test]
fn chunked_digest_equals_one_shot() {
    let data = b"0123456789abcdef";
    let mut d = DigestStream::new();
    d.update(&data[..5]);
    d.update(&data[5..]);
    assert_eq!(d.finish_hex(), sha256_hex_of(data));
}

#[test]
fn fresh_download_verifies() {
    let body = b"hello model bytes";
    let digest = sha256_hex_of(body);
    let mut run = DownloadRun::new(0, body.len() as u64);
    assert_eq!(run.on_chunk(&body[..4], false), None);
    let p = run.on_chunk(&body[4..], false).unwrap();
    assert_eq!(p.completed, body.len() as u64);
    assert_eq!(p.percent_tenths, 1000);
    let (verifying, done) = run.finish(&digest);
    assert_eq!(verifying.status, "verifying sha256 digest");
    let done = done.unwrap();
    assert_eq!(done.status, "success");
    assert_eq!(done.percent_tenths, 1000);
}

#[test]
fn resumable_from_partial_part() {
    let full = b"0123456789abcdef";
    let digest = sha256_hex_of(full);
    let mut run = DownloadRun::new(8, 16);
    assert_eq!(run.hashed_len(), 0);
    run.hash_existing(&full[..8]);
    assert_eq!(run.written(), 8);
    assert_eq!(run.hashed_len(), 8);
    let p = run.on_chunk(&full[8..], true).unwrap();
    assert_eq!((p.completed, p.total), (16, 16));
    assert!(run.finish(&digest).1.is_ok());
}

#[test]
fn corrupt_digest_fails() {
    let mut run = DownloadRun::new(0, 10);
    run.on_chunk(b"some bytes", false);
    let expected = sha256_hex_of(b"different bytes");
    let (_, res) = run.finish(&expected);
    let msg = res.unwrap_err();
    assert!(msg.contains("sha256 mismatch"));
    assert!(msg.ends_with(&expected));
}

#[test]
fn already_installed_is_a_noop() {
    let d = sha256_hex_of(b"installed model");
    let p = verify_existing(&d, &d, 15, "/m/model.gguf").unwrap();
    assert_eq!(p.status, "success");
    assert_eq!((p.completed, p.total, p.percent_tenths), (15, 15, 1000));
    let e = verify_existing(&d, "00", 15, "/m/model.gguf").unwrap_err();
    assert_eq!(
        e,
        AppError::Engine("existing model failed verification (/m/model.gguf); delete it and retry".into())
    );
}

#[test]
fn range_answers() {
    let mut s = RangeState { offset: 8, attempts: 0 };
    assert_eq!(
        s.on_response(206, "206 Partial Content", Some("bytes 8-15/16".into()), None),
        RangeDecision::Proceed { total: 16 }
    );
    assert_eq!(
        s.on_response(206, "206 Partial Content", None, None),
        RangeDecision::Fail("download: missing Content-Range".into())
    );
    // the server ignored the range: restart once, then give up
    assert_eq!(s.on_response(200, "200 OK", None, Some(16)), RangeDecision::Restart { give_up: None });
    assert_eq!((s.offset, s.attempts), (0, 1));
    assert_eq!(s.on_response(200, "200 OK", None, Some(16)), RangeDecision::Proceed { total: 16 });
    assert_eq!(s.on_response(200, "200 OK", None, None), RangeDecision::Fail("download: no Content-Length".into()));
    s.offset = 4;
    assert_eq!(
        s.on_response(200, "200 OK", None, Some(16)),
        RangeDecision::Restart { give_up: Some("download: server kept ignoring Range".into()) }
    );
    let mut t = RangeState { offset: 4, attempts: 0 };
    assert_eq!(t.on_response(416, "416 Range Not Satisfiable", None, None), RangeDecision::Restart { give_up: None });
    assert_eq!(
        t.on_response(416, "416 Range Not Satisfiable", None, None),
        RangeDecision::Restart { give_up: Some("download: unsatisfiable Range".into()) }
    );
    assert_eq!(
        t.on_response(404, "404 Not Found", None, None),
        RangeDecision::Fail("download http 404 Not Found".into())
    );
}

#[test]
fn percent_never_exceeds_a_hundred_within_the_total() {
    for total in [1u64, 2, 3, 7, 1000, u64::MAX] {
        for completed in [0, 1, total / 2, total - 1, total] {
            assert!(pct(completed, total) <= 1000, "{completed}/{total}");
        }
        assert_eq!(pct(total, total), 1000);
    }
}

#[test]
fn verdict_keeps_only_a_matching_digest() {
    let (verifying, ok) = download_verdict("abc", "abc", 16, 16);
    assert_eq!(verifying.status, "verifying sha256 digest");
    assert_eq!((verifying.completed, verifying.total, verifying.percent_tenths), (16, 16, 1000));
    let ok = ok.unwrap();
    assert_eq!((ok.status.as_str(), ok.completed, ok.percent_tenths), ("success", 16, 1000));
    let (_, bad) = download_verdict("abd", "abc", 16, 16);
    assert_eq!(bad.unwrap_err(), "sha256 mismatch: got abd, expected abc");
}
