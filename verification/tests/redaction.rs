use innkeeper::redact::redact;

#[test]
fn redacting_twice_changes_nothing() {
    for text in [
        "before\nhttps://desktop/#token=opaque / + ? trailing\nafter",
        "#token=#token=abc\n#token=\n",
        "no token here",
        "",
        "a#token=b",
    ] {
        let once = redact(text);
        assert_eq!(redact(&once), once);
        assert!(!once.contains("opaque") && !once.contains("abc"));
    }
    assert_eq!(redact("a#token=b"), "a#token=[REDACTED]");
    assert_eq!(redact("x\r\n#token=y\r\n"), "x\r\n#token=[REDACTED]\n");
}
