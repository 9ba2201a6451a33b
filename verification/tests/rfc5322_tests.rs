use email::Rfc5322Builder;

#[test]
fn test_builder_folding() {
    let tests = vec![
        (
            "A long line that should get folded on a space at some point around here, possibly at this point.",
            "A long line that should get folded on a space at some point around here,\r\n\
             \tpossibly at this point.",
        ),
        (
            "A long line that should get folded on a space at some point around here, possibly at this point. And yet more content that will get folded onto another line.",
            "A long line that should get folded on a space at some point around here,\r\n\
             \tpossibly at this point. And yet more content that will get folded onto another\r\n\
             \tline.",
        ),
    ];

    for (input, expected) in tests.into_iter() {
        let mut gen = Rfc5322Builder::new();
        gen.emit_folded(input);
        assert_eq!(gen.result(), &expected.to_string());
    }
}

#[test]
fn test_folding_leaves_short_lines_alone() {
    // Folding is idempotent on text already within the limit.
    let inputs = vec![
        "",
        "short",
        "a line with spaces that stays well within seventy-eight columns",
        "two\r\nshort lines that both stay within the limit",
    ];
    for input in inputs.into_iter() {
        let mut gen = Rfc5322Builder::new();
        gen.emit_folded(input);
        assert_eq!(gen.result(), &input.to_string());
        let mut again = Rfc5322Builder::new();
        again.emit_folded(gen.result().as_str());
        assert_eq!(again.result(), &input.to_string());
    }
}

#[test]
fn test_emit_raw_appends() {
    let mut gen = Rfc5322Builder::new();
    gen.emit_raw("abc");
    gen.emit_raw("def");
    assert_eq!(gen.result(), &"abcdef".to_string());
}

#[test]
fn test_unbreakable_run_not_forced_apart() {
    // No space has been seen, so a long run is never split.
    let input = "x".repeat(200);
    let mut gen = Rfc5322Builder::new();
    gen.emit_folded(input.as_str());
    assert_eq!(gen.result(), &input);
}
