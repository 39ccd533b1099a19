use ciam_store::json::{is_json_bytes, is_json_str, MAX_DEPTH};

fn accepted(texts: &[&str]) {
    for text in texts {
        assert!(is_json_str(text), "should be accepted: {:?}", text);
        assert!(is_json_bytes(text.as_bytes()), "should be accepted: {:?}", text);
    }
}

fn refused(texts: &[&str]) {
    for text in texts {
        assert!(!is_json_str(text), "should be refused: {:?}", text);
    }
}

#[test]
fn the_three_words_are_values() {
    accepted(&["true", "false", "null", " true ", "\n\tnull\r\n"]);
    refused(&["True", "tru", "truee", "nul", "fals", "falsey", "nulll", "t", "f", "n", "TRUE"]);
}

#[test]
fn numbers_follow_the_grammar() {
    accepted(&[
        "0", "-0", "1", "-1", "10", "1234567890", "0.5", "-0.5", "1.25", "1e3", "1E3", "1e+3",
        "1e-3", "1.5e10", "-1.5E-10", "0e0", "0.0", "123456789012345678901234567890",
        "1e999999",
    ]);
    refused(&[
        "", "-", "+1", "01", "-01", "00", "1.", ".5", "-.5", "1.e3", "1e", "1e+", "1e-", "1E",
        "0x10", "1,5", "1 2", "--1", "1e1.5", "NaN", "Infinity", "-Infinity", "1_000",
    ]);
}

#[test]
fn strings_follow_the_grammar() {
    accepted(&[
        "\"\"",
        "\"a\"",
        "\"hello world\"",
        "\"\\\"\"",
        "\"\\\\\"",
        "\"\\/\"",
        "\"\\b\\f\\n\\r\\t\"",
        "\"\\u0041\"",
        "\"\\uabcd\\uABCD\\u0000\"",
        "\"скважина №7\"",
        "\"\u{7f}\"",
        "\"a/b\"",
        "\"'\"",
    ]);
    refused(&[
        "\"",
        "\"a",
        "a\"",
        "'a'",
        "\"\\\"",
        "\"\\a\"",
        "\"\\x41\"",
        "\"\\u\"",
        "\"\\u004\"",
        "\"\\u004g\"",
        "\"\\U0041\"",
        "\"line\nbreak\"",
        "\"tab\there\"",
        "\"\u{0}\"",
        "\"\u{1f}\"",
        "\"a\" \"b\"",
    ]);
}

#[test]
fn arrays_follow_the_grammar() {
    accepted(&[
        "[]",
        "[ ]",
        "[1]",
        "[1,2,3]",
        "[ 1 , 2 , 3 ]",
        "[[],[]]",
        "[[1,[2,[3]]]]",
        "[\"a\", true, null, 1.5, {}, []]",
        "\n[\n1,\n2\n]\n",
    ]);
    refused(&[
        "[", "]", "[1", "[1,", "[1,]", "[,1]", "[,]", "[1 2]", "[1,,2]", "[1]]", "[[1]", "[1;2]",
        "(1)", "[1,2,3", "[\"a]",
    ]);
}

#[test]
fn objects_follow_the_grammar() {
    accepted(&[
        "{}",
        "{ }",
        "{\"a\":1}",
        "{ \"a\" : 1 , \"b\" : [ ] }",
        "{\"a\":{\"b\":{\"c\":null}}}",
        "{\"\":0}",
        "{\"a\":1,\"a\":2}",
        "{\"serial\":\"X-17\",\"channels\":[1,2,3],\"calibrated\":true}",
    ]);
    refused(&[
        "{", "}", "{\"a\"}", "{\"a\":}", "{\"a\":1,}", "{,\"a\":1}", "{a:1}", "{'a':1}", "{1:1}",
        "{\"a\" 1}", "{\"a\":1 \"b\":2}", "{\"a\":1}}", "{\"a\":1", "{\"a\"::1}", "{null:1}",
        "{\"a\":1;\"b\":2}",
    ]);
}

#[test]
fn one_value_and_nothing_else() {
    accepted(&[" 1 ", "\t[1]\n", " {} "]);
    refused(&["", " ", "\n", "1 1", "[] []", "{} 1", "1,", "// c\n1", "1 // c", "\u{feff}1", "\u{a0}1"]);
}

#[test]
fn nesting_is_bounded() {
    let nested = |depth: usize| format!("{}{}", "[".repeat(depth), "]".repeat(depth));
    assert!(is_json_str(&nested(1)));
    assert!(is_json_str(&nested(MAX_DEPTH - 1)));
    assert!(is_json_str(&nested(MAX_DEPTH)));
    assert!(!is_json_str(&nested(MAX_DEPTH + 1)));
    assert!(!is_json_str(&nested(10_000)));

    let objects = |depth: usize| format!("{}1{}", "{\"a\":".repeat(depth), "}".repeat(depth));
    assert!(is_json_str(&objects(MAX_DEPTH)));
    assert!(!is_json_str(&objects(MAX_DEPTH + 1)));

    let wide = format!("[{}]", vec!["[[]]"; 1000].join(","));
    assert!(is_json_str(&wide));
}

#[test]
fn a_long_array_of_samples_is_accepted() {
    let samples: Vec<String> = (0..50_000).map(|k| format!("{}.{}", k, k % 10)).collect();
    let text = format!("[{}]", samples.join(","));
    assert!(is_json_str(&text));
    let broken = format!("[{},]", samples.join(","));
    assert!(!is_json_str(&broken));
}

#[test]
fn bytes_that_are_no_text_are_judged_by_the_grammar_alone() {
    assert!(is_json_bytes(b"\"\xff\""));
    assert!(!is_json_bytes(b"\xff"));
    assert!(!is_json_bytes(b"[\xff]"));
}
