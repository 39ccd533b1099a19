//! Well-formedness of structured text.
//!
//! Payloads are stored as JSON text. The store never looks at what a
//! payload says, only at whether it is one JSON value: this module states
//! the JSON grammar as functions on bytes and decides it.
//!
//! Each function of the grammar takes a position and answers the position
//! just behind what it recognised there, or `None`.

use vstd::prelude::*;
use vstd::utf8::encode_utf8;

verus! {

pub const TAB: u8 = 0x09;

pub const LINE_FEED: u8 = 0x0A;

pub const CARRIAGE_RETURN: u8 = 0x0D;

pub const SPACE: u8 = 0x20;

pub const QUOTE: u8 = 0x22;

pub const PLUS: u8 = 0x2B;

pub const COMMA: u8 = 0x2C;

pub const MINUS: u8 = 0x2D;

pub const DOT: u8 = 0x2E;

pub const SLASH: u8 = 0x2F;

pub const ZERO: u8 = 0x30;

pub const NINE: u8 = 0x39;

pub const COLON: u8 = 0x3A;

pub const OPEN_BRACKET: u8 = 0x5B;

pub const BACKSLASH: u8 = 0x5C;

pub const CLOSE_BRACKET: u8 = 0x5D;

pub const OPEN_BRACE: u8 = 0x7B;

pub const CLOSE_BRACE: u8 = 0x7D;

/// How deep arrays and objects may be nested.
pub const MAX_DEPTH: usize = 128;

pub open spec fn is_whitespace(b: u8) -> bool {
    b == SPACE || b == TAB || b == LINE_FEED || b == CARRIAGE_RETURN
}

pub open spec fn is_digit(b: u8) -> bool {
    ZERO <= b && b <= NINE
}

/// `0-9`, `a-f` or `A-F`.
pub open spec fn is_hex(b: u8) -> bool {
    is_digit(b) || (0x61 <= b && b <= 0x66) || (0x41 <= b && b <= 0x46)
}

/// The characters that may follow a backslash by themselves:
/// `"`, `\`, `/`, `b`, `f`, `n`, `r`, `t`.
pub open spec fn is_simple_escape(b: u8) -> bool {
    b == QUOTE || b == BACKSLASH || b == SLASH || b == 0x62 || b == 0x66 || b == 0x6E || b == 0x72
        || b == 0x74
}

/// The first position at or behind `i` that holds no whitespace.
pub open spec fn skip_whitespace(s: Seq<u8>, i: int) -> int
    decreases s.len() - i,
{
    if 0 <= i < s.len() && is_whitespace(s[i]) {
        skip_whitespace(s, i + 1)
    } else {
        i
    }
}

/// The first position at or behind `i` that holds no digit.
pub open spec fn skip_digits(s: Seq<u8>, i: int) -> int
    decreases s.len() - i,
{
    if 0 <= i < s.len() && is_digit(s[i]) {
        skip_digits(s, i + 1)
    } else {
        i
    }
}

/// The word `true` stands at `i`.
pub open spec fn true_at(s: Seq<u8>, i: int) -> bool {
    0 <= i && i + 4 <= s.len() && s[i] == 0x74 && s[i + 1] == 0x72 && s[i + 2] == 0x75 && s[i
        + 3] == 0x65
}

/// The word `false` stands at `i`.
pub open spec fn false_at(s: Seq<u8>, i: int) -> bool {
    0 <= i && i + 5 <= s.len() && s[i] == 0x66 && s[i + 1] == 0x61 && s[i + 2] == 0x6C && s[i
        + 3] == 0x73 && s[i + 4] == 0x65
}

/// The word `null` stands at `i`.
pub open spec fn null_at(s: Seq<u8>, i: int) -> bool {
    0 <= i && i + 4 <= s.len() && s[i] == 0x6E && s[i + 1] == 0x75 && s[i + 2] == 0x6C && s[i
        + 3] == 0x6C
}

/// A digit stands at `i`.
pub open spec fn digit_at(s: Seq<u8>, i: int) -> bool {
    0 <= i < s.len() && is_digit(s[i])
}

/// A number: an optional minus, then `0` or digits that do not start with
/// `0`, then an optional fraction, then an optional exponent.
pub open spec fn number_end(s: Seq<u8>, i: int) -> Option<int> {
    let whole = if 0 <= i < s.len() && s[i] == MINUS {
        i + 1
    } else {
        i
    };
    if !digit_at(s, whole) {
        None
    } else {
        let fraction = if s[whole] == ZERO {
            whole + 1
        } else {
            skip_digits(s, whole + 1)
        };
        if fraction < s.len() && s[fraction] == DOT && !digit_at(s, fraction + 1) {
            None
        } else {
            let exponent = if fraction < s.len() && s[fraction] == DOT {
                skip_digits(s, fraction + 2)
            } else {
                fraction
            };
            if exponent < s.len() && (s[exponent] == 0x65 || s[exponent] == 0x45) {
                let digits = if exponent + 1 < s.len() && (s[exponent + 1] == PLUS || s[exponent
                    + 1] == MINUS) {
                    exponent + 2
                } else {
                    exponent + 1
                };
                if digit_at(s, digits) {
                    Some(skip_digits(s, digits + 1))
                } else {
                    None
                }
            } else {
                Some(exponent)
            }
        }
    }
}

/// The rest of a string whose opening quote stands just before `i`: up to
/// and with the closing quote. Control characters must be escaped, and a
/// backslash starts one of the escapes of the grammar.
pub open spec fn string_body_end(s: Seq<u8>, i: int) -> Option<int>
    decreases s.len() - i,
{
    if i < 0 || i >= s.len() {
        None
    } else if s[i] == QUOTE {
        Some(i + 1)
    } else if s[i] == BACKSLASH {
        if i + 1 >= s.len() {
            None
        } else if is_simple_escape(s[i + 1]) {
            string_body_end(s, i + 2)
        } else if s[i + 1] == 0x75 && i + 6 <= s.len() && is_hex(s[i + 2]) && is_hex(s[i + 3])
            && is_hex(s[i + 4]) && is_hex(s[i + 5]) {
            string_body_end(s, i + 6)
        } else {
            None
        }
    } else if s[i] < SPACE {
        None
    } else {
        string_body_end(s, i + 1)
    }
}

/// A string: a quote at `i` and the rest.
pub open spec fn string_end(s: Seq<u8>, i: int) -> Option<int> {
    if 0 <= i < s.len() && s[i] == QUOTE {
        string_body_end(s, i + 1)
    } else {
        None
    }
}

/// One value at `i`: an array, an object, a string, one of the three
/// words, or a number. `depth` says how many levels of arrays and objects
/// may still open.
pub open spec fn value_end(s: Seq<u8>, i: int, depth: nat) -> Option<int>
    decreases depth, 0int, 0int,
{
    if i < 0 || i >= s.len() {
        None
    } else if s[i] == OPEN_BRACKET {
        if depth == 0 {
            None
        } else {
            let first = skip_whitespace(s, i + 1);
            if 0 <= first < s.len() && s[first] == CLOSE_BRACKET {
                Some(first + 1)
            } else {
                elements_end(s, first, (depth - 1) as nat)
            }
        }
    } else if s[i] == OPEN_BRACE {
        if depth == 0 {
            None
        } else {
            let first = skip_whitespace(s, i + 1);
            if 0 <= first < s.len() && s[first] == CLOSE_BRACE {
                Some(first + 1)
            } else {
                members_end(s, first, (depth - 1) as nat)
            }
        }
    } else if s[i] == QUOTE {
        string_body_end(s, i + 1)
    } else if s[i] == 0x74 {
        if true_at(s, i) {
            Some(i + 4)
        } else {
            None
        }
    } else if s[i] == 0x66 {
        if false_at(s, i) {
            Some(i + 5)
        } else {
            None
        }
    } else if s[i] == 0x6E {
        if null_at(s, i) {
            Some(i + 4)
        } else {
            None
        }
    } else {
        number_end(s, i)
    }
}

/// The elements of an array from the one at `i` on, separated by commas,
/// up to and with the closing bracket.
pub open spec fn elements_end(s: Seq<u8>, i: int, depth: nat) -> Option<int>
    decreases depth, 1int, s.len() - i,
{
    match value_end(s, i, depth) {
        None => None,
        Some(end) => {
            let mark = skip_whitespace(s, end);
            if mark < 0 || mark >= s.len() {
                None
            } else if s[mark] == COMMA {
                let next = skip_whitespace(s, mark + 1);
                if i < next <= s.len() {
                    elements_end(s, next, depth)
                } else {
                    None
                }
            } else if s[mark] == CLOSE_BRACKET {
                Some(mark + 1)
            } else {
                None
            }
        },
    }
}

/// The members of an object from the one at `i` on, each a string, a colon
/// and a value, separated by commas, up to and with the closing brace.
pub open spec fn members_end(s: Seq<u8>, i: int, depth: nat) -> Option<int>
    decreases depth, 1int, s.len() - i,
{
    match string_end(s, i) {
        None => None,
        Some(name_end) => {
            let colon = skip_whitespace(s, name_end);
            if colon < 0 || colon >= s.len() || s[colon] != COLON {
                None
            } else {
                match value_end(s, skip_whitespace(s, colon + 1), depth) {
                    None => None,
                    Some(end) => {
                        let mark = skip_whitespace(s, end);
                        if mark < 0 || mark >= s.len() {
                            None
                        } else if s[mark] == COMMA {
                            let next = skip_whitespace(s, mark + 1);
                            if i < next <= s.len() {
                                members_end(s, next, depth)
                            } else {
                                None
                            }
                        } else if s[mark] == CLOSE_BRACE {
                            Some(mark + 1)
                        } else {
                            None
                        }
                    },
                }
            }
        },
    }
}

/// The bytes are one JSON value, with whitespace allowed around it and
/// nothing else.
pub open spec fn is_json(s: Seq<u8>) -> bool {
    match value_end(s, skip_whitespace(s, 0), MAX_DEPTH as nat) {
        Some(end) => skip_whitespace(s, end) == s.len(),
        None => false,
    }
}

/// The text, encoded as UTF-8, is one JSON value.
pub open spec fn is_json_text(text: Seq<char>) -> bool {
    is_json(encode_utf8(text))
}

fn whitespace(b: u8) -> (r: bool)
    ensures
        r == is_whitespace(b),
{
    b == SPACE || b == TAB || b == LINE_FEED || b == CARRIAGE_RETURN
}

fn digit(b: u8) -> (r: bool)
    ensures
        r == is_digit(b),
{
    ZERO <= b && b <= NINE
}

fn hex(b: u8) -> (r: bool)
    ensures
        r == is_hex(b),
{
    digit(b) || (0x61 <= b && b <= 0x66) || (0x41 <= b && b <= 0x46)
}

fn simple_escape(b: u8) -> (r: bool)
    ensures
        r == is_simple_escape(b),
{
    b == QUOTE || b == BACKSLASH || b == SLASH || b == 0x62 || b == 0x66 || b == 0x6E || b == 0x72
        || b == 0x74
}

fn after_whitespace(s: &[u8], i: usize) -> (j: usize)
    requires
        i <= s.len(),
    ensures
        j == skip_whitespace(s@, i as int),
        i <= j <= s.len(),
{
    let mut j: usize = i;
    while j < s.len() && whitespace(s[j])
        invariant
            i <= j <= s.len(),
            skip_whitespace(s@, i as int) == skip_whitespace(s@, j as int),
        decreases s.len() - j,
    {
        j += 1;
    }
    j
}

fn after_digits(s: &[u8], i: usize) -> (j: usize)
    requires
        i <= s.len(),
    ensures
        j == skip_digits(s@, i as int),
        i <= j <= s.len(),
{
    let mut j: usize = i;
    while j < s.len() && digit(s[j])
        invariant
            i <= j <= s.len(),
            skip_digits(s@, i as int) == skip_digits(s@, j as int),
        decreases s.len() - j,
    {
        j += 1;
    }
    j
}

fn number(s: &[u8], i: usize) -> (r: Option<usize>)
    requires
        i <= s.len(),
    ensures
        match r {
            Some(end) => number_end(s@, i as int) == Some(end as int) && i < end <= s.len(),
            None => number_end(s@, i as int) is None,
        },
{
    let whole: usize = if i < s.len() && s[i] == MINUS {
        i + 1
    } else {
        i
    };
    if whole >= s.len() || !digit(s[whole]) {
        return None;
    }
    let fraction: usize = if s[whole] == ZERO {
        whole + 1
    } else {
        after_digits(s, whole + 1)
    };
    let exponent: usize = if fraction < s.len() && s[fraction] == DOT {
        if fraction + 1 < s.len() && digit(s[fraction + 1]) {
            after_digits(s, fraction + 2)
        } else {
            return None;
        }
    } else {
        fraction
    };
    if exponent < s.len() && (s[exponent] == 0x65 || s[exponent] == 0x45) {
        let digits: usize = if exponent + 1 < s.len() && (s[exponent + 1] == PLUS || s[exponent
            + 1] == MINUS) {
            exponent + 2
        } else {
            exponent + 1
        };
        if digits < s.len() && digit(s[digits]) {
            Some(after_digits(s, digits + 1))
        } else {
            None
        }
    } else {
        Some(exponent)
    }
}

fn string_body(s: &[u8], i: usize) -> (r: Option<usize>)
    requires
        i <= s.len(),
    ensures
        match r {
            Some(end) => string_body_end(s@, i as int) == Some(end as int) && i < end <= s.len(),
            None => string_body_end(s@, i as int) is None,
        },
{
    let mut j: usize = i;
    loop
        invariant
            i <= j <= s.len(),
            string_body_end(s@, i as int) == string_body_end(s@, j as int),
        decreases s.len() - j,
    {
        if j >= s.len() {
            return None;
        }
        let b = s[j];
        if b == QUOTE {
            return Some(j + 1);
        } else if b == BACKSLASH {
            if j + 1 >= s.len() {
                return None;
            }
            let c = s[j + 1];
            if simple_escape(c) {
                j += 2;
            } else if c == 0x75 && s.len() - j >= 6 && hex(s[j + 2]) && hex(s[j + 3]) && hex(
                s[j + 4],
            ) && hex(s[j + 5]) {
                j += 6;
            } else {
                return None;
            }
        } else if b < SPACE {
            return None;
        } else {
            j += 1;
        }
    }
}

fn value(s: &[u8], i: usize, depth: usize) -> (r: Option<usize>)
    requires
        i <= s.len(),
    ensures
        match r {
            Some(end) => value_end(s@, i as int, depth as nat) == Some(end as int) && i < end
                <= s.len(),
            None => value_end(s@, i as int, depth as nat) is None,
        },
    decreases depth, 0int,
{
    if i >= s.len() {
        return None;
    }
    let b = s[i];
    if b == OPEN_BRACKET {
        if depth == 0 {
            return None;
        }
        let first = after_whitespace(s, i + 1);
        if first < s.len() && s[first] == CLOSE_BRACKET {
            Some(first + 1)
        } else {
            elements(s, first, depth - 1)
        }
    } else if b == OPEN_BRACE {
        if depth == 0 {
            return None;
        }
        let first = after_whitespace(s, i + 1);
        if first < s.len() && s[first] == CLOSE_BRACE {
            Some(first + 1)
        } else {
            members(s, first, depth - 1)
        }
    } else if b == QUOTE {
        string_body(s, i + 1)
    } else if b == 0x74 {
        if s.len() - i >= 4 && s[i + 1] == 0x72 && s[i + 2] == 0x75 && s[i + 3] == 0x65 {
            Some(i + 4)
        } else {
            None
        }
    } else if b == 0x66 {
        if s.len() - i >= 5 && s[i + 1] == 0x61 && s[i + 2] == 0x6C && s[i + 3] == 0x73 && s[i
            + 4] == 0x65 {
            Some(i + 5)
        } else {
            None
        }
    } else if b == 0x6E {
        if s.len() - i >= 4 && s[i + 1] == 0x75 && s[i + 2] == 0x6C && s[i + 3] == 0x6C {
            Some(i + 4)
        } else {
            None
        }
    } else {
        number(s, i)
    }
}

fn elements(s: &[u8], i: usize, depth: usize) -> (r: Option<usize>)
    requires
        i <= s.len(),
    ensures
        match r {
            Some(end) => elements_end(s@, i as int, depth as nat) == Some(end as int) && i < end
                <= s.len(),
            None => elements_end(s@, i as int, depth as nat) is None,
        },
    decreases depth, 1int,
{
    let mut at: usize = i;
    loop
        invariant
            i <= at <= s.len(),
            elements_end(s@, i as int, depth as nat) == elements_end(s@, at as int, depth as nat),
        decreases s.len() - at,
    {
        let end = match value(s, at, depth) {
            Some(end) => end,
            None => {
                return None;
            },
        };
        let mark = after_whitespace(s, end);
        if mark >= s.len() {
            return None;
        }
        if s[mark] == COMMA {
            at = after_whitespace(s, mark + 1);
        } else if s[mark] == CLOSE_BRACKET {
            return Some(mark + 1);
        } else {
            return None;
        }
    }
}

fn members(s: &[u8], i: usize, depth: usize) -> (r: Option<usize>)
    requires
        i <= s.len(),
    ensures
        match r {
            Some(end) => members_end(s@, i as int, depth as nat) == Some(end as int) && i < end
                <= s.len(),
            None => members_end(s@, i as int, depth as nat) is None,
        },
    decreases depth, 1int,
{
    let mut at: usize = i;
    loop
        invariant
            i <= at <= s.len(),
            members_end(s@, i as int, depth as nat) == members_end(s@, at as int, depth as nat),
        decreases s.len() - at,
    {
        if at >= s.len() || s[at] != QUOTE {
            return None;
        }
        let name_end = match string_body(s, at + 1) {
            Some(end) => end,
            None => {
                return None;
            },
        };
        let colon = after_whitespace(s, name_end);
        if colon >= s.len() || s[colon] != COLON {
            return None;
        }
        let start = after_whitespace(s, colon + 1);
        let end = match value(s, start, depth) {
            Some(end) => end,
            None => {
                return None;
            },
        };
        let mark = after_whitespace(s, end);
        if mark >= s.len() {
            return None;
        }
        if s[mark] == COMMA {
            at = after_whitespace(s, mark + 1);
        } else if s[mark] == CLOSE_BRACE {
            return Some(mark + 1);
        } else {
            return None;
        }
    }
}

/// Decides whether the bytes are one JSON value.
pub fn is_json_bytes(s: &[u8]) -> (r: bool)
    ensures
        r == is_json(s@),
{
    let start = after_whitespace(s, 0);
    match value(s, start, MAX_DEPTH) {
        Some(end) => after_whitespace(s, end) == s.len(),
        None => false,
    }
}

/// Decides whether the text is one JSON value.
pub fn is_json_str(text: &str) -> (r: bool)
    ensures
        r == is_json_text(text@),
{
    is_json_bytes(text.as_bytes())
}

} // verus!
