use ember::binder::{from_hex, parse_scalar, query_param, url_decode, ArgValue};
use ember::pattern::{parse_path_template, RoutePattern, Verb};
use ember::routes::ArgType;
use ember::transport::{lines, next_word, parse_head_text};

fn words(alphabet: &[char], max_len: usize) -> Vec<String> {
    let mut all = vec![String::new()];
    let mut last = vec![String::new()];
    for _ in 0..max_len {
        let mut next = Vec::new();
        for w in &last {
            for c in alphabet {
                let mut longer = w.clone();
                longer.push(*c);
                next.push(longer);
            }
        }
        all.extend(next.iter().cloned());
        last = next;
    }
    all
}

fn signed(v: Option<ArgValue>) -> Option<i64> {
    match v {
        Some(ArgValue::Int(n)) => Some(n),
        None => None,
        other => panic!("not a signed value: {:?}", other),
    }
}

fn unsigned(v: Option<ArgValue>) -> Option<u64> {
    match v {
        Some(ArgValue::Uint(n)) => Some(n),
        None => None,
        other => panic!("not an unsigned value: {:?}", other),
    }
}

#[test]
fn integers_parse_as_the_standard_library_parses_them() {
    for s in words(&['+', '-', '0', '1', '2', '9', ' ', 'x'], 4) {
        assert_eq!(signed(parse_scalar(ArgType::I8, &s)), s.parse::<i8>().ok().map(i64::from), "{:?}", s);
        assert_eq!(signed(parse_scalar(ArgType::I16, &s)), s.parse::<i16>().ok().map(i64::from), "{:?}", s);
        assert_eq!(signed(parse_scalar(ArgType::I64, &s)), s.parse::<i64>().ok(), "{:?}", s);
        assert_eq!(unsigned(parse_scalar(ArgType::U8, &s)), s.parse::<u8>().ok().map(u64::from), "{:?}", s);
        assert_eq!(unsigned(parse_scalar(ArgType::U64, &s)), s.parse::<u64>().ok(), "{:?}", s);
    }
}

#[test]
fn integers_at_the_edge_of_their_type_parse_as_the_standard_library_parses_them() {
    let edges: [i128; 12] = [
        i8::MIN as i128,
        i8::MAX as i128,
        u8::MAX as i128,
        i16::MIN as i128,
        i16::MAX as i128,
        u16::MAX as i128,
        i32::MIN as i128,
        i32::MAX as i128,
        u32::MAX as i128,
        i64::MIN as i128,
        i64::MAX as i128,
        u64::MAX as i128,
    ];
    for edge in edges {
        for d in -2i128..=2 {
            for sign in ["", "+", "-"] {
                let s = format!("{}{}", sign, edge + d);
                assert_eq!(signed(parse_scalar(ArgType::I8, &s)), s.parse::<i8>().ok().map(i64::from));
                assert_eq!(signed(parse_scalar(ArgType::I16, &s)), s.parse::<i16>().ok().map(i64::from));
                assert_eq!(signed(parse_scalar(ArgType::I32, &s)), s.parse::<i32>().ok().map(i64::from));
                assert_eq!(signed(parse_scalar(ArgType::I64, &s)), s.parse::<i64>().ok());
                assert_eq!(unsigned(parse_scalar(ArgType::U8, &s)), s.parse::<u8>().ok().map(u64::from));
                assert_eq!(unsigned(parse_scalar(ArgType::U16, &s)), s.parse::<u16>().ok().map(u64::from));
                assert_eq!(unsigned(parse_scalar(ArgType::U32, &s)), s.parse::<u32>().ok().map(u64::from));
                assert_eq!(unsigned(parse_scalar(ArgType::U64, &s)), s.parse::<u64>().ok());
            }
        }
    }
}

#[test]
fn booleans_parse_as_the_standard_library_parses_them() {
    for s in ["true", "false", "True", "TRUE", "t", "1", "0", "", " true", "false ", "yes"] {
        let expected = s.parse::<bool>().ok();
        let got = match parse_scalar(ArgType::Bool, s) {
            Some(ArgValue::Bool(b)) => Some(b),
            None => None,
            other => panic!("not a boolean: {:?}", other),
        };
        assert_eq!(got, expected, "{:?}", s);
    }
}

fn decoded(value: &str) -> String {
    let mut out = String::new();
    let mut bytes = value.as_bytes().iter().copied();
    while let Some(b) = bytes.next() {
        match b {
            b'+' => out.push(' '),
            b'%' => {
                let hi = bytes.next();
                let lo = bytes.next();
                if let (Some(hi), Some(lo)) = (hi, lo) {
                    if let (Some(hi), Some(lo)) = (from_hex(hi), from_hex(lo)) {
                        out.push((hi << 4 | lo) as char);
                    }
                }
            }
            _ => out.push(b as char),
        }
    }
    out
}

#[test]
fn hex_digits_have_their_values() {
    for b in 0..=255u8 {
        let expected = (b as char).to_digit(16).map(|d| d as u8);
        assert_eq!(from_hex(b), expected, "at {}", b);
    }
}

#[test]
fn percent_decoding_goes_byte_by_byte() {
    for s in words(&['%', '+', '4', 'a', 'F', 'g', ' ', 'é'], 5) {
        assert_eq!(url_decode(&s), decoded(&s), "{:?}", s);
    }
    assert_eq!(url_decode("%C3%A9"), "\u{c3}\u{a9}");
    assert_eq!(url_decode("é"), "\u{c3}\u{a9}");
    assert_eq!(url_decode("%00%7f%80%ff"), "\u{0}\u{7f}\u{80}\u{ff}");
}

fn looked_up(query: Option<&str>, name: &str) -> Option<String> {
    let query = query?;
    let target = format!("{}=", name);
    query
        .split('&')
        .find(|pair| pair.starts_with(&target))
        .and_then(|pair| pair.split_once('=').map(|(_, value)| decoded(value)))
}

#[test]
fn query_lookup_takes_the_first_pair_that_starts_with_the_name() {
    for q in words(&['a', 'b', '=', '&', '%', '+'], 6) {
        for name in ["a", "b", "ab", "a=", ""] {
            assert_eq!(query_param(Some(&q), name), looked_up(Some(&q), name), "{:?} {:?}", q, name);
        }
    }
    assert_eq!(query_param(None, "a"), looked_up(None, "a"));
}

#[test]
fn words_are_those_of_split_whitespace() {
    for s in words(&[' ', '\t', 'a', 'b', '\u{a0}', '\u{2003}'], 6) {
        let chars: Vec<char> = s.chars().collect();
        let mut found = Vec::new();
        let mut from = 0;
        loop {
            let (a, b) = next_word(&chars, from);
            if a == b {
                break;
            }
            found.push(chars[a..b].iter().collect::<String>());
            from = b;
        }
        let expected: Vec<String> = s.split_whitespace().map(|w| w.to_string()).collect();
        assert_eq!(found, expected, "{:?}", s);
    }
}

#[test]
fn lines_are_those_of_the_standard_library() {
    for s in words(&['a', '\r', '\n', ' '], 7) {
        let chars: Vec<char> = s.chars().collect();
        let found: Vec<String> = lines(&chars).into_iter().map(|l| l.into_iter().collect()).collect();
        let expected: Vec<String> = s.lines().map(|l| l.to_string()).collect();
        assert_eq!(found, expected, "{:?}", s);
    }
}

fn head(text: &str) -> Result<(String, String, usize), String> {
    let mut lines = text.lines();
    let request_line = lines.next().ok_or("missing request line")?;
    let mut parts = request_line.split_whitespace();
    let method = parts.next().ok_or("missing method")?.to_string();
    let path = parts.next().ok_or("missing path")?.to_string();
    let mut content_length = None;
    for line in lines {
        if let Some(value) = line.strip_prefix("Content-Length:") {
            if content_length.is_none() {
                content_length = Some(value.trim().parse::<usize>().unwrap_or(0));
            }
        }
    }
    Ok((method, path, content_length.unwrap_or(0)))
}

#[test]
fn heads_are_read_line_by_line() {
    let pieces = ["GET", " ", "/a", "\r\n", "\n", "Content-Length:", " 7", "x", "1"];
    let mut texts = vec![String::new()];
    let mut last = vec![String::new()];
    for _ in 0..5 {
        let mut next = Vec::new();
        for t in &last {
            for p in pieces {
                next.push(format!("{}{}", t, p));
            }
        }
        texts.extend(next.iter().cloned());
        last = next;
    }
    for text in texts {
        let got = parse_head_text(&text)
            .map(|h| (h.method, h.target, h.content_length))
            .map_err(|e| e.to_string());
        assert_eq!(got, head(&text), "{:?}", text);
    }
}

fn parts(path: &str) -> (String, Option<String>, String) {
    if let Some(start) = path.find('{') {
        if let Some(end) = path[start + 1..].find('}') {
            let end = start + 1 + end;
            return (
                path[..start].to_string(),
                Some(path[start + 1..end].to_string()),
                path[end + 1..].to_string(),
            );
        }
    }
    (path.to_string(), None, String::new())
}

fn matched(template: &str, path: &str) -> Option<String> {
    let (prefix, param, suffix) = parts(template);
    if param.is_none() {
        return if path == template { Some(String::new()) } else { None };
    }
    if path.starts_with(&prefix) && (suffix.is_empty() || path.ends_with(&suffix)) {
        let start = prefix.len();
        let end = path.len().saturating_sub(suffix.len()).max(start);
        Some(path[start..end].to_string())
    } else {
        None
    }
}

#[test]
fn templates_split_and_match_as_their_rule_says() {
    let templates = words(&['/', 'a', '{', '}', 'é'], 5);
    let paths = words(&['/', 'a', 'é'], 4);
    for t in &templates {
        assert_eq!(parse_path_template(t), parts(t), "{:?}", t);
        let pattern = RoutePattern::parse(Verb::Get, t);
        assert_eq!(pattern.template(), *t);
        for p in &paths {
            assert_eq!(pattern.match_path(p), matched(t, p), "{:?} {:?}", t, p);
        }
    }
}
