use apophy::text::{chars_of, parse_u32_chars, push_decimal, split_words, trim_chars};

fn parse(s: &str) -> Option<u32> {
    parse_u32_chars(&chars_of(s))
}

#[test]
fn parsing_matches_std() {
    for s in ["0", "42", "+7", "007", "4294967295", "4294967296", "", "+", "-1", "1_000", " 1", "99999999999"] {
        assert_eq!(parse(s), s.parse::<u32>().ok(), "input {:?}", s);
    }
}

#[test]
fn trimming_matches_std() {
    for s in ["  a b  ", "\t\nx\u{2003}", "", "   ", "y"] {
        let t: String = trim_chars(&chars_of(s)).into_iter().collect();
        assert_eq!(t, s.trim());
    }
}

#[test]
fn words_match_std() {
    for s in ["a b", "  lead and trail  ", "tab\tsep\nnl", "", "\u{3000}ideo\u{3000}space"] {
        let ws: Vec<String> = split_words(&chars_of(s)).into_iter().map(|w| w.into_iter().collect()).collect();
        let std_ws: Vec<String> = s.split_whitespace().map(|w| w.to_string()).collect();
        assert_eq!(ws, std_ws);
    }
}

#[test]
fn decimals() {
    for n in [0usize, 9, 10, 123, 1000000] {
        let mut out = Vec::new();
        push_decimal(&mut out, n);
        let s: String = out.into_iter().collect();
        assert_eq!(s, n.to_string());
    }
}
