use minigrep::{search, search_case_insensitive};

/// The lines of `text`: cut at each `'\n'`, one `'\r'` before it dropped,
/// nothing opened behind the last `'\n'`.
fn lines_of(text: &[char]) -> Vec<Vec<char>> {
    let mut lines = Vec::new();
    let mut rest = text;
    while !rest.is_empty() {
        match rest.iter().position(|&c| c == '\n') {
            None => {
                lines.push(rest.to_vec());
                rest = &[];
            }
            Some(end) => {
                let mut line = &rest[..end];
                if line.last() == Some(&'\r') {
                    line = &line[..line.len() - 1];
                }
                lines.push(line.to_vec());
                rest = &rest[end + 1..];
            }
        }
    }
    lines
}

/// Whether `needle` stands somewhere in `text`, character for character.
fn is_substring(needle: &[char], text: &[char]) -> bool {
    (0..=text.len()).any(|at| at + needle.len() <= text.len() && text[at..at + needle.len()] == *needle)
}

/// Every text of at most `longest` characters over `alphabet`.
fn texts(alphabet: &[char], longest: usize) -> Vec<Vec<char>> {
    let mut all = vec![Vec::new()];
    let mut last = vec![Vec::new()];
    for _ in 0..longest {
        let mut next = Vec::new();
        for text in &last {
            for &c in alphabet {
                let mut longer: Vec<char> = text.clone();
                longer.push(c);
                next.push(longer);
            }
        }
        all.extend(next.iter().cloned());
        last = next;
    }
    all
}

fn chars_of(lines: &[&str]) -> Vec<Vec<char>> {
    lines.iter().map(|line| line.chars().collect()).collect()
}

#[test]
fn lines_are_cut_as_the_model_says_in_every_short_text() {
    let all = texts(&['a', '\n', '\r', 'é'], 6);
    assert_eq!(1 + 4 + 16 + 64 + 256 + 1024 + 4096, all.len());
    for text in all {
        let contents: String = text.iter().collect();
        assert_eq!(
            lines_of(&text),
            chars_of(&search("", &contents)),
            "{:?}",
            contents
        );
    }
}

#[test]
fn search_finds_what_the_model_says_in_every_short_text() {
    let queries = texts(&['a', 'é', '\n'], 3);
    for text in texts(&['a', 'b', 'é', '\n'], 5) {
        let contents: String = text.iter().collect();
        for needle in &queries {
            let query: String = needle.iter().collect();
            let expected: Vec<Vec<char>> = lines_of(&text)
                .into_iter()
                .filter(|line| is_substring(needle, line))
                .collect();
            assert_eq!(
                expected,
                chars_of(&search(&query, &contents)),
                "{:?} in {:?}",
                query,
                contents
            );
        }
    }
}

#[test]
fn case_insensitive_search_finds_what_the_model_says_in_every_short_text() {
    let queries = texts(&['a', 'A', 'É'], 2);
    for text in texts(&['a', 'A', 'b', 'é', '\n'], 4) {
        let contents: String = text.iter().collect();
        for needle in &queries {
            let query: String = needle.iter().collect();
            let lowered: Vec<char> = query.to_lowercase().chars().collect();
            let expected: Vec<Vec<char>> = lines_of(&text)
                .into_iter()
                .filter(|line| {
                    let line: String = line.iter().collect();
                    let line: Vec<char> = line.to_lowercase().chars().collect();
                    is_substring(&lowered, &line)
                })
                .collect();
            assert_eq!(
                expected,
                chars_of(&search_case_insensitive(&query, &contents)),
                "{:?} in {:?}",
                query,
                contents
            );
        }
    }
}

#[test]
fn characters_of_several_bytes_match_as_wholes() {
    // "é" is two bytes and "è" shares the first of them.
    assert_eq!(vec!["café"], search("é", "café\ncafè\ncafe"));
    assert_eq!(Vec::<&str>::new(), search("é", "cafè"));
    assert_eq!(vec!["日本語"], search("本", "日本語\n日曜日"));
}

#[test]
fn only_newline_and_carriage_return_newline_end_a_line() {
    assert_eq!(
        vec!["a\u{2028}b\u{0085}c\u{000B}d\u{000C}e"],
        search("", "a\u{2028}b\u{0085}c\u{000B}d\u{000C}e\n")
    );
}

#[test]
fn lowercase_form_may_be_longer_than_the_line() {
    // The capital dotted I lowercases to two characters.
    assert_eq!(
        vec!["İstanbul"],
        search_case_insensitive("i\u{307}s", "İstanbul")
    );
    assert_eq!(Vec::<&str>::new(), search("i\u{307}s", "İstanbul"));
}
