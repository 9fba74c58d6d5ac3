use aichat_core::command::{parse_command, unfence, ReplValidator, Validation};
use fancy_regex::Regex;

const LINES: [&str; 40] = [
    "",
    " ",
    ".",
    " .",
    "..",
    ".help",
    "  .help  ",
    ".help me",
    " .set dry_run true  ",
    ".prompt \nabc\n",
    "\t.role\tcoder\n\nwrite",
    "\u{3000}.set\u{a0}k\u{2003}v\u{2028}",
    ".set\u{200b}x y",
    "\u{85}.info\u{1680}role\u{205f}",
    "x.help",
    "hello .help",
    ". .",
    ".\n.",
    ".a.b.c d.e",
    ".file a b -- c",
    ":::",
    "::::::",
    ":::::",
    "::: a :::",
    ":::\nhello\nworld\n:::",
    "  :::  x  :::  ",
    "::: a ::: b :::",
    "::: a ::: b",
    "a ::: b :::",
    "::::a::::",
    ":::\n:::\n",
    "\n:::a:::\n",
    ":: : a :::",
    "::: .set a b :::",
    ":::\u{a0}x\u{a0}:::",
    "::: ::: :::",
    "é:::",
    ":::é:::",
    ".é  ü ",
    "::: \t\n :::",
];

fn reference_parse<'a>(re: &Regex, line: &'a str) -> Option<(&'a str, Option<&'a str>)> {
    match re.captures(line) {
        Ok(Some(captures)) => {
            let cmd = captures.get(1)?.as_str();
            let args = line[captures[0].len()..].trim();
            let args = if args.is_empty() { None } else { Some(args) };
            Some((cmd, args))
        }
        _ => None,
    }
}

#[test]
fn parse_command_matches_the_pattern() {
    let re = Regex::new(r"^\s*(\.\S*)\s*").unwrap();
    for line in LINES {
        assert_eq!(parse_command(line), reference_parse(&re, line), "{line:?}");
    }
}

#[test]
fn unfence_matches_the_pattern() {
    let re = Regex::new(r"(?s)^\s*:::\s*(.*)\s*:::\s*$").unwrap();
    for line in LINES {
        let expected = match re.captures(line) {
            Ok(Some(captures)) => captures.get(1).map(|m| m.as_str().trim_end()),
            _ => None,
        };
        assert_eq!(unfence(line), expected, "{line:?}");
    }
}

#[test]
fn validator_matches_trim_and_ends_with() {
    for line in LINES {
        let t = line.trim();
        let incomplete = t.starts_with(":::") && !t[3..].ends_with(":::");
        let expected = if incomplete { Validation::Incomplete } else { Validation::Complete };
        assert_eq!(ReplValidator.validate(line), expected, "{line:?}");
    }
}
