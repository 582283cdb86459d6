use cog_core::commit::RawCommit;
use cog_core::config::Config;
use cog_core::parser::{parse, parse_all};
use cog_core::template::Template;
use cog_core::version::Version;

struct Dice(u64);

impl Dice {
    fn roll(&mut self, sides: usize) -> usize {
        self.0 = self.0.wrapping_mul(6364136223846793005).wrapping_add(1442695040888963407);
        ((self.0 >> 33) as usize) % sides
    }

    fn text(&mut self, alphabet: &[&str], longest: usize) -> String {
        let n = self.roll(longest + 1);
        (0..n).map(|_| alphabet[self.roll(alphabet.len())]).collect()
    }
}

#[test]
fn any_message_gives_a_message_or_a_reason() {
    let alphabet = [
        "feat", "fix", "wip", "(", ")", "!", ":", " ", "\n", "\t", "\r", "a", "é", "✓", "#", "-",
        "BREAKING CHANGE", "BREAKING-CHANGE", "Refs", ": ", " #", "\n\n",
    ];
    let types = Config::standard().recognized_types();
    let mut dice = Dice(7);
    let mut accepted = 0;
    for round in 0..3000 {
        let text = if round % 2 == 0 {
            dice.text(&alphabet, 12)
        } else {
            format!("{}{}", dice.text(&["feat", "fix", "(a)", "(", ")", "!", ": ", ":"], 4), dice.text(&alphabet, 8))
        };
        if let Ok(m) = parse(&text, &types) {
            accepted += 1;
            assert!(!m.description.is_empty());
            assert!(types.contains(&m.commit_type));
            assert!(m.scope.as_ref().map(|s| !s.is_empty() && !s.contains(')')).unwrap_or(true));
            assert_eq!(m.description.trim_matches(|c| c == ' ' || c == '\t' || c == '\r'), m.description);
            let again = parse(&m.header(), &types).unwrap();
            assert_eq!(again.commit_type, m.commit_type);
            assert_eq!(again.scope, m.scope);
            assert_eq!(again.description, m.description);
            assert_eq!(again.breaking, m.breaking);
            assert_eq!(again.body, None);
            assert!(again.footers.is_empty());
            assert_eq!(
                m.breaking,
                text.lines().next().unwrap().split(": ").next().unwrap().ends_with('!')
                    || text.lines().next().unwrap().split(':').next().unwrap().ends_with('!')
                    || m.footers.iter().any(|f| f.token == "BREAKING CHANGE" || f.token == "BREAKING-CHANGE")
            );
        }
    }
    assert!(accepted > 20, "{}", accepted);
}

#[test]
fn any_batch_is_split_in_two() {
    let alphabet = ["feat", "fix", "(", ")", "!", ": ", "x", "\n", " "];
    let types = Config::standard().recognized_types();
    let mut dice = Dice(11);
    for _ in 0..200 {
        let n = dice.roll(6);
        let raws: Vec<RawCommit> = (0..n)
            .map(|i| RawCommit {
                message: dice.text(&alphabet, 8),
                source_hash: format!("{}", i),
                author: String::new(),
                timestamp: i as i64,
            })
            .collect();
        let report = parse_all(&raws, &types);
        assert_eq!(report.records.len() + report.violations.len(), raws.len());
        let mut seen: Vec<(i64, bool)> = report
            .records
            .iter()
            .map(|r| (r.timestamp, true))
            .chain(report.violations.iter().map(|v| (v.source_hash.parse().unwrap(), false)))
            .collect();
        seen.sort();
        for (i, raw) in raws.iter().enumerate() {
            assert_eq!(seen[i], (i as i64, parse(&raw.message, &types).is_ok()));
        }
        assert!(report.records.windows(2).all(|w| w[0].timestamp < w[1].timestamp));
    }
}

#[test]
fn any_template_text_compiles_or_faults() {
    let alphabet = ["{{", "}}", "{", "}", "version", "title", "hash", " ", "\n", "x", "ß"];
    let mut dice = Dice(3);
    let mut compiled = 0;
    for _ in 0..3000 {
        let text = dice.text(&alphabet, 10);
        if Template::compile(&text).is_ok() {
            compiled += 1;
            assert!(text.matches('\n').count() == 2 || (text.matches('\n').count() == 3 && text.ends_with('\n')));
        }
    }
    assert!(compiled > 20, "{}", compiled);
}

#[test]
fn any_version_text_reads_or_not() {
    let alphabet = ["0", "1", "9", ".", "-", "+", "a", "Z", "é", " "];
    let mut dice = Dice(5);
    let mut read = 0;
    for round in 0..5000 {
        let text = if round % 2 == 0 {
            dice.text(&alphabet, 9)
        } else {
            format!("{}.{}.{}{}", dice.roll(30), dice.roll(3), dice.roll(1000), dice.text(&alphabet, 5))
        };
        if let Some(v) = Version::parse(&text) {
            read += 1;
            assert_eq!(v.to_text(), text);
        }
    }
    assert!(read > 100, "{}", read);
}
