use pobsd_parser::game::Game;
use pobsd_parser::parser::{Parser, ParserResult, ParsingMode};

fn record_lines(name: &str) -> Vec<String> {
    vec![
        format!("Name\t{}", name),
        "Cover\tfoo.png".to_string(),
        "Engine\tgodot".to_string(),
        "Setup\tnone".to_string(),
        "Runtime\tgodot 3".to_string(),
        "Store\thttps://a.example https://b.example".to_string(),
        "Hints\tuse a pad, save often".to_string(),
        "Genre\tRPG, Action".to_string(),
        "Tags\tindie".to_string(),
        "Year\t2020".to_string(),
        "Dev\tSome Dev".to_string(),
        "Publisher\tSome Pub".to_string(),
        "Version\t1.0".to_string(),
        "Status\tplayable".to_string(),
        "Added\t2022-01-01".to_string(),
        "Updated\t2023-01-01".to_string(),
    ]
}

fn text_of(lines: &[String]) -> String {
    let mut s = String::new();
    for l in lines {
        s.push_str(l);
        s.push('\n');
    }
    s
}

fn parse(mode: ParsingMode, text: &str) -> (Vec<Game>, Vec<usize>) {
    match Parser::new(mode).load_from_string(text) {
        ParserResult::WithError(games, lines) => {
            assert!(!lines.is_empty());
            (games, lines)
        }
        ParserResult::WithoutError(games) => (games, Vec::new()),
    }
}

fn names(games: &[Game]) -> Vec<String> {
    games.iter().map(|g| g.name.clone()).collect()
}

#[test]
fn one_record_in_both_modes() {
    let text = text_of(&record_lines("Foo"));
    for mode in [ParsingMode::Strict, ParsingMode::Relaxed] {
        let (games, errors) = parse(mode, &text);
        assert_eq!(games.len(), 1);
        assert!(errors.is_empty());
        let g = &games[0];
        assert_eq!(g.name, "Foo");
        assert_eq!(g.cover, "foo.png");
        assert_eq!(g.engine, "godot");
        assert_eq!(g.setup, "none");
        assert_eq!(g.runtime, "godot 3");
        assert_eq!(g.stores, vec!["https://a.example", "https://b.example"]);
        assert_eq!(g.hints, vec!["use a pad", "save often"]);
        assert_eq!(g.genres, vec!["RPG", "Action"]);
        assert_eq!(g.tags, vec!["indie"]);
        assert_eq!(g.year, "2020");
        assert_eq!(g.dev, "Some Dev");
        assert_eq!(g.publi, "Some Pub");
        assert_eq!(g.version, "1.0");
        assert_eq!(g.status, "playable");
        assert_eq!(g.added, "2022-01-01");
        assert_eq!(g.updated, "2023-01-01");
    }
}

#[test]
fn without_error_variant_when_all_lines_fit() {
    let text = text_of(&record_lines("Foo"));
    let r = Parser::new(ParsingMode::Strict).load_from_string(&text);
    assert!(matches!(r, ParserResult::WithoutError(_)));
}

#[test]
fn malformed_setup_strict() {
    let mut lines = record_lines("Foo");
    lines[3] = "Setp\tnone".to_string();
    let (games, errors) = parse(ParsingMode::Strict, &text_of(&lines));
    assert_eq!(games.len(), 0);
    assert_eq!(errors, vec![4]);
}

#[test]
fn malformed_setup_relaxed() {
    let mut lines = record_lines("Foo");
    lines[3] = "Setp\tnone".to_string();
    let (games, errors) = parse(ParsingMode::Relaxed, &text_of(&lines));
    assert_eq!(games.len(), 1);
    assert_eq!(games[0].setup, "");
    assert_eq!(games[0].runtime, "godot 3");
    assert_eq!(games[0].updated, "2023-01-01");
    assert_eq!(errors, vec![4]);
}

#[test]
fn whole_records_in_order() {
    let mut lines = Vec::new();
    for n in ["A", "B", "C"] {
        lines.extend(record_lines(n));
    }
    for mode in [ParsingMode::Strict, ParsingMode::Relaxed] {
        let (games, errors) = parse(mode, &text_of(&lines));
        assert_eq!(names(&games), vec!["A", "B", "C"]);
        assert!(errors.is_empty());
    }
}

#[test]
fn strict_stops_at_first_error() {
    let mut lines = Vec::new();
    for n in ["A", "B", "C"] {
        lines.extend(record_lines(n));
    }
    lines[20] = "garbage".to_string();
    lines[40] = "more garbage".to_string();
    let (games, errors) = parse(ParsingMode::Strict, &text_of(&lines));
    assert_eq!(names(&games), vec!["A"]);
    assert_eq!(errors, vec![21]);
}

#[test]
fn strict_error_on_first_line() {
    let (games, errors) = parse(ParsingMode::Strict, "Cover\tx\n");
    assert!(games.is_empty());
    assert_eq!(errors, vec![1]);
}

#[test]
fn relaxed_isolated_error() {
    let mut lines = Vec::new();
    for n in ["A", "B"] {
        lines.extend(record_lines(n));
    }
    lines[20] = "garbage".to_string();
    let (games, errors) = parse(ParsingMode::Relaxed, &text_of(&lines));
    assert_eq!(names(&games), vec!["A", "B"]);
    assert_eq!(games[1].runtime, "");
    assert_eq!(errors, vec![21]);
}

#[test]
fn relaxed_adjacent_errors_reported_once() {
    let mut lines = Vec::new();
    for n in ["A", "B"] {
        lines.extend(record_lines(n));
    }
    lines[20] = "garbage".to_string();
    lines[21] = "garbage".to_string();
    let (games, errors) = parse(ParsingMode::Relaxed, &text_of(&lines));
    assert_eq!(games.len(), 2);
    assert_eq!(errors, vec![21]);
}

#[test]
fn relaxed_separate_runs_each_reported() {
    let mut lines = Vec::new();
    for n in ["A", "B"] {
        lines.extend(record_lines(n));
    }
    lines[2] = "x".to_string();
    lines[3] = "y".to_string();
    lines[30] = "z".to_string();
    let (games, errors) = parse(ParsingMode::Relaxed, &text_of(&lines));
    assert_eq!(games.len(), 2);
    assert_eq!(errors, vec![3, 31]);
}

#[test]
fn fresh_parsers_agree() {
    let mut lines = record_lines("A");
    lines[5] = "bad".to_string();
    lines.extend(record_lines("B"));
    let text = text_of(&lines);
    for mode in [ParsingMode::Strict, ParsingMode::Relaxed] {
        let (g1, e1) = parse(mode, &text);
        let (g2, e2) = parse(mode, &text);
        assert_eq!(names(&g1), names(&g2));
        assert_eq!(e1, e2);
    }
}

#[test]
fn trailing_partial_record_dropped() {
    let mut lines = record_lines("A");
    lines.extend(record_lines("B").into_iter().take(10));
    let (games, errors) = parse(ParsingMode::Strict, &text_of(&lines));
    assert_eq!(names(&games), vec!["A"]);
    assert!(errors.is_empty());
}

#[test]
fn empty_text() {
    for mode in [ParsingMode::Strict, ParsingMode::Relaxed] {
        let (games, errors) = parse(mode, "");
        assert!(games.is_empty());
        assert!(errors.is_empty());
    }
}

#[test]
fn crlf_and_no_final_newline() {
    let text = record_lines("Foo").join("\r\n");
    let (games, errors) = parse(ParsingMode::Strict, &text);
    assert_eq!(games.len(), 1);
    assert!(errors.is_empty());
    assert_eq!(games[0].name, "Foo");
    assert_eq!(games[0].updated, "2023-01-01");
}

#[test]
fn values_trimmed_and_marker_alone_is_empty() {
    let mut lines = record_lines("  Foo  ");
    lines[2] = "Engine".to_string();
    lines[7] = "Genre\t , RPG ,, Action , ".to_string();
    let (games, errors) = parse(ParsingMode::Strict, &text_of(&lines));
    assert!(errors.is_empty());
    assert_eq!(games[0].name, "Foo");
    assert_eq!(games[0].engine, "");
    assert_eq!(games[0].genres, vec!["RPG", "Action"]);
}

#[test]
fn marker_without_tab_is_rejected() {
    let mut lines = record_lines("Foo");
    lines[0] = "NameFoo".to_string();
    let (games, errors) = parse(ParsingMode::Strict, &text_of(&lines));
    assert!(games.is_empty());
    assert_eq!(errors, vec![1]);
}

#[test]
fn blank_line_is_an_error() {
    let mut lines = record_lines("Foo");
    lines.insert(1, String::new());
    let (games, errors) = parse(ParsingMode::Relaxed, &text_of(&lines));
    assert_eq!(errors, vec![2]);
    assert_eq!(games.len(), 1);
    assert_eq!(games[0].cover, "");
}

#[test]
fn default_parser_is_relaxed() {
    let p = Parser::default();
    assert_eq!(p.mode(), ParsingMode::Relaxed);
    let mut lines = record_lines("Foo");
    lines[3] = "bad".to_string();
    let games = p.load_from_string(&text_of(&lines)).into_games();
    assert_eq!(games.len(), 1);
}

#[test]
fn into_games_keeps_records_with_errors() {
    let mut lines = record_lines("A");
    lines.extend(record_lines("B"));
    lines[17] = "bad".to_string();
    let r = Parser::new(ParsingMode::Relaxed).load_from_string(&text_of(&lines));
    assert!(matches!(r, ParserResult::WithError(_, _)));
    assert_eq!(names(&r.into_games()), vec!["A", "B"]);
}
