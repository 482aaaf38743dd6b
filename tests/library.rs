use biosvg::model::{random_split_runs, split_runs, CommandType};
use biosvg::select::{
    answer_from_draws, partition_palette, random_answer, random_partition, shuffled_order,
};
use biosvg::svg::{
    arrange, command_text, concat_strings, path_element, shuffled_document, svg_document, trim_end,
};
use biosvg::{noise_count, BiosvgBuilder, PathError};

fn strings(v: &[&str]) -> Vec<String> {
    v.iter().map(|s| s.to_string()).collect()
}

fn palette() -> Vec<String> {
    strings(&["#0078D6", "#aa3333", "#f08012", "#33aa00", "#aa33aa"])
}

fn alphabet() -> Vec<char> {
    "0123456789".chars().collect()
}

fn line_indices(kinds: &[CommandType]) -> Vec<usize> {
    (0..kinds.len()).filter(|&i| kinds[i] == CommandType::LineTo).collect()
}

fn tails(runs: &[Vec<usize>]) -> Vec<usize> {
    runs.iter().flat_map(|r| r[1..].to_vec()).collect()
}

#[test]
fn split_closes_runs_at_limit() {
    let kinds = vec![CommandType::Move, CommandType::LineTo, CommandType::LineTo, CommandType::LineTo, CommandType::LineTo, CommandType::LineTo];
    let runs = split_runs(&kinds, &vec![2; 7]);
    assert_eq!(runs, vec![vec![0, 1, 2], vec![2, 3, 4], vec![4, 5]]);
}

#[test]
fn split_closes_runs_at_moves() {
    let kinds = vec![CommandType::Move, CommandType::LineTo, CommandType::Move, CommandType::LineTo, CommandType::LineTo];
    let runs = split_runs(&kinds, &vec![4; 6]);
    assert_eq!(runs, vec![vec![0, 1], vec![2, 3, 4]]);
}

#[test]
fn split_drops_lone_moves() {
    let kinds = vec![CommandType::Move, CommandType::Move, CommandType::Move];
    assert!(split_runs(&kinds, &vec![3; 4]).is_empty());
    assert!(split_runs(&Vec::new(), &vec![3]).is_empty());
}

#[test]
fn random_split_keeps_lines_in_order() {
    let kinds = vec![CommandType::Move, CommandType::LineTo, CommandType::LineTo, CommandType::LineTo, CommandType::Move, CommandType::LineTo, CommandType::LineTo, CommandType::LineTo, CommandType::LineTo, CommandType::LineTo, CommandType::LineTo];
    for _ in 0..50 {
        let runs = random_split_runs(&kinds);
        assert!(runs.iter().all(|r| r.len() >= 2 && r.len() <= 5));
        assert_eq!(tails(&runs), line_indices(&kinds));
    }
}

#[test]
fn partition_deals_by_flips_and_gives_last_to_smaller() {
    let colors = strings(&["a", "b", "c", "d", "e"]);
    let (chars, lines) = partition_palette(&colors, &vec![true, false, true, true]);
    assert_eq!(chars, strings(&["a", "c", "d"]));
    assert_eq!(lines, strings(&["b", "e"]));
}

#[test]
fn partition_tie_goes_to_characters() {
    let colors = strings(&["a", "b", "c"]);
    let (chars, lines) = partition_palette(&colors, &vec![true, false]);
    assert_eq!(chars, strings(&["a", "c"]));
    assert_eq!(lines, strings(&["b"]));
}

#[test]
fn partition_of_two_colors_fills_both_buckets() {
    let colors = strings(&["a", "b"]);
    for flip in [true, false] {
        let (chars, lines) = partition_palette(&colors, &vec![flip]);
        assert_eq!(chars.len(), 1);
        assert_eq!(lines.len(), 1);
    }
    for _ in 0..50 {
        let (chars, lines) = random_partition(&colors);
        assert!(!chars.is_empty() && !lines.is_empty());
    }
}

#[test]
fn answer_spells_draws() {
    let letters = vec!['a', 'b', 'c'];
    assert_eq!(answer_from_draws(&letters, &vec![2, 0, 1, 1]), "cabb");
    assert_eq!(answer_from_draws(&letters, &Vec::new()), "");
}

#[test]
fn random_answer_has_length_and_alphabet() {
    let letters = alphabet();
    let answer = random_answer(&letters, 6);
    assert_eq!(answer.chars().count(), 6);
    assert!(answer.chars().all(|c| letters.contains(&c)));
}

#[test]
fn noise_is_one_fewer_than_difficulty() {
    assert_eq!(noise_count(0), 0);
    assert_eq!(noise_count(1), 0);
    assert_eq!(noise_count(6), 5);
}

#[test]
fn builder_sets_fields() {
    let b = BiosvgBuilder::new();
    assert_eq!((b.length, b.difficulty, b.colors.len()), (0, 0, 0));
    let b = b.length(4).difficulty(6).colors(palette());
    assert_eq!(b.length, 4);
    assert_eq!(b.difficulty, 6);
    assert_eq!(b.colors, palette());
}

#[test]
fn plan_for_four_characters_and_five_colors() {
    let colors = palette();
    let letters = alphabet();
    let plan = BiosvgBuilder::new()
        .length(4)
        .difficulty(6)
        .colors(colors.clone())
        .plan(&letters)
        .unwrap();
    assert_eq!(plan.answer.chars().count(), 4);
    assert!(plan.answer.chars().all(|c| letters.contains(&c)));
    assert!(!plan.char_colors.is_empty() && !plan.line_colors.is_empty());
    assert_eq!(plan.char_colors.len() + plan.line_colors.len(), 5);
    assert_eq!(plan.glyph_colors.len(), 4);
    assert!(plan.glyph_colors.iter().all(|c| plan.char_colors.contains(c)));
    assert_eq!(plan.noise_colors.len(), 5);
    assert!(plan.noise_colors.iter().all(|c| plan.line_colors.contains(c)));
}

#[test]
fn plan_answer_ignores_glyph_coverage() {
    let letters = vec!['\u{2603}', 'x'];
    let plan = BiosvgBuilder::new().length(7).colors(palette()).plan(&letters).unwrap();
    assert_eq!(plan.answer.chars().count(), 7);
    assert!(plan.noise_colors.is_empty());
}

#[test]
fn plan_with_one_color_is_config_error() {
    let r = BiosvgBuilder::new()
        .length(4)
        .difficulty(6)
        .colors(strings(&["#0078D6"]))
        .plan(&alphabet());
    assert!(matches!(r, Err(PathError::ConfigError)));
    let r = BiosvgBuilder::new().length(4).plan(&alphabet());
    assert!(matches!(r, Err(PathError::ConfigError)));
}

#[test]
fn plan_with_zero_length_is_config_error() {
    let r = BiosvgBuilder::new().difficulty(3).colors(palette()).plan(&alphabet());
    assert!(matches!(r, Err(PathError::ConfigError)));
}

#[test]
fn command_text_has_letter_and_trailing_space() {
    assert_eq!(command_text(CommandType::Move, "1", "-2.5"), "M 1 -2.5 ");
    assert_eq!(command_text(CommandType::LineTo, "0", "3"), "L 0 3 ");
}

#[test]
fn trim_end_removes_trailing_whitespace_only() {
    assert_eq!(trim_end("L 1 2 \t\n "), "L 1 2");
    assert_eq!(trim_end(" M 1"), " M 1");
    assert_eq!(trim_end("   "), "");
}

#[test]
fn concat_joins_in_order() {
    assert_eq!(concat_strings(&strings(&["ab", "", "c"])), "abc");
}

#[test]
fn path_element_trims_data() {
    let cmds = strings(&["M 0 0 ", "L 1 2 "]);
    assert_eq!(
        path_element(&cmds, "red", "0.5"),
        "<path d=\"M 0 0 L 1 2\" stroke=\"red\" stroke-width=\"0.5\" fill=\"none\" />"
    );
}

#[test]
fn document_size_matches_view_box() {
    let doc = svg_document("10", "15", &strings(&["<a/>", "<b/>"]));
    assert_eq!(
        doc,
        "<svg width=\"10\" height=\"15\" viewBox=\"0 0 10 15\" xmlns=\"http://www.w3.org/2000/svg\" version=\"1.1\"><a/><b/></svg>"
    );
}

#[test]
fn shuffled_order_is_permutation() {
    let mut order = shuffled_order(9);
    order.sort();
    assert_eq!(order, (0..9).collect::<Vec<usize>>());
    assert!(shuffled_order(0).is_empty());
}

#[test]
fn arrange_follows_order() {
    let items = strings(&["a", "b", "c"]);
    assert_eq!(arrange(&items, &vec![2, 0, 1]), strings(&["c", "a", "b"]));
}

#[test]
fn shuffled_document_holds_every_element() {
    let items = strings(&["<a/>", "<b/>", "<c/>"]);
    let doc = shuffled_document("4", "6", &items);
    assert!(doc.starts_with("<svg width=\"4\" height=\"6\" viewBox=\"0 0 4 6\""));
    assert!(doc.ends_with("</svg>"));
    for item in &items {
        assert_eq!(doc.matches(item.as_str()).count(), 1);
    }
    assert_eq!(doc.len(), svg_document("4", "6", &items).len());
}

#[test]
fn letters_map_to_command_kinds() {
    assert!(matches!(CommandType::from_letter("M"), Ok(CommandType::Move)));
    assert!(matches!(CommandType::from_letter("L"), Ok(CommandType::LineTo)));
    assert!(matches!(CommandType::from_letter("Z"), Err(PathError::ParseError)));
    assert!(matches!(CommandType::from_letter("ML"), Err(PathError::ParseError)));
    assert!(matches!(CommandType::from_letter(""), Err(PathError::ParseError)));
}

#[test]
fn default_builder_is_empty() {
    let b = BiosvgBuilder::default();
    assert_eq!((b.length, b.difficulty, b.colors.len()), (0, 0, 0));
}

#[test]
fn split_of_stroke_opening_with_line_starts_at_it() {
    let kinds = vec![CommandType::LineTo, CommandType::LineTo, CommandType::LineTo];
    let runs = split_runs(&kinds, &vec![3; 4]);
    assert_eq!(runs, vec![vec![0, 0, 1, 2]]);
}

#[test]
fn random_split_moves_precede_lines() {
    let kinds = vec![CommandType::Move, CommandType::LineTo, CommandType::LineTo, CommandType::LineTo, CommandType::LineTo, CommandType::LineTo, CommandType::LineTo];
    for _ in 0..50 {
        for run in random_split_runs(&kinds) {
            assert_eq!(run[0] + 1, run[1]);
        }
    }
}
