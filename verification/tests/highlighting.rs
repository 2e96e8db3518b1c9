use rustle::editor::view::grapheme::{GraphemeWidth, HighlightType, Line};
use rustle::editor::view::languageconfig::LanguageConfig;

use HighlightType::{Comment, Keyword, Normal, Number, Type};

fn texts(line: &Line) -> Vec<String> {
    line.fragments.iter().map(|f| f.grapheme.clone()).collect()
}

fn types(line: &Line) -> Vec<HighlightType> {
    line.fragments.iter().map(|f| f.highlight_type).collect()
}

#[test]
fn rust_line_is_highlighted_by_token() {
    let line = Line::get_fragments_from_string("let x = 42; // hi", &LanguageConfig::rust());
    assert_eq!(texts(&line).concat(), "let x = 42; // hi");
    assert_eq!(
        types(&line),
        vec![
            Keyword, Keyword, Keyword, Normal, Normal, Normal, Normal, Normal, Number, Number,
            Normal, Normal, Comment, Comment, Comment, Comment, Comment,
        ]
    );
}

#[test]
fn type_names_and_plain_identifiers() {
    let line = Line::get_fragments_from_string("_v1 Vec", &LanguageConfig::rust());
    assert_eq!(types(&line), vec![Normal, Normal, Normal, Normal, Type, Type, Type]);
}

#[test]
fn string_literal_runs_past_escaped_quotes() {
    let line = Line::get_fragments_from_string("\"a\\\"b\" x", &LanguageConfig::rust());
    let expected = [
        HighlightType::String,
        HighlightType::String,
        HighlightType::String,
        HighlightType::String,
        HighlightType::String,
        HighlightType::String,
        Normal,
        Normal,
    ];
    assert_eq!(types(&line), expected.to_vec());
}

#[test]
fn unterminated_string_runs_to_the_end() {
    let line = Line::get_fragments_from_string("x \"ab", &LanguageConfig::rust());
    assert_eq!(
        types(&line),
        vec![Normal, Normal, HighlightType::String, HighlightType::String, HighlightType::String]
    );
}

#[test]
fn number_takes_dots_after_its_first_digit() {
    let line = Line::get_fragments_from_string("3.14.x", &LanguageConfig::rust());
    assert_eq!(types(&line), vec![Number, Number, Number, Number, Number, Normal]);
}

#[test]
fn plain_text_config_marks_nothing() {
    let line = Line::get_fragments_from_string("fn // x", &LanguageConfig::text());
    assert!(types(&line).iter().all(|t| *t == Normal));
    assert_eq!(line.fragments.len(), 7);
}

#[test]
fn highlighting_keeps_combined_graphemes_together() {
    let line = Line::get_fragments_from_string("e\u{301}x", &LanguageConfig::rust());
    assert_eq!(texts(&line), vec![String::from("e\u{301}"), String::from("x")]);
    assert_eq!(line.grapheme_to_char_idx(1), 2);
    assert_eq!(line.grapheme_to_char_idx(9), 3);
    assert_eq!(line.char_to_grapheme_idx(1), 0);
    assert_eq!(line.char_to_grapheme_idx(2), 1);
    assert_eq!(line.char_to_grapheme_idx(5), 2);
    assert_eq!(line.grapheme_char_len(0), Some(2));
    assert_eq!(line.grapheme_char_len(2), None);
}

#[test]
fn widths_count_wide_graphemes_twice() {
    let line = Line::get_fragments_from_string("a\u{4E2D}b", &LanguageConfig::text());
    assert_eq!(line.fragments[1].rendered_width, GraphemeWidth::Full);
    assert_eq!(line.width_until(0), 0);
    assert_eq!(line.width_until(2), 3);
    assert_eq!(line.width_until(10), 4);
}

#[test]
fn width_saturating_add() {
    assert_eq!(GraphemeWidth::Zero.saturating_add(4), 4);
    assert_eq!(GraphemeWidth::Half.saturating_add(4), 5);
    assert_eq!(GraphemeWidth::Full.saturating_add(4), 6);
    assert_eq!(GraphemeWidth::Full.saturating_add(usize::MAX - 1), usize::MAX);
}

#[test]
fn replacements_for_tabs_spaces_and_invisible_graphemes() {
    let line = Line::get_fragments_from_string("a\t \u{3000}\u{7}\u{200B}", &LanguageConfig::text());
    let replacements: Vec<Option<char>> = line.fragments.iter().map(|f| f.replacement()).collect();
    assert_eq!(
        replacements,
        vec![None, Some(' '), None, Some('\u{2423}'), Some('\u{25AF}'), Some('.')]
    );
    assert_eq!(line.get_visible_graphemes(0..6), "a  \u{2423}\u{25AF}.");
    assert_eq!(line.get_graphemes_in_range(1, 3), "  ");
}

#[test]
fn trailing_line_break_is_not_counted() {
    let line = Line::get_fragments_from_string("ab\n", &LanguageConfig::text());
    assert_eq!(line.fragments.len(), 3);
    assert_eq!(line.grapheme_count(), 2);
    let plain = Line::get_fragments_from_string("ab", &LanguageConfig::text());
    assert_eq!(plain.grapheme_count(), 2);
    let empty = Line::get_fragments_from_string("", &LanguageConfig::text());
    assert_eq!(empty.grapheme_count(), 0);
}

#[test]
fn rope_slice_lines_are_highlighted_like_strings() {
    let rope = ropey::Rope::from_str("fn main\nx");
    let line = Line::get_fragments_from_rope_slice(rope.line(0), &LanguageConfig::rust());
    assert_eq!(texts(&line).concat(), "fn main\n");
    assert_eq!(line.fragments[0].highlight_type, Keyword);
    assert_eq!(line.fragments[3].highlight_type, Normal);
}

#[test]
fn keyword_lookup() {
    let config = LanguageConfig::rust();
    assert_eq!(config.keyword_type(&String::from("while")), Some(Keyword));
    assert_eq!(config.keyword_type(&String::from("usize")), Some(Type));
    assert_eq!(config.keyword_type(&String::from("main")), None);
    assert_eq!(LanguageConfig::text().keyword_type(&String::from("fn")), None);
    assert_eq!(config.single_line_comment_start, Some(String::from("//")));
}

#[test]
fn fragment_accessors_give_the_fields() {
    let line = Line::get_fragments_from_string("fn \u{4E2D}", &LanguageConfig::rust());
    assert_eq!(line.fragments[0].grapheme(), "f");
    assert_eq!(line.fragments[0].highlight_type(), Keyword);
    assert_eq!(line.fragments[3].rendered_width(), GraphemeWidth::Full);
    assert_eq!(line.fragments[2].replacement(), None);
}

#[test]
fn grapheme_to_char_and_back_is_the_same_index() {
    let line = Line::get_fragments_from_string("ae\u{301}\u{4E2D}x\n", &LanguageConfig::text());
    for g in 0..=line.fragments.len() {
        assert_eq!(line.char_to_grapheme_idx(line.grapheme_to_char_idx(g)), g);
    }
}

#[test]
fn every_rust_word_is_marked_once() {
    let config = LanguageConfig::rust();
    assert_eq!(config.keywords.len(), 48);
    for (i, (a, _)) in config.keywords.iter().enumerate() {
        for (b, _) in config.keywords.iter().skip(i + 1) {
            assert_ne!(a, b);
        }
    }
}
