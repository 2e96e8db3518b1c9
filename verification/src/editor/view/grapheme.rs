use vstd::prelude::*;

use ropey::RopeSlice;

use super::languageconfig::{lookup_word, LanguageConfig};
use crate::rope::{slice_chars, slice_to_string};
use crate::text::{chars_of, lemma_concat_all_add, lemma_concat_all_take, push_char, starts_with_at};
use crate::unicode::{
    char_is_alphabetic, char_is_alphanumeric, char_is_control, char_is_whitespace, concat_all,
    display_width, grapheme_clusters, graphemes, is_ascii_digit, is_control_char, texts,
    unicode_alphabetic, unicode_alphanumeric, unicode_white_space, width,
};

verus! {

/// How a piece of text is highlighted.
#[derive(Debug, Clone, Copy, PartialEq, Eq, Structural)]
pub enum HighlightType {
    Normal,
    Keyword,
    Type,
    Number,
    String,
    Comment,
}

/// How many terminal columns a grapheme takes: none, one or two.
#[derive(Clone, Copy, PartialEq, Eq, Structural, Debug)]
pub enum GraphemeWidth {
    Zero,
    Half,
    Full,
}

/// `x` when it fits in a `usize`, else `usize::MAX`.
pub open spec fn cap(x: int) -> usize {
    if x <= usize::MAX {
        x as usize
    } else {
        usize::MAX
    }
}

impl GraphemeWidth {
    /// The number of columns.
    pub open spec fn columns(self) -> nat {
        match self {
            GraphemeWidth::Zero => 0,
            GraphemeWidth::Half => 1,
            GraphemeWidth::Full => 2,
        }
    }

    /// `other` plus the columns of this width, saturating at `usize::MAX`.
    pub fn saturating_add(self, other: usize) -> (sum: usize)
        ensures
            sum == cap(other + self.columns()),
    {
        match self {
            Self::Zero => other.saturating_add(0),
            Self::Half => other.saturating_add(1),
            Self::Full => other.saturating_add(2),
        }
    }
}

/// The width class of a text that takes `columns` columns.
pub open spec fn width_class(columns: usize) -> GraphemeWidth {
    if columns == 0 {
        GraphemeWidth::Zero
    } else if columns == 1 {
        GraphemeWidth::Half
    } else {
        GraphemeWidth::Full
    }
}

/// Whether every char of `g` is white space (so that trimming leaves nothing).
pub open spec fn all_white_space(g: Seq<char>) -> bool {
    forall|k: int| 0 <= k < g.len() ==> unicode_white_space(#[trigger] g[k])
}

/// The char drawn in place of the grapheme `g`, if any: a space for a tab,
/// an open box for other visible white space, a rectangle for a lone control
/// char, and a dot for what takes no column.
pub open spec fn replacement_for(g: Seq<char>) -> Option<char> {
    if g == seq![' '] {
        None
    } else if g == seq!['\t'] {
        Some(' ')
    } else if display_width(g) > 0 {
        if all_white_space(g) {
            Some('\u{2423}')
        } else if g.len() == 1 && is_control_char(g[0]) {
            Some('\u{25AF}')
        } else {
            None
        }
    } else {
        Some('.')
    }
}

/// One grapheme of a line, with its width, its replacement and its highlight.
pub struct TextFragment {
    pub grapheme: String,
    pub rendered_width: GraphemeWidth,
    replacement: Option<char>,
    pub highlight_type: HighlightType,
}

impl TextFragment {
    /// The char drawn in place of the grapheme, if any.
    pub closed spec fn replacement_spec(&self) -> Option<char> {
        self.replacement
    }

    /// The grapheme's text.
    pub closed spec fn text(&self) -> Seq<char> {
        self.grapheme@
    }

    /// The grapheme's width class.
    pub closed spec fn width_spec(&self) -> GraphemeWidth {
        self.rendered_width
    }

    /// The grapheme's highlight.
    pub closed spec fn type_spec(&self) -> HighlightType {
        self.highlight_type
    }

    /// The grapheme is not empty, and the width and the replacement are
    /// those of the grapheme.
    pub open spec fn rendered_right(&self) -> bool {
        &&& self.text().len() > 0
        &&& self.width_spec() == width_class(display_width(self.text()))
        &&& self.replacement_spec() == replacement_for(self.text())
    }

    /// The grapheme's text with its highlight.
    pub open spec fn text_and_type(&self) -> (Seq<char>, HighlightType) {
        (self.text(), self.type_spec())
    }

    /// The grapheme's text.
    pub fn grapheme(&self) -> (g: &String)
        ensures
            g@ == self.text(),
    {
        &self.grapheme
    }

    /// The grapheme's width class.
    pub fn rendered_width(&self) -> (w: GraphemeWidth)
        ensures
            w == self.width_spec(),
    {
        self.rendered_width
    }

    /// The grapheme's highlight.
    pub fn highlight_type(&self) -> (t: HighlightType)
        ensures
            t == self.type_spec(),
    {
        self.highlight_type
    }

    /// The char drawn in place of the grapheme, if any.
    pub fn replacement(&self) -> (r: Option<char>)
        ensures
            r == self.replacement_spec(),
    {
        self.replacement
    }
}

/// The texts and highlights of fragments.
pub open spec fn fragment_views(frags: Seq<TextFragment>) -> Seq<(Seq<char>, HighlightType)> {
    frags.map_values(|f: TextFragment| f.text_and_type())
}

/// The texts of fragments.
pub open spec fn fragment_texts(frags: Seq<TextFragment>) -> Seq<Seq<char>> {
    frags.map_values(|f: TextFragment| f.text())
}

/// The graphemes into which a line of plain text is split for display.
pub open spec fn plain_graphemes(s: Seq<char>) -> Seq<Seq<char>> {
    token_fragments(grapheme_clusters(s), None, Seq::empty(), 0).map_values(
        |p: (Seq<char>, HighlightType)| p.0,
    )
}

/// How the grapheme `g` is drawn: its replacement if it has one, else itself.
pub open spec fn drawn(g: Seq<char>) -> Seq<char> {
    match replacement_for(g) {
        Some(c) => seq![c],
        None => g,
    }
}

/// How the graphemes from `from` up to `to` are drawn (none past the end).
pub open spec fn drawn_range(gs: Seq<Seq<char>>, from: int, to: int) -> Seq<char>
    decreases to - from,
{
    if from < 0 || from >= to || from >= gs.len() {
        Seq::empty()
    } else {
        drawn(gs[from]) + drawn_range(gs, from + 1, to)
    }
}

/// The number of graphemes, not counting a last one that is drawn replaced
/// (the line break).
pub open spec fn visible_count(gs: Seq<Seq<char>>) -> nat {
    if gs.len() == 0 {
        0
    } else if replacement_for(gs.last()) is Some {
        (gs.len() - 1) as nat
    } else {
        gs.len()
    }
}

/// The columns taken by the first `n` graphemes.
pub open spec fn columns_before(gs: Seq<Seq<char>>, n: int) -> nat
    decreases n,
{
    if n <= 0 {
        0
    } else {
        columns_before(gs, n - 1) + width_class(display_width(gs[n - 1])).columns()
    }
}

/// The chars in the first `n` graphemes.
pub open spec fn chars_before(gs: Seq<Seq<char>>, n: int) -> nat
    decreases n,
{
    if n <= 0 {
        0
    } else {
        chars_before(gs, n - 1) + gs[n - 1].len()
    }
}

/// The first grapheme from `p` on that holds the char at index `c` (counting
/// chars up to `usize::MAX`), or the number of graphemes.
pub open spec fn grapheme_holding(gs: Seq<Seq<char>>, c: int, p: int) -> int
    decreases gs.len() - p,
{
    if p < 0 || p >= gs.len() {
        gs.len() as int
    } else if cap(chars_before(gs, p + 1) as int) > c {
        p
    } else {
        grapheme_holding(gs, c, p + 1)
    }
}

/// The chars of the first `n` graphemes are the join of those graphemes.
pub proof fn lemma_chars_before(gs: Seq<Seq<char>>, n: int)
    requires
        0 <= n <= gs.len(),
    ensures
        chars_before(gs, n) == concat_all(gs.take(n)).len(),
        chars_before(gs, n) <= concat_all(gs).len(),
    decreases n,
{
    if n > 0 {
        lemma_chars_before(gs, n - 1);
        lemma_concat_all_take(gs, n - 1);
    } else {
        assert(gs.take(0) =~= Seq::<Seq<char>>::empty());
    }
    lemma_concat_all_add(gs.take(n), gs.skip(n));
    assert(gs.take(n) + gs.skip(n) =~= gs);
}

/// For fragments drawn right, the line's counts depend on the graphemes'
/// texts alone.
pub proof fn lemma_line_model(frags: Seq<TextFragment>)
    requires
        forall|k: int| 0 <= k < frags.len() ==> #[trigger] frags[k].rendered_right(),
    ensures
        count_graphemes(frags) == visible_count(fragment_texts(frags)),
        forall|n: int| n <= frags.len() ==> #[trigger] width_prefix(frags, n) == columns_before(fragment_texts(frags), n),
        forall|n: int| n <= frags.len() ==> #[trigger] char_prefix(frags, n) == chars_before(fragment_texts(frags), n),
        forall|c: int, p: int| #[trigger] grapheme_at_char(frags, c, p) == grapheme_holding(fragment_texts(frags), c, p),
{
    let gs = fragment_texts(frags);
    if frags.len() > 0 {
        assert(frags.last().rendered_right());
        assert(gs.last() == frags.last().text());
    }
    assert forall|n: int| n <= frags.len() implies #[trigger] width_prefix(frags, n) == columns_before(gs, n) by {
        lemma_width_prefix_model(frags, n);
    }
    assert forall|n: int| n <= frags.len() implies #[trigger] char_prefix(frags, n) == chars_before(gs, n) by {
        lemma_char_prefix_model(frags, n);
    }
    assert forall|c: int, p: int| #[trigger] grapheme_at_char(frags, c, p) == grapheme_holding(gs, c, p) by {
        lemma_grapheme_at_char_model(frags, c, p);
    }
}

/// The columns of the first `n` fragments are those of their graphemes.
proof fn lemma_width_prefix_model(frags: Seq<TextFragment>, n: int)
    requires
        n <= frags.len(),
        forall|k: int| 0 <= k < frags.len() ==> #[trigger] frags[k].rendered_right(),
    ensures
        width_prefix(frags, n) == columns_before(fragment_texts(frags), n),
    decreases n,
{
    if n > 0 {
        lemma_width_prefix_model(frags, n - 1);
        assert(frags[n - 1].rendered_right());
    }
}

/// The chars of the first `n` fragments are those of their graphemes.
proof fn lemma_char_prefix_model(frags: Seq<TextFragment>, n: int)
    requires
        n <= frags.len(),
    ensures
        char_prefix(frags, n) == chars_before(fragment_texts(frags), n),
    decreases n,
{
    if n > 0 {
        lemma_char_prefix_model(frags, n - 1);
    }
}

/// The fragment that holds a char is the grapheme that holds it.
proof fn lemma_grapheme_at_char_model(frags: Seq<TextFragment>, c: int, p: int)
    ensures
        grapheme_at_char(frags, c, p) == grapheme_holding(fragment_texts(frags), c, p),
    decreases frags.len() - p,
{
    if 0 <= p < frags.len() {
        lemma_char_prefix_model(frags, p + 1);
        lemma_grapheme_at_char_model(frags, c, p + 1);
    }
}

/// The number of graphemes of a line, not counting a last one that is drawn
/// replaced (the line break).
pub open spec fn count_graphemes(frags: Seq<TextFragment>) -> nat {
    if frags.len() == 0 {
        0
    } else if frags.last().replacement_spec() is Some {
        (frags.len() - 1) as nat
    } else {
        frags.len()
    }
}

/// The columns taken by the first `n` fragments.
pub open spec fn width_prefix(frags: Seq<TextFragment>, n: int) -> nat
    decreases n,
{
    if n <= 0 {
        0
    } else {
        width_prefix(frags, n - 1) + frags[n - 1].width_spec().columns()
    }
}

/// The chars in the first `n` fragments.
pub open spec fn char_prefix(frags: Seq<TextFragment>, n: int) -> nat
    decreases n,
{
    if n <= 0 {
        0
    } else {
        char_prefix(frags, n - 1) + frags[n - 1].text().len()
    }
}

/// The first fragment from `p` on that holds the char at index `c` of the
/// line (counting chars up to `usize::MAX`), or the number of fragments.
pub open spec fn grapheme_at_char(frags: Seq<TextFragment>, c: int, p: int) -> int
    decreases frags.len() - p,
{
    if p < 0 || p >= frags.len() {
        frags.len() as int
    } else if cap(char_prefix(frags, p + 1) as int) > c {
        p
    } else {
        grapheme_at_char(frags, c, p + 1)
    }
}

/// Over non-empty graphemes, each fragment adds at least one char.
proof fn lemma_char_prefix_grows(frags: Seq<TextFragment>, a: int, b: int)
    requires
        forall|k: int| 0 <= k < frags.len() ==> #[trigger] frags[k].rendered_right(),
        0 <= a <= b <= frags.len(),
    ensures
        char_prefix(frags, a) + (b - a) <= char_prefix(frags, b),
    decreases b - a,
{
    if a < b {
        lemma_char_prefix_grows(frags, a, b - 1);
        assert(frags[b - 1].rendered_right());
    }
}

/// Searching from fragment `p` on for the first char of fragment `g` finds
/// fragment `g`.
proof fn lemma_grapheme_at_char_from(frags: Seq<TextFragment>, g: int, p: int)
    requires
        forall|k: int| 0 <= k < frags.len() ==> #[trigger] frags[k].rendered_right(),
        0 <= p <= g <= frags.len(),
        char_prefix(frags, frags.len() as int) <= usize::MAX,
    ensures
        grapheme_at_char(frags, char_prefix(frags, g) as int, p) == g,
    decreases g - p,
{
    lemma_char_prefix_grows(frags, g, frags.len() as int);
    if p < g {
        lemma_char_prefix_grows(frags, p + 1, g);
        lemma_grapheme_at_char_from(frags, g, p + 1);
    } else if g < frags.len() {
        lemma_char_prefix_grows(frags, g, g + 1);
        lemma_char_prefix_grows(frags, g + 1, frags.len() as int);
    }
}

/// Going from a grapheme index to the index of its first char and back
/// gives the same grapheme index, as `grapheme_to_char_idx` and then
/// `char_to_grapheme_idx` compute them: on a line of non-empty graphemes
/// (every line the highlighter builds) whose chars fit in a `usize`, for
/// every index up to the number of graphemes.
pub proof fn lemma_grapheme_char_round_trip(frags: Seq<TextFragment>, g: int)
    requires
        forall|k: int| 0 <= k < frags.len() ==> #[trigger] frags[k].rendered_right(),
        0 <= g <= frags.len(),
        char_prefix(frags, frags.len() as int) <= usize::MAX,
    ensures
        grapheme_at_char(frags, cap(char_prefix(frags, g) as int) as int, 0) == g,
{
    lemma_char_prefix_grows(frags, g, frags.len() as int);
    lemma_grapheme_at_char_from(frags, g, 0);
}

/// The first char of a grapheme, or `'\0'` for an empty one.
pub open spec fn first_char_of(g: Seq<char>) -> char {
    if g.len() > 0 {
        g[0]
    } else {
        '\0'
    }
}

/// The text of the graphemes `i` up to `j`.
pub open spec fn join(gs: Seq<Seq<char>>, i: int, j: int) -> Seq<char> {
    concat_all(gs.subrange(i, j))
}

/// The number of backslash graphemes right before grapheme `j`.
pub open spec fn backslashes_before(gs: Seq<Seq<char>>, j: int) -> nat
    decreases j,
{
    if j <= 0 || j > gs.len() {
        0
    } else if gs[j - 1] == seq!['\\'] {
        1 + backslashes_before(gs, j - 1)
    } else {
        0
    }
}

/// Where a string literal whose body starts at grapheme `j` ends: just after
/// the first quote that no odd run of backslashes escapes, or at the end.
pub open spec fn string_scan(gs: Seq<Seq<char>>, j: int) -> int
    decreases gs.len() - j,
{
    if j < 0 || j >= gs.len() {
        j
    } else if gs[j] == seq!['"'] && backslashes_before(gs, j) % 2 == 0 {
        j + 1
    } else {
        string_scan(gs, j + 1)
    }
}

/// Where a number whose rest starts at grapheme `j` ends: at the first
/// grapheme that starts with neither a digit nor a dot.
pub open spec fn number_scan(gs: Seq<Seq<char>>, j: int) -> int
    decreases gs.len() - j,
{
    if j < 0 || j >= gs.len() {
        j
    } else if is_ascii_digit(first_char_of(gs[j])) || first_char_of(gs[j]) == '.' {
        number_scan(gs, j + 1)
    } else {
        j
    }
}

/// Where a word whose rest starts at grapheme `j` ends: at the first grapheme
/// that starts with neither a letter, a digit nor an underscore.
pub open spec fn ident_scan(gs: Seq<Seq<char>>, j: int) -> int
    decreases gs.len() - j,
{
    if j < 0 || j >= gs.len() {
        j
    } else if unicode_alphanumeric(first_char_of(gs[j])) || first_char_of(gs[j]) == '_' {
        ident_scan(gs, j + 1)
    } else {
        j
    }
}

/// Whether a comment opens at grapheme `i`.
pub open spec fn starts_comment(gs: Seq<Seq<char>>, comment: Option<Seq<char>>, i: int) -> bool {
    &&& comment is Some
    &&& comment->0.is_prefix_of(join(gs, i, gs.len() as int))
}

/// The kinds of token that the highlighter tells apart.
pub enum TokenKind {
    Comment,
    Str,
    Number,
    Word,
    Other,
}

/// The kind of the token that starts at grapheme `i`.
pub open spec fn token_kind(gs: Seq<Seq<char>>, comment: Option<Seq<char>>, i: int) -> TokenKind {
    let c = first_char_of(gs[i]);
    if starts_comment(gs, comment, i) {
        TokenKind::Comment
    } else if c == '"' {
        TokenKind::Str
    } else if is_ascii_digit(c) {
        TokenKind::Number
    } else if unicode_alphabetic(c) || c == '_' {
        TokenKind::Word
    } else {
        TokenKind::Other
    }
}

/// Where the token that starts at grapheme `i` ends.
pub open spec fn token_end(gs: Seq<Seq<char>>, comment: Option<Seq<char>>, i: int) -> int {
    match token_kind(gs, comment, i) {
        TokenKind::Comment => gs.len() as int,
        TokenKind::Str => string_scan(gs, i + 1),
        TokenKind::Number => number_scan(gs, i + 1),
        TokenKind::Word => ident_scan(gs, i + 1),
        TokenKind::Other => i + 1,
    }
}

/// The highlight of the token that starts at grapheme `i`; a word is looked
/// up among the configuration's marked words.
pub open spec fn token_type(
    gs: Seq<Seq<char>>,
    comment: Option<Seq<char>>,
    entries: Seq<(Seq<char>, HighlightType)>,
    i: int,
) -> HighlightType {
    match token_kind(gs, comment, i) {
        TokenKind::Comment => HighlightType::Comment,
        TokenKind::Str => HighlightType::String,
        TokenKind::Number => HighlightType::Number,
        TokenKind::Word => match lookup_word(entries, join(gs, i, token_end(gs, comment, i))) {
            Some(t) => t,
            None => HighlightType::Normal,
        },
        TokenKind::Other => HighlightType::Normal,
    }
}

/// The graphemes of `text`, each with the highlight `ty`.
pub open spec fn typed_clusters(text: Seq<char>, ty: HighlightType) -> Seq<
    (Seq<char>, HighlightType),
> {
    grapheme_clusters(text).map_values(|g: Seq<char>| (g, ty))
}

/// The highlighted graphemes of the tokens from grapheme `i` on: each token
/// is split into graphemes again, and all of them get its highlight.
pub open spec fn token_fragments(
    gs: Seq<Seq<char>>,
    comment: Option<Seq<char>>,
    entries: Seq<(Seq<char>, HighlightType)>,
    i: int,
) -> Seq<(Seq<char>, HighlightType)>
    decreases gs.len() - i,
{
    if i < 0 || i >= gs.len() {
        Seq::empty()
    } else {
        let j = token_end(gs, comment, i);
        if i < j <= gs.len() {
            typed_clusters(join(gs, i, j), token_type(gs, comment, entries, i)) + token_fragments(
                gs,
                comment,
                entries,
                j,
            )
        } else {
            Seq::empty()
        }
    }
}

/// The highlighted graphemes of `line` under `config`.
pub open spec fn highlighted(line: Seq<char>, config: &LanguageConfig) -> Seq<
    (Seq<char>, HighlightType),
> {
    token_fragments(grapheme_clusters(line), config.comment_start(), config.entries(), 0)
}

/// A string literal ends within the line, not before its body starts.
proof fn lemma_string_scan(gs: Seq<Seq<char>>, j: int)
    requires
        0 <= j <= gs.len(),
    ensures
        j <= string_scan(gs, j) <= gs.len(),
    decreases gs.len() - j,
{
    if j < gs.len() {
        lemma_string_scan(gs, j + 1);
    }
}

/// A number ends within the line, not before its rest starts.
proof fn lemma_number_scan(gs: Seq<Seq<char>>, j: int)
    requires
        0 <= j <= gs.len(),
    ensures
        j <= number_scan(gs, j) <= gs.len(),
    decreases gs.len() - j,
{
    if j < gs.len() {
        lemma_number_scan(gs, j + 1);
    }
}

/// A word ends within the line, not before its rest starts.
proof fn lemma_ident_scan(gs: Seq<Seq<char>>, j: int)
    requires
        0 <= j <= gs.len(),
    ensures
        j <= ident_scan(gs, j) <= gs.len(),
    decreases gs.len() - j,
{
    if j < gs.len() {
        lemma_ident_scan(gs, j + 1);
    }
}

/// Every token takes at least one grapheme and stays within the line.
pub proof fn lemma_token_end(gs: Seq<Seq<char>>, comment: Option<Seq<char>>, i: int)
    requires
        0 <= i < gs.len(),
    ensures
        i < token_end(gs, comment, i) <= gs.len(),
{
    lemma_string_scan(gs, i + 1);
    lemma_number_scan(gs, i + 1);
    lemma_ident_scan(gs, i + 1);
}

/// Scanning a string body from `j` on stops right after the first quote
/// that an even number of backslashes precedes, or at the end.
proof fn lemma_string_scan_first_closing(gs: Seq<Seq<char>>, i: int, j: int)
    requires
        0 <= i < j <= gs.len(),
        forall|q: int|
            i < q < j ==> !(#[trigger] gs[q] == seq!['"'] && backslashes_before(gs, q) % 2 == 0),
    ensures
        j <= string_scan(gs, j) <= gs.len(),
        forall|q: int|
            i < q < string_scan(gs, j) - 1 ==> !(#[trigger] gs[q] == seq!['"'] && backslashes_before(
                gs,
                q,
            ) % 2 == 0),
        ({
            let e = string_scan(gs, j);
            ||| (j < e && gs[e - 1] == seq!['"'] && backslashes_before(gs, e - 1) % 2 == 0)
            ||| (e == gs.len() && forall|q: int|
                i < q < e ==> !(#[trigger] gs[q] == seq!['"'] && backslashes_before(gs, q) % 2
                    == 0))
        }),
    decreases gs.len() - j,
{
    if j < gs.len() && !(gs[j] == seq!['"'] && backslashes_before(gs, j) % 2 == 0) {
        lemma_string_scan_first_closing(gs, i, j + 1);
    }
}

/// A string literal ends right after its first closing quote: a quote that
/// an even number (zero included) of backslashes precedes. So `"\\" x`
/// ends at the quote after the two backslashes, while in `"\" x` the
/// second quote is escaped. Before the closing quote no quote closes the
/// literal, and without one it runs to the end of the line.
pub proof fn lemma_string_ends_at_first_unescaped_quote(
    gs: Seq<Seq<char>>,
    comment: Option<Seq<char>>,
    i: int,
)
    requires
        0 <= i < gs.len(),
        token_kind(gs, comment, i) is Str,
    ensures
        ({
            let e = token_end(gs, comment, i);
            &&& i < e <= gs.len()
            &&& forall|q: int|
                i < q < e - 1 ==> !(#[trigger] gs[q] == seq!['"'] && backslashes_before(gs, q) % 2
                    == 0)
            &&& ((i + 1 < e && gs[e - 1] == seq!['"'] && backslashes_before(gs, e - 1) % 2 == 0)
                || (e == gs.len() && forall|q: int|
                i < q < e ==> !(#[trigger] gs[q] == seq!['"'] && backslashes_before(gs, q) % 2
                    == 0)))
        }),
{
    if i + 1 <= gs.len() {
        lemma_string_scan_first_closing(gs, i, i + 1);
    }
}

/// Scanning a number from `j` on stops at the first grapheme that starts
/// with neither a digit nor a dot.
proof fn lemma_number_scan_stops(gs: Seq<Seq<char>>, j: int)
    requires
        0 <= j <= gs.len(),
    ensures
        j <= number_scan(gs, j) <= gs.len(),
        forall|q: int|
            j <= q < number_scan(gs, j) ==> is_ascii_digit(first_char_of(#[trigger] gs[q]))
                || first_char_of(gs[q]) == '.',
        number_scan(gs, j) < gs.len() ==> !(is_ascii_digit(first_char_of(gs[number_scan(gs, j)]))
            || first_char_of(gs[number_scan(gs, j)]) == '.'),
    decreases gs.len() - j,
{
    if j < gs.len() && (is_ascii_digit(first_char_of(gs[j])) || first_char_of(gs[j]) == '.') {
        lemma_number_scan_stops(gs, j + 1);
    }
}

/// Scanning a word from `j` on stops at the first grapheme that starts with
/// neither a letter, a digit nor an underscore.
proof fn lemma_ident_scan_stops(gs: Seq<Seq<char>>, j: int)
    requires
        0 <= j <= gs.len(),
    ensures
        j <= ident_scan(gs, j) <= gs.len(),
        forall|q: int|
            j <= q < ident_scan(gs, j) ==> unicode_alphanumeric(first_char_of(#[trigger] gs[q]))
                || first_char_of(gs[q]) == '_',
        ident_scan(gs, j) < gs.len() ==> !(unicode_alphanumeric(
            first_char_of(gs[ident_scan(gs, j)]),
        ) || first_char_of(gs[ident_scan(gs, j)]) == '_'),
    decreases gs.len() - j,
{
    if j < gs.len() && (unicode_alphanumeric(first_char_of(gs[j])) || first_char_of(gs[j])
        == '_') {
        lemma_ident_scan_stops(gs, j + 1);
    }
}

/// A number is the longest run of graphemes from its first digit on whose
/// first chars are digits or dots; a word is the longest run from its first
/// letter or underscore on whose first chars are letters, digits or
/// underscores; a comment runs to the end of the line; any other token is
/// one grapheme.
pub proof fn lemma_token_runs(gs: Seq<Seq<char>>, comment: Option<Seq<char>>, i: int)
    requires
        0 <= i < gs.len(),
    ensures
        ({
            let e = token_end(gs, comment, i);
            &&& i < e <= gs.len()
            &&& token_kind(gs, comment, i) is Number ==> {
                &&& forall|q: int|
                    i < q < e ==> is_ascii_digit(first_char_of(#[trigger] gs[q])) || first_char_of(
                        gs[q],
                    ) == '.'
                &&& e < gs.len() ==> !(is_ascii_digit(first_char_of(gs[e])) || first_char_of(gs[e])
                    == '.')
            }
            &&& token_kind(gs, comment, i) is Word ==> {
                &&& forall|q: int|
                    i < q < e ==> unicode_alphanumeric(first_char_of(#[trigger] gs[q]))
                        || first_char_of(gs[q]) == '_'
                &&& e < gs.len() ==> !(unicode_alphanumeric(first_char_of(gs[e]))
                    || first_char_of(gs[e]) == '_')
            }
            &&& token_kind(gs, comment, i) is Comment ==> e == gs.len()
            &&& token_kind(gs, comment, i) is Other ==> e == i + 1
        }),
{
    lemma_token_end(gs, comment, i);
    lemma_number_scan_stops(gs, i + 1);
    lemma_ident_scan_stops(gs, i + 1);
}

/// Whether `s` is the one char `c`.
fn is_only(s: &String, c: char) -> (r: bool)
    ensures
        r == (s@ == seq![c]),
{
    let t = s.as_str();
    if t.unicode_len() == 1 {
        let first = t.get_char(0);
        if first == c {
            assert(s@ =~= seq![c]);
            true
        } else {
            false
        }
    } else {
        false
    }
}

/// The text of `graphemes[i..j]`.
fn join_range(graphemes: &Vec<String>, i: usize, j: usize) -> (text: String)
    requires
        i <= j <= graphemes@.len(),
    ensures
        text@ == join(texts(graphemes@), i as int, j as int),
{
    let ghost gs = texts(graphemes@);
    let mut text = String::new();
    let mut k = i;
    assert(gs.subrange(i as int, i as int) =~= Seq::<Seq<char>>::empty());
    while k < j
        invariant
            i <= k <= j <= graphemes@.len(),
            gs == texts(graphemes@),
            text@ == join(gs, i as int, k as int),
        decreases j - k,
    {
        text.append(graphemes[k].as_str());
        assert(gs.subrange(i as int, k + 1).drop_last() =~= gs.subrange(i as int, k as int));
        k += 1;
    }
    text
}

/// The number of chars of `graphemes[i..j]`, added to `offset`.
fn advance_offset(graphemes: &Vec<String>, i: usize, j: usize, offset: usize, Ghost(
    total,
): Ghost<nat>) -> (next: usize)
    requires
        i <= j <= graphemes@.len(),
        offset == concat_all(texts(graphemes@).take(i as int)).len(),
        concat_all(texts(graphemes@)).len() == total,
        total <= usize::MAX,
    ensures
        next == concat_all(texts(graphemes@).take(j as int)).len(),
{
    let ghost gs = texts(graphemes@);
    let mut k = i;
    let mut next = offset;
    while k < j
        invariant
            i <= k <= j <= graphemes@.len(),
            gs == texts(graphemes@),
            next == concat_all(gs.take(k as int)).len(),
            concat_all(gs).len() == total,
            total <= usize::MAX,
        decreases j - k,
    {
        proof {
            lemma_concat_all_take(gs, k as int);
            lemma_concat_all_add(gs.take(k + 1), gs.skip(k + 1));
            assert(gs.take(k + 1) + gs.skip(k + 1) =~= gs);
        }
        next = next + graphemes[k].as_str().unicode_len();
        k += 1;
    }
    next
}

/// A line of text as highlighted graphemes.
pub struct Line {
    pub fragments: Vec<TextFragment>,
}

impl Line {
    /// The line `s`, highlighted under `config`.
    pub fn get_fragments_from_string(s: &str, config: &LanguageConfig) -> (line: Self)
        ensures
            fragment_views(line.fragments@) == highlighted(s@, config),
            concat_all(fragment_texts(line.fragments@)) == s@,
            forall|k: int| 0 <= k < line.fragments@.len() ==> #[trigger] line.fragments@[k].rendered_right(),
    {
        let fragments = Line::highlight(s, config);
        Self { fragments }
    }

    /// The line that `r_slice` holds, highlighted under `config`.
    pub fn get_fragments_from_rope_slice(r_slice: RopeSlice<'_>, config: &LanguageConfig) -> (line:
        Self)
        ensures
            fragment_views(line.fragments@) == highlighted(slice_chars(r_slice), config),
            concat_all(fragment_texts(line.fragments@)) == slice_chars(r_slice),
            forall|k: int| 0 <= k < line.fragments@.len() ==> #[trigger] line.fragments@[k].rendered_right(),
    {
        let text = slice_to_string(r_slice);
        let fragments: Vec<TextFragment> = Line::highlight(text.as_str(), config);
        Self { fragments }
    }

    /// The number of graphemes, not counting a last one that is drawn
    /// replaced.
    pub fn grapheme_count(&self) -> (count: usize)
        ensures
            count == count_graphemes(self.fragments@),
    {
        if self.fragments.len() == 0 {
            return 0;
        }
        if self.fragments[self.fragments.len() - 1].replacement.is_some() {
            self.fragments.len() - 1
        } else {
            self.fragments.len()
        }
    }

    /// The columns taken by the first `grapheme_idx` graphemes.
    pub fn width_until(&self, grapheme_idx: usize) -> (columns: usize)
        ensures
            columns == cap(
                width_prefix(
                    self.fragments@,
                    if grapheme_idx < self.fragments@.len() {
                        grapheme_idx as int
                    } else {
                        self.fragments@.len() as int
                    },
                ) as int,
            ),
    {
        let n = if grapheme_idx < self.fragments.len() {
            grapheme_idx
        } else {
            self.fragments.len()
        };
        let mut total: usize = 0;
        let mut k: usize = 0;
        while k < n
            invariant
                k <= n <= self.fragments@.len(),
                total == cap(width_prefix(self.fragments@, k as int) as int),
            decreases n - k,
        {
            total = self.fragments[k].rendered_width.saturating_add(total);
            k += 1;
        }
        total
    }

    /// The index, among the line's chars, of the first char of grapheme
    /// `grapheme_idx`.
    pub fn grapheme_to_char_idx(&self, grapheme_idx: usize) -> (char_idx: usize)
        ensures
            char_idx == cap(
                char_prefix(
                    self.fragments@,
                    if grapheme_idx < self.fragments@.len() {
                        grapheme_idx as int
                    } else {
                        self.fragments@.len() as int
                    },
                ) as int,
            ),
    {
        let n = if grapheme_idx < self.fragments.len() {
            grapheme_idx
        } else {
            self.fragments.len()
        };
        let mut total: usize = 0;
        let mut k: usize = 0;
        while k < n
            invariant
                k <= n <= self.fragments@.len(),
                total == cap(char_prefix(self.fragments@, k as int) as int),
            decreases n - k,
        {
            total = total.saturating_add(self.fragments[k].grapheme.as_str().unicode_len());
            k += 1;
        }
        total
    }

    /// The index of the grapheme that holds the line's char `char_idx`, or
    /// the number of graphemes when no grapheme does.
    pub fn char_to_grapheme_idx(&self, char_idx: usize) -> (grapheme_idx: usize)
        ensures
            grapheme_idx == grapheme_at_char(self.fragments@, char_idx as int, 0),
    {
        let mut acc: usize = 0;
        let mut p: usize = 0;
        while p < self.fragments.len()
            invariant
                p <= self.fragments@.len(),
                acc == cap(char_prefix(self.fragments@, p as int) as int),
                grapheme_at_char(self.fragments@, char_idx as int, 0) == grapheme_at_char(
                    self.fragments@,
                    char_idx as int,
                    p as int,
                ),
            decreases self.fragments@.len() - p,
        {
            acc = acc.saturating_add(self.fragments[p].grapheme.as_str().unicode_len());
            if acc > char_idx {
                return p;
            }
            p += 1;
        }
        self.fragments.len()
    }

    /// The number of chars of grapheme `grapheme_idx`, if there is one.
    pub fn grapheme_char_len(&self, grapheme_idx: usize) -> (len: Option<usize>)
        ensures
            len == (if grapheme_idx < self.fragments@.len() {
                Some(self.fragments@[grapheme_idx as int].text().len() as usize)
            } else {
                None::<usize>
            }),
    {
        if grapheme_idx < self.fragments.len() {
            Some(self.fragments[grapheme_idx].grapheme.as_str().unicode_len())
        } else {
            None
        }
    }

    /// How the graphemes from `from` up to `to` are drawn: each replaced by
    /// its replacement if it has one.
    pub fn get_graphemes_in_range(&self, from: usize, to: usize) -> (text: String)
        requires
            forall|k: int| 0 <= k < self.fragments@.len() ==> #[trigger] self.fragments@[k].rendered_right(),
        ensures
            text@ == drawn_range(fragment_texts(self.fragments@), from as int, to as int),
    {
        let ghost gs = fragment_texts(self.fragments@);
        let end = if to < self.fragments.len() {
            to
        } else {
            self.fragments.len()
        };
        let mut text = String::new();
        let mut k = from;
        while k < end
            invariant
                from <= k,
                end <= self.fragments@.len(),
                end <= to,
                end == to || end == self.fragments@.len(),
                gs == fragment_texts(self.fragments@),
                forall|m: int| 0 <= m < self.fragments@.len() ==> #[trigger] self.fragments@[m].rendered_right(),
                text@ + drawn_range(gs, k as int, to as int) == drawn_range(gs, from as int, to as int),
            decreases end - k,
        {
            let fragment = &self.fragments[k];
            let ghost before = text@;
            assert(fragment.rendered_right());
            match fragment.replacement {
                Some(c) => {
                    let mut one = String::new();
                    push_char(&mut one, c);
                    text.append(one.as_str());
                },
                None => text.append(fragment.grapheme.as_str()),
            }
            assert(text@ == before + drawn(gs[k as int]));
            assert(before + drawn_range(gs, k as int, to as int) =~= text@ + drawn_range(gs, k + 1, to as int));
            k += 1;
        }
        assert(drawn_range(gs, k as int, to as int) == Seq::<char>::empty());
        assert(text@ + Seq::<char>::empty() =~= text@);
        text
    }

    /// How the graphemes in `range` are drawn.
    pub fn get_visible_graphemes(&self, range: std::ops::Range<usize>) -> (text: String)
        requires
            forall|k: int| 0 <= k < self.fragments@.len() ==> #[trigger] self.fragments@[k].rendered_right(),
        ensures
            text@ == drawn_range(fragment_texts(self.fragments@), range.start as int, range.end as int),
    {
        self.get_graphemes_in_range(range.start, range.end)
    }

    /// The width class of `grapheme`.
    fn detect_width(grapheme: &str) -> (w: GraphemeWidth)
        ensures
            w == width_class(display_width(grapheme@)),
    {
        match width(grapheme) {
            0 => GraphemeWidth::Zero,
            1 => GraphemeWidth::Half,
            _ => GraphemeWidth::Full,
        }
    }

    /// The char drawn in place of `for_str`, if any.
    fn replacement_character(for_str: &str) -> (r: Option<char>)
        ensures
            r == replacement_for(for_str@),
    {
        let columns = width(for_str);
        let chars = chars_of(for_str);
        if chars.len() == 1 && chars[0] == ' ' {
            assert(for_str@ =~= seq![' ']);
            return None;
        }
        if chars.len() == 1 && chars[0] == '\t' {
            assert(for_str@ =~= seq!['\t']);
            return Some(' ');
        }
        assert(for_str@ != seq![' ']) by {
            if for_str@ == seq![' '] {
                assert(chars@[0] == ' ');
            }
        }
        assert(for_str@ != seq!['\t']) by {
            if for_str@ == seq!['\t'] {
                assert(chars@[0] == '\t');
            }
        }
        if columns > 0 {
            let mut blank = true;
            let mut k: usize = 0;
            while k < chars.len()
                invariant
                    k <= chars@.len(),
                    chars@ == for_str@,
                    blank == (forall|m: int| 0 <= m < k ==> unicode_white_space(#[trigger] chars@[m])),
                decreases chars@.len() - k,
            {
                let ws = char_is_whitespace(chars[k]);
                blank = blank && ws;
                k += 1;
            }
            if blank {
                return Some('\u{2423}');
            }
            if chars.len() == 1 && char_is_control(chars[0]) {
                return Some('\u{25AF}');
            }
            None
        } else {
            Some('.')
        }
    }

    /// The graphemes of `text`, each with the highlight `highlight_type`.
    fn create_fragments(text: &str, highlight_type: HighlightType) -> (fragments: Vec<TextFragment>)
        ensures
            fragment_views(fragments@) == typed_clusters(text@, highlight_type),
            concat_all(fragment_texts(fragments@)) == text@,
            forall|k: int| 0 <= k < fragments@.len() ==> #[trigger] fragments@[k].rendered_right(),
    {
        let clusters = graphemes(text);
        let ghost gs = grapheme_clusters(text@);
        let mut fragments: Vec<TextFragment> = Vec::new();
        let mut k: usize = 0;
        while k < clusters.len()
            invariant
                k <= clusters@.len(),
                texts(clusters@) == gs,
                gs.len() == clusters@.len(),
                forall|i: int| 0 <= i < clusters@.len() ==> #[trigger] clusters@[i]@.len() > 0,
                fragment_views(fragments@) == gs.take(k as int).map_values(
                    |g: Seq<char>| (g, highlight_type),
                ),
                forall|m: int| 0 <= m < fragments@.len() ==> #[trigger] fragments@[m].rendered_right(),
                fragment_texts(fragments@) == gs.take(k as int),
            decreases clusters@.len() - k,
        {
            let g = clusters[k].as_str();
            let rendered_width = Line::detect_width(g);
            let replacement = Line::replacement_character(g);
            let fragment = TextFragment {
                grapheme: clusters[k].clone(),
                rendered_width,
                replacement,
                highlight_type,
            };
            let ghost before = fragments@;
            assert(fragment.text().len() > 0);
            fragments.push(fragment);
            assert(gs[k as int] == clusters@[k as int]@);
            assert(fragment_views(fragments@) =~= fragment_views(before).push((gs[k as int], highlight_type)));
            assert(fragment_texts(fragments@) =~= fragment_texts(before).push(gs[k as int]));
            assert(gs.take(k + 1) =~= gs.take(k as int).push(gs[k as int]));
            assert(gs.take(k + 1).map_values(|g: Seq<char>| (g, highlight_type)) =~= gs.take(
                k as int,
            ).map_values(|g: Seq<char>| (g, highlight_type)).push((gs[k as int], highlight_type)));
            k += 1;
        }
        assert(gs.take(gs.len() as int) =~= gs);
        fragments
    }

    /// Appends the fragments of `text`, each with the highlight `highlight_type`.
    fn extend_fragments(fragments: &mut Vec<TextFragment>, text: &str, highlight_type: HighlightType)
        requires
            forall|k: int| 0 <= k < old(fragments)@.len() ==> #[trigger] old(fragments)@[k].rendered_right(),
        ensures
            fragment_views(final(fragments)@) == fragment_views(old(fragments)@) + typed_clusters(
                text@,
                highlight_type,
            ),
            forall|k: int| 0 <= k < final(fragments)@.len() ==> #[trigger] final(fragments)@[k].rendered_right(),
            concat_all(fragment_texts(final(fragments)@)) == concat_all(fragment_texts(old(fragments)@))
                + text@,
    {
        let mut new_fragments = Line::create_fragments(text, highlight_type);
        let ghost before = fragments@;
        let ghost added = new_fragments@;
        fragments.append(&mut new_fragments);
        assert(fragments@ == before + added);
        assert(fragment_views(fragments@) =~= fragment_views(before) + fragment_views(added));
        assert(fragment_texts(fragments@) =~= fragment_texts(before) + fragment_texts(added));
        proof {
            lemma_concat_all_add(fragment_texts(before), fragment_texts(added));
        }
        assert forall|k: int| 0 <= k < fragments@.len() implies #[trigger] fragments@[k].rendered_right() by {
            if k >= before.len() {
                assert(fragments@[k] == added[k - before.len()]);
            } else {
                assert(fragments@[k] == before[k]);
            }
        }
    }

    /// Splits `line` into tokens (comments, string literals, numbers, words
    /// and single graphemes), gives each its highlight and splits it into
    /// fragments.
    #[verifier::spinoff_prover]
    #[verifier::rlimit(40)]
    pub fn highlight(line: &str, config: &LanguageConfig) -> (fragments: Vec<TextFragment>)
        ensures
            fragment_views(fragments@) == highlighted(line@, config),
            concat_all(fragment_texts(fragments@)) == line@,
            forall|k: int| 0 <= k < fragments@.len() ==> #[trigger] fragments@[k].rendered_right(),
    {
        let graphemes = graphemes(line);
        let ghost gs = texts(graphemes@);
        let ghost comment = config.comment_start();
        let ghost entries = config.entries();
        let chars = chars_of(line);
        let line_len = chars.len();
        let comment_chars: Option<Vec<char>> = match &config.single_line_comment_start {
            Some(c) => Some(chars_of(c.as_str())),
            None => None,
        };
        let mut fragments: Vec<TextFragment> = Vec::new();
        let mut i: usize = 0;
        let mut offset: usize = 0;
        assert(gs.take(0) =~= Seq::<Seq<char>>::empty());
        assert(gs.subrange(0, 0) =~= Seq::<Seq<char>>::empty());
        assert(fragment_texts(fragments@) =~= Seq::<Seq<char>>::empty());
        while i < graphemes.len()
            invariant
                gs == texts(graphemes@),
                gs == grapheme_clusters(line@),
                gs.len() == graphemes@.len(),
                concat_all(gs) == line@,
                forall|m: int| 0 <= m < graphemes@.len() ==> #[trigger] graphemes@[m]@.len() > 0,
                chars@ == line@,
                line_len == line@.len(),
                comment == config.comment_start(),
                entries == config.entries(),
                match comment_chars {
                    Some(c) => comment == Some(c@),
                    None => comment is None,
                },
                i <= gs.len(),
                offset == concat_all(gs.take(i as int)).len(),
                fragment_views(fragments@) + token_fragments(gs, comment, entries, i as int)
                    == token_fragments(gs, comment, entries, 0),
                concat_all(fragment_texts(fragments@)) == join(gs, 0, i as int),
                forall|k: int| 0 <= k < fragments@.len() ==> #[trigger] fragments@[k].rendered_right(),
            decreases gs.len() - i,
        {
            proof {
                lemma_token_end(gs, comment, i as int);
                lemma_concat_all_add(gs.take(i as int), gs.subrange(i as int, gs.len() as int));
                assert(gs.take(i as int) + gs.subrange(i as int, gs.len() as int) =~= gs);
                assert(line@.subrange(offset as int, line@.len() as int) =~= join(
                    gs,
                    i as int,
                    gs.len() as int,
                ));
            }
            let (j, highlight_type) = Line::next_token(&graphemes, &chars, &comment_chars, config, i, offset);
            let token = join_range(&graphemes, i, j);
            let ghost before = fragments@;
            Line::extend_fragments(&mut fragments, token.as_str(), highlight_type);
            assert(token_fragments(gs, comment, entries, i as int) == typed_clusters(
                join(gs, i as int, j as int),
                highlight_type,
            ) + token_fragments(gs, comment, entries, j as int));
            assert(fragment_views(fragments@) + token_fragments(gs, comment, entries, j as int)
                =~= fragment_views(before) + token_fragments(gs, comment, entries, i as int));
            proof {
                lemma_concat_all_add(gs.take(j as int), gs.skip(j as int));
                assert(gs.take(j as int) + gs.skip(j as int) =~= gs);
                lemma_concat_all_add(gs.subrange(0, i as int), gs.subrange(i as int, j as int));
                assert(gs.subrange(0, i as int) + gs.subrange(i as int, j as int) =~= gs.subrange(
                    0,
                    j as int,
                ));
            }
            offset = advance_offset(&graphemes, i, j, offset, Ghost(line@.len()));
            i = j;
        }
        assert(token_fragments(gs, comment, entries, i as int) =~= Seq::<
            (Seq<char>, HighlightType),
        >::empty());
        assert(fragment_views(fragments@) =~= fragment_views(fragments@) + Seq::<
            (Seq<char>, HighlightType),
        >::empty());
        assert(gs.subrange(0, gs.len() as int) =~= gs);
        fragments
    }

    /// The end and the highlight of the token that starts at grapheme `i`,
    /// whose first char is at index `offset` of the line.
    fn next_token(
        graphemes: &Vec<String>,
        chars: &Vec<char>,
        comment_chars: &Option<Vec<char>>,
        config: &LanguageConfig,
        i: usize,
        offset: usize,
    ) -> (token: (usize, HighlightType))
        requires
            i < graphemes@.len(),
            forall|m: int| 0 <= m < graphemes@.len() ==> #[trigger] graphemes@[m]@.len() > 0,
            offset <= chars@.len(),
            chars@.subrange(offset as int, chars@.len() as int) == join(
                texts(graphemes@),
                i as int,
                graphemes@.len() as int,
            ),
            match comment_chars {
                Some(c) => config.comment_start() == Some(c@),
                None => config.comment_start() is None,
            },
        ensures
            token.0 == token_end(texts(graphemes@), config.comment_start(), i as int),
            token.1 == token_type(
                texts(graphemes@),
                config.comment_start(),
                config.entries(),
                i as int,
            ),
    {
        let ghost gs = texts(graphemes@);
        let ghost comment = config.comment_start();
        let ghost entries = config.entries();
        let n = graphemes.len();
        assert(gs.len() == graphemes@.len());
        proof {
            lemma_token_end(gs, comment, i as int);
            lemma_ident_scan(gs, i + 1);
        }
        let grapheme = &graphemes[i];
        assert(grapheme@.len() > 0);
        let first_char = grapheme.as_str().get_char(0);
        assert(first_char == first_char_of(gs[i as int]));
        let is_comment = match &comment_chars {
            Some(c) => starts_with_at(&chars, offset, c),
            None => false,
        };
        assert(is_comment == starts_comment(gs, comment, i as int));
        let ghost kind = token_kind(gs, comment, i as int);
        let j: usize;
        let highlight_type: HighlightType;
        if is_comment {
            j = graphemes.len();
            highlight_type = HighlightType::Comment;
        } else if first_char == '"' {
            j = Line::scan_string(&graphemes, i + 1);
            highlight_type = HighlightType::String;
        } else if first_char >= '0' && first_char <= '9' {
            j = Line::scan_number(&graphemes, i);
            highlight_type = HighlightType::Number;
        } else if char_is_alphabetic(first_char) || first_char == '_' {
            j = Line::scan_identifier(&graphemes, i);
            let identifier = join_range(&graphemes, i, j);
            highlight_type = match config.keyword_type(&identifier) {
                Some(t) => t,
                None => HighlightType::Normal,
            };
        } else {
            j = i + 1;
            highlight_type = HighlightType::Normal;
        }
        assert(j == token_end(gs, comment, i as int));
        assert(highlight_type == token_type(gs, comment, entries, i as int));
        (j, highlight_type)
    }

    /// The end of a string literal whose body starts at `start`.
    fn scan_string(graphemes: &Vec<String>, start: usize) -> (end: usize)
        requires
            1 <= start <= graphemes@.len(),
        ensures
            end == string_scan(texts(graphemes@), start as int),
    {
        let ghost gs = texts(graphemes@);
        let mut j = start;
        while j < graphemes.len()
            invariant
                start <= j <= graphemes@.len(),
                gs == texts(graphemes@),
                string_scan(gs, j as int) == string_scan(gs, start as int),
            decreases graphemes@.len() - j,
        {
            if is_only(&graphemes[j], '"') {
                let mut backslashes: usize = 0;
                let mut k = j;
                let mut done = false;
                while k > 0 && !done
                    invariant
                        k <= j < graphemes@.len(),
                        gs == texts(graphemes@),
                        backslashes <= j - k,
                        done ==> backslashes == backslashes_before(gs, j as int),
                        !done ==> backslashes + backslashes_before(gs, k as int)
                            == backslashes_before(gs, j as int),
                    decreases k + if done { 0int } else { 1int },
                {
                    if is_only(&graphemes[k - 1], '\\') {
                        backslashes += 1;
                        k -= 1;
                    } else {
                        done = true;
                    }
                }
                if backslashes % 2 == 0 {
                    return j + 1;
                }
            }
            j += 1;
        }
        j
    }

    /// The end of a number that starts at `start`.
    fn scan_number(graphemes: &Vec<String>, start: usize) -> (end: usize)
        requires
            start < graphemes@.len(),
            is_ascii_digit(first_char_of(texts(graphemes@)[start as int])),
            forall|m: int| 0 <= m < graphemes@.len() ==> #[trigger] graphemes@[m]@.len() > 0,
        ensures
            end == number_scan(texts(graphemes@), start + 1),
    {
        let ghost gs = texts(graphemes@);
        let n = graphemes.len();
        let mut j = start + 1;
        while j < graphemes.len()
            invariant
                start < j <= graphemes@.len(),
                gs == texts(graphemes@),
                forall|m: int| 0 <= m < graphemes@.len() ==> #[trigger] graphemes@[m]@.len() > 0,
                number_scan(gs, j as int) == number_scan(gs, start + 1),
            decreases graphemes@.len() - j,
        {
            assert(graphemes@[j as int]@.len() > 0);
            let next_char = graphemes[j].as_str().get_char(0);
            assert(next_char == first_char_of(gs[j as int]));
            if !((next_char >= '0' && next_char <= '9') || next_char == '.') {
                return j;
            }
            j += 1;
        }
        j
    }

    /// The end of a word that starts at `start`.
    fn scan_identifier(graphemes: &Vec<String>, start: usize) -> (end: usize)
        requires
            start < graphemes@.len(),
            forall|m: int| 0 <= m < graphemes@.len() ==> #[trigger] graphemes@[m]@.len() > 0,
        ensures
            end == ident_scan(texts(graphemes@), start + 1),
    {
        let ghost gs = texts(graphemes@);
        let n = graphemes.len();
        let mut j = start + 1;
        while j < graphemes.len()
            invariant
                start < j <= graphemes@.len(),
                gs == texts(graphemes@),
                forall|m: int| 0 <= m < graphemes@.len() ==> #[trigger] graphemes@[m]@.len() > 0,
                ident_scan(gs, j as int) == ident_scan(gs, start + 1),
            decreases graphemes@.len() - j,
        {
            assert(graphemes@[j as int]@.len() > 0);
            let next_char = graphemes[j].as_str().get_char(0);
            assert(next_char == first_char_of(gs[j as int]));
            if !(char_is_alphanumeric(next_char) || next_char == '_') {
                return j;
            }
            j += 1;
        }
        j
    }
}

} // verus!
