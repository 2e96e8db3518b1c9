use vstd::prelude::*;

use super::grapheme::HighlightType;

verus! {

/// What the highlighter knows of a language: the words it marks, each with
/// the highlight it gets, and what opens a comment that runs to the end of
/// the line.
pub struct LanguageConfig {
    pub keywords: Vec<(String, HighlightType)>,
    pub single_line_comment_start: Option<String>,
}

/// The first entry of `entries` whose word is `word`, by its highlight.
pub open spec fn lookup_word(entries: Seq<(Seq<char>, HighlightType)>, word: Seq<char>) -> Option<
    HighlightType,
>
    decreases entries.len(),
{
    if entries.len() == 0 {
        None
    } else if entries[0].0 == word {
        Some(entries[0].1)
    } else {
        lookup_word(entries.drop_first(), word)
    }
}

/// The marked words of a list of entries, as texts.
pub open spec fn word_entries(keywords: Seq<(String, HighlightType)>) -> Seq<
    (Seq<char>, HighlightType),
> {
    keywords.map_values(|e: (String, HighlightType)| (e.0@, e.1))
}

/// No word is marked twice, as in a map from words to highlights.
pub open spec fn distinct_words(entries: Seq<(Seq<char>, HighlightType)>) -> bool {
    forall|i: int, j: int|
        #![trigger entries[i], entries[j]]
        0 <= i < j < entries.len() ==> entries[i].0 != entries[j].0
}

/// The texts of `words`.
pub open spec fn word_texts(words: Seq<&str>) -> Seq<Seq<char>> {
    words.map_values(|w: &str| w@)
}

/// The keywords that `LanguageConfig::rust` marks as such.
pub open spec fn rust_keyword_words() -> Seq<&'static str> {
    seq![
        "fn", "let", "mut", "struct", "enum", "impl", "use", "mod", "pub", "const", "static",
        "if", "else", "match", "loop", "while", "for", "in", "return", "break", "continue",
    ]
}

/// The type names that `LanguageConfig::rust` marks as types.
pub open spec fn rust_type_words() -> Seq<&'static str> {
    seq![
        "bool", "char", "i8", "i16", "i32", "i64", "i128", "isize", "u8", "u16", "u32", "u64",
        "u128", "usize", "f32", "f64", "String", "str", "Vec", "Option", "Result", "HashMap",
        "Box", "Rc", "Arc", "Cell", "RefCell",
    ]
}

/// The highlight that `LanguageConfig::rust` gives `word`: the type names
/// are marked after the keywords, so a word in both lists would be a type.
pub open spec fn rust_word_type(word: Seq<char>) -> Option<HighlightType> {
    if word_texts(rust_type_words()).contains(word) {
        Some(HighlightType::Type)
    } else if word_texts(rust_keyword_words()).contains(word) {
        Some(HighlightType::Keyword)
    } else {
        None
    }
}

/// A word that no entry holds is not found.
proof fn lemma_lookup_absent(entries: Seq<(Seq<char>, HighlightType)>, word: Seq<char>)
    requires
        forall|k: int| 0 <= k < entries.len() ==> #[trigger] entries[k].0 != word,
    ensures
        lookup_word(entries, word) is None,
    decreases entries.len(),
{
    if entries.len() > 0 {
        assert(entries[0].0 != word);
        let rest = entries.drop_first();
        assert forall|k: int| 0 <= k < rest.len() implies #[trigger] rest[k].0 != word by {
            assert(rest[k] == entries[k + 1]);
        }
        lemma_lookup_absent(rest, word);
    }
}

/// Among distinct words, the word of entry `k` is found with its highlight.
proof fn lemma_lookup_present(entries: Seq<(Seq<char>, HighlightType)>, k: int)
    requires
        distinct_words(entries),
        0 <= k < entries.len(),
    ensures
        lookup_word(entries, entries[k].0) == Some(entries[k].1),
    decreases entries.len(),
{
    if k > 0 {
        assert(entries[0].0 != entries[k].0);
        let rest = entries.drop_first();
        assert forall|i: int, j: int|
            #![trigger rest[i], rest[j]]
            0 <= i < j < rest.len() implies rest[i].0 != rest[j].0 by {
            assert(rest[i] == entries[i + 1]);
            assert(rest[j] == entries[j + 1]);
        }
        assert(rest[k - 1] == entries[k]);
        lemma_lookup_present(rest, k - 1);
    }
}

/// Marks `word` with `ty`, in place of what it was marked with before: the
/// entries behave as a map from words to highlights.
fn insert_word(keywords: &mut Vec<(String, HighlightType)>, word: String, ty: HighlightType)
    requires
        distinct_words(word_entries(old(keywords)@)),
    ensures
        distinct_words(word_entries(final(keywords)@)),
        forall|w: Seq<char>|
            #[trigger] lookup_word(word_entries(final(keywords)@), w) == if w == word@ {
                Some(ty)
            } else {
                lookup_word(word_entries(old(keywords)@), w)
            },
{
    let ghost e0 = word_entries(keywords@);
    let ghost text = word@;
    let mut k: usize = 0;
    while k < keywords.len()
        invariant
            k <= keywords@.len(),
            keywords@ == old(keywords)@,
            e0 == word_entries(keywords@),
            text == word@,
            distinct_words(e0),
            forall|m: int| 0 <= m < k ==> #[trigger] e0[m].0 != text,
        decreases keywords@.len() - k,
    {
        if keywords[k].0 == word {
            assert(e0[k as int].0 == text);
            keywords.set(k, (word, ty));
            let ghost e1 = word_entries(keywords@);
            assert(e1 =~= e0.update(k as int, (text, ty)));
            assert forall|i: int, j: int|
                #![trigger e1[i], e1[j]]
                0 <= i < j < e1.len() implies e1[i].0 != e1[j].0 by {
                assert(e1[i].0 == e0[i].0);
                assert(e1[j].0 == e0[j].0);
            }
            assert forall|w: Seq<char>|
                #[trigger] lookup_word(e1, w) == if w == text {
                    Some(ty)
                } else {
                    lookup_word(e0, w)
                } by {
                if w == text {
                    lemma_lookup_present(e1, k as int);
                } else if exists|m: int| 0 <= m < e0.len() && #[trigger] e0[m].0 == w {
                    let m = choose|m: int| 0 <= m < e0.len() && #[trigger] e0[m].0 == w;
                    assert(e1[m] == e0[m]);
                    lemma_lookup_present(e0, m);
                    lemma_lookup_present(e1, m);
                } else {
                    assert forall|m: int| 0 <= m < e1.len() implies #[trigger] e1[m].0 != w by {
                        assert(e1[m].0 == e0[m].0 || e1[m].0 == text);
                    }
                    lemma_lookup_absent(e0, w);
                    lemma_lookup_absent(e1, w);
                }
            }
            return;
        }
        k += 1;
    }
    keywords.push((word, ty));
    let ghost e1 = word_entries(keywords@);
    assert(e1 =~= e0.push((text, ty)));
    assert forall|i: int, j: int|
        #![trigger e1[i], e1[j]]
        0 <= i < j < e1.len() implies e1[i].0 != e1[j].0 by {
        assert(e1[i] == e0[i]);
        if j < e0.len() {
            assert(e1[j] == e0[j]);
        }
    }
    assert forall|w: Seq<char>|
        #[trigger] lookup_word(e1, w) == if w == text {
            Some(ty)
        } else {
            lookup_word(e0, w)
        } by {
        if w == text {
            lemma_lookup_present(e1, e0.len() as int);
        } else if exists|m: int| 0 <= m < e0.len() && #[trigger] e0[m].0 == w {
            let m = choose|m: int| 0 <= m < e0.len() && #[trigger] e0[m].0 == w;
            assert(e1[m] == e0[m]);
            lemma_lookup_present(e0, m);
            lemma_lookup_present(e1, m);
        } else {
            assert forall|m: int| 0 <= m < e1.len() implies #[trigger] e1[m].0 != w by {
                if m < e0.len() {
                    assert(e1[m] == e0[m]);
                }
            }
            lemma_lookup_absent(e0, w);
            lemma_lookup_absent(e1, w);
        }
    }
}

impl LanguageConfig {
    /// The marked words with their highlights, as texts.
    pub open spec fn entries(&self) -> Seq<(Seq<char>, HighlightType)> {
        word_entries(self.keywords@)
    }

    /// No word is marked twice.
    pub open spec fn wf(&self) -> bool {
        distinct_words(self.entries())
    }

    /// The comment opener, as text.
    pub open spec fn comment_start(&self) -> Option<Seq<char>> {
        match &self.single_line_comment_start {
            Some(s) => Some(s@),
            None => None,
        }
    }

    /// The highlight that this configuration gives `word`, if it marks it.
    pub fn keyword_type(&self, word: &String) -> (r: Option<HighlightType>)
        ensures
            r == lookup_word(self.entries(), word@),
    {
        let mut k: usize = 0;
        assert(self.entries().skip(0) =~= self.entries());
        while k < self.keywords.len()
            invariant
                k <= self.keywords@.len(),
                lookup_word(self.entries(), word@) == lookup_word(
                    self.entries().skip(k as int),
                    word@,
                ),
            decreases self.keywords@.len() - k,
        {
            assert(self.entries().skip(k as int).drop_first() =~= self.entries().skip(k + 1));
            if self.keywords[k].0 == *word {
                return Some(self.keywords[k].1);
            }
            k += 1;
        }
        None
    }

    /// The configuration for Rust: its keywords, its basic types and `//`
    /// comments.
    pub fn rust() -> (config: Self)
        ensures
            config.wf(),
            forall|w: Seq<char>| #[trigger] lookup_word(config.entries(), w) == rust_word_type(w),
            config.comment_start() == Some("//"@),
    {
        let mut keywords: Vec<(String, HighlightType)> = Vec::new();
        assert(word_entries(keywords@) =~= Seq::<(Seq<char>, HighlightType)>::empty());
        let rust_keywords = [
            "fn", "let", "mut", "struct", "enum", "impl", "use", "mod", "pub", "const", "static",
            "if", "else", "match", "loop", "while", "for", "in", "return", "break", "continue",
        ];
        add_words(&mut keywords, rust_keywords.as_slice(), HighlightType::Keyword);
        let rust_types = [
            "bool", "char", "i8", "i16", "i32", "i64", "i128", "isize", "u8", "u16", "u32", "u64",
            "u128", "usize", "f32", "f64", "String", "str", "Vec", "Option", "Result", "HashMap",
            "Box", "Rc", "Arc", "Cell", "RefCell",
        ];
        add_words(&mut keywords, rust_types.as_slice(), HighlightType::Type);
        let config = Self { keywords, single_line_comment_start: Some("//".to_owned()) };
        assert(rust_keywords@ =~= rust_keyword_words());
        assert(rust_types@ =~= rust_type_words());
        assert forall|w: Seq<char>| #[trigger]
            lookup_word(config.entries(), w) == rust_word_type(w) by {
            lemma_lookup_absent(Seq::<(Seq<char>, HighlightType)>::empty(), w);
        }
        config
    }

    /// The configuration for plain text: no marked words, no comments.
    pub fn text() -> (config: Self)
        ensures
            config.wf(),
            config.entries() == Seq::<(Seq<char>, HighlightType)>::empty(),
            config.comment_start() == None::<Seq<char>>,
    {
        let config = Self { keywords: Vec::new(), single_line_comment_start: None };
        assert(config.entries() =~= Seq::<(Seq<char>, HighlightType)>::empty());
        config
    }
}

/// Marks each of `words` with `ty`, in place of what it was marked with
/// before.
fn add_words(keywords: &mut Vec<(String, HighlightType)>, words: &[&str], ty: HighlightType)
    requires
        distinct_words(word_entries(old(keywords)@)),
    ensures
        distinct_words(word_entries(final(keywords)@)),
        forall|w: Seq<char>|
            #[trigger] lookup_word(word_entries(final(keywords)@), w) == if word_texts(
                words@,
            ).contains(w) {
                Some(ty)
            } else {
                lookup_word(word_entries(old(keywords)@), w)
            },
{
    let ghost start = word_entries(keywords@);
    let mut k: usize = 0;
    while k < words.len()
        invariant
            k <= words@.len(),
            start == word_entries(old(keywords)@),
            distinct_words(word_entries(keywords@)),
            forall|w: Seq<char>|
                #[trigger] lookup_word(word_entries(keywords@), w) == if word_texts(
                    words@.take(k as int),
                ).contains(w) {
                    Some(ty)
                } else {
                    lookup_word(start, w)
                },
        decreases words@.len() - k,
    {
        let ghost before = word_entries(keywords@);
        let ghost added = words@[k as int]@;
        let w = words[k].to_owned();
        insert_word(keywords, w, ty);
        assert forall|x: Seq<char>|
            #[trigger] word_texts(words@.take(k + 1)).contains(x) == (word_texts(
                words@.take(k as int),
            ).contains(x) || x == added) by {
            let shorter = word_texts(words@.take(k as int));
            let longer = word_texts(words@.take(k + 1));
            assert(longer =~= shorter.push(added));
            if x == added {
                assert(longer[k as int] == x);
            }
            if shorter.contains(x) {
                let i = choose|i: int| 0 <= i < shorter.len() && shorter[i] == x;
                assert(longer[i] == x);
            }
            if longer.contains(x) && x != added {
                let i = choose|i: int| 0 <= i < longer.len() && longer[i] == x;
                assert(shorter[i] == x);
            }
        }
        assert forall|x: Seq<char>|
            #[trigger] lookup_word(word_entries(keywords@), x) == if word_texts(
                words@.take(k + 1),
            ).contains(x) {
                Some(ty)
            } else {
                lookup_word(start, x)
            } by {
            assert(lookup_word(before, x) == if word_texts(words@.take(k as int)).contains(x) {
                Some(ty)
            } else {
                lookup_word(start, x)
            });
            assert(word_texts(words@.take(k + 1)).contains(x) == (word_texts(
                words@.take(k as int),
            ).contains(x) || x == added));
        }
        k += 1;
    }
    assert(words@.take(words@.len() as int) =~= words@);
}

} // verus!
