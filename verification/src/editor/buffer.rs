use vstd::prelude::*;

use ropey::Rope;

use crate::rope::{
    line_count, line_text, rope_chars, rope_from_str, rope_get_line, rope_new, slice_to_string,
};

verus! {

/// A document as a rope of text, with no record of changes.
pub struct Buffer {
    pub document: Rope,
}

impl Buffer {
    /// The text of the document.
    pub open spec fn text(&self) -> Seq<char> {
        rope_chars(self.document)
    }

    /// A buffer that holds `contents`, the text read from a file, or nothing
    /// when there is no file or it could not be read.
    pub fn new(contents: Option<&str>) -> (buffer: Self)
        ensures
            buffer.text() == (match contents {
                Some(c) => c@,
                None => Seq::<char>::empty(),
            }),
    {
        let mut document = rope_new();
        if let Some(text) = contents {
            document = rope_from_str(text);
        }
        Self { document }
    }

    /// Line `idx`, with its break, as a string, if there is such a line.
    pub fn get_line(&self, idx: usize) -> (line: Option<String>)
        ensures
            line is Some <==> idx < line_count(self.text()),
            line matches Some(s) ==> s@ == line_text(self.text(), idx as nat),
    {
        if let Some(line) = rope_get_line(&self.document, idx) {
            let text = slice_to_string(line);
            Some(text)
        } else {
            None
        }
    }
}

} // verus!
