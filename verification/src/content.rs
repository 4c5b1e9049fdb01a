use vstd::prelude::*;

use crate::text::{word_count, words_count_of};

verus! {

/// A typing exercise as the content source supplies it: where the passage is
/// from, the text to retype, and its source address.
#[derive(Debug)]
pub struct TypingFile {
    pub from: String,
    pub content: String,
    pub url: String,
}

/// A typing exercise prepared for a session: the source fields together with
/// the derived word count of the text.
#[derive(Debug, Clone)]
pub struct TypingFileDisplay {
    pub from: String,
    pub content: String,
    pub url: String,
    pub words_count: u32,
}

impl TypingFileDisplay {
    /// A field-by-field copy.
    pub fn duplicate(&self) -> (r: TypingFileDisplay)
        ensures
            r.from@ == self.from@,
            r.content@ == self.content@,
            r.url@ == self.url@,
            r.words_count == self.words_count,
    {
        TypingFileDisplay {
            from: self.from.clone(),
            content: self.content.clone(),
            url: self.url.clone(),
            words_count: self.words_count,
        }
    }
}

/// The computed step of loading an exercise: carries the source fields over
/// and counts the whitespace-delimited words of the text.
pub fn typing_file_display(file: TypingFile) -> (r: TypingFileDisplay)
    requires
        file.content@.len() <= u32::MAX,
    ensures
        r.from == file.from,
        r.content == file.content,
        r.url == file.url,
        r.words_count == word_count(file.content@),
{
    let words_count = words_count_of(file.content.as_str());
    TypingFileDisplay { from: file.from, content: file.content, url: file.url, words_count }
}

} // verus!
