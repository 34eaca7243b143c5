use vstd::prelude::*;

verus! {

/// A front-matter field that a post cannot do without.
#[derive(Debug, Clone, Copy, PartialEq, Eq, Structural)]
pub enum Field {
    Title,
    Date,
}

/// Why one document could not be converted, or why a run could not start.
#[derive(Debug, Clone, PartialEq, Eq)]
pub enum ConvError {
    /// No `---` delimited metadata block was found.
    MissingFrontMatter,
    /// The metadata block is present but could not be parsed.
    MalformedFrontMatter(String),
    /// The metadata block lacks `title` or `date`.
    MissingRequiredField(Field),
    /// Two tags map to two different categories.
    AmbiguousCategory,
    /// An embedded raw HTML fragment could not be rewritten.
    UnrenderableMarkup(String),
    /// No conversion is known between the two requested dialects.
    UnsupportedDialectPair,
    /// Reading or writing a file failed.
    IOFailure(String),
}

} // verus!
