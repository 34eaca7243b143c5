use vstd::prelude::*;
use vstd::string::StringExecFns;

use crate::category::{agreed_cat, conflicting, keys_of, map_tags_to_cats, normalize_tag, normalized, TagTable};
use crate::date::date_text;
use crate::error::{ConvError, Field};
use crate::reader::DefaultReader;

verus! {

/// A document dialect, as named on the command line.
#[derive(Debug, Clone, Copy, PartialEq, Eq, Structural)]
pub enum Mat {
    Default,
    Jekyll,
}

impl Mat {
    /// Reads a dialect name: `default` or `d`, `jekyll` or `j`, ignoring case
    /// and surrounding white space.
    pub fn parse(s: &str) -> (r: Option<Mat>)
        ensures
            (normalized(s@) == "default"@ || normalized(s@) == "d"@) ==> r == Some(Mat::Default),
            (normalized(s@) == "jekyll"@ || normalized(s@) == "j"@) ==> r == Some(Mat::Jekyll),
            !(normalized(s@) == "default"@ || normalized(s@) == "d"@ || normalized(s@)
                == "jekyll"@ || normalized(s@) == "j"@) ==> r is None,
    {
        let k = normalize_tag(s);
        proof {
            reveal_strlit("default");
            reveal_strlit("d");
            reveal_strlit("jekyll");
            reveal_strlit("j");
            assert("jekyll"@[0] != "default"@[0]);
            assert("jekyll"@[0] != "d"@[0]);
            assert("j"@[0] != "default"@[0]);
            assert("j"@[0] != "d"@[0]);
        }
        if k == "default".to_owned() || k == "d".to_owned() {
            Some(Mat::Default)
        } else if k == "jekyll".to_owned() || k == "j".to_owned() {
            Some(Mat::Jekyll)
        } else {
            None
        }
    }
}

/// The conversions from one dialect into another that are implemented.
#[derive(Debug, Clone, Copy, PartialEq, Eq, Structural)]
pub enum JekyllMapper {
    Default,
}

/// Picks the conversion for a pair of dialects; only default to Jekyll is known.
pub fn select_mapper(inmat: Mat, outmat: Mat) -> (r: Result<JekyllMapper, ConvError>)
    ensures
        (inmat == Mat::Default && outmat == Mat::Jekyll) ==> r == Ok::<JekyllMapper, ConvError>(
            JekyllMapper::Default,
        ),
        !(inmat == Mat::Default && outmat == Mat::Jekyll) ==> r == Err::<JekyllMapper, ConvError>(
            ConvError::UnsupportedDialectPair,
        ),
{
    match (inmat, outmat) {
        (Mat::Default, Mat::Jekyll) => Ok(JekyllMapper::Default),
        _ => Err(ConvError::UnsupportedDialectPair),
    }
}

/// The metadata block of a Jekyll post, in the order it is written out.
#[derive(Debug, Clone, PartialEq, Eq)]
pub struct JekyllHeader {
    pub title: String,
    pub date: String,
    pub layout: String,
    pub mathjax: bool,
    pub category: Vec<String>,
}

/// A converted post: its file name, its metadata block and its body.
#[derive(Debug, Clone, PartialEq, Eq)]
pub struct JekyllPost {
    pub file_name: String,
    pub header: JekyllHeader,
    pub body: String,
}

/// `<date>-<stem>.md`.
pub open spec fn post_file_name(date: Seq<char>, stem: Seq<char>) -> Seq<char> {
    date + seq!['-'] + stem + seq!['.', 'm', 'd']
}

/// `r` is what the source document `reader`, with its body rewritten into
/// `body`, becomes: the first missing piece as an error, a conflict among its
/// tags as an error, or else the post.
pub open spec fn is_post_of(
    r: Result<JekyllPost, ConvError>,
    reader: DefaultReader,
    body: String,
    table: Seq<(Seq<char>, crate::category::Cat)>,
) -> bool {
    match reader.yaml_hdr {
        None => r == Err::<JekyllPost, ConvError>(ConvError::MissingFrontMatter),
        Some(h) => match (h.date, h.title) {
            (None, _) => r == Err::<JekyllPost, ConvError>(
                ConvError::MissingRequiredField(Field::Date),
            ),
            (Some(_), None) => r == Err::<JekyllPost, ConvError>(
                ConvError::MissingRequiredField(Field::Title),
            ),
            (Some(d), Some(t)) => if conflicting(table, keys_of(h.tags@)) {
                r == Err::<JekyllPost, ConvError>(ConvError::AmbiguousCategory)
            } else {
                r matches Ok(p) && p.file_name@ == post_file_name(date_text(d), reader.name_stem@)
                    && p.header.title@ == t@ && p.header.date@ == date_text(d) && p.header.layout@
                    == "post"@ && p.header.mathjax && p.header.category@.len() == 1
                    && p.header.category@[0]@ == agreed_cat(table, keys_of(h.tags@)).spec_name()
                    && p.body == body
            },
        },
    }
}

/// Turns a source document, whose body has already been rewritten into
/// `body`, into a Jekyll post.
pub fn map_default_to_jekyll(reader: &DefaultReader, body: String, table: &TagTable) -> (r: Result<
    JekyllPost,
    ConvError,
>)
    ensures
        is_post_of(r, *reader, body, table@),
{
    let hdr = match &reader.yaml_hdr {
        Some(h) => h,
        None => {
            return Err(ConvError::MissingFrontMatter);
        },
    };
    let d = match hdr.date {
        Some(d) => d,
        None => {
            return Err(ConvError::MissingRequiredField(Field::Date));
        },
    };
    let date = d.to_text();
    let mut file_name = date.clone();
    file_name.append("-");
    file_name.append(reader.name_stem.as_str());
    file_name.append(".md");
    proof {
        reveal_strlit("-");
        reveal_strlit(".md");
    }
    let title = match &hdr.title {
        Some(t) => t.clone(),
        None => {
            return Err(ConvError::MissingRequiredField(Field::Title));
        },
    };
    let cats = map_tags_to_cats(table, &hdr.tags)?;
    let mut category: Vec<String> = Vec::new();
    category.push(cats[0].name());
    assert(file_name@ =~= post_file_name(date_text(d), reader.name_stem@));
    Ok(
        JekyllPost {
            file_name,
            header: JekyllHeader { title, date, layout: "post".to_owned(), mathjax: true, category },
            body,
        },
    )
}

/// A conversion between two dialects.
pub trait Mapper {
    fn mapping(&self, reader: &DefaultReader, body: String, table: &TagTable) -> Result<
        JekyllPost,
        ConvError,
    >;
}

impl Mapper for JekyllMapper {
    /// Converts a source document into a Jekyll post, exactly as
    /// `map_default_to_jekyll` does.
    fn mapping(&self, reader: &DefaultReader, body: String, table: &TagTable) -> (r: Result<
        JekyllPost,
        ConvError,
    >)
        ensures
            is_post_of(r, *reader, body, table@),
    {
        match self {
            JekyllMapper::Default => map_default_to_jekyll(reader, body, table),
        }
    }
}

/// The text of a converted document: the metadata block between two `---`
/// lines, then the body.
pub fn render_document(yaml_text: &str, body: &str) -> (r: String)
    ensures
        r@ == seq!['-', '-', '-', '\n'] + yaml_text@ + seq!['-', '-', '-', '\n'] + body@,
{
    let mut out = "---\n".to_owned();
    out.append(yaml_text);
    out.append("---\n");
    out.append(body);
    proof {
        reveal_strlit("---\n");
    }
    assert(out@ =~= seq!['-', '-', '-', '\n'] + yaml_text@ + seq!['-', '-', '-', '\n'] + body@);
    out
}

} // verus!
