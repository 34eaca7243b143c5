use vstd::prelude::*;

use crate::error::ConvError;

verus! {

/// The closed set of categories a converted post is filed under.
#[derive(Debug, Clone, Copy, PartialEq, Eq, Structural)]
pub enum Cat {
    Algs,
    Lang,
    OS,
    Net,
    Oth,
}

impl Cat {
    /// The lower-cased name under which the category is written out.
    pub open spec fn spec_name(self) -> Seq<char> {
        match self {
            Cat::Algs => "algs"@,
            Cat::Lang => "lang"@,
            Cat::OS => "os"@,
            Cat::Net => "net"@,
            Cat::Oth => "oth"@,
        }
    }

    pub fn name(&self) -> (r: String)
        ensures
            r@ == self.spec_name(),
    {
        match self {
            Cat::Algs => "algs".to_owned(),
            Cat::Lang => "lang".to_owned(),
            Cat::OS => "os".to_owned(),
            Cat::Net => "net".to_owned(),
            Cat::Oth => "oth".to_owned(),
        }
    }
}

/// A character of Unicode's `White_Space` property, as `char::is_whitespace`
/// tells them.
pub open spec fn is_white_space(c: char) -> bool {
    let u = c as u32;
    (0x9 <= u <= 0xd) || u == 0x20 || u == 0x85 || u == 0xa0 || u == 0x1680 || (0x2000 <= u
        <= 0x200a) || u == 0x2028 || u == 0x2029 || u == 0x202f || u == 0x205f || u == 0x3000
}

/// `s` without its leading white space.
pub open spec fn trim_start(s: Seq<char>) -> Seq<char>
    decreases s.len(),
{
    if s.len() > 0 && is_white_space(s[0]) {
        trim_start(s.drop_first())
    } else {
        s
    }
}

/// `s` without its trailing white space.
pub open spec fn trim_end(s: Seq<char>) -> Seq<char>
    decreases s.len(),
{
    if s.len() > 0 && is_white_space(s.last()) {
        trim_end(s.drop_last())
    } else {
        s
    }
}

/// `s` without its leading and trailing white space.
pub open spec fn trimmed(s: Seq<char>) -> Seq<char> {
    trim_end(trim_start(s))
}

/// What `str::to_lowercase` makes of a string.
pub uninterp spec fn lowered_of(s: Seq<char>) -> Seq<char>;

/// Relies on `str::trim`: strips the leading and trailing characters for
/// which `char::is_whitespace` holds, Unicode's `White_Space`.
#[verifier::external_body]
pub(crate) fn trim_str(s: &str) -> (r: &str)
    ensures
        r@ == trimmed(s@),
{
    s.trim()
}

/// Relies on `str::to_lowercase`: the result depends on the characters alone.
#[verifier::external_body]
fn lowercase(s: &str) -> (r: String)
    ensures
        r@ == lowered_of(s@),
{
    s.to_lowercase()
}

/// The key under which a tag is looked up: trimmed, then lower-cased.
pub open spec fn normalized(tag: Seq<char>) -> Seq<char> {
    lowered_of(trimmed(tag))
}

/// Trims and lower-cases a tag.
pub fn normalize_tag(tag: &str) -> (r: String)
    ensures
        r@ == normalized(tag@),
{
    lowercase(trim_str(tag))
}

/// The category of the first entry whose key is `k`, if any.
pub open spec fn lookup(t: Seq<(Seq<char>, Cat)>, k: Seq<char>) -> Option<Cat>
    decreases t.len(),
{
    if t.len() == 0 {
        None
    } else if t[0].0 == k {
        Some(t[0].1)
    } else {
        lookup(t.drop_first(), k)
    }
}

/// The built-in table from normalized tags to categories.
pub open spec fn default_tag_table() -> Seq<(Seq<char>, Cat)> {
    seq![
        ("string"@, Cat::Algs),
        ("string pattern match"@, Cat::Algs),
        ("algorithm"@, Cat::Algs),
        ("graph"@, Cat::Algs),
        ("c"@, Cat::Lang),
        ("common lisp"@, Cat::Lang),
        ("php"@, Cat::Lang),
        ("haskell"@, Cat::Lang),
        ("hy"@, Cat::Lang),
        ("python"@, Cat::Lang),
        ("compiler"@, Cat::Lang),
        ("llvm"@, Cat::Lang),
        ("linux"@, Cat::OS),
        ("kernel"@, Cat::OS),
        ("fs"@, Cat::OS),
        ("shell"@, Cat::OS),
        ("bash"@, Cat::OS),
        ("sudo"@, Cat::OS),
        ("ietf rfcs"@, Cat::Net),
        ("ietf"@, Cat::Net),
    ]
}

/// No key stands twice in the table.
pub open spec fn unique_keys(t: Seq<(Seq<char>, Cat)>) -> bool {
    forall|i: int, j: int| 0 <= i < j < t.len() ==> t[i].0 != t[j].0
}

/// The built-in table has no key twice.
#[verifier::rlimit(50)]
pub proof fn lemma_default_table_unique()
    ensures
        unique_keys(default_tag_table()),
{
    reveal_strlit("string");
    reveal_strlit("string pattern match");
    reveal_strlit("algorithm");
    reveal_strlit("graph");
    reveal_strlit("c");
    reveal_strlit("common lisp");
    reveal_strlit("php");
    reveal_strlit("haskell");
    reveal_strlit("hy");
    reveal_strlit("python");
    reveal_strlit("compiler");
    reveal_strlit("llvm");
    reveal_strlit("linux");
    reveal_strlit("kernel");
    reveal_strlit("fs");
    reveal_strlit("shell");
    reveal_strlit("bash");
    reveal_strlit("sudo");
    reveal_strlit("ietf rfcs");
    reveal_strlit("ietf");
    let t = default_tag_table();
    assert forall|i: int, j: int| 0 <= i < j < t.len() implies t[i].0 != t[j].0 by {
        if t[i].0.len() == t[j].0.len() {
            assert(t[i].0[0] != t[j].0[0] || t[i].0[1] != t[j].0[1] || t[i].0[2] != t[j].0[2]);
        }
    }
}

/// A read-only lookup table from normalized tag to category, built once
/// and handed to the classifier by reference.
pub struct TagTable {
    entries: Vec<(String, Cat)>,
}

impl View for TagTable {
    type V = Seq<(Seq<char>, Cat)>;

    closed spec fn view(&self) -> Seq<(Seq<char>, Cat)> {
        self.entries@.map_values(|e: (String, Cat)| (e.0@, e.1))
    }
}

impl TagTable {
    /// Builds the built-in table.
    pub fn new() -> (r: TagTable)
        ensures
            r@ == default_tag_table(),
            unique_keys(r@),
    {
        proof {
            lemma_default_table_unique();
        }
        let mut entries: Vec<(String, Cat)> = Vec::new();
        entries.push(("string".to_owned(), Cat::Algs));
        entries.push(("string pattern match".to_owned(), Cat::Algs));
        entries.push(("algorithm".to_owned(), Cat::Algs));
        entries.push(("graph".to_owned(), Cat::Algs));
        entries.push(("c".to_owned(), Cat::Lang));
        entries.push(("common lisp".to_owned(), Cat::Lang));
        entries.push(("php".to_owned(), Cat::Lang));
        entries.push(("haskell".to_owned(), Cat::Lang));
        entries.push(("hy".to_owned(), Cat::Lang));
        entries.push(("python".to_owned(), Cat::Lang));
        entries.push(("compiler".to_owned(), Cat::Lang));
        entries.push(("llvm".to_owned(), Cat::Lang));
        entries.push(("linux".to_owned(), Cat::OS));
        entries.push(("kernel".to_owned(), Cat::OS));
        entries.push(("fs".to_owned(), Cat::OS));
        entries.push(("shell".to_owned(), Cat::OS));
        entries.push(("bash".to_owned(), Cat::OS));
        entries.push(("sudo".to_owned(), Cat::OS));
        entries.push(("ietf rfcs".to_owned(), Cat::Net));
        entries.push(("ietf".to_owned(), Cat::Net));
        let r = TagTable { entries };
        assert(r@ =~= default_tag_table());
        r
    }

    /// The category filed under an already normalized key, if any.
    pub fn get(&self, key: &String) -> (r: Option<Cat>)
        ensures
            r == lookup(self@, key@),
    {
        let mut i: usize = 0;
        assert(self@.subrange(0, self@.len() as int) =~= self@);
        while i < self.entries.len()
            invariant
                i <= self.entries@.len(),
                lookup(self@, key@) == lookup(self@.subrange(i as int, self@.len() as int), key@),
            decreases self.entries@.len() - i,
        {
            let ghost rest = self@.subrange(i as int, self@.len() as int);
            assert(rest[0] == self@[i as int]);
            if self.entries[i].0 == *key {
                return Some(self.entries[i].1);
            }
            assert(rest.drop_first() =~= self@.subrange(i + 1, self@.len() as int));
            i = i + 1;
        }
        None
    }
}

/// Two keys of the list map to two different categories.
pub open spec fn conflicting(t: Seq<(Seq<char>, Cat)>, keys: Seq<Seq<char>>) -> bool {
    exists|i: int, j: int|
        0 <= i < keys.len() && 0 <= j < keys.len() && lookup(t, keys[i]) is Some && lookup(
            t,
            keys[j],
        ) is Some && lookup(t, keys[i]) != lookup(t, keys[j])
}

/// The category of a key list without conflicts: the one that its matching
/// keys agree on, or `Oth` where no key matches.
pub open spec fn agreed_cat(t: Seq<(Seq<char>, Cat)>, keys: Seq<Seq<char>>) -> Cat {
    if exists|i: int| 0 <= i < keys.len() && lookup(t, keys[i]) is Some {
        let i = choose|i: int| 0 <= i < keys.len() && lookup(t, keys[i]) is Some;
        lookup(t, keys[i])->Some_0
    } else {
        Cat::Oth
    }
}

/// The views of a list of strings.
pub open spec fn views(v: Seq<String>) -> Seq<Seq<char>> {
    v.map_values(|s: String| s@)
}

/// The lookup keys of a list of tags.
pub open spec fn keys_of(tags: Seq<String>) -> Seq<Seq<char>> {
    tags.map_values(|s: String| normalized(s@))
}

/// Files a list of already normalized keys under exactly one category: the
/// one its matching keys agree on, `Oth` when none matches, and an error
/// when two disagree.
pub fn classify_keys(table: &TagTable, keys: &Vec<String>) -> (r: Result<Cat, ConvError>)
    ensures
        r is Err <==> conflicting(table@, views(keys@)),
        r is Err ==> r == Err::<Cat, ConvError>(ConvError::AmbiguousCategory),
        r is Ok ==> r == Ok::<Cat, ConvError>(agreed_cat(table@, views(keys@))),
{
    let ghost t = table@;
    let ghost vs = views(keys@);
    let mut catopt: Option<Cat> = None;
    let mut i: usize = 0;
    while i < keys.len()
        invariant
            i <= keys@.len(),
            t == table@,
            vs == views(keys@),
            vs.len() == keys@.len(),
            catopt is None ==> forall|j: int| 0 <= j < i ==> lookup(t, vs[j]) is None,
            catopt is Some ==> exists|j: int| 0 <= j < i && lookup(t, vs[j]) == catopt,
            catopt is Some ==> forall|j: int|
                0 <= j < i && lookup(t, vs[j]) is Some ==> lookup(t, vs[j]) == catopt,
        decreases keys@.len() - i,
    {
        assert(vs[i as int] == keys@[i as int]@);
        let found = table.get(&keys[i]);
        if let Some(cat) = found {
            match catopt {
                Some(prev) => {
                    if prev != cat {
                        proof {
                            let j = choose|j: int| 0 <= j < i && lookup(t, vs[j]) == catopt;
                            assert(lookup(t, vs[j]) != lookup(t, vs[i as int]));
                        }
                        return Err(ConvError::AmbiguousCategory);
                    }
                },
                None => {
                    catopt = Some(cat);
                },
            }
        }
        i = i + 1;
    }
    proof {
        if exists|k: int| 0 <= k < vs.len() && lookup(t, vs[k]) is Some {
            let k = choose|k: int| 0 <= k < vs.len() && lookup(t, vs[k]) is Some;
            assert(lookup(t, vs[k]) == catopt);
        }
    }
    match catopt {
        Some(c) => Ok(c),
        None => Ok(Cat::Oth),
    }
}

/// Files a tag list under exactly one category, looking each tag up trimmed
/// and lower-cased: the category its matching tags agree on, `Oth` when none
/// matches, and an error when two disagree.
pub fn map_tags_to_cats(table: &TagTable, tags: &Vec<String>) -> (r: Result<Vec<Cat>, ConvError>)
    ensures
        r is Err <==> conflicting(table@, keys_of(tags@)),
        r is Err ==> r == Err::<Vec<Cat>, ConvError>(ConvError::AmbiguousCategory),
        r is Ok ==> r->Ok_0@ == seq![agreed_cat(table@, keys_of(tags@))],
{
    let mut keys: Vec<String> = Vec::new();
    let mut i: usize = 0;
    while i < tags.len()
        invariant
            i <= tags@.len(),
            views(keys@) =~= keys_of(tags@).subrange(0, i as int),
        decreases tags@.len() - i,
    {
        let k = normalize_tag(tags[i].as_str());
        let ghost before = keys@;
        keys.push(k);
        assert(views(keys@) =~= views(before).push(k@));
        assert(keys_of(tags@)[i as int] == k@);
        assert(views(keys@) =~= keys_of(tags@).subrange(0, i + 1));
        i = i + 1;
    }
    assert(views(keys@) =~= keys_of(tags@));
    let cat = classify_keys(table, &keys)?;
    let mut out: Vec<Cat> = Vec::new();
    out.push(cat);
    assert(out@ =~= seq![agreed_cat(table@, keys_of(tags@))]);
    Ok(out)
}

} // verus!
