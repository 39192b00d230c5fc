use vstd::prelude::*;
use vstd::string::StringExecFns;

use crate::model::json::{lemma_object_view, fields_view, get, lookup, missing_key, missing_key_error, str_of, Json, JsonError, JsonView};
use crate::model::song::Song;
use crate::model::tag_key::{tag_index, tag_key_of_name, TagKey};
use crate::text::str_eq;

verus! {

#[verifier::external_type_specification]
#[verifier::external_body]
pub struct ExRegex(regex::Regex);

#[verifier::external_type_specification]
#[verifier::external_body]
pub struct ExRegexError(regex::Error);

/// Whether `regex::Regex::new` accepts `pattern`.
pub uninterp spec fn regex_compiles(pattern: Seq<char>) -> bool;

/// Whether the regex compiled from `pattern` matches somewhere in `text`.
pub uninterp spec fn regex_matches(pattern: Seq<char>, text: Seq<char>) -> bool;

/// What `unidecode::unidecode` makes of `s`: its ASCII transliteration.
pub uninterp spec fn unidecode_of(s: Seq<char>) -> Seq<char>;

/// The ASCII transliteration of `s`.
///
/// Trusted: `unidecode::unidecode` is a function of `s` alone.
#[verifier::external_body]
fn transliterate(s: &str) -> (r: String)
    ensures
        r@ == unidecode_of(s@),
{
    unidecode::unidecode(s)
}

/// A regular expression together with the pattern it was compiled from.
#[derive(Debug)]
pub struct CompiledRegex {
    regex: regex::Regex,
    pattern: String,
}

impl View for CompiledRegex {
    type V = Seq<char>;

    closed spec fn view(&self) -> Seq<char> {
        self.pattern@
    }
}

impl CompiledRegex {
    /// Compiles `pattern`.
    ///
    /// Trusted: `regex::Regex::new` succeeds or fails as a function of `pattern`
    /// alone; the error it gives is passed on as it is.
    #[verifier::external_body]
    pub(crate) fn new(pattern: &str) -> (r: Result<CompiledRegex, regex::Error>)
        ensures
            r is Ok <==> regex_compiles(pattern@),
            r matches Ok(c) ==> c@ == pattern@,
    {
        regex::Regex::new(pattern).map(|regex| CompiledRegex { regex, pattern: pattern.to_string() })
    }

    /// Whether the regex matches somewhere in `text`.
    ///
    /// Trusted: `regex::Regex::is_match` answers as a function of the pattern and
    /// `text` alone.
    #[verifier::external_body]
    pub(crate) fn is_match(&self, text: &str) -> (r: bool)
        ensures
            r == regex_matches(self@, text@),
    {
        self.regex.is_match(text)
    }
}

/// Whether a song whose tag values are `values` passes a regex filter on `tag`: it
/// has a value for the tag, and the regex matches its ASCII transliteration.
pub open spec fn filter_passes(tag: TagKey, pattern: Seq<char>, values: Map<u8, Seq<char>>) -> bool {
    let k = tag_index(tag.key);
    values.contains_key(k) && regex_matches(pattern, unidecode_of(values[k]))
}

/// A filter that lets through the songs whose value of `tag` matches `regex`.
#[derive(Debug)]
pub struct RegexFilter {
    pub tag: TagKey,
    pub regex: CompiledRegex,
}

impl RegexFilter {
    /// Whether `song` passes this filter.
    pub fn matches(&self, song: &Song) -> (r: bool)
        ensures
            r == filter_passes(self.tag, self.regex@, song.metadata.values()),
    {
        match song.metadata.get(&self.tag) {
            Some(value) => {
                let ascii = transliterate(value);
                self.regex.is_match(ascii.as_str())
            },
            None => false,
        }
    }
}

/// Filters joined by a logical "and".
#[derive(Debug)]
pub struct FilterExpr(pub Vec<RegexFilter>);

/// Whether every filter of `filters` lets through a song with tag values `values`.
pub open spec fn all_pass(filters: Seq<RegexFilter>, values: Map<u8, Seq<char>>) -> bool {
    forall|i: int| 0 <= i < filters.len() ==> filter_passes(#[trigger] filters[i].tag, filters[i].regex@, values)
}

impl FilterExpr {
    /// Whether `song` passes every filter.
    pub fn evaluate(&self, song: &Song) -> (r: bool)
        ensures
            r == all_pass(self.0@, song.metadata.values()),
    {
        let n = self.0.len();
        for i in 0..n
            invariant
                n == self.0@.len(),
                forall|j: int| 0 <= j < i ==> filter_passes(#[trigger] self.0@[j].tag, self.0@[j].regex@, song.metadata.values()),
        {
            if !self.0[i].matches(song) {
                return false;
            }
        }
        true
    }
}

/// How a filter is read from JSON: the tag and the pattern, or the text of the error
/// (`None` when the regex does not compile: its text is the regex crate's).
pub open spec fn filter_of_json(v: JsonView) -> Result<(TagKey, Seq<char>), Option<Seq<char>>> {
    match v {
        JsonView::Object(fields) => match lookup(fields, "kind"@) {
            None => Err(Some(missing_key("kind"@))),
            Some(kind) => match lookup(fields, "tag"@) {
                None => Err(Some(missing_key("tag"@))),
                Some(tag) => match str_of(tag) {
                    None => Err(Some("`tag` must be a string"@)),
                    Some(name) => match tag_key_of_name(name) {
                        None => Err(Some("invalid tag `"@ + name + "`"@)),
                        Some(key) => match str_of(kind) {
                            None => Err(Some("`kind` must be a string"@)),
                            Some(k) => if k == "regex"@ {
                                match lookup(fields, "regex"@) {
                                    None => Err(Some(missing_key("regex"@))),
                                    Some(re) => match str_of(re) {
                                        None => Err(Some("`regex` must be a string"@)),
                                        Some(p) => if regex_compiles(p) {
                                            Ok((key, p))
                                        } else {
                                            Err(None)
                                        },
                                    },
                                }
                            } else {
                                Err(Some("invalid value of key `kind`: `"@ + k + "`"@))
                            },
                        },
                    },
                },
            },
        },
        _ => Err(Some("a filter must be a JSON object"@)),
    }
}

fn message(s: &str) -> (r: JsonError)
    ensures
        r.0@ == s@,
{
    JsonError(String::from_str(s))
}

fn quoted_message(prefix: &str, s: &str) -> (r: JsonError)
    ensures
        r.0@ == prefix@ + s@ + "`"@,
{
    let mut m = String::from_str(prefix);
    m.append(s);
    m.append("`");
    JsonError(m)
}

impl RegexFilter {
    /// Reads a filter from its JSON object: `kind` (only `"regex"`), `tag` and `regex`.
    pub fn from_json(v: &Json) -> (r: Result<RegexFilter, JsonError>)
        ensures
            match filter_of_json(v@) {
                Ok((tag, p)) => r matches Ok(f) && f.tag == tag && f.regex@ == p,
                Err(Some(m)) => r matches Err(e) && e.0@ == m,
                Err(None) => r is Err,
            },
    {
        let fields = match v {
            Json::Object(fields) => fields,
            _ => return Err(message("a filter must be a JSON object")),
        };
        proof {
            lemma_object_view(v, *fields);
        }
        let kind = match get(fields, "kind") {
            Some(k) => k,
            None => return Err(missing_key_error("kind")),
        };
        let tag_value = match get(fields, "tag") {
            Some(t) => t,
            None => return Err(missing_key_error("tag")),
        };
        let name = match tag_value {
            Json::Str(s) => s,
            _ => return Err(message("`tag` must be a string")),
        };
        let tag = match TagKey::try_from_name(name.as_str()) {
            Ok(t) => t,
            Err(e) => return Err(JsonError(e.to_message())),
        };
        let k = match kind {
            Json::Str(s) => s,
            _ => return Err(message("`kind` must be a string")),
        };
        if !str_eq(k.as_str(), "regex") {
            return Err(quoted_message("invalid value of key `kind`: `", k.as_str()));
        }
        let re = match get(fields, "regex") {
            Some(r) => r,
            None => return Err(missing_key_error("regex")),
        };
        let pattern = match re {
            Json::Str(s) => s,
            _ => return Err(message("`regex` must be a string")),
        };
        match CompiledRegex::new(pattern.as_str()) {
            Ok(regex) => Ok(RegexFilter { tag, regex }),
            Err(e) => Err(JsonError(e.to_string())),
        }
    }
}

/// No filter lets every song through.
pub proof fn lemma_no_filter_passes_all(values: Map<u8, Seq<char>>)
    ensures
        all_pass(Seq::<RegexFilter>::empty(), values),
{
}

/// One filter alone lets a song through exactly when the song has a value for the
/// filter's tag and the regex matches its transliteration.
pub proof fn lemma_one_filter(f: RegexFilter, values: Map<u8, Seq<char>>)
    ensures
        all_pass(seq![f], values) <==> (values.contains_key(tag_index(f.tag.key)) && regex_matches(
            f.regex@,
            unidecode_of(values[tag_index(f.tag.key)]),
        )),
{
    assert(seq![f][0] == f);
}

/// Filters joined one after the other let a song through exactly when both parts
/// do: every filter counts, none is skipped.
pub proof fn lemma_filters_joined(a: Seq<RegexFilter>, b: Seq<RegexFilter>, values: Map<u8, Seq<char>>)
    ensures
        all_pass(a + b, values) <==> (all_pass(a, values) && all_pass(b, values)),
{
    let c = a + b;
    if all_pass(c, values) {
        assert forall|i: int| 0 <= i < a.len() implies filter_passes(#[trigger] a[i].tag, a[i].regex@, values) by {
            assert(c[i] == a[i]);
        }
        assert forall|i: int| 0 <= i < b.len() implies filter_passes(#[trigger] b[i].tag, b[i].regex@, values) by {
            assert(c[a.len() + i] == b[i]);
        }
    }
    if all_pass(a, values) && all_pass(b, values) {
        assert forall|i: int| 0 <= i < c.len() implies filter_passes(#[trigger] c[i].tag, c[i].regex@, values) by {
            if i < a.len() {
                assert(c[i] == a[i]);
            } else {
                assert(c[i] == b[i - a.len()]);
            }
        }
    }
}

/// A song passes the filters exactly when it passes each one of them alone.
pub proof fn lemma_filters_each(fs: Seq<RegexFilter>, values: Map<u8, Seq<char>>)
    ensures
        all_pass(fs, values) <==> forall|i: int| 0 <= i < fs.len() ==> #[trigger] all_pass(seq![fs[i]], values),
{
    assert forall|i: int| 0 <= i < fs.len() implies (#[trigger] all_pass(seq![fs[i]], values) <==> filter_passes(
        fs[i].tag,
        fs[i].regex@,
        values,
    )) by {
        assert(seq![fs[i]][0] == fs[i]);
    }
    if forall|i: int| 0 <= i < fs.len() ==> #[trigger] all_pass(seq![fs[i]], values) {
        assert forall|i: int| 0 <= i < fs.len() implies filter_passes(#[trigger] fs[i].tag, fs[i].regex@, values) by {
            assert(all_pass(seq![fs[i]], values));
        }
    }
    if all_pass(fs, values) {
        assert forall|i: int| 0 <= i < fs.len() implies #[trigger] all_pass(seq![fs[i]], values) by {
            assert(filter_passes(fs[i].tag, fs[i].regex@, values));
        }
    }
}

} // verus!
