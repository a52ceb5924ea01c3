//! The regular-expression capability, through the regex crate. A compiled
//! expression is opaque; the contracts speak of the pattern text it was
//! compiled from, which determines every answer.

use vstd::prelude::*;

verus! {

#[verifier::external_type_specification]
#[verifier::external_body]
pub struct ExRegex(regex::Regex);

/// The pattern text compiles as a regular expression.
pub uninterp spec fn regex_compiles(pattern: Seq<char>) -> bool;

/// Whether the pattern matches somewhere in the content; it depends on the
/// two texts alone.
pub uninterp spec fn regex_match_of(pattern: Seq<char>, content: Seq<char>) -> bool;

/// The capture groups of every match of the pattern in the content, in match
/// order, each match's participating groups in group order.
pub uninterp spec fn regex_captures_of(pattern: Seq<char>, content: Seq<char>) -> Seq<
    Seq<Seq<char>>,
>;

/// The content with the first `limit` matches replaced (all of them for a
/// limit of zero); it depends on the three texts and the limit alone.
pub uninterp spec fn regex_replacen_of(
    pattern: Seq<char>,
    content: Seq<char>,
    replacement: Seq<char>,
    limit: int,
) -> Seq<char>;

/// Relies on regex::Regex::new: it succeeds exactly on the pattern texts that
/// compile.
#[verifier::external_body]
fn compile_regex(pattern: &str) -> (r: Result<regex::Regex, String>)
    ensures
        r is Ok <==> regex_compiles(pattern@),
{
    match regex::Regex::new(pattern) {
        Ok(re) => Ok(re),
        Err(e) => Err(format!("{e}")),
    }
}

/// A compiled expression together with the pattern it was compiled from.
pub struct LuaRegex {
    pattern: String,
    re: regex::Regex,
}

impl LuaRegex {
    /// The pattern this expression was compiled from.
    pub closed spec fn spec_pattern(&self) -> Seq<char> {
        self.pattern@
    }

    /// Compile a pattern; an uncompilable pattern is an error.
    pub fn new(pattern: String) -> (r: Result<LuaRegex, String>)
        ensures
            r is Ok <==> regex_compiles(pattern@),
            r matches Ok(lr) ==> lr.spec_pattern() == pattern@,
    {
        match compile_regex(pattern.as_str()) {
            Ok(re) => Ok(LuaRegex { pattern, re }),
            Err(e) => Err(e),
        }
    }

    /// Relies on regex::Regex::is_match: whether the compiled pattern matches
    /// somewhere in the content.
    #[verifier::external_body]
    pub fn is_match(&self, content: &str) -> (r: bool)
        ensures
            r == regex_match_of(self.spec_pattern(), content@),
    {
        self.re.is_match(content)
    }

    /// Relies on regex::Regex::captures_iter: every match's participating
    /// capture groups, in order.
    #[verifier::external_body]
    pub fn captures(&self, content: &str) -> (r: Vec<Vec<String>>)
        ensures
            r.deep_view() == regex_captures_of(self.spec_pattern(), content@),
    {
        self.re.captures_iter(content).map(
            |capture|
                capture.iter().filter_map(
                    |group| group.map(|group| group.as_str().to_string()),
                ).collect::<Vec<_>>(),
        ).collect::<Vec<_>>()
    }

    /// Relies on regex::Regex::replacen: the content with the first `limit`
    /// matches replaced, all of them for a limit of zero.
    #[verifier::external_body]
    fn replacen(&self, content: &str, limit: usize, replacement: &str) -> (r: String)
        ensures
            r@ == regex_replacen_of(self.spec_pattern(), content@, replacement@, limit as int),
    {
        self.re.replacen(content, limit, replacement).to_string()
    }

    /// Replace matches, every one where no limit is given.
    pub fn replace(&self, content: &str, replacement: &str, limit: Option<usize>) -> (r: String)
        ensures
            r@ == regex_replacen_of(
                self.spec_pattern(),
                content@,
                replacement@,
                match limit {
                    Some(l) => l as int,
                    None => 0,
                },
            ),
    {
        let n = match limit {
            Some(l) => l,
            None => 0,
        };
        self.replacen(content, n, replacement)
    }
}

} // verus!
