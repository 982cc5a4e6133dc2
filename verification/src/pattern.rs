//! The compiled line pattern and the entries it finds in a text.

use crate::lines::{lines, split_lines};
use crate::samples::{mapping, SampleMap};
use regex::Regex;
use vstd::prelude::*;

verus! {

/// The shape of a line of interest: an alphabetic key, a colon, whitespace, digits,
/// whitespace, an alphabetic unit. The three groups are the key, the value and the unit.
///
/// The pattern is searched for in each line by itself. It need not span the line: a key is
/// the run of letters right before the colon, wherever in the line that stands, and what
/// follows the unit is passed over.
pub const MEMINFO_LINE_PATTERN: &'static str =
    "([[:alpha:]]+):[[:space:]]+([[:digit:]]+)[[:space:]]+([[:alpha:]]+)";

/// How many groups a line pattern has in each of its matches: the whole match and the three
/// fields.
pub const LINE_GROUPS: usize = 4;

/// `regex::Regex`, a compiled pattern: an opaque value that is carried to the calls below.
#[verifier::external_type_specification]
#[verifier::external_body]
pub struct ExRegex(Regex);

/// `regex::Error`, why a pattern did not compile: an opaque value that is handed on.
#[verifier::external_type_specification]
#[verifier::external_body]
pub struct ExRegexError(regex::Error);

/// What `Regex::static_captures_len` returns for `re`: the number of groups that take part
/// in every match, the whole match counted; None where that number varies from match to
/// match.
pub uninterp spec fn static_groups(re: Regex) -> Option<usize>;

/// What `Regex::captures_iter` yields for `re` on `text`: the successive non-overlapping
/// matches, each as the texts of its three groups, read with `Captures::extract`. It has a
/// meaning only for a pattern with exactly these groups in every match.
pub uninterp spec fn captured(re: Regex, text: Seq<char>) -> Seq<
    (Seq<char>, Seq<char>, Seq<char>),
>;

/// What `Regex::new` returns for `pattern`: the compiled pattern, or why it did not compile.
pub uninterp spec fn compile_outcome(pattern: Seq<char>) -> Result<Regex, regex::Error>;

/// `Regex::new`: compiles `pattern`. The result is what `compile_outcome` names; which
/// patterns compile is not claimed.
#[verifier::external_body]
fn compile(pattern: &str) -> (compiled: Result<Regex, regex::Error>)
    ensures
        compiled == compile_outcome(pattern@),
{
    Regex::new(pattern)
}

/// `Regex::static_captures_len`: the result is what `static_groups` names.
#[verifier::external_body]
fn static_captures_len(re: &Regex) -> (count: Option<usize>)
    ensures
        count == static_groups(*re),
{
    re.static_captures_len()
}

/// `Regex::captures_iter`, each match read with `Captures::extract` into its three groups:
/// the result is what `captured` names. `extract` panics unless the pattern has exactly
/// three groups besides the whole match in every match, which the precondition asks for.
#[verifier::external_body]
fn captures_iter(re: &Regex, text: &str) -> (found: Vec<(String, String, String)>)
    requires
        static_groups(*re) == Some(LINE_GROUPS),
    ensures
        found.deep_view() == captured(*re, text@),
{
    re.captures_iter(text).map(|c| c.extract()).map(
        |(_, [key, value, unit])| (key.to_string(), value.to_string(), unit.to_string()),
    ).collect()
}

/// Why a pattern cannot serve as a line pattern.
#[derive(Debug, PartialEq)]
pub enum PatternError {
    /// The pattern did not compile.
    Invalid(regex::Error),
    /// The pattern compiled, but its matches do not each have the key, value and unit
    /// groups: the count is the number of groups it has, the whole match counted.
    GroupCount(Option<usize>),
}

/// The entries that `re` finds in `lines`: those of the first line, then those of the
/// second, and so on. No entry is made of more than one line.
pub open spec fn found_in(re: Regex, lines: Seq<Seq<char>>) -> Seq<
    (Seq<char>, Seq<char>, Seq<char>),
>
    decreases lines.len(),
{
    if lines.len() == 0 {
        Seq::empty()
    } else {
        found_in(re, lines.drop_last()) + captured(re, lines.last())
    }
}

/// `r` is what becomes of a compile outcome: a line pattern where the pattern compiled and
/// each of its matches has exactly the three groups, else the reason why not.
pub open spec fn accepts(
    compiled: Result<Regex, regex::Error>,
    r: Result<LinePattern, PatternError>,
) -> bool {
    match compiled {
        Ok(re) => if static_groups(re) == Some(LINE_GROUPS) {
            r matches Ok(line) && line.regex() == re
        } else {
            r matches Err(PatternError::GroupCount(count)) && count == static_groups(re)
        },
        Err(error) => r matches Err(PatternError::Invalid(inner)) && inner == error,
    }
}

/// A compiled pattern each of whose matches has exactly three groups: key, value and unit.
#[derive(Debug)]
pub struct LinePattern {
    regex: Regex,
}

impl LinePattern {
    #[verifier::type_invariant]
    spec fn three_groups(self) -> bool {
        static_groups(self.regex) == Some(LINE_GROUPS)
    }

    /// The compiled pattern.
    pub closed spec fn regex(self) -> Regex {
        self.regex
    }

    /// The entries that the pattern finds in `text`, line by line.
    pub open spec fn matches(self, text: Seq<char>) -> Seq<(Seq<char>, Seq<char>, Seq<char>)> {
        found_in(self.regex(), lines(text))
    }

    /// Compiles `pattern` into a line pattern: it is accepted where it compiles and each of
    /// its matches has exactly the three groups.
    pub fn new(pattern: &str) -> (r: Result<LinePattern, PatternError>)
        ensures
            accepts(compile_outcome(pattern@), r),
    {
        LinePattern::from_compiled(compile(pattern))
    }

    /// Accepts a compiled pattern as a line pattern where each of its matches has exactly
    /// the three groups.
    pub fn from_compiled(
        compiled: Result<Regex, regex::Error>,
    ) -> (r: Result<LinePattern, PatternError>)
        ensures
            accepts(compiled, r),
    {
        match compiled {
            Ok(re) => {
                let count = static_captures_len(&re);
                match count {
                    Some(n) if n == LINE_GROUPS => Ok(LinePattern { regex: re }),
                    _ => Err(PatternError::GroupCount(count)),
                }
            },
            Err(error) => Err(PatternError::Invalid(error)),
        }
    }

    /// Samples `text`: the mapping of the entries that the pattern finds in its lines, each
    /// line searched by itself, a later entry for a key replacing an earlier one.
    pub fn sample(&self, text: &str) -> (map: SampleMap)
        ensures
            map.entries() == self.matches(text@),
            map@ == mapping(self.matches(text@)),
    {
        proof {
            use_type_invariant(self);
        }
        let all = split_lines(text);
        let mut map = SampleMap::new();
        let mut i: usize = 0;
        assert(all.deep_view().take(0) =~= Seq::<Seq<char>>::empty());
        while i < all.len()
            invariant
                i <= all.len(),
                all.deep_view() == lines(text@),
                static_groups(self.regex) == Some(LINE_GROUPS),
                map.entries() == found_in(self.regex, all.deep_view().take(i as int)),
            decreases all.len() - i,
        {
            let line: &str = all[i];
            let found = captures_iter(&self.regex, line);
            map.extend(found);
            proof {
                let upto = all.deep_view().take(i + 1);
                assert(upto.drop_last() =~= all.deep_view().take(i as int));
                assert(upto.last() == line@);
            }
            i = i + 1;
        }
        assert(all.deep_view().take(i as int) =~= all.deep_view());
        map
    }
}

} // verus!
