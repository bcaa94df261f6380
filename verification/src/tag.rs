//! A single tag and its matching predicate.

use vstd::prelude::*;
use vstd::std_specs::cmp::PartialEqSpecImpl;
use vstd::string::StringExecFns;
use crate::error::TagError;
use crate::pattern::{
    accepts, is_match, regex_accepts, regex_is_match, regex_replace_all, replace_all,
};
use crate::text::push_char;

verus! {

/// The pattern of one namespace segment: one or more word or space
/// characters followed by a colon.
pub const NAMESPACE_PATTERN: &'static str = r"([\s\w]+:)";

/// What precedes the criteria in the pattern that a criteria is turned
/// into: a dot is to match any character, a line break too, and the match
/// is to begin where the tag begins.
pub const CRITERIA_HEAD: &'static str = "(?s)^((?:";

/// The pattern that a `*` of a criteria is turned into: any run of
/// characters.
pub const WILDCARD: &'static str = ".*";

/// What follows the criteria in the pattern that a criteria is turned into:
/// an optional sub-hierarchy, up to the end of the tag.
pub const CRITERIA_TAIL: &'static str = ")(?:/.*)?)$";

/// A namespaced, hierarchical label, such as `nature:tree/person:john`.
#[derive(Debug, Eq, PartialOrd, Ord)]
pub struct Tag {
    pub tag_string: String,
}

impl View for Tag {
    type V = Seq<char>;

    open spec fn view(&self) -> Seq<char> {
        self.tag_string@
    }
}

impl DeepView for Tag {
    type V = Seq<char>;

    open spec fn deep_view(&self) -> Seq<char> {
        self.tag_string@
    }
}

impl Clone for Tag {
    fn clone(&self) -> (copy: Tag)
        ensures
            copy@ == self@,
    {
        Tag { tag_string: self.tag_string.clone() }
    }
}

impl PartialEq for Tag {
    fn eq(&self, other: &Tag) -> (same: bool) {
        self.tag_string == other.tag_string
    }
}

impl PartialEqSpecImpl for Tag {
    open spec fn obeys_eq_spec() -> bool {
        true
    }

    open spec fn eq_spec(&self, other: &Tag) -> bool {
        self.tag_string@ == other.tag_string@
    }
}

/// Whether a character has a meaning of its own in a pattern, so that it
/// must be escaped to stand for itself.
pub open spec fn is_meta_character(c: char) -> bool {
    ||| c == '\\' || c == '.' || c == '+' || c == '*' || c == '?' || c == '(' || c == ')'
    ||| c == '|' || c == '[' || c == ']' || c == '{' || c == '}' || c == '^' || c == '$'
    ||| c == '#' || c == '&' || c == '-' || c == '~'
}

/// A character as a pattern that matches it and nothing else: itself,
/// after a backslash if it has a meaning of its own.
pub open spec fn escaped_char(c: char) -> Seq<char> {
    if is_meta_character(c) {
        seq!['\\', c]
    } else {
        seq![c]
    }
}

/// The criteria as a pattern: every `*` stands for any run of characters,
/// and every other character for itself.
pub open spec fn expand_wildcards(criteria: Seq<char>) -> Seq<char>
    decreases criteria.len(),
{
    if criteria.len() == 0 {
        Seq::empty()
    } else if criteria.last() == '*' {
        expand_wildcards(criteria.drop_last()) + WILDCARD@
    } else {
        expand_wildcards(criteria.drop_last()) + escaped_char(criteria.last())
    }
}

/// The pattern that a criteria is matched by: the criteria with its
/// wildcards expanded and its other characters standing for themselves,
/// anchored at the start of the tag, optionally followed by a
/// sub-hierarchy, and anchored at the end.
pub open spec fn criteria_pattern(criteria: Seq<char>) -> Seq<char> {
    CRITERIA_HEAD@ + expand_wildcards(criteria) + CRITERIA_TAIL@
}

/// The tag without its namespace segments.
pub open spec fn strip_namespaces(tag: Seq<char>) -> Seq<char> {
    regex_replace_all(NAMESPACE_PATTERN@, tag, ""@)
}

/// Whether a tag matches a criteria: the criteria's pattern is looked for
/// in the tag stripped of its namespaces.
pub open spec fn tag_matches(tag: Seq<char>, criteria: Seq<char>) -> bool {
    regex_is_match(criteria_pattern(criteria), strip_namespaces(tag))
}

/// Whether a criteria can be matched at all: the engine accepts the
/// namespace pattern and the pattern that the criteria is turned into. It
/// refuses a pattern that is too large for it.
pub open spec fn criteria_usable(criteria: Seq<char>) -> bool {
    regex_accepts(NAMESPACE_PATTERN@) && regex_accepts(criteria_pattern(criteria))
}

/// Namespaces take no part in matching: two tags that are the same once
/// their namespaces are stripped match the same criteria.
pub proof fn lemma_matching_ignores_namespaces(left: Seq<char>, right: Seq<char>, criteria: Seq<char>)
    requires
        strip_namespaces(left) == strip_namespaces(right),
    ensures
        tag_matches(left, criteria) == tag_matches(right, criteria),
{
}

/// Tests whether a character has a meaning of its own in a pattern.
fn is_meta(c: char) -> (meta: bool)
    ensures
        meta == is_meta_character(c),
{
    c == '\\' || c == '.' || c == '+' || c == '*' || c == '?' || c == '(' || c == ')' || c == '|'
        || c == '[' || c == ']' || c == '{' || c == '}' || c == '^' || c == '$' || c == '#'
        || c == '&' || c == '-' || c == '~'
}

/// Builds the pattern of a criteria.
pub fn build_criteria_pattern(criteria: &str) -> (pattern: String)
    ensures
        pattern@ == criteria_pattern(criteria@),
{
    let mut pattern = String::from_str(CRITERIA_HEAD);
    let ghost head = pattern@;
    for c in it: criteria.chars()
        invariant
            it.seq() == criteria@,
            pattern@ == head + expand_wildcards(criteria@.take(it.index() as int)),
    {
        let ghost done = expand_wildcards(criteria@.take(it.index() as int));
        proof {
            assert(criteria@.take(it.index() + 1).drop_last() == criteria@.take(it.index() as int));
        }
        if c == '*' {
            pattern.append(WILDCARD);
            proof {
                assert((head + done) + WILDCARD@ =~= head + (done + WILDCARD@));
            }
        } else {
            if is_meta(c) {
                push_char(&mut pattern, '\\');
            }
            push_char(&mut pattern, c);
            proof {
                assert(pattern@ =~= head + (done + escaped_char(c)));
            }
        }
    }
    proof {
        assert(criteria@.take(criteria@.len() as int) == criteria@);
    }
    pattern.append(CRITERIA_TAIL);
    pattern
}

/// Tests whether a criteria can be matched at all.
pub fn criteria_is_usable(criteria: &str) -> (usable: bool)
    ensures
        usable == criteria_usable(criteria@),
{
    if !accepts(NAMESPACE_PATTERN) {
        return false;
    }
    let pattern = build_criteria_pattern(criteria);
    accepts(pattern.as_str())
}

impl Tag {
    /// Creates a new tag from the string.
    pub fn new(tag_content: String) -> (tag: Tag)
        ensures
            tag@ == tag_content@,
            tag.tag_string == tag_content,
    {
        Tag { tag_string: tag_content }
    }

    /// Whether the tag matches the criteria: whether the tag without its
    /// namespaces begins with the criteria, in which `*` stands for any run
    /// of characters, and goes on, if at all, with a sub-hierarchy. The
    /// criteria must be one that the engine accepts; `try_matches` tests
    /// that first.
    pub fn matches(&self, criteria: &str) -> (hit: bool)
        requires
            criteria_usable(criteria@),
        ensures
            hit == tag_matches(self@, criteria@),
    {
        let bare = replace_all(NAMESPACE_PATTERN, self.tag_string.as_str(), "");
        let pattern = build_criteria_pattern(criteria);
        is_match(pattern.as_str(), bare.as_str())
    }

    /// Whether the tag matches the criteria, or `None` where the engine
    /// refuses the criteria.
    pub fn try_matches(&self, criteria: &str) -> (hit: Option<bool>)
        ensures
            hit == if criteria_usable(criteria@) {
                Some(tag_matches(self@, criteria@))
            } else {
                None
            },
    {
        if criteria_is_usable(criteria) {
            Some(self.matches(criteria))
        } else {
            None
        }
    }

    /// The tag as text, namespaces included.
    pub fn to_string(&self) -> (text: String)
        ensures
            text@ == self@,
    {
        self.tag_string.clone()
    }
}

impl std::str::FromStr for Tag {
    type Err = TagError;

    fn from_str(s: &str) -> (result: Result<Tag, TagError>)
        ensures
            result matches Ok(tag) && tag@ == s@,
    {
        Ok(Tag::new(s.to_owned()))
    }
}

} // verus!
