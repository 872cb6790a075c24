//! Tag expressions: `name=value` and `name~value`.
//!
//! An expression names a tag and a value. With `=` it selects the entities
//! whose tag has exactly that value; with `~` those whose tag holds the value
//! somewhere, letter case set aside.

use crate::entity::Entity;
use crate::tags::Tags;
use crate::text::{contains_text, is_infix, lowercase, to_lowercase};
use vstd::prelude::*;

verus! {

/// How the value of a tag is held against the value of an expression.
#[derive(Clone, Copy, Debug, PartialEq, Eq, Structural)]
pub enum Operator {
    Equals,
    Includes,
}

/// A tag expression.
#[derive(Clone, Debug, PartialEq, Eq)]
pub struct NodeExpression {
    pub tag_name: String,
    pub tag_value: String,
    pub op: Operator,
}

/// `regex::Error`: why the crate `regex` refused a pattern. Nothing is known
/// of a value of it.
#[verifier::external_type_specification]
#[verifier::external_body]
pub struct ExRegexError(regex::Error);

/// Why a text is no tag expression.
#[derive(Debug, PartialEq)]
pub enum ParseError {
    /// The pattern of the grammar was refused when it was compiled.
    Pattern(regex::Error),
    /// The text, kept here, is not a name, an operator and a value.
    Malformed(String),
}

/// The pattern of the grammar: one or more word characters, `=` or `~`, one
/// or more word characters, and nothing before or after.
pub const EXPRESSION_PATTERN: &'static str = r"^(?P<name>\w+)(?P<op>[=~])(?P<value>\w+)$";

/// What a search finds: `Err` where `Regex::new` of the crate `regex` refuses
/// `pattern`; else what `Regex::captures` gives in `text`, which is `None`
/// where nothing matches, and else one entry for each group of the pattern,
/// the whole match first, each the text that the group matched if it took
/// part in the match.
pub uninterp spec fn regex_captures(pattern: Seq<char>, text: Seq<char>) -> Result<
    Option<Seq<Option<Seq<char>>>>,
    (),
>;

/// The groups of a match as sequences of characters.
pub open spec fn groups_view(groups: Seq<Option<String>>) -> Seq<Option<Seq<char>>> {
    Seq::new(
        groups.len(),
        |i: int|
            match groups[i] {
                Some(text) => Some(text@),
                None => None,
            },
    )
}

/// What a search found, as sequences of characters.
pub open spec fn search_view(found: Result<Option<Vec<Option<String>>>, regex::Error>) -> Result<
    Option<Seq<Option<Seq<char>>>>,
    (),
> {
    match found {
        Ok(Some(groups)) => Ok(Some(groups_view(groups@))),
        Ok(None) => Ok(None),
        Err(_) => Err(()),
    }
}

/// Compiles `pattern` with `regex::Regex::new` and searches `text` with
/// `Regex::captures`; the groups are handed out as texts of their own, in the
/// order of `Captures::iter`. The contract claims one thing, which is not
/// proved: what is found is a function of the pattern and the text. It names
/// that function `regex_captures`, and says nothing of its values.
#[verifier::external_body]
fn search(pattern: &str, text: &str) -> (found: Result<Option<Vec<Option<String>>>, regex::Error>)
    ensures
        search_view(found) == regex_captures(pattern@, text@),
{
    let compiled = regex::Regex::new(pattern)?;
    Ok(
        compiled.captures(text).map(
            |groups| groups.iter().map(|group| group.map(|m| m.as_str().to_owned())).collect(),
        ),
    )
}

/// The character that stands for an operator.
pub open spec fn operator_char(op: Operator) -> char {
    match op {
        Operator::Equals => '=',
        Operator::Includes => '~',
    }
}

/// The operator that a sign stands for.
pub open spec fn operator_of(sign: Seq<char>) -> Option<Operator> {
    if sign == seq!['='] {
        Some(Operator::Equals)
    } else if sign == seq!['~'] {
        Some(Operator::Includes)
    } else {
        None
    }
}

/// The name, the operator and the value that the groups of a match give for
/// `expression`: there are the whole match and three groups, each of the
/// three took part, the second is the sign of an operator, name and value
/// are not empty, and the three in a row are the whole of `expression`.
pub open spec fn split_of(expression: Seq<char>, groups: Seq<Option<Seq<char>>>) -> Option<
    (Seq<char>, Operator, Seq<char>),
> {
    if groups.len() == 4 && groups[1] is Some && groups[2] is Some && groups[3] is Some {
        let name = groups[1]->0;
        let sign = groups[2]->0;
        let value = groups[3]->0;
        match operator_of(sign) {
            Some(op) if name.len() > 0 && value.len() > 0 && expression == name + sign + value => {
                Some((name, op, value))
            },
            _ => None,
        }
    } else {
        None
    }
}

/// `outcome` is what parsing `expression` gives where the search for the
/// grammar's pattern in it found `found`.
pub open spec fn parse_outcome(
    expression: Seq<char>,
    found: Result<Option<Seq<Option<Seq<char>>>>, ()>,
    outcome: Result<NodeExpression, ParseError>,
) -> bool {
    match found {
        Err(_) => outcome matches Err(ParseError::Pattern(_)),
        Ok(None) => outcome matches Err(ParseError::Malformed(text)) && text@ == expression,
        Ok(Some(groups)) => match split_of(expression, groups) {
            Some((name, op, value)) => outcome matches Ok(parsed) && parsed.tag_name@ == name
                && parsed.op == op && parsed.tag_value@ == value,
            None => outcome matches Err(ParseError::Malformed(text)) && text@ == expression,
        },
    }
}

impl ParseError {
    /// The error in words.
    pub fn message(&self) -> (text: String)
        ensures
            text@ == match self {
                ParseError::Pattern(_) => "Could not compile the pattern of expressions"@,
                ParseError::Malformed(expression) => "Could not compile expression from "@
                    + expression@,
            },
    {
        match self {
            ParseError::Pattern(_) => {
                String::from_str("Could not compile the pattern of expressions")
            },
            ParseError::Malformed(expression) => {
                String::from_str("Could not compile expression from ").concat(expression.as_str())
            },
        }
    }
}

impl NodeExpression {
    /// The expression as a text: name, operator, value.
    pub open spec fn spec_text(&self) -> Seq<char> {
        self.tag_name@ + seq![operator_char(self.op)] + self.tag_value@
    }

    /// The expression reads as `text`, and neither its name nor its value is
    /// empty.
    pub open spec fn reads_as(&self, text: Seq<char>) -> bool {
        &&& self.spec_text() == text
        &&& self.tag_name@.len() > 0
        &&& self.tag_value@.len() > 0
    }

    /// Whether the expression selects an entity with the tags `tags`.
    pub open spec fn matches(&self, tags: Map<Seq<char>, Seq<char>>) -> bool {
        tags.contains_key(self.tag_name@) && match self.op {
            Operator::Equals => tags[self.tag_name@] == self.tag_value@,
            Operator::Includes => is_infix(
                lowercase(self.tag_value@),
                lowercase(tags[self.tag_name@]),
            ),
        }
    }

    /// The expression that the groups of a search give for `expression`.
    pub fn from_captures(
        expression: &str,
        found: Result<Option<Vec<Option<String>>>, regex::Error>,
    ) -> (outcome: Result<NodeExpression, ParseError>)
        ensures
            parse_outcome(expression@, search_view(found), outcome),
            found matches Err(refused) ==> outcome == Err::<NodeExpression, ParseError>(
                ParseError::Pattern(refused),
            ),
            outcome matches Ok(parsed) ==> parsed.reads_as(expression@),
    {
        let groups = match found {
            Err(refused) => {
                return Err(ParseError::Pattern(refused));
            },
            Ok(None) => {
                return Err(ParseError::Malformed(expression.to_owned()));
            },
            Ok(Some(groups)) => groups,
        };
        let ghost shown = groups_view(groups@);
        if groups.len() != 4 {
            return Err(ParseError::Malformed(expression.to_owned()));
        }
        match (&groups[1], &groups[2], &groups[3]) {
            (Some(name), Some(sign), Some(value)) => {
                proof {
                    reveal_strlit("=");
                    reveal_strlit("~");
                    assert(shown[1] == Some(name@));
                    assert(shown[2] == Some(sign@));
                    assert(shown[3] == Some(value@));
                    assert("="@ =~= seq!['=']);
                    assert("~"@ =~= seq!['~']);
                }
                let op = if *sign == String::from_str("=") {
                    Operator::Equals
                } else if *sign == String::from_str("~") {
                    Operator::Includes
                } else {
                    return Err(ParseError::Malformed(expression.to_owned()));
                };
                let whole = name.clone().concat(sign.as_str()).concat(value.as_str());
                if name.as_str().is_empty() || value.as_str().is_empty() || whole
                    != expression.to_owned() {
                    return Err(ParseError::Malformed(expression.to_owned()));
                }
                Ok(NodeExpression { tag_name: name.clone(), tag_value: value.clone(), op })
            },
            _ => Err(ParseError::Malformed(expression.to_owned())),
        }
    }

    /// Reads a tag expression.
    pub fn parse(expression: String) -> (outcome: Result<NodeExpression, ParseError>)
        ensures
            parse_outcome(
                expression@,
                regex_captures(EXPRESSION_PATTERN@, expression@),
                outcome,
            ),
            outcome matches Ok(parsed) ==> parsed.reads_as(expression@),
    {
        let found = search(EXPRESSION_PATTERN, expression.as_str());
        NodeExpression::from_captures(expression.as_str(), found)
    }

    /// Whether the expression selects an entity with the tags `tags`.
    pub fn selects(&self, tags: &Tags) -> (selected: bool)
        ensures
            selected == self.matches(tags@),
    {
        match self.op {
            Operator::Equals => tags.contains(self.tag_name.as_str(), self.tag_value.as_str()),
            Operator::Includes => match tags.get(self.tag_name.as_str()) {
                Some(held) => {
                    let hay = to_lowercase(held.as_str());
                    let needle = to_lowercase(self.tag_value.as_str());
                    contains_text(hay.as_str(), needle.as_str())
                },
                None => false,
            },
        }
    }

    /// Whether the expression selects `obj`.
    pub fn matcher(&self, obj: &Entity) -> (selected: bool)
        ensures
            selected == self.matches(obj.tags()@),
    {
        self.selects(obj.tags())
    }
}

} // verus!
