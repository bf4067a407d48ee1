//! Variables drawn from a conversation, and the rules that check them.

use vstd::prelude::*;
use crate::json::{JsonData, JsonValue};
use crate::pattern::{compile_regex, regex_error, regex_is_match, regex_matches, regex_valid};
use crate::text::{
    contains_char, decimal, decimal_text, has_char, has_prefix, join, starts_with, str_eq,
};
use crate::types::{check_rfc3339, rfc3339_error, rfc3339_valid, MessageId, Timestamp};
use vstd::utf8::encode_utf8;

verus! {

/// A rule that a variable's value must meet. Lengths count the bytes of the
/// UTF-8 encoding.
#[derive(Clone, Debug, PartialEq)]
pub enum Validator {
    String { pattern: Option<String>, min_length: Option<usize>, max_length: Option<usize> },
    Integer { min: Option<i64>, max: Option<i64> },
    Boolean,
    Email,
    Url,
    Date,
    DateTime,
    Enum { allowed_values: Vec<String> },
}

/// A named value drawn from a message.
#[derive(Clone, Debug, PartialEq)]
pub struct ContextVariable {
    pub name: String,
    pub value: JsonValue,
    pub validator: Option<Validator>,
    pub source_message_id: MessageId,
    pub extracted_at: Timestamp,
}

impl ContextVariable {
    /// A variable without a validator, stamped with the current time.
    pub fn new(name: &str, value: JsonValue, source_message_id: MessageId) -> (variable: Self)
        ensures
            variable.name@ == name@,
            variable.value == value,
            variable.validator is None,
            variable.source_message_id == source_message_id,
    {
        ContextVariable {
            name: name.to_owned(),
            value,
            validator: None,
            source_message_id,
            extracted_at: Timestamp::now(),
        }
    }

    /// The variable with `validator` in place of any earlier one.
    pub fn with_validator(self, validator: Validator) -> (variable: Self)
        ensures
            variable.name == self.name,
            variable.value == self.value,
            variable.validator == Some(validator),
            variable.source_message_id == self.source_message_id,
            variable.extracted_at == self.extracted_at,
    {
        let ContextVariable { name, value, validator: _, source_message_id, extracted_at } = self;
        ContextVariable { name, value, validator: Some(validator), source_message_id, extracted_at }
    }
}

/// A list of texts as it is shown in a message: each text in double
/// quotes, separated by a comma and a space.
pub open spec fn quoted_list(items: Seq<Seq<char>>) -> Seq<char>
    decreases items.len(),
{
    if items.len() == 0 {
        Seq::empty()
    } else if items.len() == 1 {
        "\""@ + items[0] + "\""@
    } else {
        quoted_list(items.drop_last()) + ", \""@ + items.last() + "\""@
    }
}

/// The length of a text in bytes of its UTF-8 encoding, as `str::len`
/// reports it.
pub open spec fn byte_length(text: Seq<char>) -> usize {
    encode_utf8(text).len() as usize
}

/// What a rule finds wrong with a value; `None` where the value is valid.
/// A text is checked for its length first, the lower bound before the upper
/// one, then for its pattern; an integer for its lower bound, then for its
/// upper bound.
pub open spec fn complaint(validator: Validator, value: JsonData) -> Option<Seq<char>> {
    match validator {
        Validator::String { pattern, min_length, max_length } => match value.text() {
            None => Some("Value is not a string"@),
            Some(text) => {
                let length = byte_length(text);
                if min_length is Some && length < min_length->0 {
                    Some(
                        "String length "@ + decimal_text(length as int) + " is less than minimum "@
                            + decimal_text(min_length->0 as int),
                    )
                } else if max_length is Some && length > max_length->0 {
                    Some(
                        "String length "@ + decimal_text(length as int) + " exceeds maximum "@
                            + decimal_text(max_length->0 as int),
                    )
                } else if pattern is Some && !regex_valid(pattern->0@) {
                    Some("Invalid regex pattern: "@ + regex_error(pattern->0@)->0)
                } else if pattern is Some && !regex_is_match(pattern->0@, text) {
                    Some("String does not match pattern: "@ + pattern->0@)
                } else {
                    None
                }
            },
        },
        Validator::Integer { min, max } => match value.integer() {
            None => Some("Value is not an integer"@),
            Some(number) => if min is Some && number < min->0 {
                Some(
                    "Integer "@ + decimal_text(number as int) + " is less than minimum "@
                        + decimal_text(min->0 as int),
                )
            } else if max is Some && number > max->0 {
                Some(
                    "Integer "@ + decimal_text(number as int) + " exceeds maximum "@ + decimal_text(
                        max->0 as int,
                    ),
                )
            } else {
                None
            },
        },
        Validator::Boolean => if value.boolean() is Some {
            None
        } else {
            Some("Value is not a boolean"@)
        },
        Validator::Email => match value.text() {
            None => Some("Value is not a string"@),
            Some(text) => if has_char(text, '@') && has_char(text, '.') {
                None
            } else {
                Some("Invalid email format"@)
            },
        },
        Validator::Url => match value.text() {
            None => Some("Value is not a string"@),
            Some(text) => if has_prefix(text, "http://"@) || has_prefix(text, "https://"@) {
                None
            } else {
                Some("Invalid URL format (must start with http:// or https://)"@)
            },
        },
        Validator::Date | Validator::DateTime => match value.text() {
            None => Some("Value is not a string"@),
            Some(text) => if rfc3339_valid(text) {
                None
            } else {
                Some("Invalid date/datetime format: "@ + rfc3339_error(text)->0)
            },
        },
        Validator::Enum { allowed_values } => match value.text() {
            None => Some("Value is not a string"@),
            Some(text) => if crate::pattern::texts(allowed_values@).contains(text) {
                None
            } else {
                Some(
                    "Value '"@ + text + "' not in allowed values: ["@ + quoted_list(
                        crate::pattern::texts(allowed_values@),
                    ) + "]"@,
                )
            },
        },
    }
}

/// The texts of `items` as a quoted list.
fn format_quoted_list(items: &Vec<String>) -> (text: String)
    ensures
        text@ == quoted_list(crate::pattern::texts(items@)),
{
    let ghost all = crate::pattern::texts(items@);
    let mut text = String::new();
    let mut i: usize = 0;
    assert(all.take(0) =~= Seq::empty());
    while i < items.len()
        invariant
            i <= items@.len(),
            all == crate::pattern::texts(items@),
            text@ == quoted_list(all.take(i as int)),
        decreases items.len() - i,
    {
        proof {
            assert(all.take(i + 1).drop_last() =~= all.take(i as int));
            assert(all.take(i + 1).last() == items@[i as int]@);
        }
        let ghost before = text@;
        if i > 0 {
            text.append(", ");
        }
        text.append("\"");
        text.append(items[i].as_str());
        text.append("\"");
        proof {
            if i == 0 {
                assert(text@ =~= "\""@ + items@[0]@ + "\""@);
            } else {
                reveal_strlit(", ");
                reveal_strlit("\"");
                reveal_strlit(", \"");
                assert(", "@ + "\""@ =~= ", \""@);
                assert(text@ =~= before + ", \""@ + items@[i as int]@ + "\""@);
            }
        }
        i += 1;
    }
    assert(all.take(i as int) =~= all);
    text
}

/// Whether `text` is among `items`.
fn is_among(items: &Vec<String>, text: &str) -> (found: bool)
    ensures
        found == crate::pattern::texts(items@).contains(text@),
{
    let mut i: usize = 0;
    while i < items.len()
        invariant
            i <= items@.len(),
            forall|k: int| 0 <= k < i ==> items@[k]@ != text@,
        decreases items.len() - i,
    {
        if str_eq(items[i].as_str(), text) {
            assert(crate::pattern::texts(items@)[i as int] == text@);
            return true;
        }
        i += 1;
    }
    assert forall|k: int| 0 <= k < crate::pattern::texts(items@).len() implies crate::pattern::texts(
        items@,
    )[k] != text@ by {
        assert(crate::pattern::texts(items@)[k] == items@[k]@);
    }
    false
}

/// "`subject` `number` `verdict` `bound`".
fn bound_message(subject: &str, number: i128, verdict: &str, bound: i128) -> (text: String)
    ensures
        text@ == subject@ + decimal_text(number as int) + verdict@ + decimal_text(bound as int),
{
    let mut text = join(subject, decimal(number).as_str());
    text.append(verdict);
    text.append(decimal(bound).as_str());
    text
}

impl ContextVariable {
    /// Checks the value against the validator. A variable without a
    /// validator is valid.
    pub fn validate(&self) -> (checked: Result<(), String>)
        ensures
            match self.validator {
                None => checked is Ok,
                Some(validator) => match complaint(validator, self.value@) {
                    None => checked is Ok,
                    Some(reason) => checked matches Err(text) && text@ == reason,
                },
            },
    {
        let validator = match &self.validator {
            None => {
                return Ok(());
            },
            Some(validator) => validator,
        };
        match validator {
            Validator::String { pattern, min_length, max_length } => {
                let text = match self.value.as_str() {
                    Some(text) => text,
                    None => {
                        return Err("Value is not a string".to_owned());
                    },
                };
                let length = text.len();
                if let Some(min) = min_length {
                    if length < *min {
                        return Err(
                            bound_message(
                                "String length ",
                                length as i128,
                                " is less than minimum ",
                                *min as i128,
                            ),
                        );
                    }
                }
                if let Some(max) = max_length {
                    if length > *max {
                        return Err(
                            bound_message(
                                "String length ",
                                length as i128,
                                " exceeds maximum ",
                                *max as i128,
                            ),
                        );
                    }
                }
                if let Some(source) = pattern {
                    match compile_regex(source.as_str()) {
                        Err(reason) => {
                            return Err(join("Invalid regex pattern: ", reason.as_str()));
                        },
                        Ok(regex) => {
                            if !regex_matches(&regex, text) {
                                return Err(
                                    join("String does not match pattern: ", source.as_str()),
                                );
                            }
                        },
                    }
                }
                Ok(())
            },
            Validator::Integer { min, max } => {
                let number = match self.value.as_i64() {
                    Some(number) => number,
                    None => {
                        return Err("Value is not an integer".to_owned());
                    },
                };
                if let Some(low) = min {
                    if number < *low {
                        return Err(
                            bound_message(
                                "Integer ",
                                number as i128,
                                " is less than minimum ",
                                *low as i128,
                            ),
                        );
                    }
                }
                if let Some(high) = max {
                    if number > *high {
                        return Err(
                            bound_message(
                                "Integer ",
                                number as i128,
                                " exceeds maximum ",
                                *high as i128,
                            ),
                        );
                    }
                }
                Ok(())
            },
            Validator::Boolean => {
                match self.value.as_bool() {
                    Some(_) => Ok(()),
                    None => Err("Value is not a boolean".to_owned()),
                }
            },
            Validator::Email => {
                match self.value.as_str() {
                    None => Err("Value is not a string".to_owned()),
                    Some(text) => {
                        if contains_char(text, '@') && contains_char(text, '.') {
                            Ok(())
                        } else {
                            Err("Invalid email format".to_owned())
                        }
                    },
                }
            },
            Validator::Url => {
                match self.value.as_str() {
                    None => Err("Value is not a string".to_owned()),
                    Some(text) => {
                        if starts_with(text, "http://") || starts_with(text, "https://") {
                            Ok(())
                        } else {
                            Err(
                                "Invalid URL format (must start with http:// or https://)".to_owned(),
                            )
                        }
                    },
                }
            },
            Validator::Date | Validator::DateTime => {
                match self.value.as_str() {
                    None => Err("Value is not a string".to_owned()),
                    Some(text) => {
                        match check_rfc3339(text) {
                            None => Ok(()),
                            Some(reason) => Err(
                                join("Invalid date/datetime format: ", reason.as_str()),
                            ),
                        }
                    },
                }
            },
            Validator::Enum { allowed_values } => {
                match self.value.as_str() {
                    None => Err("Value is not a string".to_owned()),
                    Some(text) => {
                        if is_among(allowed_values, text) {
                            Ok(())
                        } else {
                            let mut message = join("Value '", text);
                            message.append("' not in allowed values: [");
                            message.append(format_quoted_list(allowed_values).as_str());
                            message.append("]");
                            Err(message)
                        }
                    },
                }
            },
        }
    }
}

} // verus!
