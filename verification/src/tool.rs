//! Tools: their declared parameters, and the validation of calls.

use vstd::prelude::*;
use crate::error::AgentError;
use crate::json::{json_map, JsonData, JsonKind, JsonValue};
use crate::text::{join, str_eq};
use crate::textmap::{first_at, lemma_has_first, position, TextMap};
use crate::types::ToolId;

verus! {

/// The declaration of one parameter of a tool.
#[derive(Clone, Debug)]
pub struct ParameterSchema {
    /// One of `string`, `number`, `boolean`, `object`, `array`, `null`; any
    /// other text admits every value.
    pub param_type: String,
    pub required: bool,
    pub description: String,
    pub default: Option<JsonValue>,
}

/// What a tool hands back. `error` reports a failure that the tool chose to
/// report within its result.
#[derive(Clone, Debug)]
pub struct ToolResult {
    pub output: JsonValue,
    pub error: Option<String>,
    pub metadata: TextMap<JsonValue>,
}

/// What the registry knows of a tool: its identity, its unique name, and
/// the parameters it declares. The body of the tool belongs to the
/// application.
#[derive(Clone, Debug)]
pub struct Tool {
    pub id: ToolId,
    pub name: String,
    pub description: String,
    pub parameters: TextMap<ParameterSchema>,
}

/// Whether a value of kind `kind` is admitted where `expected` is declared.
pub open spec fn type_matches(kind: JsonKind, expected: Seq<char>) -> bool {
    if expected == "string"@ {
        kind == JsonKind::Text
    } else if expected == "number"@ {
        kind == JsonKind::Number
    } else if expected == "boolean"@ {
        kind == JsonKind::Boolean
    } else if expected == "object"@ {
        kind == JsonKind::Object
    } else if expected == "array"@ {
        kind == JsonKind::Array
    } else if expected == "null"@ {
        kind == JsonKind::Null
    } else {
        true
    }
}

/// Whether `value` is admitted where the type `expected_type` is declared.
pub fn validate_type(value: &JsonValue, expected_type: &str) -> (admitted: bool)
    ensures
        admitted == type_matches(value@.kind(), expected_type@),
{
    let kind = value.kind();
    if str_eq(expected_type, "string") {
        kind == JsonKind::Text
    } else if str_eq(expected_type, "number") {
        kind == JsonKind::Number
    } else if str_eq(expected_type, "boolean") {
        kind == JsonKind::Boolean
    } else if str_eq(expected_type, "object") {
        kind == JsonKind::Object
    } else if str_eq(expected_type, "array") {
        kind == JsonKind::Array
    } else if str_eq(expected_type, "null") {
        kind == JsonKind::Null
    } else {
        true
    }
}

/// Whether a declaration fills a gap in the call: it is optional and has a
/// default. A required parameter has to stand in the call itself.
pub open spec fn fills(declared: ParameterSchema) -> bool {
    !declared.required && declared.default is Some
}

/// The parameters after the defaults of the first `count` declarations have
/// been applied: an optional declaration with a default adds its value under
/// its name unless the name is present already.
pub open spec fn with_defaults(
    schema: Seq<(String, ParameterSchema)>,
    parameters: Map<Seq<char>, JsonData>,
    count: nat,
) -> Map<Seq<char>, JsonData>
    decreases count,
{
    if count == 0 {
        parameters
    } else {
        let before = with_defaults(schema, parameters, (count - 1) as nat);
        let (name, declared) = schema[count - 1];
        if !before.contains_key(name@) && fills(declared) {
            before.insert(name@, declared.default->0@)
        } else {
            before
        }
    }
}

/// Whether declaration `position` is required and absent from the call.
pub open spec fn missing_at(
    schema: Seq<(String, ParameterSchema)>,
    parameters: Map<Seq<char>, JsonData>,
    position: int,
) -> bool {
    &&& 0 <= position < schema.len()
    &&& schema[position].1.required
    &&& !parameters.contains_key(schema[position].0@)
}

/// Whether the call holds `name`, the name is declared, and the value is of
/// the wrong kind.
pub open spec fn mistyped(
    schema: TextMap<ParameterSchema>,
    parameters: Map<Seq<char>, JsonData>,
    name: Seq<char>,
) -> bool {
    &&& parameters.contains_key(name)
    &&& schema.contains(name)
    &&& !type_matches(parameters[name].kind(), schema.value(name).param_type@)
}

/// Whether entry `position` of the call is the first of its name and
/// mistyped.
pub open spec fn mistyped_at(
    schema: TextMap<ParameterSchema>,
    parameters: TextMap<JsonValue>,
    position: int,
) -> bool {
    &&& first_at(parameters.entries@, parameters.entries@[position].0@, position)
    &&& mistyped(schema, json_map(parameters), parameters.entries@[position].0@)
}

/// Whether a call meets the declarations: no required parameter is absent,
/// and every parameter that is declared has the declared kind.
pub open spec fn call_valid(
    schema: TextMap<ParameterSchema>,
    parameters: Map<Seq<char>, JsonData>,
) -> bool {
    &&& forall|i: int| !missing_at(schema.entries@, parameters, i)
    &&& forall|name: Seq<char>| !mistyped(schema, parameters, name)
}

/// The reason given for an absent required parameter.
pub open spec fn missing_reason(name: Seq<char>) -> Seq<char> {
    "Missing required parameter: "@ + name
}

/// The reason given for a parameter of the wrong kind.
pub open spec fn mistyped_reason(name: Seq<char>, expected: Seq<char>) -> Seq<char> {
    "Parameter '"@ + name + "' has wrong type, expected "@ + expected
}

/// Whether `reason` is the reason with which a call is rejected: it names
/// the first required parameter that is absent, in the order of the
/// declarations, or else the first parameter of the wrong kind, in the
/// order of the call.
pub open spec fn rejection_reason(
    schema: TextMap<ParameterSchema>,
    parameters: TextMap<JsonValue>,
    reason: Seq<char>,
) -> bool {
    ||| exists|i: int|
        missing_at(schema.entries@, json_map(parameters), i) && (forall|k: int|
            0 <= k < i ==> !missing_at(schema.entries@, json_map(parameters), k)) && reason
            == missing_reason(schema.entries@[i].0@)
    ||| (forall|i: int| !missing_at(schema.entries@, json_map(parameters), i)) && exists|j: int|
        mistyped_at(schema, parameters, j) && (forall|k: int|
            0 <= k < j ==> !mistyped_at(schema, parameters, k)) && reason == mistyped_reason(
            parameters.entries@[j].0@,
            schema.value(parameters.entries@[j].0@).param_type@,
        )
}

impl Tool {
    /// Adds the declared default of every optional parameter that the call
    /// leaves out.
    pub fn apply_defaults(&self, parameters: &mut TextMap<JsonValue>)
        ensures
            json_map(*final(parameters)) == with_defaults(
                self.parameters.entries@,
                json_map(*old(parameters)),
                self.parameters.entries@.len(),
            ),
            old(parameters).distinct() ==> final(parameters).distinct(),
    {
        let mut i: usize = 0;
        while i < self.parameters.entries.len()
            invariant
                i <= self.parameters.entries@.len(),
                json_map(*parameters) == with_defaults(
                    self.parameters.entries@,
                    json_map(*old(parameters)),
                    i as nat,
                ),
                old(parameters).distinct() ==> parameters.distinct(),
            decreases self.parameters.entries.len() - i,
        {
            let ghost before = json_map(*parameters);
            let name = &self.parameters.entries[i].0;
            let declared = &self.parameters.entries[i].1;
            if !declared.required && !parameters.contains_key(name.as_str()) {
                if let Some(value) = &declared.default {
                    let copy = value.clone();
                    parameters.insert(name.clone(), copy);
                    assert(json_map(*parameters) =~= before.insert(name@, value@));
                }
            }
            i += 1;
        }
    }

    /// Checks a call against the declarations.
    pub fn validate_parameters(&self, parameters: &TextMap<JsonValue>) -> (checked: Result<
        (),
        AgentError,
    >)
        ensures
            checked is Ok <==> call_valid(self.parameters, json_map(*parameters)),
            checked matches Err(error) ==> (error matches AgentError::InvalidToolParameters {
                tool_name,
                reason,
            } && tool_name@ == self.name@ && rejection_reason(
                self.parameters,
                *parameters,
                reason@,
            )),
    {
        let ghost given = json_map(*parameters);
        let mut i: usize = 0;
        while i < self.parameters.entries.len()
            invariant
                i <= self.parameters.entries@.len(),
                given == json_map(*parameters),
                forall|k: int| 0 <= k < i ==> !missing_at(self.parameters.entries@, given, k),
            decreases self.parameters.entries.len() - i,
        {
            let name = &self.parameters.entries[i].0;
            if self.parameters.entries[i].1.required && !parameters.contains_key(name.as_str()) {
                assert(missing_at(self.parameters.entries@, given, i as int));
                return Err(
                    AgentError::InvalidToolParameters {
                        tool_name: self.name.clone(),
                        reason: join("Missing required parameter: ", name.as_str()),
                    },
                );
            }
            i += 1;
        }
        let mut j: usize = 0;
        while j < parameters.entries.len()
            invariant
                j <= parameters.entries@.len(),
                given == json_map(*parameters),
                forall|k: int| !missing_at(self.parameters.entries@, given, k),
                forall|k: int| 0 <= k < j ==> !mistyped_at(self.parameters, *parameters, k),
            decreases parameters.entries.len() - j,
        {
            let name = &parameters.entries[j].0;
            let first = match parameters.index_of(name.as_str()) {
                Some(at) => at == j,
                None => false,
            };
            if first {
                if let Some(declared) = self.parameters.get(name.as_str()) {
                    if !validate_type(&parameters.entries[j].1, declared.param_type.as_str()) {
                        assert(mistyped_at(self.parameters, *parameters, j as int));
                        let mut reason = join("Parameter '", name.as_str());
                        reason.append("' has wrong type, expected ");
                        reason.append(declared.param_type.as_str());
                        return Err(
                            AgentError::InvalidToolParameters {
                                tool_name: self.name.clone(),
                                reason,
                            },
                        );
                    }
                }
            }
            j += 1;
        }
        proof {
            assert forall|name: Seq<char>| !mistyped(self.parameters, given, name) by {
                if mistyped(self.parameters, given, name) {
                    lemma_has_first(parameters.entries@, name);
                    let at = position(parameters.entries@, name);
                    assert(mistyped_at(self.parameters, *parameters, at));
                }
            }
        }
        Ok(())
    }
}

} // verus!
